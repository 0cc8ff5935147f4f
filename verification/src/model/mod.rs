pub mod device;
pub mod version;
pub mod share;
pub mod file_entry;
pub mod transfer;
pub mod pairing;
