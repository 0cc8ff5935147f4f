pub mod sync_flow;
pub mod share_service;
pub mod transfer_service;
pub mod identity;
pub mod indexer;
pub mod recovery;
