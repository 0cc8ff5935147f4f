//! Verified core of a LAN file synchronisation service: device trust,
//! shares and permissions, chunked transfers, version vectors and sync planning.
pub mod error;
pub mod text;
pub mod model;
pub mod clock;
pub mod ids;
pub mod encoding;
pub mod security;
pub mod nonce_validator;
pub mod service;
pub mod events;
pub mod ports;
pub mod wire;
pub mod dto;
pub mod handlers;
pub mod keystore;
pub mod discovery;
pub mod dedup;
pub mod application;
pub mod server;
pub mod client;
pub mod commands;

use vstd::prelude::*;

verus! {

/// Port on which peers serve the LAN sync API.
pub const DEFAULT_PORT: u16 = 53317;

} // verus!
