use vstd::prelude::*;
use crate::model::device::DeviceId;

verus! {

/// One line of the audit log.
#[derive(Debug, Clone)]
pub struct AuditEntry {
    pub id: String,
    pub timestamp: u64,
    pub event_type: String,
    pub aggregate_id: String,
    pub details: String,
}

/// How this device presents itself on the network.
#[derive(Debug, Clone)]
pub struct DeviceInfo {
    pub device_id: DeviceId,
    pub alias: String,
    pub ip: String,
    pub port: u16,
}

/// A device seen by discovery, with the address it answered from.
#[derive(Debug, Clone)]
pub struct DiscoveredDevice {
    pub device_id: DeviceId,
    pub alias: String,
    pub address: String,
}

/// A block already present in a local file, usable in place of a download.
#[derive(Debug, PartialEq, Eq)]
pub struct LocalBlockCopy {
    pub hash: String,
    pub source_path: String,
    pub source_offset: u64,
}

impl Clone for LocalBlockCopy {
    fn clone(&self) -> (res: Self)
        ensures
            res == *self,
    {
        LocalBlockCopy { hash: self.hash.clone(), source_path: self.source_path.clone(), source_offset: self.source_offset }
    }
}

/// What happened to a watched path.
#[derive(Debug, Clone, PartialEq, Eq)]
pub enum FileEventType {
    Created,
    Modified,
    Deleted,
    Renamed { from: String },
}

/// A change seen by the file watcher.
#[derive(Debug, Clone, PartialEq, Eq)]
pub struct FileEvent {
    pub path: String,
    pub event_type: FileEventType,
    pub timestamp: u64,
}

/// A pairing request sent to a peer.
#[derive(Debug, Clone)]
pub struct PairingRequest {
    pub device_id: String,
    pub alias: String,
    pub platform: String,
    pub fingerprint: String,
}

/// A peer's answer to a pairing request.
#[derive(Debug, Clone)]
pub struct PairingResponse {
    pub status: String,
    pub device_id: String,
    pub alias: String,
    pub platform: String,
    pub fingerprint: String,
}

/// An invitation for a peer to join a share.
#[derive(Debug, Clone)]
pub struct ShareInvite {
    pub share_id: String,
    pub share_name: String,
    pub permission: String,
    pub invited_by: String,
}

/// The manifest of a transfer announced to a peer.
#[derive(Debug, Clone)]
pub struct TransferRequest {
    pub job_id: String,
    pub session_id: String,
    pub sender_device_id: String,
    pub items: Vec<TransferRequestItem>,
}

/// One file of a transfer manifest.
#[derive(Debug, Clone)]
pub struct TransferRequestItem {
    pub file_id: String,
    pub file_path: String,
    pub file_size: u64,
    pub sha256: String,
    pub chunk_count: u32,
    pub chunk_size: u32,
}

/// A peer's answer to a transfer request.
#[derive(Debug, Clone)]
pub struct TransferResponse {
    pub status: String,
    pub skip_chunks: Vec<SkipChunkInfo>,
}

/// How many leading chunks of a file the peer already holds.
#[derive(Debug, Clone)]
pub struct SkipChunkInfo {
    pub file_id: String,
    pub chunks_already_done: u32,
}

} // verus!
