use vstd::prelude::*;
use crate::model::device::DeviceId;
use crate::model::share::{ShareId, SharePermission};
use crate::model::transfer::{FileId, JobId, TransferError};
use crate::model::version::VersionVector;

verus! {

/// Something that happened to an aggregate: its kind, by name, and the id
/// of the aggregate it happened to.
pub trait DomainEvent {
    spec fn kind(&self) -> Seq<char>;

    spec fn aggregate(&self) -> Seq<char>;

    fn event_type(&self) -> (res: &str)
        ensures
            res@ == self.kind(),
    ;

    fn aggregate_id(&self) -> (res: &str)
        ensures
            res@ == self.aggregate(),
    ;
}

/// Seen on the network.
#[derive(Debug, Clone)]
pub struct DeviceDiscovered {
    pub device_id: DeviceId,
    pub alias: String,
}

impl DomainEvent for DeviceDiscovered {
    open spec fn kind(&self) -> Seq<char> {
        "DeviceDiscovered"@
    }

    open spec fn aggregate(&self) -> Seq<char> {
        self.device_id@
    }

    fn event_type(&self) -> (res: &str) {
        "DeviceDiscovered"
    }

    fn aggregate_id(&self) -> (res: &str) {
        self.device_id.0.as_str()
    }
}

/// A peer became trusted.
#[derive(Debug, Clone)]
pub struct PairingCompleted {
    pub local_device: DeviceId,
    pub peer_device: DeviceId,
    pub paired_at: u64,
}

impl DomainEvent for PairingCompleted {
    open spec fn kind(&self) -> Seq<char> {
        "PairingCompleted"@
    }

    open spec fn aggregate(&self) -> Seq<char> {
        self.peer_device@
    }

    fn event_type(&self) -> (res: &str) {
        "PairingCompleted"
    }

    fn aggregate_id(&self) -> (res: &str) {
        self.peer_device.0.as_str()
    }
}

/// A peer lost its trust.
#[derive(Debug, Clone)]
pub struct TrustRevoked {
    pub device_id: DeviceId,
    pub revoked_at: u64,
}

impl DomainEvent for TrustRevoked {
    open spec fn kind(&self) -> Seq<char> {
        "TrustRevoked"@
    }

    open spec fn aggregate(&self) -> Seq<char> {
        self.device_id@
    }

    fn event_type(&self) -> (res: &str) {
        "TrustRevoked"
    }

    fn aggregate_id(&self) -> (res: &str) {
        self.device_id.0.as_str()
    }
}

/// A share was created.
#[derive(Debug, Clone)]
pub struct ShareCreated {
    pub share_id: ShareId,
    pub created_by: DeviceId,
}

impl DomainEvent for ShareCreated {
    open spec fn kind(&self) -> Seq<char> {
        "ShareCreated"@
    }

    open spec fn aggregate(&self) -> Seq<char> {
        self.share_id@
    }

    fn event_type(&self) -> (res: &str) {
        "ShareCreated"
    }

    fn aggregate_id(&self) -> (res: &str) {
        self.share_id.0.as_str()
    }
}

/// A device was admitted to a share.
#[derive(Debug, Clone)]
pub struct MemberAuthorized {
    pub share_id: ShareId,
    pub device_id: DeviceId,
    pub permission: SharePermission,
}

impl DomainEvent for MemberAuthorized {
    open spec fn kind(&self) -> Seq<char> {
        "MemberAuthorized"@
    }

    open spec fn aggregate(&self) -> Seq<char> {
        self.share_id@
    }

    fn event_type(&self) -> (res: &str) {
        "MemberAuthorized"
    }

    fn aggregate_id(&self) -> (res: &str) {
        self.share_id.0.as_str()
    }
}

/// A device was removed from a share.
#[derive(Debug, Clone)]
pub struct MemberRevoked {
    pub share_id: ShareId,
    pub device_id: DeviceId,
}

impl DomainEvent for MemberRevoked {
    open spec fn kind(&self) -> Seq<char> {
        "MemberRevoked"@
    }

    open spec fn aggregate(&self) -> Seq<char> {
        self.share_id@
    }

    fn event_type(&self) -> (res: &str) {
        "MemberRevoked"
    }

    fn aggregate_id(&self) -> (res: &str) {
        self.share_id.0.as_str()
    }
}

/// A member's permission changed.
#[derive(Debug, Clone)]
pub struct PermissionChanged {
    pub share_id: ShareId,
    pub device_id: DeviceId,
    pub old: SharePermission,
    pub new: SharePermission,
}

impl DomainEvent for PermissionChanged {
    open spec fn kind(&self) -> Seq<char> {
        "PermissionChanged"@
    }

    open spec fn aggregate(&self) -> Seq<char> {
        self.share_id@
    }

    fn event_type(&self) -> (res: &str) {
        "PermissionChanged"
    }

    fn aggregate_id(&self) -> (res: &str) {
        self.share_id.0.as_str()
    }
}

/// A sync with a peer began.
#[derive(Debug, Clone)]
pub struct SyncStarted {
    pub share_id: ShareId,
    pub peer_device: DeviceId,
}

impl DomainEvent for SyncStarted {
    open spec fn kind(&self) -> Seq<char> {
        "SyncStarted"@
    }

    open spec fn aggregate(&self) -> Seq<char> {
        self.share_id@
    }

    fn event_type(&self) -> (res: &str) {
        "SyncStarted"
    }

    fn aggregate_id(&self) -> (res: &str) {
        self.share_id.0.as_str()
    }
}

/// A sync moved files.
#[derive(Debug, Clone)]
pub struct SyncCompleted {
    pub share_id: ShareId,
    pub files_synced: u32,
}

impl DomainEvent for SyncCompleted {
    open spec fn kind(&self) -> Seq<char> {
        "SyncCompleted"@
    }

    open spec fn aggregate(&self) -> Seq<char> {
        self.share_id@
    }

    fn event_type(&self) -> (res: &str) {
        "SyncCompleted"
    }

    fn aggregate_id(&self) -> (res: &str) {
        self.share_id.0.as_str()
    }
}

/// Both sides changed a file independently.
#[derive(Debug, Clone)]
pub struct ConflictDetected {
    pub share_id: ShareId,
    pub path: String,
    pub local_version: VersionVector,
    pub remote_version: VersionVector,
}

impl DomainEvent for ConflictDetected {
    open spec fn kind(&self) -> Seq<char> {
        "ConflictDetected"@
    }

    open spec fn aggregate(&self) -> Seq<char> {
        self.share_id@
    }

    fn event_type(&self) -> (res: &str) {
        "ConflictDetected"
    }

    fn aggregate_id(&self) -> (res: &str) {
        self.share_id.0.as_str()
    }
}

/// A file was deleted.
#[derive(Debug, Clone)]
pub struct FileDeleted {
    pub share_id: ShareId,
    pub path: String,
    pub version: VersionVector,
}

impl DomainEvent for FileDeleted {
    open spec fn kind(&self) -> Seq<char> {
        "FileDeleted"@
    }

    open spec fn aggregate(&self) -> Seq<char> {
        self.share_id@
    }

    fn event_type(&self) -> (res: &str) {
        "FileDeleted"
    }

    fn aggregate_id(&self) -> (res: &str) {
        self.share_id.0.as_str()
    }
}

/// The local index of a share changed; outbound sync may follow.
#[derive(Debug, Clone)]
pub struct LocalIndexChanged {
    pub share_id: ShareId,
}

impl DomainEvent for LocalIndexChanged {
    open spec fn kind(&self) -> Seq<char> {
        "LocalIndexChanged"@
    }

    open spec fn aggregate(&self) -> Seq<char> {
        self.share_id@
    }

    fn event_type(&self) -> (res: &str) {
        "LocalIndexChanged"
    }

    fn aggregate_id(&self) -> (res: &str) {
        self.share_id.0.as_str()
    }
}

/// A transfer was offered to a peer.
#[derive(Debug, Clone)]
pub struct TransferRequested {
    pub job_id: JobId,
    pub peer: DeviceId,
}

impl DomainEvent for TransferRequested {
    open spec fn kind(&self) -> Seq<char> {
        "TransferRequested"@
    }

    open spec fn aggregate(&self) -> Seq<char> {
        self.job_id@
    }

    fn event_type(&self) -> (res: &str) {
        "TransferRequested"
    }

    fn aggregate_id(&self) -> (res: &str) {
        self.job_id.0.as_str()
    }
}

/// More chunks of a file arrived.
#[derive(Debug, Clone)]
pub struct TransferProgressUpdated {
    pub job_id: JobId,
    pub file_id: FileId,
    pub chunks_done: u32,
    pub total_chunks: u32,
    pub bytes_done: u64,
    pub total_bytes: u64,
}

impl DomainEvent for TransferProgressUpdated {
    open spec fn kind(&self) -> Seq<char> {
        "TransferProgressUpdated"@
    }

    open spec fn aggregate(&self) -> Seq<char> {
        self.job_id@
    }

    fn event_type(&self) -> (res: &str) {
        "TransferProgressUpdated"
    }

    fn aggregate_id(&self) -> (res: &str) {
        self.job_id.0.as_str()
    }
}

/// A transfer finished.
#[derive(Debug, Clone)]
pub struct TransferCompleted {
    pub job_id: JobId,
    pub total_bytes: u64,
}

impl DomainEvent for TransferCompleted {
    open spec fn kind(&self) -> Seq<char> {
        "TransferCompleted"@
    }

    open spec fn aggregate(&self) -> Seq<char> {
        self.job_id@
    }

    fn event_type(&self) -> (res: &str) {
        "TransferCompleted"
    }

    fn aggregate_id(&self) -> (res: &str) {
        self.job_id.0.as_str()
    }
}

/// A transfer failed.
#[derive(Debug, Clone)]
pub struct TransferFailed {
    pub job_id: JobId,
    pub error: TransferError,
}

impl DomainEvent for TransferFailed {
    open spec fn kind(&self) -> Seq<char> {
        "TransferFailed"@
    }

    open spec fn aggregate(&self) -> Seq<char> {
        self.job_id@
    }

    fn event_type(&self) -> (res: &str) {
        "TransferFailed"
    }

    fn aggregate_id(&self) -> (res: &str) {
        self.job_id.0.as_str()
    }
}

/// A chunk did not match its hash.
#[derive(Debug, Clone)]
pub struct ChunkVerificationFailed {
    pub job_id: JobId,
    pub file_id: FileId,
    pub chunk_index: u32,
}

impl DomainEvent for ChunkVerificationFailed {
    open spec fn kind(&self) -> Seq<char> {
        "ChunkVerificationFailed"@
    }

    open spec fn aggregate(&self) -> Seq<char> {
        self.job_id@
    }

    fn event_type(&self) -> (res: &str) {
        "ChunkVerificationFailed"
    }

    fn aggregate_id(&self) -> (res: &str) {
        self.job_id.0.as_str()
    }
}

} // verus!
