use vstd::prelude::*;
use crate::encoding::{dec_text, to_decimal};
use crate::model::device::{Device, DeviceState};
use crate::model::transfer::FileRequest;
use crate::ports::DiscoveredDevice;

verus! {

/// A discovered device as shown to the user.
#[derive(Debug, Clone)]
pub struct DiscoveredDeviceDto {
    pub id: String,
    pub alias: String,
    pub address: String,
}

impl DiscoveredDeviceDto {
    pub fn from_device(d: DiscoveredDevice) -> (res: Self)
        ensures
            res.id@ == d.device_id@,
            res.alias == d.alias,
            res.address == d.address,
    {
        DiscoveredDeviceDto { id: d.device_id.0, alias: d.alias, address: d.address }
    }
}

/// A file the user picked for sending.
#[derive(Debug, Clone)]
pub struct FileRequestDto {
    pub file_path: String,
    pub file_size: u64,
    pub sha256: String,
}

impl FileRequestDto {
    pub fn into_request(self) -> (res: FileRequest)
        ensures
            res.file_path == self.file_path,
            res.file_size == self.file_size,
            res.sha256 == self.sha256,
    {
        FileRequest { file_path: self.file_path, file_size: self.file_size, sha256: self.sha256 }
    }
}

/// Seconds since a paired device was last seen within which it counts as online.
pub const ONLINE_WINDOW_SECS: u64 = 90;

/// A paired device as shown to the user.
#[derive(Debug, Clone)]
pub struct PairedDeviceDto {
    pub id: String,
    pub alias: String,
    pub address: String,
    pub paired_at: u64,
    pub last_seen_at: Option<u64>,
    pub online: bool,
}

impl PairedDeviceDto {
    /// The view of `device` at `now`; none unless it is paired. It is online
    /// when it was seen less than `ONLINE_WINDOW_SECS` seconds ago.
    pub fn from_device(device: Device, now: u64) -> (res: Option<Self>)
        ensures
            match device.state {
                DeviceState::Paired(data) => res matches Some(d) && {
                    &&& d.id@ == device.id@
                    &&& d.alias == data.alias
                    &&& d.address == data.address
                    &&& d.paired_at == data.paired_at
                    &&& d.last_seen_at == data.last_seen_at
                    &&& d.online == match data.last_seen_at {
                        Some(t) => (if now >= t { now - t } else { 0 }) < ONLINE_WINDOW_SECS,
                        None => false,
                    }
                },
                _ => res is None,
            },
    {
        match device.state {
            DeviceState::Paired(data) => {
                let online = match data.last_seen_at {
                    Some(t) => now.saturating_sub(t) < ONLINE_WINDOW_SECS,
                    None => false,
                };
                Some(PairedDeviceDto {
                    id: device.id.0,
                    alias: data.alias,
                    address: data.address,
                    paired_at: data.paired_at,
                    last_seen_at: data.last_seen_at,
                    online,
                })
            },
            _ => None,
        }
    }
}

/// The size of a share's index as shown to the user.
#[derive(Debug, Clone)]
pub struct SyncStatusDto {
    pub share_id: String,
    pub total_files: u32,
    pub conflicts: u32,
}

impl SyncStatusDto {
    /// Counts of entries and conflicts, cut to 32 bits.
    pub fn new(share_id: String, entries: usize, conflicts: usize) -> (res: Self)
        ensures
            res.share_id == share_id,
            res.total_files == entries as u32,
            res.conflicts == conflicts as u32,
    {
        #[verifier::truncate]
        let total_files = entries as u32;
        #[verifier::truncate]
        let conflicts = conflicts as u32;
        SyncStatusDto { share_id, total_files, conflicts }
    }
}

/// A conflict as shown to the user.
#[derive(Debug, Clone)]
pub struct SyncConflictDto {
    pub conflict_id: String,
    pub share_id: String,
    pub file_path: String,
    pub resolution: String,
}

/// `Synced: <pull> pull, <push> push, <conflicts> conflicts`.
pub open spec fn sync_summary_text(pull: nat, push: nat, conflicts: nat) -> Seq<char> {
    "Synced: "@ + dec_text(pull) + " pull, "@ + dec_text(push) + " push, "@ + dec_text(conflicts) + " conflicts"@
}

/// The message reporting a finished sync round.
pub fn sync_summary(pull: u64, push: u64, conflicts: u64) -> (res: String)
    ensures
        res@ == sync_summary_text(pull as nat, push as nat, conflicts as nat),
{
    let mut s = "Synced: ".to_string();
    let a = to_decimal(pull);
    s.append(a.as_str());
    s.append(" pull, ");
    let b = to_decimal(push);
    s.append(b.as_str());
    s.append(" push, ");
    let c = to_decimal(conflicts);
    s.append(c.as_str());
    s.append(" conflicts");
    s
}

} // verus!
