use vstd::prelude::*;
use crate::model::file_entry::FileEntry;
use crate::ports::{
    PairingRequest, PairingResponse, ShareInvite, SkipChunkInfo, TransferRequest, TransferRequestItem,
    TransferResponse,
};
use crate::security::{fingerprint_cut_ok, fingerprint_short, spec_fingerprint_short};

verus! {

/// A pairing request as sent over the wire, with its replay guard.
#[derive(Debug, Clone)]
pub struct PairRequestDto {
    pub device_id: String,
    pub alias: String,
    pub platform: String,
    pub fingerprint_short: String,
    pub timestamp: u64,
    pub nonce: String,
}

/// A pairing answer as sent over the wire.
#[derive(Debug, Clone)]
pub struct PairResponseDto {
    pub status: String,
    pub device_id: String,
    pub alias: String,
    pub platform: String,
    pub fingerprint_short: String,
}

/// A share invitation as sent over the wire.
#[derive(Debug, Clone)]
pub struct ShareInviteDto {
    pub share_id: String,
    pub share_name: String,
    pub permission: String,
    pub invited_by: String,
    pub timestamp: u64,
    pub nonce: String,
}

/// The file index of a share as served to a peer.
#[derive(Debug)]
pub struct SyncIndexResponseDto {
    pub share_id: String,
    pub index_version: u64,
    pub entries: Vec<FileEntry>,
}

/// A transfer manifest as sent over the wire.
#[derive(Debug, Clone)]
pub struct TransferRequestDto {
    pub job_id: String,
    pub session_id: String,
    pub sender_device_id: String,
    pub items: Vec<TransferRequestItemDto>,
    pub timestamp: u64,
    pub nonce: String,
}

/// One file of a transfer manifest on the wire.
#[derive(Debug, Clone)]
pub struct TransferRequestItemDto {
    pub file_id: String,
    pub file_path: String,
    pub file_size: u64,
    pub sha256: String,
    pub chunk_count: u32,
    pub chunk_size: u32,
}

/// A transfer answer as sent over the wire.
#[derive(Debug, Clone)]
pub struct TransferResponseDto {
    pub status: String,
    pub skip_chunks: Vec<SkipChunkDto>,
}

/// Chunks of a file the answering peer already holds.
#[derive(Debug, Clone)]
pub struct SkipChunkDto {
    pub file_id: String,
    pub chunks_already_done: u32,
}

/// Withdrawal of a share invitation, as sent over the wire.
#[derive(Debug, Clone)]
pub struct ShareCancelDto {
    pub share_id: String,
    pub device_id: String,
    pub timestamp: u64,
    pub nonce: String,
}

impl PairRequestDto {
    /// The wire form of `req`, stamped with `timestamp` and `nonce`.
    pub fn from_request(req: PairingRequest, timestamp: u64, nonce: String) -> (res: Self)
        ensures
            res.device_id == req.device_id,
            res.alias == req.alias,
            res.platform == req.platform,
            res.fingerprint_short == req.fingerprint,
            res.timestamp == timestamp,
            res.nonce == nonce,
    {
        PairRequestDto {
            device_id: req.device_id,
            alias: req.alias,
            platform: req.platform,
            fingerprint_short: req.fingerprint,
            timestamp,
            nonce,
        }
    }
}

impl PairResponseDto {
    /// An accepting answer that presents this device.
    pub fn accepted(local_device_id: &str, local_alias: String, platform: String) -> (res: Self)
        requires
            fingerprint_cut_ok(local_device_id@),
        ensures
            res.status@ == "accepted"@,
            res.device_id@ == local_device_id@,
            res.alias == local_alias,
            res.platform == platform,
            res.fingerprint_short@ == spec_fingerprint_short(local_device_id@),
    {
        PairResponseDto {
            status: "accepted".to_string(),
            device_id: local_device_id.to_string(),
            alias: local_alias,
            platform,
            fingerprint_short: fingerprint_short(local_device_id),
        }
    }

    /// The answer as the domain sees it.
    pub fn into_response(self) -> (res: PairingResponse)
        ensures
            res.status == self.status,
            res.device_id == self.device_id,
            res.alias == self.alias,
            res.platform == self.platform,
            res.fingerprint == self.fingerprint_short,
    {
        PairingResponse {
            status: self.status,
            device_id: self.device_id,
            alias: self.alias,
            platform: self.platform,
            fingerprint: self.fingerprint_short,
        }
    }
}

impl ShareInviteDto {
    /// The wire form of `invite`, stamped with `timestamp` and `nonce`.
    pub fn from_invite(invite: ShareInvite, timestamp: u64, nonce: String) -> (res: Self)
        ensures
            res.share_id == invite.share_id,
            res.share_name == invite.share_name,
            res.permission == invite.permission,
            res.invited_by == invite.invited_by,
            res.timestamp == timestamp,
            res.nonce == nonce,
    {
        ShareInviteDto {
            share_id: invite.share_id,
            share_name: invite.share_name,
            permission: invite.permission,
            invited_by: invite.invited_by,
            timestamp,
            nonce,
        }
    }
}

/// The latest modification time among `entries`, 0 for none.
pub open spec fn latest_modified(entries: Seq<FileEntry>) -> u64
    decreases entries.len(),
{
    if entries.len() == 0 {
        0
    } else {
        let rest = latest_modified(entries.drop_last());
        if entries.last().modified_at > rest {
            entries.last().modified_at
        } else {
            rest
        }
    }
}

impl SyncIndexResponseDto {
    /// The index of `share_id` as served: its version is the latest
    /// modification time of its entries.
    pub fn for_entries(share_id: String, entries: Vec<FileEntry>) -> (res: Self)
        ensures
            res.share_id == share_id,
            res.index_version == latest_modified(entries@),
            res.entries@ == entries@,
    {
        let mut latest: u64 = 0;
        let mut i: usize = 0;
        while i < entries.len()
            invariant
                i <= entries@.len(),
                latest == latest_modified(entries@.subrange(0, i as int)),
            decreases entries@.len() - i,
        {
            proof {
                let s = entries@.subrange(0, i + 1);
                assert(s.drop_last() =~= entries@.subrange(0, i as int));
            }
            if entries[i].modified_at > latest {
                latest = entries[i].modified_at;
            }
            i = i + 1;
        }
        assert(entries@.subrange(0, entries@.len() as int) =~= entries@);
        SyncIndexResponseDto { share_id, index_version: latest, entries }
    }
}

/// The wire form of one manifest item.
pub open spec fn item_dto_of(item: TransferRequestItem, dto: TransferRequestItemDto) -> bool {
    &&& dto.file_id == item.file_id
    &&& dto.file_path == item.file_path
    &&& dto.file_size == item.file_size
    &&& dto.sha256 == item.sha256
    &&& dto.chunk_count == item.chunk_count
    &&& dto.chunk_size == item.chunk_size
}

impl TransferRequestDto {
    /// The wire form of `req`, stamped with `timestamp` and `nonce`.
    pub fn from_request(req: TransferRequest, timestamp: u64, nonce: String) -> (res: Self)
        ensures
            res.job_id == req.job_id,
            res.session_id == req.session_id,
            res.sender_device_id == req.sender_device_id,
            res.items@.len() == req.items@.len(),
            forall|k: int| 0 <= k < req.items@.len() ==> item_dto_of(req.items@[k], #[trigger] res.items@[k]),
            res.timestamp == timestamp,
            res.nonce == nonce,
    {
        let mut items: Vec<TransferRequestItemDto> = Vec::new();
        let mut i: usize = 0;
        while i < req.items.len()
            invariant
                i <= req.items@.len(),
                items@.len() == i,
                forall|k: int| 0 <= k < i ==> item_dto_of(req.items@[k], #[trigger] items@[k]),
            decreases req.items@.len() - i,
        {
            let item = &req.items[i];
            items.push(
                TransferRequestItemDto {
                    file_id: item.file_id.clone(),
                    file_path: item.file_path.clone(),
                    file_size: item.file_size,
                    sha256: item.sha256.clone(),
                    chunk_count: item.chunk_count,
                    chunk_size: item.chunk_size,
                },
            );
            i = i + 1;
        }
        TransferRequestDto {
            job_id: req.job_id,
            session_id: req.session_id,
            sender_device_id: req.sender_device_id,
            items,
            timestamp,
            nonce,
        }
    }
}

impl TransferResponseDto {
    /// The answer as the domain sees it.
    pub fn into_response(self) -> (res: TransferResponse)
        ensures
            res.status == self.status,
            res.skip_chunks@.len() == self.skip_chunks@.len(),
            forall|k: int|
                0 <= k < self.skip_chunks@.len() ==> (#[trigger] res.skip_chunks@[k]).file_id
                    == self.skip_chunks@[k].file_id && res.skip_chunks@[k].chunks_already_done
                    == self.skip_chunks@[k].chunks_already_done,
    {
        let mut skip: Vec<SkipChunkInfo> = Vec::new();
        let mut i: usize = 0;
        while i < self.skip_chunks.len()
            invariant
                i <= self.skip_chunks@.len(),
                skip@.len() == i,
                forall|k: int|
                    0 <= k < i ==> (#[trigger] skip@[k]).file_id == self.skip_chunks@[k].file_id
                        && skip@[k].chunks_already_done == self.skip_chunks@[k].chunks_already_done,
            decreases self.skip_chunks@.len() - i,
        {
            let c = &self.skip_chunks[i];
            skip.push(SkipChunkInfo { file_id: c.file_id.clone(), chunks_already_done: c.chunks_already_done });
            i = i + 1;
        }
        TransferResponse { status: self.status, skip_chunks: skip }
    }
}

} // verus!
