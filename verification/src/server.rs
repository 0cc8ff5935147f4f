use vstd::prelude::*;
use crate::dto::TransferRequestDto;
use crate::error::DomainError;
use crate::model::device::{Device, DeviceId, DeviceState};
use crate::model::share::{Share, ShareId, ShareMember, SharePermission, ShareStatus, SyncMode, is_member};
use crate::model::transfer::{
    ChunkManifest, FileId, JobId, TransferItem, TransferItemStatus, TransferJob, TransferState, TransferType,
    TransferItemView, TransferJobView, all_completed, all_items_done, build_chunks, has_file, hashes_empty, is_active,
    item_after_chunk, layout_fits, layout_ok,
};
use crate::text::str_eq;

verus! {

/// Where and with which certificate the HTTPS server listens.
pub struct HttpServerConfig {
    pub port: u16,
    pub cert_pem: Vec<u8>,
    pub key_pem: Vec<u8>,
}

/// What to do with a share invitation this device received.
#[derive(Debug)]
pub enum InviteOutcome {
    /// This device already belongs to the share.
    AlreadyMember,
    /// Store this share, which now has this device as a member.
    Save(Share),
    /// The share could not take this device.
    Failed(DomainError),
}

/// An invitation is only taken from a known, paired sender.
pub fn invite_sender_check(sender: Option<&Device>) -> (res: Result<(), String>)
    ensures
        match sender {
            None => res matches Err(m) && m@ == "Sender not found"@,
            Some(d) => if d.state is Paired {
                res is Ok
            } else {
                res matches Err(m) && m@ == "Sender is not Paired"@
            },
        },
{
    match sender {
        None => Err("Sender not found".to_string()),
        Some(d) => match &d.state {
            DeviceState::Paired(_) => Ok(()),
            _ => Err("Sender is not Paired".to_string()),
        },
    }
}

/// Joins this device (`local`) to the share an invitation from `sender`
/// names, at time `now`: an existing share gains this device as a member
/// unless it already is one; an unknown share is created, two-way, by the
/// sender, stored at `local_path`, and gains this device.
pub fn accept_share_invite(
    existing: Option<Share>,
    local: &DeviceId,
    permission: SharePermission,
    sender: DeviceId,
    share_id: ShareId,
    share_name: String,
    local_path: String,
    now: u64,
) -> (res: InviteOutcome)
    ensures
        match existing {
            Some(s) => if is_member(s.members@, local@) {
                res is AlreadyMember
            } else {
                res matches InviteOutcome::Save(t) && t == (Share {
                    members: t.members,
                    ..s
                }) && t.members@ == s.members@.push(ShareMember {
                    device_id: *local,
                    permission,
                    authorized_by: sender,
                    authorized_at: now,
                })
            },
            None => if sender@ == local@ {
                res matches InviteOutcome::Failed(e) && e matches DomainError::BusinessRuleViolation(m)
                    && m@ == "Device "@ + local@ + " is already a member"@
            } else {
                res matches InviteOutcome::Save(t) && {
                    &&& t.share_id == share_id
                    &&& t.share_name == share_name
                    &&& t.local_path == local_path
                    &&& t.sync_mode == SyncMode::TwoWay
                    &&& t.status == ShareStatus::Active
                    &&& t.created_by == sender
                    &&& t.created_at == now
                    &&& t.members@ == seq![
                        ShareMember {
                            device_id: sender,
                            permission: SharePermission::ReadWrite,
                            authorized_by: sender,
                            authorized_at: now,
                        },
                        ShareMember { device_id: *local, permission, authorized_by: sender, authorized_at: now },
                    ]
                }
            },
        },
{
    match existing {
        Some(s) => {
            if s.has_member(local) {
                return InviteOutcome::AlreadyMember;
            }
            match s.authorize_member_at(local.clone(), permission, sender, now) {
                Ok(t) => InviteOutcome::Save(t),
                Err(e) => InviteOutcome::Failed(e),
            }
        },
        None => {
            let s = Share::create_at(share_id, share_name, local_path, SyncMode::TwoWay, sender.clone(), now);
            proof {
                if sender@ != local@ {
                    assert(!is_member(s.members@, local@)) by {
                        if is_member(s.members@, local@) {
                            let i = choose|i: int| 0 <= i < s.members@.len() && #[trigger] s.members@[i].device_id@ == local@;
                            assert(i == 0);
                        }
                    }
                }
            }
            match s.authorize_member_at(local.clone(), permission, sender, now) {
                Ok(t) => InviteOutcome::Save(t),
                Err(e) => InviteOutcome::Failed(e),
            }
        },
    }
}

/// The receiving side's item for one announced file, chunked as announced.
pub open spec fn received_item_ok(it: TransferItem, file_id: String, file_path: String, file_size: u64, sha256: String, chunk_size: u32) -> bool {
    &&& it.file_id@ == file_id@
    &&& it.file_path == file_path
    &&& it.file_size == file_size
    &&& it.sha256 == sha256
    &&& it.status == TransferItemStatus::Pending
    &&& it.chunk_manifest.chunk_size == chunk_size
    &&& layout_ok(it.chunk_manifest.chunks@, file_size, chunk_size)
    &&& hashes_empty(it.chunk_manifest.chunks@)
    &&& it.chunks_done == 0
    &&& it.temp_path.is_none()
}

/// The job receiving what a transfer request announces, active since `now`.
pub fn receive_job(req: &TransferRequestDto, now: u64) -> (res: TransferJob)
    requires
        forall|k: int| 0 <= k < req.items@.len() ==> layout_fits(#[trigger] req.items@[k].file_size, req.items@[k].chunk_size),
    ensures
        res.job_id@ == req.job_id@,
        res.session_id == req.session_id,
        res.job_type == TransferType::Receive,
        res.peer_device_id@ == req.sender_device_id@,
        res.share_id.is_none(),
        res.state == (TransferState::Active { started_at: now }),
        res.created_at == now,
        res.items@.len() == req.items@.len(),
        forall|k: int| 0 <= k < req.items@.len() ==> {
            let d = req.items@[k];
            received_item_ok(#[trigger] res.items@[k], d.file_id, d.file_path, d.file_size, d.sha256, d.chunk_size)
        },
{
    let mut items: Vec<TransferItem> = Vec::new();
    let mut i: usize = 0;
    while i < req.items.len()
        invariant
            i <= req.items@.len(),
            forall|k: int| 0 <= k < req.items@.len() ==> layout_fits(#[trigger] req.items@[k].file_size, req.items@[k].chunk_size),
            items@.len() == i,
            forall|k: int| 0 <= k < i ==> {
                let d = req.items@[k];
                received_item_ok(#[trigger] items@[k], d.file_id, d.file_path, d.file_size, d.sha256, d.chunk_size)
            },
        decreases req.items@.len() - i,
    {
        let d = &req.items[i];
        let chunks = build_chunks(d.file_size, d.chunk_size);
        items.push(TransferItem {
            file_id: FileId(d.file_id.clone()),
            file_path: d.file_path.clone(),
            file_size: d.file_size,
            sha256: d.sha256.clone(),
            status: TransferItemStatus::Pending,
            chunk_manifest: ChunkManifest { chunks, chunk_size: d.chunk_size },
            chunks_done: 0,
            temp_path: None,
        });
        i = i + 1;
    }
    TransferJob {
        job_id: JobId(req.job_id.clone()),
        session_id: req.session_id.clone(),
        job_type: TransferType::Receive,
        peer_device_id: DeviceId(req.sender_device_id.clone()),
        share_id: None,
        state: TransferState::Active { started_at: now },
        items,
        created_at: now,
    }
}

/// Position of the first item of file `f` (the length when there is none).
pub open spec fn item_index(items: Seq<TransferItem>, f: Seq<char>) -> int
    decreases items.len(),
{
    if items.len() == 0 {
        0
    } else if items[0].file_id@ == f {
        0
    } else {
        1 + item_index(items.drop_first(), f)
    }
}

/// Position of the first chunk numbered `c` (the length when there is none).
pub open spec fn chunk_position(chunks: Seq<crate::model::transfer::ChunkInfo>, c: u32) -> int
    decreases chunks.len(),
{
    if chunks.len() == 0 {
        0
    } else if chunks[0].index == c {
        0
    } else {
        1 + chunk_position(chunks.drop_first(), c)
    }
}

proof fn lemma_item_index(items: Seq<TransferItem>, f: Seq<char>, i: int)
    requires
        0 <= i <= items.len(),
        forall|j: int| 0 <= j < i ==> #[trigger] items[j].file_id@ != f,
        i == items.len() || items[i].file_id@ == f,
    ensures
        item_index(items, f) == i,
    decreases i,
{
    if i > 0 {
        let t = items.drop_first();
        assert forall|j: int| 0 <= j < i - 1 implies #[trigger] t[j].file_id@ != f by {
            assert(t[j] == items[j + 1]);
        }
        lemma_item_index(t, f, i - 1);
    }
}

proof fn lemma_chunk_position(chunks: Seq<crate::model::transfer::ChunkInfo>, c: u32, i: int)
    requires
        0 <= i <= chunks.len(),
        forall|j: int| 0 <= j < i ==> #[trigger] chunks[j].index != c,
        i == chunks.len() || chunks[i].index == c,
    ensures
        chunk_position(chunks, c) == i,
    decreases i,
{
    if i > 0 {
        let t = chunks.drop_first();
        assert forall|j: int| 0 <= j < i - 1 implies #[trigger] t[j].index != c by {
            assert(t[j] == chunks[j + 1]);
        }
        lemma_chunk_position(t, c, i - 1);
    }
}

/// Where chunk `chunk_index` of file `file_id` sits in `job`: the first item
/// of that file and the first chunk of that number in it; none when either is missing.
pub fn locate_chunk(job: &TransferJob, file_id: &str, chunk_index: u32) -> (res: Option<(usize, usize)>)
    ensures
        ({
            let i = item_index(job.items@, file_id@);
            if i < job.items@.len() {
                let c = chunk_position(job.items@[i].chunk_manifest.chunks@, chunk_index);
                if c < job.items@[i].chunk_manifest.chunks@.len() {
                    res == Some((i as usize, c as usize))
                } else {
                    res is None
                }
            } else {
                res is None
            }
        }),
{
    let mut i: usize = 0;
    while i < job.items.len() && !str_eq(job.items[i].file_id.0.as_str(), file_id)
        invariant
            i <= job.items@.len(),
            forall|j: int| 0 <= j < i ==> #[trigger] job.items@[j].file_id@ != file_id@,
        decreases job.items@.len() - i,
    {
        i = i + 1;
    }
    proof {
        lemma_item_index(job.items@, file_id@, i as int);
    }
    if i == job.items.len() {
        return None;
    }
    let chunks = &job.items[i].chunk_manifest.chunks;
    let mut c: usize = 0;
    while c < chunks.len() && chunks[c].index != chunk_index
        invariant
            c <= chunks@.len(),
            forall|j: int| 0 <= j < c ==> #[trigger] chunks@[j].index != chunk_index,
        decreases chunks@.len() - c,
    {
        c = c + 1;
    }
    proof {
        lemma_chunk_position(chunks@, chunk_index, c as int);
    }
    if c == chunks.len() {
        None
    } else {
        Some((i, c))
    }
}


/// Records an uploaded chunk in a receiving job; once every item is in, the
/// job completes at `now`.
pub fn apply_uploaded_chunk(job: TransferJob, file_id: &FileId, chunk_index: u32, now: u64) -> (res: Result<TransferJob, DomainError>)
    requires
        is_active(job.state) && has_file(job@.items, file_id@) ==> chunk_index < u32::MAX,
    ensures
        res is Ok <==> is_active(job.state),
        match res {
            Ok(j) => {
                let items = job@.items.map_values(|it: TransferItemView| item_after_chunk(it, file_id@, chunk_index));
                if all_items_done(items) {
                    j@ == (TransferJobView {
                        state: TransferState::Completed { completed_at: now },
                        items: all_completed(items),
                        ..job@
                    })
                } else {
                    j@ == (TransferJobView { items, ..job@ })
                }
            },
            Err(e) => e == DomainError::InvalidStateTransition("Job must be Active to record progress"),
        },
{
    let updated = job.record_chunk_done(file_id, chunk_index)?;
    if matches!(updated.state, TransferState::Verifying) {
        match updated.complete_at(now) {
            Ok(j) => Ok(j),
            Err(e) => Err(e),
        }
    } else {
        Ok(updated)
    }
}

} // verus!
