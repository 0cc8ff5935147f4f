use vstd::prelude::*;
use crate::encoding::{dec_text, to_decimal};
use crate::error::DomainError;
use crate::events::TransferProgressUpdated;
use crate::model::device::DeviceId;
use crate::model::transfer::{
    ChunkInfo, JobId, TransferError, TransferItem, TransferItemView, TransferJob, TransferJobView, TransferState,
    TransferType, all_completed, all_items_done, is_active, item_after_chunk,
};
use crate::ports::{SkipChunkInfo, TransferRequest, TransferRequestItem};
use crate::security::{ChunkHasher, spec_blake3_hex};
use crate::text::str_eq;

verus! {

/// Failed jobs are retried at most this many times.
pub const MAX_RETRIES: u32 = 5;

/// `2^n`.
pub open spec fn pow2(n: nat) -> nat
    decreases n,
{
    if n == 0 {
        1
    } else {
        2 * pow2((n - 1) as nat)
    }
}

/// The manifest entry announcing one item.
pub open spec fn item_announced(item: TransferItem, r: TransferRequestItem) -> bool {
    &&& r.file_id@ == item.file_id@
    &&& r.file_path == item.file_path
    &&& r.file_size == item.file_size
    &&& r.sha256 == item.sha256
    &&& r.chunk_count == item.chunk_manifest.chunks@.len() as u32
    &&& r.chunk_size == item.chunk_manifest.chunk_size
}

/// The count of chunks the peer reports for `file_id`: that of the last
/// report for the file, or `done` when there is none.
pub open spec fn reported_done(skip: Seq<SkipChunkInfo>, file_id: Seq<char>, done: u32) -> u32
    decreases skip.len(),
{
    if skip.len() == 0 {
        done
    } else if skip.last().file_id@ == file_id {
        skip.last().chunks_already_done
    } else {
        reported_done(skip.drop_last(), file_id, done)
    }
}

/// Whether a failed job is due for another attempt at `now`: it has failed
/// fewer than `MAX_RETRIES` times and `2^retries` seconds have passed since it was created.
pub open spec fn retry_is_due(job: TransferJobView, now: u64) -> bool {
    match job.state {
        TransferState::Failed { retries, .. } => retries < MAX_RETRIES && (if now >= job.created_at {
            now - job.created_at
        } else {
            0
        }) >= pow2(retries as nat),
        _ => false,
    }
}

/// Sending and receiving files on behalf of this device, decided step by step.
pub struct TransferAppService {
    pub local_device_id: DeviceId,
}

impl TransferAppService {
    pub fn new(local_device_id: DeviceId) -> (res: Self)
        ensures
            res.local_device_id == local_device_id,
    {
        TransferAppService { local_device_id }
    }

    /// The manifest announcing `job` to its peer, sent by this device.
    pub fn transfer_request(&self, job: &TransferJob) -> (res: TransferRequest)
        ensures
            res.job_id@ == job.job_id@,
            res.session_id == job.session_id,
            res.sender_device_id@ == self.local_device_id@,
            res.items@.len() == job.items@.len(),
            forall|k: int| 0 <= k < job.items@.len() ==> item_announced(job.items@[k], #[trigger] res.items@[k]),
    {
        let mut items: Vec<TransferRequestItem> = Vec::new();
        let mut i: usize = 0;
        while i < job.items.len()
            invariant
                i <= job.items@.len(),
                items@.len() == i,
                forall|k: int| 0 <= k < i ==> item_announced(job.items@[k], #[trigger] items@[k]),
            decreases job.items@.len() - i,
        {
            let item = &job.items[i];
            #[verifier::truncate]
            let chunk_count = item.chunk_manifest.chunks.len() as u32;
            items.push(TransferRequestItem {
                file_id: item.file_id.0.clone(),
                file_path: item.file_path.clone(),
                file_size: item.file_size,
                sha256: item.sha256.clone(),
                chunk_count,
                chunk_size: item.chunk_manifest.chunk_size,
            });
            i = i + 1;
        }
        TransferRequest {
            job_id: job.job_id.0.clone(),
            session_id: job.session_id.clone(),
            sender_device_id: self.local_device_id.0.clone(),
            items,
        }
    }

    /// Only outgoing jobs (Send and SyncPush) are pushed to the peer.
    pub fn check_sendable(job: &TransferJob) -> (res: Result<(), DomainError>)
        ensures
            res is Ok <==> (job.job_type == TransferType::Send || job.job_type == TransferType::SyncPush),
            res matches Err(e) ==> e == DomainError::InvalidStateTransition("execute_send: job is not Send/SyncPush"),
    {
        match job.job_type {
            TransferType::Send | TransferType::SyncPush => Ok(()),
            _ => Err(DomainError::InvalidStateTransition("execute_send: job is not Send/SyncPush")),
        }
    }

    /// The error for a peer that answered a transfer request with `status`;
    /// none when it accepted.
    pub fn peer_rejection(status: &str) -> (res: Option<DomainError>)
        ensures
            res is None <==> status@ == "accepted"@,
            res matches Some(e) ==> (e matches DomainError::Network(m) && m@ == "Peer rejected transfer: "@ + status@),
    {
        if str_eq(status, "accepted") {
            None
        } else {
            let mut m = "Peer rejected transfer: ".to_string();
            m.append(status);
            Some(DomainError::Network(m))
        }
    }

    /// A pending job becomes active; any other job is left as it is.
    pub fn activate(job: TransferJob) -> (res: Result<TransferJob, DomainError>)
        ensures
            res is Ok,
            job.state == TransferState::Pending ==> (res matches Ok(j) && is_active(j.state) && j@ == (TransferJobView { state: j.state, ..job@ })),
            job.state != TransferState::Pending ==> (res matches Ok(j) && j@ == job@),
    {
        match job.state {
            TransferState::Pending => job.accept(),
            _ => Ok(job),
        }
    }

    /// How many leading chunks of `file_id` the peer already holds, by its
    /// last report for that file; `done` when it reported nothing for it.
    pub fn chunks_already_sent(skip: &Vec<SkipChunkInfo>, file_id: &str, done: u32) -> (res: u32)
        ensures
            res == reported_done(skip@, file_id@, done),
    {
        let mut res = done;
        let mut i: usize = 0;
        while i < skip.len()
            invariant
                i <= skip@.len(),
                res == reported_done(skip@.subrange(0, i as int), file_id@, done),
            decreases skip@.len() - i,
        {
            proof {
                assert(skip@.subrange(0, i + 1).drop_last() =~= skip@.subrange(0, i as int));
            }
            if str_eq(skip[i].file_id.as_str(), file_id) {
                res = skip[i].chunks_already_done;
            }
            i = i + 1;
        }
        assert(skip@.subrange(0, i as int) =~= skip@);
        res
    }

    /// Progress of `item` once its chunk `chunk_index` is through: chunks up
    /// to it count as done, and bytes as that many chunks (a chunk size of 0
    /// counting as 1), at most the file size.
    pub fn progress_update(job_id: &JobId, item: &TransferItem, chunk_index: u32) -> (res: TransferProgressUpdated)
        requires
            chunk_index < u32::MAX,
        ensures
            res.job_id == *job_id,
            res.file_id == item.file_id,
            res.chunks_done == chunk_index + 1,
            res.total_chunks == item.chunk_manifest.chunks@.len() as u32,
            res.total_bytes == item.file_size,
            res.bytes_done == ({
                let cs: int = if item.chunk_manifest.chunk_size == 0 { 1 } else { item.chunk_manifest.chunk_size as int };
                let b = (chunk_index + 1) * cs;
                if b <= item.file_size { b } else { item.file_size as int }
            }),
    {
        let done = chunk_index + 1;
        let cs: u64 = if item.chunk_manifest.chunk_size == 0 { 1 } else { item.chunk_manifest.chunk_size as u64 };
        proof {
            assert(done as int * cs as int <= u32::MAX as int * u32::MAX as int) by (nonlinear_arith)
                requires
                    done <= u32::MAX,
                    cs <= u32::MAX,
            ;
        }
        let b = done as u64 * cs;
        let bytes_done = if b <= item.file_size { b } else { item.file_size };
        #[verifier::truncate]
        let total_chunks = item.chunk_manifest.chunks.len() as u32;
        TransferProgressUpdated {
            job_id: job_id.clone(),
            file_id: item.file_id.clone(),
            chunks_done: done,
            total_chunks,
            bytes_done,
            total_bytes: item.file_size,
        }
    }

    /// After the last chunk went out: a Verifying job completes; a job in any
    /// other state is kept as it is.
    pub fn finish_send(job: TransferJob) -> (res: Result<TransferJob, DomainError>)
        ensures
            job.state == TransferState::Verifying ==> (res matches Ok(j) && j.state matches TransferState::Completed { .. }
                && j@ == (TransferJobView { state: j.state, items: all_completed(job@.items), ..job@ })),
            job.state != TransferState::Verifying ==> (res matches Ok(j) && j@ == job@),
    {
        match job.state {
            TransferState::Verifying => job.complete(),
            _ => Ok(job),
        }
    }

    /// A received chunk is refused when it carries an expected hash that its data does not match.
    pub fn chunk_rejected(chunk: &ChunkInfo, data: &[u8]) -> (res: bool)
        ensures
            res == (chunk.hash@.len() > 0 && spec_blake3_hex(data@) != chunk.hash@),
    {
        !chunk.hash.as_str().is_empty() && !ChunkHasher::verify_chunk(data, chunk.hash.as_str())
    }

    /// The error for a chunk that failed its check.
    pub fn chunk_verification_error(file_id: &str, chunk_index: u32) -> (res: DomainError)
        ensures
            res matches DomainError::IntegrityError(m) && m@ == "Chunk verification failed: file="@ + file_id@
                + ", chunk="@ + dec_text(chunk_index as nat),
    {
        let mut m = "Chunk verification failed: file=".to_string();
        m.append(file_id);
        m.append(", chunk=");
        let n = to_decimal(chunk_index as u64);
        m.append(n.as_str());
        DomainError::IntegrityError(m)
    }

    /// The error for a received file whose SHA-256 differs from the announced one.
    pub fn hash_mismatch_error(path: &str, expected: &str, actual: &str) -> (res: DomainError)
        ensures
            res matches DomainError::IntegrityError(m) && m@ == "File hash mismath for "@ + path@ + ": expected "@
                + expected@ + ", got "@ + actual@,
    {
        let mut m = "File hash mismath for ".to_string();
        m.append(path);
        m.append(": expected ");
        m.append(expected);
        m.append(", got ");
        m.append(actual);
        DomainError::IntegrityError(m)
    }

    /// Whether a failed job is due for another attempt at `now`.
    pub fn retry_due(job: &TransferJob, now: u64) -> (res: bool)
        ensures
            res == retry_is_due(job@, now),
    {
        match &job.state {
            TransferState::Failed { retries, .. } => {
                if *retries >= MAX_RETRIES {
                    return false;
                }
                let mut delay: u64 = 1;
                let mut k: u32 = 0;
                while k < *retries
                    invariant
                        k <= *retries,
                        *retries < MAX_RETRIES,
                        delay == pow2(k as nat),
                        delay <= 16,
                    decreases *retries - k,
                {
                    proof {
                        assert(pow2((k + 1) as nat) == 2 * pow2(k as nat));
                        assert(pow2(0) == 1);
                        assert(pow2(1) == 2);
                        assert(pow2(2) == 4);
                        assert(pow2(3) == 8);
                        assert(pow2(4) == 16);
                    }
                    delay = delay * 2;
                    k = k + 1;
                }
                let elapsed = now.saturating_sub(job.created_at);
                elapsed >= delay
            },
            _ => false,
        }
    }

    /// The job set going again, active since `now`.
    pub fn retried(job: TransferJob, now: u64) -> (res: TransferJob)
        ensures
            res@ == (TransferJobView { state: TransferState::Active { started_at: now }, ..job@ }),
    {
        let mut j = job;
        j.state = TransferState::Active { started_at: now };
        j
    }
}

/// Chunk `m` of item `j` is still to be moved: it exists and its index is
/// not below the item's starting point `floors[j]`.
pub open spec fn chunk_wanted(items: Seq<TransferItem>, floors: Seq<u32>, j: int, m: int) -> bool {
    &&& 0 <= j < items.len()
    &&& 0 <= m < items[j].chunk_manifest.chunks@.len()
    &&& items[j].chunk_manifest.chunks@[m].index >= floors[j]
}

/// Position (`i1`, `k1`) comes before (`i2`, `k2`): items in order, and
/// chunks in order within an item.
pub open spec fn chunk_pos_before(i1: int, k1: int, i2: int, k2: int) -> bool {
    i1 < i2 || (i1 == i2 && k1 < k2)
}

impl TransferAppService {
    /// The chunk loop of a send or a receive, one step at a time: the first
    /// chunk at or after position (`from_item`, `from_chunk`) that is still to
    /// be moved, items in order and chunks in manifest order, where a chunk
    /// is to be moved when its index is not below its item's starting point
    /// (`floors`: what the peer already holds when sending, the chunks done
    /// when receiving); none when no such chunk is left. Moving the chunk
    /// returned and asking again from the position after it moves every
    /// chunk still to be moved exactly once, in order.
    pub fn next_chunk(items: &Vec<TransferItem>, floors: &Vec<u32>, from_item: usize, from_chunk: usize) -> (res: Option<(usize, usize)>)
        requires
            floors@.len() == items@.len(),
        ensures
            match res {
                Some((i, k)) => {
                    &&& chunk_wanted(items@, floors@, i as int, k as int)
                    &&& !chunk_pos_before(i as int, k as int, from_item as int, from_chunk as int)
                    &&& forall|j: int, m: int|
                        #[trigger] chunk_wanted(items@, floors@, j, m) && !chunk_pos_before(j, m, from_item as int, from_chunk as int)
                            ==> !chunk_pos_before(j, m, i as int, k as int)
                },
                None => forall|j: int, m: int|
                    #[trigger] chunk_wanted(items@, floors@, j, m) ==> chunk_pos_before(j, m, from_item as int, from_chunk as int),
            },
    {
        let mut i: usize = from_item;
        while i < items.len()
            invariant
                floors@.len() == items@.len(),
                from_item <= i,
                forall|j: int, m: int|
                    #[trigger] chunk_wanted(items@, floors@, j, m) && !chunk_pos_before(j, m, from_item as int, from_chunk as int)
                        ==> j >= i,
            decreases items@.len() - i,
        {
            let chunks = &items[i].chunk_manifest.chunks;
            let mut k: usize = if i == from_item { from_chunk } else { 0 };
            while k < chunks.len()
                invariant
                    floors@.len() == items@.len(),
                    from_item <= i < items@.len(),
                    *chunks == items@[i as int].chunk_manifest.chunks,
                    i == from_item ==> from_chunk <= k,
                    forall|j: int, m: int|
                        #[trigger] chunk_wanted(items@, floors@, j, m) && !chunk_pos_before(j, m, from_item as int, from_chunk as int)
                            ==> j > i || (j == i && m >= k),
                decreases chunks@.len() - k,
            {
                if chunks[k].index >= floors[i] {
                    return Some((i, k));
                }
                k = k + 1;
            }
            i = i + 1;
        }
        None
    }
}

/// Stepping with `next_chunk` skips nothing: when (`i`, `k`) is the first
/// chunk to move at or after a position, every other chunk to move at or
/// after that position lies at or after (`i`, `k + 1`), where the next step
/// starts.
pub proof fn lemma_chunk_steps_skip_nothing(
    items: Seq<TransferItem>,
    floors: Seq<u32>,
    from_item: int,
    from_chunk: int,
    i: int,
    k: int,
)
    requires
        chunk_wanted(items, floors, i, k),
        !chunk_pos_before(i, k, from_item, from_chunk),
        forall|j: int, m: int|
            #[trigger] chunk_wanted(items, floors, j, m) && !chunk_pos_before(j, m, from_item, from_chunk)
                ==> !chunk_pos_before(j, m, i, k),
    ensures
        forall|j: int, m: int|
            #[trigger] chunk_wanted(items, floors, j, m) && !chunk_pos_before(j, m, from_item, from_chunk) && !(j == i && m == k)
                ==> !chunk_pos_before(j, m, i, k + 1),
{
}

/// A job once chunk `chunk_index` of the items of `file_id` is recorded (what
/// `TransferJob::record_chunk_done` gives): those items count it done, and the
/// job moves to Verifying when every item is done.
pub open spec fn after_recording(job: TransferJobView, file_id: Seq<char>, chunk_index: u32) -> TransferJobView {
    let items = job.items.map_values(|it: TransferItemView| item_after_chunk(it, file_id, chunk_index));
    TransferJobView {
        items,
        state: if all_items_done(items) {
            TransferState::Verifying
        } else {
            job.state
        },
        ..job
    }
}

/// The progress event for chunk `chunk_index` of `item` (what
/// `TransferAppService::progress_update` gives).
pub open spec fn progress_of(job_id: JobId, item: TransferItem, chunk_index: u32) -> TransferProgressUpdated {
    let cs: int = if item.chunk_manifest.chunk_size == 0 { 1 } else { item.chunk_manifest.chunk_size as int };
    let b = (chunk_index + 1) * cs;
    TransferProgressUpdated {
        job_id,
        file_id: item.file_id,
        chunks_done: (chunk_index + 1) as u32,
        total_chunks: item.chunk_manifest.chunks@.len() as u32,
        bytes_done: if b <= item.file_size { b as u64 } else { item.file_size },
        total_bytes: item.file_size,
    }
}

/// How moving one chunk went.
#[derive(Debug, Clone, Copy, PartialEq, Eq, Structural)]
pub enum ChunkOutcome {
    /// The chunk was sent or received and stored.
    Moved,
    /// The connection to the peer failed while sending it.
    LinkFailed,
    /// The received data does not match the chunk's hash.
    Corrupt,
}

/// What follows a chunk step: keep going with the job as recorded and report
/// the progress, or fail the job with `error` and stop.
pub enum ChunkVerdict {
    Recorded { job: TransferJob, progress: TransferProgressUpdated },
    Failed { job: TransferJob, error: TransferError },
}

impl TransferAppService {
    /// The decision after moving chunk `chunk_index` of `item` in `job`: a
    /// moved chunk is recorded and its progress reported (which an inactive
    /// job refuses); a failed link fails the job as connection lost, and
    /// corrupt data as failed verification.
    pub fn after_chunk(job: TransferJob, item: &TransferItem, chunk_index: u32, outcome: ChunkOutcome) -> (res: Result<ChunkVerdict, DomainError>)
        requires
            outcome == ChunkOutcome::Moved ==> chunk_index < u32::MAX,
        ensures
            match outcome {
                ChunkOutcome::Moved => {
                    &&& (res is Ok <==> is_active(job.state))
                    &&& res matches Ok(v) ==> (v matches ChunkVerdict::Recorded { job: j, progress: p }
                        && j@ == after_recording(job@, item.file_id@, chunk_index)
                        && p == progress_of(job.job_id, *item, chunk_index))
                    &&& res matches Err(e) ==> e == DomainError::InvalidStateTransition("Job must be Active to record progress")
                },
                ChunkOutcome::LinkFailed => res matches Ok(ChunkVerdict::Failed { job: j, error })
                    && j@ == job@ && error == TransferError::ConnectionLost,
                ChunkOutcome::Corrupt => res matches Ok(ChunkVerdict::Failed { job: j, error })
                    && j@ == job@ && error == TransferError::VerificationFailed,
            },
    {
        match outcome {
            ChunkOutcome::Moved => {
                let job_id = job.job_id.clone();
                let recorded = job.record_chunk_done(&item.file_id, chunk_index)?;
                let progress = Self::progress_update(&job_id, item, chunk_index);
                Ok(ChunkVerdict::Recorded { job: recorded, progress })
            },
            ChunkOutcome::LinkFailed => Ok(ChunkVerdict::Failed { job, error: TransferError::ConnectionLost }),
            ChunkOutcome::Corrupt => Ok(ChunkVerdict::Failed { job, error: TransferError::VerificationFailed }),
        }
    }
}

} // verus!
