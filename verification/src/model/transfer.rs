use vstd::prelude::*;
use crate::clock::unix_now;
use crate::error::DomainError;
use crate::ids::{new_uuid_v4, uuid_shaped};
use crate::model::device::DeviceId;
use crate::service::chunking::{compute_chunk_size, spec_chunk_size};

verus! {

#[derive(Debug, Eq, Hash)]
pub struct JobId(pub String);

impl View for JobId {
    type V = Seq<char>;

    open spec fn view(&self) -> Seq<char> {
        self.0@
    }
}

impl Clone for JobId {
    fn clone(&self) -> (res: Self)
        ensures
            res == *self,
    {
        JobId(self.0.clone())
    }
}

impl PartialEq for JobId {
    fn eq(&self, other: &Self) -> (res: bool) {
        self.0 == other.0
    }
}

impl vstd::std_specs::cmp::PartialEqSpecImpl for JobId {
    open spec fn obeys_eq_spec() -> bool {
        true
    }

    open spec fn eq_spec(&self, other: &JobId) -> bool {
        self.0@ == other.0@
    }
}

#[derive(Debug, Eq, Hash)]
pub struct FileId(pub String);

impl View for FileId {
    type V = Seq<char>;

    open spec fn view(&self) -> Seq<char> {
        self.0@
    }
}

impl Clone for FileId {
    fn clone(&self) -> (res: Self)
        ensures
            res == *self,
    {
        FileId(self.0.clone())
    }
}

impl PartialEq for FileId {
    fn eq(&self, other: &Self) -> (res: bool) {
        self.0 == other.0
    }
}

impl vstd::std_specs::cmp::PartialEqSpecImpl for FileId {
    open spec fn obeys_eq_spec() -> bool {
        true
    }

    open spec fn eq_spec(&self, other: &FileId) -> bool {
        self.0@ == other.0@
    }
}

#[derive(Debug, Clone, Copy, PartialEq, Eq, Structural)]
pub enum TransferType {
    Send,
    Receive,
    SyncPull,
    SyncPush,
}

/// How far a file had got when its job was paused.
#[derive(Debug)]
pub struct Checkpoint {
    pub file_id: FileId,
    pub chunks_done: u32,
}

impl Clone for Checkpoint {
    fn clone(&self) -> (res: Self)
        ensures
            res == *self,
    {
        Checkpoint { file_id: self.file_id.clone(), chunks_done: self.chunks_done }
    }
}

#[derive(Debug, Clone, Copy, PartialEq, Eq, Structural)]
pub struct TransferProgress {
    pub total_bytes: u64,
    pub transferred_bytes: u64,
    pub total_files: u32,
    pub completed_files: u32,
}

/// One piece of a file.
#[derive(Debug)]
pub struct ChunkInfo {
    pub index: u32,
    pub offset: u64,
    pub size: u32,
    pub hash: String,
}

impl Clone for ChunkInfo {
    fn clone(&self) -> (res: Self)
        ensures
            res == *self,
    {
        ChunkInfo { index: self.index, offset: self.offset, size: self.size, hash: self.hash.clone() }
    }
}

#[derive(Debug)]
pub struct ChunkManifest {
    pub chunks: Vec<ChunkInfo>,
    pub chunk_size: u32,
}

#[derive(Debug, Clone, Copy, PartialEq, Eq, Structural)]
pub enum TransferItemStatus {
    Pending,
    Transferring,
    Verifying,
    Completed,
    Failed,
}

/// One file of a transfer job.
#[derive(Debug)]
pub struct TransferItem {
    pub file_id: FileId,
    pub file_path: String,
    pub file_size: u64,
    pub sha256: String,
    pub status: TransferItemStatus,
    pub chunk_manifest: ChunkManifest,
    pub chunks_done: u32,
    pub temp_path: Option<String>,
}

/// A transfer item with its chunk list as a sequence.
pub struct TransferItemView {
    pub file_id: FileId,
    pub file_path: String,
    pub file_size: u64,
    pub sha256: String,
    pub status: TransferItemStatus,
    pub chunks: Seq<ChunkInfo>,
    pub chunk_size: u32,
    pub chunks_done: u32,
    pub temp_path: Option<String>,
}

impl View for TransferItem {
    type V = TransferItemView;

    open spec fn view(&self) -> TransferItemView {
        TransferItemView {
            file_id: self.file_id,
            file_path: self.file_path,
            file_size: self.file_size,
            sha256: self.sha256,
            status: self.status,
            chunks: self.chunk_manifest.chunks@,
            chunk_size: self.chunk_manifest.chunk_size,
            chunks_done: self.chunks_done,
            temp_path: self.temp_path,
        }
    }
}

impl Clone for TransferItem {
    fn clone(&self) -> (res: Self)
        ensures
            res@ == self@,
    {
        let chunks = self.chunk_manifest.chunks.clone();
        assert(chunks@ =~= self.chunk_manifest.chunks@);
        TransferItem {
            file_id: self.file_id.clone(),
            file_path: self.file_path.clone(),
            file_size: self.file_size,
            sha256: self.sha256.clone(),
            status: self.status,
            chunk_manifest: ChunkManifest { chunks, chunk_size: self.chunk_manifest.chunk_size },
            chunks_done: self.chunks_done,
            temp_path: self.temp_path.clone(),
        }
    }
}

#[derive(Debug)]
pub enum TransferError {
    ConnectionLost,
    VerificationFailed,
    StorageError,
    PeerRejected,
    Timeout,
    Unknown(String),
}

impl Clone for TransferError {
    fn clone(&self) -> (res: Self)
        ensures
            res == *self,
    {
        match self {
            TransferError::ConnectionLost => TransferError::ConnectionLost,
            TransferError::VerificationFailed => TransferError::VerificationFailed,
            TransferError::StorageError => TransferError::StorageError,
            TransferError::PeerRejected => TransferError::PeerRejected,
            TransferError::Timeout => TransferError::Timeout,
            TransferError::Unknown(s) => TransferError::Unknown(s.clone()),
        }
    }
}

/// Life cycle of a transfer job.
#[derive(Debug)]
pub enum TransferState {
    Pending,
    Active { started_at: u64 },
    Paused { checkpoint: Option<Checkpoint> },
    Verifying,
    Completed { completed_at: u64 },
    Failed { error: TransferError, retries: u32 },
    Cancelled,
}

impl Clone for TransferState {
    fn clone(&self) -> (res: Self)
        ensures
            res == *self,
    {
        match self {
            TransferState::Pending => TransferState::Pending,
            TransferState::Active { started_at } => TransferState::Active { started_at: *started_at },
            TransferState::Paused { checkpoint } => TransferState::Paused {
                checkpoint: match checkpoint {
                    Some(c) => Some(c.clone()),
                    None => None,
                },
            },
            TransferState::Verifying => TransferState::Verifying,
            TransferState::Completed { completed_at } => TransferState::Completed { completed_at: *completed_at },
            TransferState::Failed { error, retries } => TransferState::Failed { error: error.clone(), retries: *retries },
            TransferState::Cancelled => TransferState::Cancelled,
        }
    }
}

/// A set of files moving between this device and one peer.
#[derive(Debug)]
pub struct TransferJob {
    pub job_id: JobId,
    pub session_id: String,
    pub job_type: TransferType,
    pub peer_device_id: DeviceId,
    pub share_id: Option<String>,
    pub state: TransferState,
    pub items: Vec<TransferItem>,
    pub created_at: u64,
}

pub struct TransferJobView {
    pub job_id: JobId,
    pub session_id: String,
    pub job_type: TransferType,
    pub peer_device_id: DeviceId,
    pub share_id: Option<String>,
    pub state: TransferState,
    pub items: Seq<TransferItemView>,
    pub created_at: u64,
}

impl View for TransferJob {
    type V = TransferJobView;

    open spec fn view(&self) -> TransferJobView {
        TransferJobView {
            job_id: self.job_id,
            session_id: self.session_id,
            job_type: self.job_type,
            peer_device_id: self.peer_device_id,
            share_id: self.share_id,
            state: self.state,
            items: self.items@.map_values(|it: TransferItem| it@),
            created_at: self.created_at,
        }
    }
}

impl Clone for TransferJob {
    fn clone(&self) -> (res: Self)
        ensures
            res@ == self@,
    {
        let mut items: Vec<TransferItem> = Vec::new();
        let mut i: usize = 0;
        while i < self.items.len()
            invariant
                i <= self.items@.len(),
                items@.len() == i,
                forall|k: int| 0 <= k < i ==> #[trigger] items@[k]@ == self.items@[k]@,
            decreases self.items@.len() - i,
        {
            items.push(self.items[i].clone());
            i = i + 1;
        }
        let res = TransferJob {
            job_id: self.job_id.clone(),
            session_id: self.session_id.clone(),
            job_type: self.job_type,
            peer_device_id: self.peer_device_id.clone(),
            share_id: self.share_id.clone(),
            state: self.state.clone(),
            items,
            created_at: self.created_at,
        };
        assert(res@.items =~= self@.items);
        res
    }
}

/// A file offered for transfer.
#[derive(Debug)]
pub struct FileRequest {
    pub file_path: String,
    pub file_size: u64,
    pub sha256: String,
}

impl Clone for FileRequest {
    fn clone(&self) -> (res: Self)
        ensures
            res == *self,
    {
        FileRequest { file_path: self.file_path.clone(), file_size: self.file_size, sha256: self.sha256.clone() }
    }
}

/// The chunk layout of a file: with chunk size 0 a single piece (whose size
/// field is the file size cut to 32 bits); otherwise consecutive full chunks
/// from offset 0, the last one possibly shorter, covering exactly the file.
pub open spec fn layout_ok(chunks: Seq<ChunkInfo>, file_size: u64, chunk_size: u32) -> bool {
    if chunk_size == 0 {
        &&& chunks.len() == 1
        &&& chunks[0].index == 0
        &&& chunks[0].offset == 0
        &&& chunks[0].size == file_size as u32
    } else {
        &&& forall|k: int| 0 <= k < chunks.len() ==> #[trigger] chunks[k].index == k
        &&& forall|k: int| 0 <= k < chunks.len() ==> #[trigger] chunks[k].offset == k * chunk_size
        &&& forall|k: int| 0 <= k < chunks.len() - 1 ==> #[trigger] chunks[k].size == chunk_size
        &&& (chunks.len() == 0 <==> file_size == 0)
        &&& chunks.len() > 0 ==> {
            &&& chunks.last().offset + chunks.last().size == file_size
            &&& 0 < chunks.last().size <= chunk_size
        }
    }
}

/// No chunk carries a hash yet.
pub open spec fn hashes_empty(chunks: Seq<ChunkInfo>) -> bool {
    forall|k: int| 0 <= k < chunks.len() ==> (#[trigger] chunks[k]).hash@.len() == 0
}

/// Chunk indexes stay within `u32`: at most `u32::MAX` chunks.
pub open spec fn layout_fits(file_size: u64, chunk_size: u32) -> bool {
    chunk_size == 0 || file_size <= chunk_size as int * u32::MAX as int
}

/// The chunk list of a file of `file_size` bytes cut into `chunk_size` pieces,
/// without hashes.
pub fn build_chunks(file_size: u64, chunk_size: u32) -> (res: Vec<ChunkInfo>)
    requires
        layout_fits(file_size, chunk_size),
    ensures
        layout_ok(res@, file_size, chunk_size),
        hashes_empty(res@),
{
    let mut chunks: Vec<ChunkInfo> = Vec::new();
    if chunk_size == 0 {
        chunks.push(ChunkInfo { index: 0, offset: 0, size: file_size as u32, hash: String::new() });
        return chunks;
    }
    let mut offset: u64 = 0;
    let mut index: u32 = 0;
    while offset < file_size
        invariant
            chunk_size > 0,
            file_size <= chunk_size as int * u32::MAX as int,
            chunks@.len() == index,
            offset <= file_size,
            forall|k: int| 0 <= k < chunks@.len() ==> #[trigger] chunks@[k].index == k,
            forall|k: int| 0 <= k < chunks@.len() ==> #[trigger] chunks@[k].offset == k * chunk_size,
            forall|k: int| 0 <= k < chunks@.len() - 1 ==> #[trigger] chunks@[k].size == chunk_size,
            forall|k: int| 0 <= k < chunks@.len() ==> (#[trigger] chunks@[k]).hash@.len() == 0,
            chunks@.len() == 0 ==> offset == 0,
            chunks@.len() > 0 ==> {
                &&& chunks@.last().offset + chunks@.last().size == offset
                &&& 0 < chunks@.last().size <= chunk_size
                &&& (chunks@.last().size == chunk_size || offset == file_size)
            },
            offset < file_size ==> offset == index as int * chunk_size as int,
        decreases file_size - offset,
    {
        let remaining = file_size - offset;
        let size: u32 = if (chunk_size as u64) < remaining {
            chunk_size
        } else {
            remaining as u32
        };
        proof {
            assert(index < u32::MAX) by (nonlinear_arith)
                requires
                    offset == index as int * chunk_size as int,
                    offset < file_size,
                    file_size <= chunk_size as int * u32::MAX as int,
                    chunk_size > 0,
            ;
        }
        let ghost before = chunks@;
        chunks.push(ChunkInfo { index, offset, size, hash: String::new() });
        proof {
            assert forall|k: int| 0 <= k < chunks@.len() - 1 implies #[trigger] chunks@[k].size == chunk_size by {
                if k < before.len() - 1 {
                    assert(chunks@[k] == before[k]);
                } else {
                    assert(k == before.len() - 1);
                    assert(before.last().size == chunk_size || offset == file_size);
                }
            }
            assert forall|k: int| 0 <= k < chunks@.len() implies #[trigger] chunks@[k].offset == k * chunk_size by {
                if k < before.len() {
                    assert(chunks@[k] == before[k]);
                }
            }
        }
        offset = offset + size as u64;
        index = index + 1;
        proof {
            if offset < file_size {
                assert(size == chunk_size);
                assert(offset == index as int * chunk_size as int) by (nonlinear_arith)
                    requires
                        offset == (index - 1) as int * chunk_size as int + chunk_size as int,
                ;
            }
        }
    }
    chunks
}

/// Spec of the pieces a new transfer item for `file` consists of.
pub open spec fn new_item_ok(item: TransferItemView, file: FileRequest, file_id: FileId) -> bool {
    &&& item.file_id == file_id
    &&& item.file_path == file.file_path
    &&& item.file_size == file.file_size
    &&& item.sha256 == file.sha256
    &&& item.status == TransferItemStatus::Pending
    &&& item.chunk_size == spec_chunk_size(file.file_size)
    &&& layout_ok(item.chunks, file.file_size, item.chunk_size)
    &&& hashes_empty(item.chunks)
    &&& item.chunks_done == 0
    &&& item.temp_path.is_none()
}

/// Largest file size whose chunks can be numbered in `u32`.
pub open spec fn file_size_fits(file_size: u64) -> bool {
    file_size <= 16_777_216 * 4_294_967_295
}

proof fn lemma_chunk_size_fits(file_size: u64)
    requires
        file_size_fits(file_size),
    ensures
        layout_fits(file_size, spec_chunk_size(file_size)),
{
}

impl TransferItem {
    /// A pending item for `file`, chunked by [`compute_chunk_size`].
    pub fn from_request(file: FileRequest, file_id: FileId) -> (res: Self)
        requires
            file_size_fits(file.file_size),
        ensures
            new_item_ok(res@, file, file_id),
    {
        let chunk_size = compute_chunk_size(file.file_size);
        proof {
            lemma_chunk_size_fits(file.file_size);
        }
        let chunks = build_chunks(file.file_size, chunk_size);
        TransferItem {
            file_id,
            file_path: file.file_path,
            file_size: file.file_size,
            sha256: file.sha256,
            status: TransferItemStatus::Pending,
            chunk_manifest: ChunkManifest { chunks, chunk_size },
            chunks_done: 0,
            temp_path: None,
        }
    }
}

/// The item after its chunk `chunk_index` arrived, when it is file `file_id`.
pub open spec fn item_after_chunk(it: TransferItemView, file_id: Seq<char>, chunk_index: u32) -> TransferItemView {
    if it.file_id@ == file_id {
        let done: u32 = if it.chunks_done >= chunk_index + 1 {
            it.chunks_done
        } else {
            (chunk_index + 1) as u32
        };
        TransferItemView {
            chunks_done: done,
            status: if done >= (it.chunks.len() as u32) {
                TransferItemStatus::Verifying
            } else {
                TransferItemStatus::Transferring
            },
            ..it
        }
    } else {
        it
    }
}

/// Every item has reached verification or completion.
pub open spec fn all_items_done(items: Seq<TransferItemView>) -> bool {
    forall|k: int|
        0 <= k < items.len() ==> (#[trigger] items[k]).status == TransferItemStatus::Verifying || items[k].status
            == TransferItemStatus::Completed
}

pub open spec fn has_file(items: Seq<TransferItemView>, file_id: Seq<char>) -> bool {
    exists|k: int| 0 <= k < items.len() && (#[trigger] items[k]).file_id@ == file_id
}

pub open spec fn is_active(s: TransferState) -> bool {
    s matches TransferState::Active { .. }
}

pub open spec fn is_paused(s: TransferState) -> bool {
    s matches TransferState::Paused { .. }
}

/// States from which a job may fail.
pub open spec fn can_fail(s: TransferState) -> bool {
    s matches TransferState::Active { .. } || s matches TransferState::Paused { .. } || s matches TransferState::Verifying
        || s matches TransferState::Failed { .. }
}

/// Bytes an item counts as moved.
pub open spec fn item_transferred(it: TransferItemView) -> int {
    if it.status == TransferItemStatus::Completed {
        it.file_size as int
    } else if it.chunk_size == 0 {
        if it.chunks_done > 0 {
            it.file_size as int
        } else {
            0
        }
    } else {
        let done = it.chunks_done as int * it.chunk_size as int;
        if done <= it.file_size {
            done
        } else {
            it.file_size as int
        }
    }
}

pub open spec fn total_size(items: Seq<TransferItemView>) -> int
    decreases items.len(),
{
    if items.len() == 0 {
        0
    } else {
        total_size(items.drop_last()) + items.last().file_size
    }
}

pub open spec fn total_transferred(items: Seq<TransferItemView>) -> int
    decreases items.len(),
{
    if items.len() == 0 {
        0
    } else {
        total_transferred(items.drop_last()) + item_transferred(items.last())
    }
}

pub open spec fn count_completed(items: Seq<TransferItemView>) -> int
    decreases items.len(),
{
    if items.len() == 0 {
        0
    } else {
        count_completed(items.drop_last()) + if items.last().status == TransferItemStatus::Completed {
            1int
        } else {
            0
        }
    }
}

proof fn lemma_totals_bounded(items: Seq<TransferItemView>)
    ensures
        0 <= total_transferred(items) <= total_size(items),
        0 <= count_completed(items) <= items.len(),
    decreases items.len(),
{
    if items.len() > 0 {
        lemma_totals_bounded(items.drop_last());
    }
}

proof fn lemma_prefix_totals(items: Seq<TransferItemView>, i: int)
    requires
        0 <= i <= items.len(),
    ensures
        total_size(items.subrange(0, i)) <= total_size(items),
    decreases items.len() - i,
{
    if i < items.len() {
        lemma_prefix_totals(items, i + 1);
        assert(items.subrange(0, i + 1).drop_last() =~= items.subrange(0, i));
    } else {
        assert(items.subrange(0, i) =~= items);
    }
}

impl TransferJob {
    /// A pending job moving `files` to or from `peer_device_id`, with the given identities and time.
    pub fn from_files_with(
        job_type: TransferType,
        peer_device_id: DeviceId,
        files: Vec<FileRequest>,
        job_id: JobId,
        session_id: String,
        file_ids: Vec<FileId>,
        created_at: u64,
    ) -> (res: Self)
        requires
            file_ids@.len() == files@.len(),
            forall|k: int| 0 <= k < files@.len() ==> file_size_fits(#[trigger] files@[k].file_size),
        ensures
            res.job_id == job_id,
            res.session_id == session_id,
            res.job_type == job_type,
            res.peer_device_id == peer_device_id,
            res.share_id.is_none(),
            res.state == TransferState::Pending,
            res.created_at == created_at,
            res@.items.len() == files@.len(),
            forall|k: int| 0 <= k < files@.len() ==> new_item_ok(#[trigger] res@.items[k], files@[k], file_ids@[k]),
    {
        let mut items: Vec<TransferItem> = Vec::new();
        let mut i: usize = 0;
        while i < files.len()
            invariant
                i <= files@.len(),
                file_ids@.len() == files@.len(),
                forall|k: int| 0 <= k < files@.len() ==> file_size_fits(#[trigger] files@[k].file_size),
                items@.len() == i,
                forall|k: int| 0 <= k < i ==> new_item_ok(#[trigger] items@[k]@, files@[k], file_ids@[k]),
            decreases files@.len() - i,
        {
            let item = TransferItem::from_request(files[i].clone(), file_ids[i].clone());
            items.push(item);
            i = i + 1;
        }
        TransferJob {
            job_id,
            session_id,
            job_type,
            peer_device_id,
            share_id: None,
            state: TransferState::Pending,
            items,
            created_at,
        }
    }

    /// A pending job for `files` with fresh random identities, stamped now.
    pub fn create_from_files(job_type: TransferType, peer_device_id: DeviceId, files: Vec<FileRequest>) -> (res: Self)
        requires
            forall|k: int| 0 <= k < files@.len() ==> file_size_fits(#[trigger] files@[k].file_size),
        ensures
            res.job_type == job_type,
            res.peer_device_id == peer_device_id,
            res.share_id.is_none(),
            res.state == TransferState::Pending,
            res@.items.len() == files@.len(),
            forall|k: int| 0 <= k < files@.len() ==> new_item_ok(#[trigger] res@.items[k], files@[k], res@.items[k].file_id),
            uuid_shaped(res.job_id@),
            uuid_shaped(res.session_id@),
            forall|k: int| 0 <= k < files@.len() ==> uuid_shaped(#[trigger] res@.items[k].file_id@),
    {
        let mut file_ids: Vec<FileId> = Vec::new();
        let mut i: usize = 0;
        while i < files.len()
            invariant
                i <= files@.len(),
                file_ids@.len() == i,
                forall|k: int| 0 <= k < i ==> uuid_shaped(#[trigger] file_ids@[k]@),
            decreases files@.len() - i,
        {
            file_ids.push(FileId(new_uuid_v4()));
            i = i + 1;
        }
        let job_id = JobId(new_uuid_v4());
        let session_id = new_uuid_v4();
        let now = unix_now();
        Self::from_files_with(job_type, peer_device_id, files, job_id, session_id, file_ids, now)
    }

    /// Pending to Active, started at `now`.
    pub fn accept_at(self, now: u64) -> (res: Result<Self, DomainError>)
        ensures
            res is Ok <==> self.state == TransferState::Pending,
            match res {
                Ok(j) => j@ == (TransferJobView { state: TransferState::Active { started_at: now }, ..self@ }),
                Err(e) => e == DomainError::InvalidStateTransition("Only Pending jobs can be accepted"),
            },
    {
        if !matches!(self.state, TransferState::Pending) {
            return Err(DomainError::InvalidStateTransition("Only Pending jobs can be accepted"));
        }
        let mut j = self;
        j.state = TransferState::Active { started_at: now };
        Ok(j)
    }

    /// Pending to Active, started now.
    pub fn accept(self) -> (res: Result<Self, DomainError>)
        ensures
            res is Ok <==> self.state == TransferState::Pending,
            match res {
                Ok(j) => is_active(j.state) && j@ == (TransferJobView { state: j.state, ..self@ }),
                Err(e) => e == DomainError::InvalidStateTransition("Only Pending jobs can be accepted"),
            },
    {
        let now = unix_now();
        self.accept_at(now)
    }

    /// Records that chunk `chunk_index` of file `file_id` arrived. Each item for
    /// that file counts chunks up to `chunk_index + 1` (never fewer than before)
    /// and is Verifying once all its chunks are in, Transferring otherwise.
    /// When every item is Verifying or Completed the job moves to Verifying.
    pub fn record_chunk_done(self, file_id: &FileId, chunk_index: u32) -> (res: Result<Self, DomainError>)
        requires
            is_active(self.state) && has_file(self@.items, file_id@) ==> chunk_index < u32::MAX,
        ensures
            res is Ok <==> is_active(self.state),
            match res {
                Ok(j) => {
                    let items = self@.items.map_values(|it: TransferItemView| item_after_chunk(it, file_id@, chunk_index));
                    j@ == (TransferJobView {
                        items,
                        state: if all_items_done(items) { TransferState::Verifying } else { self.state },
                        ..self@
                    })
                },
                Err(e) => e == DomainError::InvalidStateTransition("Job must be Active to record progress"),
            },
    {
        if !matches!(self.state, TransferState::Active { .. }) {
            return Err(DomainError::InvalidStateTransition("Job must be Active to record progress"));
        }
        let ghost old_items = self@.items;
        let ghost target = old_items.map_values(|it: TransferItemView| item_after_chunk(it, file_id@, chunk_index));
        let mut j = self;
        let mut i: usize = 0;
        while i < j.items.len()
            invariant
                i <= j.items@.len(),
                j.items@.len() == old_items.len(),
                j@.items.len() == old_items.len(),
                target.len() == old_items.len(),
                target == old_items.map_values(|it: TransferItemView| item_after_chunk(it, file_id@, chunk_index)),
                has_file(old_items, file_id@) ==> chunk_index < u32::MAX,
                forall|k: int| 0 <= k < i ==> #[trigger] j@.items[k] == target[k],
                forall|k: int| i <= k < old_items.len() ==> #[trigger] j@.items[k] == old_items[k],
                j.job_id == self.job_id,
                j.session_id == self.session_id,
                j.job_type == self.job_type,
                j.peer_device_id == self.peer_device_id,
                j.share_id == self.share_id,
                j.state == self.state,
                j.created_at == self.created_at,
            decreases old_items.len() - i,
        {
            proof {
                assert(j@.items[i as int] == j.items@[i as int]@);
                assert(j@.items[i as int] == old_items[i as int]);
                assert(target[i as int] == item_after_chunk(old_items[i as int], file_id@, chunk_index));
            }
            if j.items[i].file_id == *file_id {
                proof {
                    assert(old_items[i as int].file_id@ == file_id@);
                    assert(has_file(old_items, file_id@));
                }
                let next = chunk_index + 1;
                let done = if j.items[i].chunks_done >= next {
                    j.items[i].chunks_done
                } else {
                    next
                };
                let n = j.items[i].chunk_manifest.chunks.len() as u32;
                let status = if done >= n {
                    TransferItemStatus::Verifying
                } else {
                    TransferItemStatus::Transferring
                };
                let ghost before = j@.items;
                j.items[i].chunks_done = done;
                j.items[i].status = status;
                proof {
                    assert forall|k: int| 0 <= k < old_items.len() && k != i implies #[trigger] j@.items[k] == before[k] by {}
                    assert(j@.items[i as int] == target[i as int]);
                }
            }
            i = i + 1;
        }
        let mut all_done = true;
        let mut k: usize = 0;
        while k < j.items.len()
            invariant
                k <= j.items@.len(),
                j@.items.len() == j.items@.len(),
                all_done == all_items_done(j@.items.subrange(0, k as int)),
            decreases j.items@.len() - k,
        {
            proof {
                assert(j@.items[k as int] == j.items@[k as int]@);
            }
            if !matches!(j.items[k].status, TransferItemStatus::Verifying | TransferItemStatus::Completed) {
                all_done = false;
            }
            proof {
                let s = j@.items.subrange(0, k + 1);
                if all_items_done(s) {
                    assert(s[k as int] == j@.items[k as int]);
                }
            }
            k = k + 1;
        }
        proof {
            assert(j@.items.subrange(0, j.items@.len() as int) =~= j@.items);
            assert(j@.items =~= target);
        }
        if all_done {
            j.state = TransferState::Verifying;
        }
        Ok(j)
    }

    /// Active to Paused, keeping `checkpoint`.
    pub fn pause(self, checkpoint: Option<Checkpoint>) -> (res: Result<Self, DomainError>)
        ensures
            res is Ok <==> is_active(self.state),
            match res {
                Ok(j) => j@ == (TransferJobView { state: TransferState::Paused { checkpoint }, ..self@ }),
                Err(e) => e == DomainError::InvalidStateTransition("Only Active jobs can be paused"),
            },
    {
        if !matches!(self.state, TransferState::Active { .. }) {
            return Err(DomainError::InvalidStateTransition("Only Active jobs can be paused"));
        }
        let mut j = self;
        j.state = TransferState::Paused { checkpoint };
        Ok(j)
    }

    /// Paused to Active, restarted at `now`.
    pub fn resume_at(self, now: u64) -> (res: Result<Self, DomainError>)
        ensures
            res is Ok <==> is_paused(self.state),
            match res {
                Ok(j) => j@ == (TransferJobView { state: TransferState::Active { started_at: now }, ..self@ }),
                Err(e) => e == DomainError::InvalidStateTransition("Only Paused jobs can be resumed"),
            },
    {
        if !matches!(self.state, TransferState::Paused { .. }) {
            return Err(DomainError::InvalidStateTransition("Only Paused jobs can be resumed"));
        }
        let mut j = self;
        j.state = TransferState::Active { started_at: now };
        Ok(j)
    }

    /// Paused to Active, restarted now.
    pub fn resume(self) -> (res: Result<Self, DomainError>)
        ensures
            res is Ok <==> is_paused(self.state),
            match res {
                Ok(j) => is_active(j.state) && j@ == (TransferJobView { state: j.state, ..self@ }),
                Err(e) => e == DomainError::InvalidStateTransition("Only Paused jobs can be resumed"),
            },
    {
        let now = unix_now();
        self.resume_at(now)
    }

    /// Active to Verifying.
    pub fn begin_verify(self) -> (res: Result<Self, DomainError>)
        ensures
            res is Ok <==> is_active(self.state),
            match res {
                Ok(j) => j@ == (TransferJobView { state: TransferState::Verifying, ..self@ }),
                Err(e) => e == DomainError::InvalidStateTransition("Only Active jobs can begin verify"),
            },
    {
        if !matches!(self.state, TransferState::Active { .. }) {
            return Err(DomainError::InvalidStateTransition("Only Active jobs can begin verify"));
        }
        let mut j = self;
        j.state = TransferState::Verifying;
        Ok(j)
    }

    /// Verifying to Completed at `now`; every item becomes Completed.
    pub fn complete_at(self, now: u64) -> (res: Result<Self, DomainError>)
        ensures
            res is Ok <==> self.state == TransferState::Verifying,
            match res {
                Ok(j) => j@ == (TransferJobView {
                    state: TransferState::Completed { completed_at: now },
                    items: self@.items.map_values(|it: TransferItemView| TransferItemView { status: TransferItemStatus::Completed, ..it }),
                    ..self@
                }),
                Err(e) => e == DomainError::InvalidStateTransition("Job must be in Verifying state to be completed"),
            },
    {
        if !matches!(self.state, TransferState::Verifying) {
            return Err(DomainError::InvalidStateTransition("Job must be in Verifying state to be completed"));
        }
        let ghost old_items = self@.items;
        let mut j = self;
        j.state = TransferState::Completed { completed_at: now };
        let mut i: usize = 0;
        while i < j.items.len()
            invariant
                i <= j.items@.len(),
                j@.items.len() == old_items.len(),
                forall|k: int| 0 <= k < i ==> #[trigger] j@.items[k] == (TransferItemView { status: TransferItemStatus::Completed, ..old_items[k] }),
                forall|k: int| i <= k < old_items.len() ==> #[trigger] j@.items[k] == old_items[k],
                j.job_id == self.job_id,
                j.session_id == self.session_id,
                j.job_type == self.job_type,
                j.peer_device_id == self.peer_device_id,
                j.share_id == self.share_id,
                j.state == (TransferState::Completed { completed_at: now }),
                j.created_at == self.created_at,
            decreases old_items.len() - i,
        {
            let ghost before = j@.items;
            j.items[i].status = TransferItemStatus::Completed;
            proof {
                assert forall|k: int| 0 <= k < old_items.len() && k != i implies #[trigger] j@.items[k] == before[k] by {}
            }
            i = i + 1;
        }
        assert(j@.items =~= old_items.map_values(|it: TransferItemView| TransferItemView { status: TransferItemStatus::Completed, ..it }));
        Ok(j)
    }

    /// Verifying to Completed now; every item becomes Completed.
    pub fn complete(self) -> (res: Result<Self, DomainError>)
        ensures
            res is Ok <==> self.state == TransferState::Verifying,
            match res {
                Ok(j) => j.state matches TransferState::Completed { .. } && j@ == (TransferJobView {
                    state: j.state,
                    items: self@.items.map_values(|it: TransferItemView| TransferItemView { status: TransferItemStatus::Completed, ..it }),
                    ..self@
                }),
                Err(e) => e == DomainError::InvalidStateTransition("Job must be in Verifying state to be completed"),
            },
    {
        let now = unix_now();
        self.complete_at(now)
    }

    /// Records a failure. From Active, Paused or Verifying the retry count
    /// starts at 0; a further failure of a Failed job adds one.
    pub fn fail(self, error: TransferError) -> (res: Result<Self, DomainError>)
        requires
            self.state matches TransferState::Failed { retries, .. } ==> retries < u32::MAX,
        ensures
            res is Ok <==> can_fail(self.state),
            match res {
                Ok(j) => j@ == (TransferJobView {
                    state: TransferState::Failed {
                        error,
                        retries: match self.state {
                            TransferState::Failed { retries, .. } => (retries + 1) as u32,
                            _ => 0,
                        },
                    },
                    ..self@
                }),
                Err(e) => e == DomainError::InvalidStateTransition("Only Active, Paused, Verifying or Failed jobs can be failed"),
            },
    {
        match self.state {
            TransferState::Active { .. } | TransferState::Paused { .. } | TransferState::Verifying | TransferState::Failed { .. } => {},
            _ => {
                return Err(DomainError::InvalidStateTransition("Only Active, Paused, Verifying or Failed jobs can be failed"));
            },
        }
        let retries = match self.state {
            TransferState::Failed { retries, .. } => retries + 1,
            _ => 0,
        };
        let mut j = self;
        j.state = TransferState::Failed { error, retries };
        Ok(j)
    }

    /// Cancels the job, whatever its state.
    pub fn cancel(self) -> (res: Result<Self, DomainError>)
        ensures
            res matches Ok(j) && j@ == (TransferJobView { state: TransferState::Cancelled, ..self@ }),
    {
        let mut j = self;
        j.state = TransferState::Cancelled;
        Ok(j)
    }

    /// Totals over the items: a completed item counts whole; otherwise an
    /// unchunked item counts whole once it has a chunk, a chunked one counts
    /// its done chunks times the chunk size, at most its size.
    pub fn progress(&self) -> (res: TransferProgress)
        requires
            total_size(self@.items) <= u64::MAX,
            self.items@.len() <= u32::MAX,
        ensures
            res.total_bytes == total_size(self@.items),
            res.transferred_bytes == total_transferred(self@.items),
            res.total_files == self.items@.len(),
            res.completed_files == count_completed(self@.items),
            res.transferred_bytes <= res.total_bytes,
            res.completed_files <= res.total_files,
    {
        let ghost items = self@.items;
        let mut total_bytes: u64 = 0;
        let mut transferred_bytes: u64 = 0;
        let mut total_files: u32 = 0;
        let mut completed_files: u32 = 0;
        let mut i: usize = 0;
        while i < self.items.len()
            invariant
                i <= self.items@.len(),
                items == self@.items,
                items.len() == self.items@.len(),
                total_size(items) <= u64::MAX,
                self.items@.len() <= u32::MAX,
                total_bytes == total_size(items.subrange(0, i as int)),
                transferred_bytes == total_transferred(items.subrange(0, i as int)),
                total_files == i,
                completed_files == count_completed(items.subrange(0, i as int)),
            decreases self.items@.len() - i,
        {
            let item = &self.items[i];
            proof {
                let s = items.subrange(0, i + 1);
                assert(s.drop_last() =~= items.subrange(0, i as int));
                assert(s.last() == item@);
                lemma_prefix_totals(items, i + 1);
                lemma_totals_bounded(s);
                lemma_totals_bounded(items.subrange(0, i as int));
            }
            total_bytes = total_bytes + item.file_size;
            total_files = total_files + 1;
            if matches!(item.status, TransferItemStatus::Completed) {
                transferred_bytes = transferred_bytes + item.file_size;
                completed_files = completed_files + 1;
            } else {
                if item.chunk_manifest.chunk_size == 0 {
                    if item.chunks_done > 0 {
                        transferred_bytes = transferred_bytes + item.file_size;
                    }
                } else {
                    proof {
                        assert(item.chunks_done as int * item.chunk_manifest.chunk_size as int <= u32::MAX as int * u32::MAX as int) by (nonlinear_arith)
                            requires
                                item.chunks_done <= u32::MAX,
                                item.chunk_manifest.chunk_size <= u32::MAX,
                        ;
                    }
                    let done_bytes = item.chunks_done as u64 * item.chunk_manifest.chunk_size as u64;
                    if done_bytes <= item.file_size {
                        transferred_bytes = transferred_bytes + done_bytes;
                    } else {
                        transferred_bytes = transferred_bytes + item.file_size;
                    }
                }
            }
            i = i + 1;
        }
        proof {
            assert(items.subrange(0, items.len() as int) =~= items);
            lemma_totals_bounded(items);
        }
        TransferProgress { total_bytes, transferred_bytes, total_files, completed_files }
    }
}


/// The items of a job once every one of them is marked Completed.
pub open spec fn all_completed(items: Seq<TransferItemView>) -> Seq<TransferItemView> {
    items.map_values(|it: TransferItemView| TransferItemView { status: TransferItemStatus::Completed, ..it })
}

/// Once a job is complete its progress is full: every byte and every file counts.
pub proof fn lemma_completed_progress_full(items: Seq<TransferItemView>)
    ensures
        total_size(all_completed(items)) == total_size(items),
        total_transferred(all_completed(items)) == total_size(items),
        count_completed(all_completed(items)) == items.len(),
    decreases items.len(),
{
    if items.len() > 0 {
        let p = items.drop_last();
        lemma_completed_progress_full(p);
        assert(all_completed(items).drop_last() =~= all_completed(p));
        assert(all_completed(items).last() == all_completed(items)[items.len() - 1]);
    }
}

/// An arriving chunk never lowers an item's count of done chunks; for the
/// item it belongs to, the count then covers that chunk.
pub proof fn lemma_chunk_progress_monotone(it: TransferItemView, file_id: Seq<char>, chunk_index: u32)
    requires
        it.file_id@ == file_id ==> chunk_index < u32::MAX,
    ensures
        item_after_chunk(it, file_id, chunk_index).chunks_done >= it.chunks_done,
        it.file_id@ == file_id ==> item_after_chunk(it, file_id, chunk_index).chunks_done > chunk_index,
        it.file_id@ != file_id ==> item_after_chunk(it, file_id, chunk_index) == it,
        item_after_chunk(it, file_id, chunk_index).file_size == it.file_size,
        item_after_chunk(it, file_id, chunk_index).chunks == it.chunks,
{
}

/// Pausing an active job and resuming it leaves everything but its state as
/// it was, and the job is active again from the time of resuming.
pub proof fn lemma_job_pause_then_resume(job: TransferJobView, checkpoint: Option<Checkpoint>, now: u64)
    requires
        is_active(job.state),
    ensures
        is_paused((TransferJobView { state: TransferState::Paused { checkpoint }, ..job }).state),
        (TransferJobView {
            state: TransferState::Active { started_at: now },
            ..(TransferJobView { state: TransferState::Paused { checkpoint }, ..job })
        }) == (TransferJobView { state: TransferState::Active { started_at: now }, ..job }),
{
}

/// An item all of whose chunks are done counts its whole file as moved,
/// whether it was cut in pieces or sent as a single piece.
pub proof fn lemma_done_item_counts_whole(it: TransferItemView)
    requires
        layout_ok(it.chunks, it.file_size, it.chunk_size),
        it.chunks_done >= it.chunks.len(),
    ensures
        item_transferred(it) == it.file_size,
{
    if it.chunk_size != 0 && it.chunks.len() > 0 {
        let n = it.chunks.len();
        let cs = it.chunk_size as int;
        assert(it.chunks[n - 1].offset == (n - 1) * cs);
        assert(it.chunks_done as int * cs >= n * cs) by (nonlinear_arith)
            requires
                it.chunks_done as int >= n,
                cs >= 0,
        ;
        assert(n * cs == (n - 1) * cs + cs) by (nonlinear_arith);
    }
}

/// A job whose items have every chunk done shows its whole size as
/// transferred: each item, cut in pieces or sent as one piece, counts its
/// whole file once all its chunks are done.
pub proof fn lemma_all_chunks_done_full_progress(items: Seq<TransferItemView>)
    requires
        forall|k: int| 0 <= k < items.len() ==> layout_ok(#[trigger] items[k].chunks, items[k].file_size, items[k].chunk_size),
        forall|k: int| 0 <= k < items.len() ==> #[trigger] items[k].chunks_done >= items[k].chunks.len(),
    ensures
        total_transferred(items) == total_size(items),
    decreases items.len(),
{
    if items.len() > 0 {
        let p = items.drop_last();
        assert forall|k: int| 0 <= k < p.len() implies layout_ok(#[trigger] p[k].chunks, p[k].file_size, p[k].chunk_size) by {
            assert(p[k] == items[k]);
        }
        assert forall|k: int| 0 <= k < p.len() implies #[trigger] p[k].chunks_done >= p[k].chunks.len() by {
            assert(p[k] == items[k]);
        }
        lemma_all_chunks_done_full_progress(p);
        let last = items[items.len() - 1];
        assert(layout_ok(last.chunks, last.file_size, last.chunk_size));
        assert(last.chunks_done >= last.chunks.len());
        lemma_done_item_counts_whole(last);
    }
}

} // verus!
