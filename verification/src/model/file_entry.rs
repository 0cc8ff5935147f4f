use vstd::prelude::*;
use crate::clock::unix_now;
use crate::model::device::DeviceId;
use crate::model::share::ShareId;
use crate::model::version::{VersionVector, vv_get, vv_increment, vv_merge};

verus! {

#[derive(Debug, Clone, Copy, PartialEq, Eq, Structural)]
pub enum EntryType {
    File,
    Directory,
    Symlink,
}

/// One content block of a file, addressed by its BLAKE3 hash.
#[derive(Debug)]
pub struct BlockInfo {
    pub index: u32,
    pub size: u32,
    pub hash: String,
}

impl Clone for BlockInfo {
    fn clone(&self) -> (res: Self)
        ensures
            res == *self,
    {
        BlockInfo { index: self.index, size: self.size, hash: self.hash.clone() }
    }
}

#[derive(Debug)]
pub struct BlockList(pub Vec<BlockInfo>);

impl View for BlockList {
    type V = Seq<BlockInfo>;

    open spec fn view(&self) -> Seq<BlockInfo> {
        self.0@
    }
}

impl Clone for BlockList {
    fn clone(&self) -> (res: Self)
        ensures
            res@ == self@,
    {
        let v = self.0.clone();
        assert(v@ =~= self.0@);
        BlockList(v)
    }
}

/// What a file entry denotes, with every text as its characters.
pub struct FileEntryView {
    pub share_id: Seq<char>,
    pub path: Seq<char>,
    pub entry_type: EntryType,
    pub size: u64,
    pub modified_at: u64,
    pub modified_by: Seq<char>,
    pub version: Map<Seq<char>, u64>,
    pub sha256: Option<Seq<char>>,
    pub blocks: Seq<BlockInfo>,
    pub deleted: bool,
    pub deleted_at: Option<u64>,
}

pub open spec fn opt_string_view(s: Option<String>) -> Option<Seq<char>> {
    match s {
        Some(t) => Some(t@),
        None => None,
    }
}

/// The index record of one path inside a share.
#[derive(Debug)]
pub struct FileEntry {
    pub share_id: ShareId,
    pub path: String,
    pub entry_type: EntryType,
    pub size: u64,
    pub modified_at: u64,
    pub modified_by: DeviceId,
    pub version: VersionVector,
    pub sha256: Option<String>,
    pub blocks: BlockList,
    pub deleted: bool,
    pub deleted_at: Option<u64>,
}

impl View for FileEntry {
    type V = FileEntryView;

    open spec fn view(&self) -> FileEntryView {
        FileEntryView {
            share_id: self.share_id@,
            path: self.path@,
            entry_type: self.entry_type,
            size: self.size,
            modified_at: self.modified_at,
            modified_by: self.modified_by@,
            version: self.version@,
            sha256: opt_string_view(self.sha256),
            blocks: self.blocks@,
            deleted: self.deleted,
            deleted_at: self.deleted_at,
        }
    }
}

impl Clone for FileEntry {
    fn clone(&self) -> (res: Self)
        ensures
            res@ == self@,
    {
        let sha256 = match &self.sha256 {
            Some(s) => Some(s.clone()),
            None => None,
        };
        FileEntry {
            share_id: self.share_id.clone(),
            path: self.path.clone(),
            entry_type: self.entry_type,
            size: self.size,
            modified_at: self.modified_at,
            modified_by: self.modified_by.clone(),
            version: self.version.clone(),
            sha256,
            blocks: self.blocks.clone(),
            deleted: self.deleted,
            deleted_at: self.deleted_at,
        }
    }
}

impl FileEntry {
    /// A fresh entry created by `device_id` at time `now`: empty content,
    /// version {device_id: 1}.
    pub fn new_at(share_id: ShareId, path: String, entry_type: EntryType, device_id: &DeviceId, now: u64) -> (res: Self)
        ensures
            res.share_id == share_id,
            res.path == path,
            res.entry_type == entry_type,
            res.size == 0,
            res.modified_at == now,
            res.modified_by == *device_id,
            res.version@ == Map::<Seq<char>, u64>::empty().insert(device_id@, 1),
            res.sha256.is_none(),
            res@.blocks.len() == 0,
            !res.deleted,
            res.deleted_at.is_none(),
    {
        let v = VersionVector::new().increment(device_id);
        assert(v@ =~= Map::<Seq<char>, u64>::empty().insert(device_id@, 1));
        FileEntry {
            share_id,
            path,
            entry_type,
            size: 0,
            modified_at: now,
            modified_by: device_id.clone(),
            version: v,
            sha256: None,
            blocks: BlockList(Vec::new()),
            deleted: false,
            deleted_at: None,
        }
    }

    /// A fresh entry stamped with the current time; see [`FileEntry::new_at`].
    pub fn new(share_id: ShareId, path: String, entry_type: EntryType, device_id: &DeviceId) -> (res: Self)
        ensures
            res.share_id == share_id,
            res.path == path,
            res.entry_type == entry_type,
            res.size == 0,
            res.modified_by == *device_id,
            res.version@ == Map::<Seq<char>, u64>::empty().insert(device_id@, 1),
            res.sha256.is_none(),
            res@.blocks.len() == 0,
            !res.deleted,
            res.deleted_at.is_none(),
    {
        let now = unix_now();
        Self::new_at(share_id, path, entry_type, device_id, now)
    }

    /// New content written by `device_id` at time `now`.
    pub fn update_content_at(self, size: u64, sha256: String, blocks: BlockList, device_id: &DeviceId, now: u64) -> (res: Self)
        requires
            vv_get(self.version@, device_id@) < u64::MAX,
        ensures
            res@ == (FileEntryView {
                size,
                sha256: Some(sha256@),
                blocks: blocks@,
                modified_by: device_id@,
                modified_at: now,
                version: vv_increment(self.version@, device_id@),
                ..self@
            }),
    {
        let mut s = self;
        s.size = size;
        s.sha256 = Some(sha256);
        s.blocks = blocks;
        s.modified_by = device_id.clone();
        s.modified_at = now;
        s.version = s.version.increment(device_id);
        s
    }

    /// New content written by `device_id`, stamped with the current time.
    pub fn update_content(self, size: u64, sha256: String, blocks: BlockList, device_id: &DeviceId) -> (res: Self)
        requires
            vv_get(self.version@, device_id@) < u64::MAX,
        ensures
            res@ == (FileEntryView {
                size,
                sha256: Some(sha256@),
                blocks: blocks@,
                modified_by: device_id@,
                modified_at: res.modified_at,
                version: vv_increment(self.version@, device_id@),
                ..self@
            }),
    {
        let now = unix_now();
        self.update_content_at(size, sha256, blocks, device_id, now)
    }

    /// Turns the entry into a tombstone deleted by `device_id` at time `now`.
    pub fn mark_deleted_at(self, device_id: &DeviceId, now: u64) -> (res: Self)
        requires
            vv_get(self.version@, device_id@) < u64::MAX,
        ensures
            res@ == (FileEntryView {
                deleted: true,
                deleted_at: Some(now),
                modified_by: device_id@,
                version: vv_increment(self.version@, device_id@),
                ..self@
            }),
    {
        let mut s = self;
        s.deleted = true;
        s.deleted_at = Some(now);
        s.modified_by = device_id.clone();
        s.version = s.version.increment(device_id);
        s
    }

    /// Turns the entry into a tombstone, stamped with the current time.
    pub fn mark_deleted(self, device_id: &DeviceId) -> (res: Self)
        requires
            vv_get(self.version@, device_id@) < u64::MAX,
        ensures
            res.deleted_at.is_some(),
            res@ == (FileEntryView {
                deleted: true,
                deleted_at: res.deleted_at,
                modified_by: device_id@,
                version: vv_increment(self.version@, device_id@),
                ..self@
            }),
    {
        let now = unix_now();
        self.mark_deleted_at(device_id, now)
    }

    /// Folds the remote version into this entry's version; nothing else changes.
    pub fn apply_remote_version(self, remote: &FileEntry) -> (res: Self)
        ensures
            res@ == (FileEntryView { version: vv_merge(self.version@, remote.version@), ..self@ }),
    {
        let mut s = self;
        s.version = s.version.merge(&remote.version);
        s
    }
}

#[derive(Debug, Clone, Copy, PartialEq, Eq, Structural)]
pub enum SyncStatus {
    Idle,
    Syncing,
    HasConflicts,
    Paused,
}

/// One file to move between peers.
#[derive(Debug)]
pub struct SyncAction {
    pub path: String,
    pub entry: FileEntry,
    pub missing_blocks: Vec<u32>,
}

pub struct SyncActionView {
    pub path: Seq<char>,
    pub entry: FileEntryView,
    pub missing_blocks: Seq<u32>,
}

impl View for SyncAction {
    type V = SyncActionView;

    open spec fn view(&self) -> SyncActionView {
        SyncActionView { path: self.path@, entry: self.entry@, missing_blocks: self.missing_blocks@ }
    }
}

/// How a conflicting pair of versions is settled.
#[derive(Debug)]
pub enum ConflictResolution {
    Pending,
    KeepLocal,
    KeepRemote,
    KeepBoth { conflict_copy_path: String },
}

pub enum ConflictResolutionView {
    Pending,
    KeepLocal,
    KeepRemote,
    KeepBoth { conflict_copy_path: Seq<char> },
}

impl View for ConflictResolution {
    type V = ConflictResolutionView;

    open spec fn view(&self) -> ConflictResolutionView {
        match self {
            ConflictResolution::Pending => ConflictResolutionView::Pending,
            ConflictResolution::KeepLocal => ConflictResolutionView::KeepLocal,
            ConflictResolution::KeepRemote => ConflictResolutionView::KeepRemote,
            ConflictResolution::KeepBoth { conflict_copy_path } => ConflictResolutionView::KeepBoth {
                conflict_copy_path: conflict_copy_path@,
            },
        }
    }
}

/// A path whose local and remote versions diverged.
#[derive(Debug)]
pub struct SyncConflict {
    pub path: String,
    pub local: FileEntry,
    pub remote: FileEntry,
    pub resolution: ConflictResolution,
}

impl Clone for ConflictResolution {
    fn clone(&self) -> (res: Self)
        ensures
            res == *self,
    {
        match self {
            ConflictResolution::Pending => ConflictResolution::Pending,
            ConflictResolution::KeepLocal => ConflictResolution::KeepLocal,
            ConflictResolution::KeepRemote => ConflictResolution::KeepRemote,
            ConflictResolution::KeepBoth { conflict_copy_path } => ConflictResolution::KeepBoth {
                conflict_copy_path: conflict_copy_path.clone(),
            },
        }
    }
}

impl Clone for SyncConflict {
    fn clone(&self) -> (res: Self)
        ensures
            res.path == self.path,
            res.local@ == self.local@,
            res.remote@ == self.remote@,
            res.resolution == self.resolution,
    {
        SyncConflict {
            path: self.path.clone(),
            local: self.local.clone(),
            remote: self.remote.clone(),
            resolution: self.resolution.clone(),
        }
    }
}

pub struct SyncConflictView {
    pub path: Seq<char>,
    pub local: FileEntryView,
    pub remote: FileEntryView,
    pub resolution: ConflictResolutionView,
}

impl View for SyncConflict {
    type V = SyncConflictView;

    open spec fn view(&self) -> SyncConflictView {
        SyncConflictView { path: self.path@, local: self.local@, remote: self.remote@, resolution: self.resolution@ }
    }
}

/// What one synchronisation round will do.
#[derive(Debug)]
pub struct SyncPlan {
    pub to_pull: Vec<SyncAction>,
    pub to_push: Vec<SyncAction>,
    pub conflicts: Vec<SyncConflict>,
    pub unchanged: Vec<String>,
}

/// A synchronisation round between this device and one peer.
#[derive(Debug)]
pub struct SyncSession {
    pub session_id: String,
    pub share_id: ShareId,
    pub peer_device_id: DeviceId,
    pub status: SyncStatus,
    pub plan: Option<SyncPlan>,
    pub started_at: Option<u64>,
}

/// The remains of a deleted path.
#[derive(Debug)]
pub struct Tombstone {
    pub share_id: ShareId,
    pub path: String,
    pub deleted_at: u64,
    pub version: VersionVector,
}

} // verus!
