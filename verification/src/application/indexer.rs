use vstd::prelude::*;
use crate::model::device::DeviceId;
use crate::model::file_entry::{BlockInfo, BlockList, EntryType, FileEntry, FileEntryView};
use crate::model::share::ShareId;
use crate::model::transfer::ChunkInfo;
use crate::model::version::{vv_get, vv_increment};
use crate::text::str_eq;

verus! {

/// Whether `t` occurs in `s` as a run of consecutive characters.
pub open spec fn text_contains(s: Seq<char>, t: Seq<char>) -> bool {
    exists|i: int| 0 <= i && i + t.len() <= s.len() && #[trigger] s.subrange(i, i + t.len()) == t
}

/// Whether `t` occurs in `s`.
pub fn contains_text(s: &str, t: &str) -> (res: bool)
    ensures
        res == text_contains(s@, t@),
{
    let n = s.unicode_len();
    let m = t.unicode_len();
    if m > n {
        proof {
            assert forall|i: int| !(0 <= i && i + t@.len() <= s@.len() && #[trigger] s@.subrange(i, i + t@.len()) == t@) by {}
        }
        return false;
    }
    let mut i: usize = 0;
    while i <= n - m
        invariant
            n == s@.len(),
            m == t@.len(),
            m <= n,
            i <= n - m + 1,
            forall|k: int| 0 <= k < i ==> #[trigger] s@.subrange(k, k + m) != t@,
        decreases n - m + 1 - i,
    {
        let mut j: usize = 0;
        while j < m && s.get_char(i + j) == t.get_char(j)
            invariant
                n == s@.len(),
                m == t@.len(),
                i + m <= n,
                j <= m,
                forall|q: int| 0 <= q < j ==> s@[i + q] == t@[q],
            decreases m - j,
        {
            j = j + 1;
        }
        if j == m {
            assert(s@.subrange(i as int, i + m) =~= t@);
            return true;
        }
        assert(s@.subrange(i as int, i + m)[j as int] != t@[j as int]);
        i = i + 1;
    }
    proof {
        assert forall|k: int| !(0 <= k && k + t@.len() <= s@.len() && #[trigger] s@.subrange(k, k + t@.len()) == t@) by {
            if 0 <= k && k + t@.len() <= s@.len() {
                assert(k < i);
            }
        }
    }
    false
}

/// Paths the watcher reports that belong to sync itself: temporary files
/// and conflict copies.
pub open spec fn is_sync_artifact(path: Seq<char>) -> bool {
    text_contains(path, ".lansync-tmp"@) || text_contains(path, ".sync-conflict"@)
}

/// The blocks of a file as its index records them: index, size and hash of each chunk.
pub open spec fn blocks_of(chunks: Seq<ChunkInfo>) -> Seq<BlockInfo> {
    chunks.map_values(|c: ChunkInfo| BlockInfo { index: c.index, size: c.size, hash: c.hash })
}

/// A share-relative path to test against the ignore rules.
#[derive(Debug, Clone)]
pub struct IgnoreContext {
    pub path: String,
    pub is_dir: bool,
}

/// Keeps the file index of a share in step with what the watcher reports.
pub struct IndexerService {
    pub local_device_id: DeviceId,
}

impl IndexerService {
    pub fn new(local_device_id: DeviceId) -> (res: Self)
        ensures
            res.local_device_id == local_device_id,
    {
        IndexerService { local_device_id }
    }

    /// Whether a reported path is a file sync itself writes, to be left alone.
    pub fn is_sync_artifact(path: &str) -> (res: bool)
        ensures
            res == is_sync_artifact(path@),
    {
        contains_text(path, ".lansync-tmp") || contains_text(path, ".sync-conflict")
    }

    /// Whether a share-relative path is the share's ignore-rules file.
    pub fn is_ignore_file(relative_path: &str) -> (res: bool)
        ensures
            res == (relative_path@ == ".syncignore"@),
    {
        str_eq(relative_path, ".syncignore")
    }

    /// The block list recorded for a file cut into `chunks`.
    pub fn blocks_from_chunks(chunks: Vec<ChunkInfo>) -> (res: BlockList)
        ensures
            res@ == blocks_of(chunks@),
    {
        let mut blocks: Vec<BlockInfo> = Vec::new();
        let mut i: usize = 0;
        while i < chunks.len()
            invariant
                i <= chunks@.len(),
                blocks@ == blocks_of(chunks@.subrange(0, i as int)),
            decreases chunks@.len() - i,
        {
            let c = &chunks[i];
            let ghost before = blocks@;
            blocks.push(BlockInfo { index: c.index, size: c.size, hash: c.hash.clone() });
            assert(blocks_of(chunks@.subrange(0, i + 1)) =~= before.push(blocks@.last()));
            i = i + 1;
        }
        assert(chunks@.subrange(0, i as int) =~= chunks@);
        BlockList(blocks)
    }

    /// The entry to store for a file created or modified at `timestamp` with
    /// new content: an existing entry takes the content, the time and this
    /// device as author, and a step of this device's counter; a new entry is
    /// created at `now` with that content.
    pub fn content_entry(
        &self,
        existing: Option<FileEntry>,
        share_id: ShareId,
        path: String,
        size: u64,
        sha256: String,
        chunks: Vec<ChunkInfo>,
        timestamp: u64,
        now: u64,
    ) -> (res: FileEntry)
        requires
            existing matches Some(e) ==> vv_get(e.version@, self.local_device_id@) < u64::MAX,
        ensures
            match existing {
                Some(e) => res@ == (FileEntryView {
                    size,
                    sha256: Some(sha256@),
                    blocks: blocks_of(chunks@),
                    modified_by: self.local_device_id@,
                    modified_at: timestamp,
                    version: vv_increment(e.version@, self.local_device_id@),
                    ..e@
                }),
                None => {
                    &&& res.share_id == share_id
                    &&& res.path == path
                    &&& res.entry_type == EntryType::File
                    &&& res.size == size
                    &&& res.sha256 == Some(sha256)
                    &&& res@.blocks == blocks_of(chunks@)
                    &&& res.modified_at == now
                    &&& res.modified_by == self.local_device_id
                    &&& res.version@ == Map::<Seq<char>, u64>::empty().insert(self.local_device_id@, 1)
                    &&& !res.deleted
                },
            },
    {
        let blocks = Self::blocks_from_chunks(chunks);
        match existing {
            Some(e) => e.update_content_at(size, sha256, blocks, &self.local_device_id, timestamp),
            None => {
                let mut e = FileEntry::new_at(share_id, path, EntryType::File, &self.local_device_id, now);
                e.size = size;
                e.sha256 = Some(sha256);
                e.blocks = blocks;
                e
            },
        }
    }

    /// The tombstone to store for a deleted file that the index knows; none otherwise.
    pub fn deletion_entry(&self, existing: Option<FileEntry>) -> (res: Option<FileEntry>)
        requires
            existing matches Some(e) ==> vv_get(e.version@, self.local_device_id@) < u64::MAX,
        ensures
            match existing {
                Some(e) => res matches Some(d) && d.deleted_at.is_some() && d@ == (FileEntryView {
                    deleted: true,
                    deleted_at: d.deleted_at,
                    modified_by: self.local_device_id@,
                    version: vv_increment(e.version@, self.local_device_id@),
                    ..e@
                }),
                None => res is None,
            },
    {
        match existing {
            Some(e) => Some(e.mark_deleted(&self.local_device_id)),
            None => None,
        }
    }
}

} // verus!
