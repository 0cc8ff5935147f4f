use vstd::prelude::*;
use crate::error::DomainError;
use crate::events::{ConflictDetected, SyncCompleted};
use crate::model::device::{Device, DeviceId, DeviceState};
use crate::model::file_entry::{ConflictResolution, FileEntry, FileEntryView, SyncAction, SyncConflict, SyncPlan};
use crate::model::share::{Share, SharePermission, permission_of};
use crate::model::transfer::{
    FileRequest, TransferItemStatus, TransferItemView, TransferJob, TransferState, TransferType, file_size_fits,
    hashes_empty, layout_ok, new_item_ok,
};
use crate::service::chunking::spec_chunk_size;
use crate::model::version::vv_merge;
use crate::service::conflict_resolver::{can_shorten, resolve_ok, short_device_ok};
use crate::text::{str_eq, str_lt};
use crate::service::sync_plan::{
    SyncPlanGenerator, all_paths, conflicts_resolvable, last_entry, last_index, lemma_last_index_bounds, plan_over,
};
use crate::model::version::vv_le;
use crate::discovery::texts;

verus! {

/// Every entry's author id can be cut for a conflict copy name.
pub open spec fn all_shortenable(index: Seq<FileEntry>) -> bool {
    forall|i: int| 0 <= i < index.len() ==> short_device_ok(#[trigger] index[i].modified_by@)
}

/// Indexes whose authors can all be shortened hold only resolvable conflicts.
pub proof fn lemma_shortenable_resolvable(local: Seq<FileEntry>, remote: Seq<FileEntry>)
    requires
        all_shortenable(local),
        all_shortenable(remote),
    ensures
        conflicts_resolvable(local, remote),
{
    assert forall|p: Seq<char>|
        #![trigger last_entry(local, p), last_entry(remote, p)]
        last_entry(local, p) is Some && last_entry(remote, p) is Some
            && !vv_le(last_entry(local, p)->0.version, last_entry(remote, p)->0.version)
            && !vv_le(last_entry(remote, p)->0.version, last_entry(local, p)->0.version)
            implies resolve_ok(last_entry(local, p)->0, last_entry(remote, p)->0) by {
        lemma_last_index_bounds(local, p);
        lemma_last_index_bounds(remote, p);
        let i = last_index(local, p);
        let j = last_index(remote, p);
        assert(short_device_ok(local[i].modified_by@));
        assert(short_device_ok(remote[j].modified_by@));
    }
}

proof fn lemma_last_index_is(index: Seq<FileEntry>, p: Seq<char>, j: int)
    requires
        0 <= j < index.len(),
        index[j].path@ == p,
        forall|k: int| j < k < index.len() ==> #[trigger] index[k].path@ != p,
    ensures
        last_index(index, p) == j,
    decreases index.len(),
{
    if j < index.len() - 1 {
        let t = index.drop_last();
        assert(index.last() == index[index.len() - 1]);
        assert forall|k: int| j < k < t.len() implies #[trigger] t[k].path@ != p by {
            assert(t[k] == index[k]);
        }
        lemma_last_index_is(t, p, j);
    }
}

proof fn lemma_no_path(index: Seq<FileEntry>, p: Seq<char>)
    requires
        forall|k: int| 0 <= k < index.len() ==> #[trigger] index[k].path@ != p,
    ensures
        last_index(index, p) == -1,
    decreases index.len(),
{
    if index.len() > 0 {
        let t = index.drop_last();
        assert(index.last() == index[index.len() - 1]);
        assert forall|k: int| 0 <= k < t.len() implies #[trigger] t[k].path@ != p by {
            assert(t[k] == index[k]);
        }
        lemma_no_path(t, p);
    }
}

/// Position of the last entry of `index` with path `p`, if any.
fn find_last_entry(index: &[FileEntry], p: &str) -> (res: Option<usize>)
    ensures
        match res {
            Some(j) => j == last_index(index@, p@) && j < index@.len(),
            None => last_index(index@, p@) == -1,
        },
{
    let mut i: usize = index.len();
    while i > 0
        invariant
            i <= index@.len(),
            forall|k: int| i <= k < index@.len() ==> #[trigger] index@[k].path@ != p@,
        decreases i,
    {
        i = i - 1;
        if str_eq(index[i].path.as_str(), p) {
            proof {
                lemma_last_index_is(index@, p@, i as int);
            }
            return Some(i);
        }
    }
    proof {
        lemma_no_path(index@, p@);
    }
    None
}

/// Whether resolving the pair `local`, `remote` cuts only author ids that can be cut.
fn pair_resolvable(local: &FileEntry, remote: &FileEntry) -> (res: bool)
    ensures
        res == resolve_ok(local@, remote@),
{
    if local.deleted || remote.deleted {
        true
    } else if local.modified_at > remote.modified_at {
        can_shorten(remote.modified_by.0.as_str())
    } else if remote.modified_at > local.modified_at {
        can_shorten(local.modified_by.0.as_str())
    } else if str_lt(remote.modified_by.0.as_str(), local.modified_by.0.as_str()) {
        can_shorten(remote.modified_by.0.as_str())
    } else if str_lt(local.modified_by.0.as_str(), remote.modified_by.0.as_str()) {
        can_shorten(local.modified_by.0.as_str())
    } else {
        true
    }
}

/// Whether a plan over `local` and `remote` can resolve each of its conflicts
/// (see [`conflicts_resolvable`]): for every path whose last local and last
/// remote entries conflict, the author id of the losing side can be cut.
pub fn plan_resolvable(local: &[FileEntry], remote: &[FileEntry]) -> (res: bool)
    ensures
        res == conflicts_resolvable(local@, remote@),
{
    let mut i: usize = 0;
    while i < local.len()
        invariant
            i <= local@.len(),
            forall|p: Seq<char>|
                #![trigger last_entry(local@, p), last_entry(remote@, p)]
                last_index(local@, p) < i && last_entry(local@, p) is Some && last_entry(remote@, p) is Some
                    && !vv_le(last_entry(local@, p)->0.version, last_entry(remote@, p)->0.version)
                    && !vv_le(last_entry(remote@, p)->0.version, last_entry(local@, p)->0.version)
                    ==> resolve_ok(last_entry(local@, p)->0, last_entry(remote@, p)->0),
        decreases local@.len() - i,
    {
        let p = local[i].path.as_str();
        let ghost pv = local@[i as int].path@;
        let mine = find_last_entry(local, p);
        let theirs = find_last_entry(remote, p);
        let mut ok = true;
        match (mine, theirs) {
            (Some(a), Some(b)) => {
                if a == i && !local[i].version.is_ancestor_of(&remote[b].version)
                    && !remote[b].version.is_ancestor_of(&local[i].version) && !pair_resolvable(&local[i], &remote[b]) {
                    ok = false;
                }
            },
            _ => {},
        }
        if !ok {
            proof {
                assert(last_entry(local@, pv) == Some(local@[i as int]@));
                let b = last_index(remote@, pv);
                assert(last_entry(remote@, pv) == Some(remote@[b]@));
                assert(!(last_entry(local@, pv) is Some && last_entry(remote@, pv) is Some
                    && !vv_le(last_entry(local@, pv)->0.version, last_entry(remote@, pv)->0.version)
                    && !vv_le(last_entry(remote@, pv)->0.version, last_entry(local@, pv)->0.version)
                    ==> resolve_ok(last_entry(local@, pv)->0, last_entry(remote@, pv)->0)));
            }
            return false;
        }
        proof {
            assert forall|q: Seq<char>|
                #![trigger last_entry(local@, q), last_entry(remote@, q)]
                last_index(local@, q) < i + 1 && last_entry(local@, q) is Some && last_entry(remote@, q) is Some
                    && !vv_le(last_entry(local@, q)->0.version, last_entry(remote@, q)->0.version)
                    && !vv_le(last_entry(remote@, q)->0.version, last_entry(local@, q)->0.version)
                    implies resolve_ok(last_entry(local@, q)->0, last_entry(remote@, q)->0) by {
                lemma_last_index_bounds(local@, q);
                if last_index(local@, q) == i {
                    assert(q == pv);
                    lemma_last_index_bounds(remote@, q);
                }
            }
        }
        i = i + 1;
    }
    proof {
        assert forall|q: Seq<char>|
            #![trigger last_entry(local@, q), last_entry(remote@, q)]
            last_entry(local@, q) is Some && last_entry(remote@, q) is Some
                && !vv_le(last_entry(local@, q)->0.version, last_entry(remote@, q)->0.version)
                && !vv_le(last_entry(remote@, q)->0.version, last_entry(local@, q)->0.version)
                implies resolve_ok(last_entry(local@, q)->0, last_entry(remote@, q)->0) by {
            lemma_last_index_bounds(local@, q);
        }
    }
    true
}

/// Whether every entry's author id can be cut for a conflict copy name.
pub fn index_shortenable(index: &[FileEntry]) -> (res: bool)
    ensures
        res == all_shortenable(index@),
{
    let mut i: usize = 0;
    while i < index.len()
        invariant
            i <= index@.len(),
            forall|k: int| 0 <= k < i ==> short_device_ok(#[trigger] index@[k].modified_by@),
        decreases index@.len() - i,
    {
        if !can_shorten(index[i].modified_by.0.as_str()) {
            assert(!short_device_ok(index@[i as int].modified_by@));
            return false;
        }
        i = i + 1;
    }
    true
}


/// Where a peer can be reached: a known, paired device's address.
pub fn peer_address(peer: &DeviceId, device: Option<&Device>) -> (res: Result<String, DomainError>)
    ensures
        match device {
            None => res matches Err(DomainError::DeviceNotFound(m)) && m@ == peer@,
            Some(d) => match d.state {
                DeviceState::Paired(data) => res matches Ok(a) && a == data.address,
                _ => res matches Err(DomainError::DeviceNotTrusted(m)) && m@ == peer@,
            },
        },
{
    match device {
        None => Err(DomainError::DeviceNotFound(peer.0.clone())),
        Some(d) => match &d.state {
            DeviceState::Paired(data) => Ok(data.address.clone()),
            _ => Err(DomainError::DeviceNotTrusted(peer.0.clone())),
        },
    }
}

/// The kind of one component of a path, as `std::path::Component` tells them apart.
#[derive(Debug, Clone, Copy, PartialEq, Eq, Structural)]
pub enum PathPart {
    Prefix,
    RootDir,
    CurDir,
    ParentDir,
    Normal,
}

/// A path that no platform reads as rooted or prefixed: it has no `\` and
/// no `:`, and does not start with `/`. Both `/` and `\` separate on
/// Windows, only `/` elsewhere; prefixes (`C:`, `\\server`, `//server`)
/// need a `:` or a leading separator.
pub open spec fn plain_relative(p: Seq<char>) -> bool {
    &&& p.len() > 0 ==> p[0] != '/'
    &&& forall|i: int| 0 <= i < p.len() ==> #[trigger] p[i] != '\\' && p[i] != ':'
}

/// `p` holds a `..` segment: two dots bounded by `/` or the ends of `p`.
pub open spec fn has_dotdot_segment(p: Seq<char>) -> bool {
    exists|i: int| #![trigger p[i], p[i + 1]]
        0 <= i && i + 2 <= p.len() && p[i] == '.' && p[i + 1] == '.'
        && (i == 0 || p[i - 1] == '/') && (i + 2 == p.len() || p[i + 2] == '/')
}

/// Whether `std::path::Path::is_absolute` holds of `p`. On Unix a path is
/// absolute when it starts with the root, on Windows when it has a prefix
/// and starts with the root; the platform is the build target's, so for a
/// given build this depends on `p` alone.
pub uninterp spec fn path_absolute(p: Seq<char>) -> bool;

/// The kinds of the components `std::path::Path::components` splits `p`
/// into, in order, on the build target's platform.
pub uninterp spec fn path_components(p: Seq<char>) -> Seq<PathPart>;

/// Calls `std::path::Path::is_absolute`; the result is named
/// `path_absolute`. What holds on every platform is stated too: a plain
/// relative path is not absolute.
#[verifier::external_body]
fn path_is_absolute(p: &str) -> (res: bool)
    ensures
        res == path_absolute(p@),
        plain_relative(p@) ==> !res,
{
    std::path::Path::new(p).is_absolute()
}

/// Calls `std::path::Path::components` and keeps the kind of each component;
/// the result is named `path_components`. What holds everywhere, after the
/// documentation of `Component`, is stated too: a leading `/` gives a root
/// (or, on Windows, a prefix) first; a plain relative path gives no root and
/// no prefix, and a parent component exactly where it has a `..` segment.
#[verifier::external_body]
fn path_parts(p: &str) -> (res: Vec<PathPart>)
    ensures
        res@ == path_components(p@),
        p@.len() > 0 && p@[0] == '/' ==> res@.len() > 0 && (res@[0] == PathPart::RootDir || res@[0] == PathPart::Prefix),
        plain_relative(p@) ==> forall|k: int| 0 <= k < res@.len() ==> #[trigger] res@[k] != PathPart::RootDir && res@[k] != PathPart::Prefix,
        plain_relative(p@) ==> (has_dotdot_segment(p@) <==> exists|k: int| 0 <= k < res@.len() && #[trigger] res@[k] == PathPart::ParentDir),
{
    std::path::Path::new(p).components().map(|c| match c {
        std::path::Component::Prefix(_) => PathPart::Prefix,
        std::path::Component::RootDir => PathPart::RootDir,
        std::path::Component::CurDir => PathPart::CurDir,
        std::path::Component::ParentDir => PathPart::ParentDir,
        std::path::Component::Normal(_) => PathPart::Normal,
    }).collect()
}

/// A component that leaves the share: a parent, a prefix or a root.
pub open spec fn bad_part(c: PathPart) -> bool {
    c == PathPart::ParentDir || c == PathPart::Prefix || c == PathPart::RootDir
}

/// A path a peer may name: not absolute, and no component leaves the share.
pub open spec fn path_ok(p: Seq<char>) -> bool {
    &&& !path_absolute(p)
    &&& forall|k: int| 0 <= k < path_components(p).len() ==> !bad_part(#[trigger] path_components(p)[k])
}

/// Why a path that is not [`path_ok`] is refused: its absoluteness first,
/// else its first component that leaves the share.
pub open spec fn refusal_text(p: Seq<char>) -> Seq<char> {
    if path_absolute(p) {
        "absolute path not allow: "@ + p
    } else if path_components(p)[first_bad_part(path_components(p))] == PathPart::ParentDir {
        "path traversal denied: "@ + p
    } else {
        "absolute/root path denied: "@ + p
    }
}

/// Position of the first component that is a parent, a prefix or a root.
pub open spec fn first_bad_part(parts: Seq<PathPart>) -> int
    decreases parts.len(),
{
    if parts.len() == 0 {
        0
    } else if parts[0] == PathPart::ParentDir || parts[0] == PathPart::Prefix || parts[0] == PathPart::RootDir {
        0
    } else {
        1 + first_bad_part(parts.drop_first())
    }
}

proof fn lemma_first_bad_part(parts: Seq<PathPart>, i: int)
    requires
        0 <= i <= parts.len(),
        forall|j: int| 0 <= j < i ==> !(#[trigger] parts[j] == PathPart::ParentDir || parts[j] == PathPart::Prefix || parts[j] == PathPart::RootDir),
        i == parts.len() || parts[i] == PathPart::ParentDir || parts[i] == PathPart::Prefix || parts[i] == PathPart::RootDir,
    ensures
        first_bad_part(parts) == i,
    decreases i,
{
    if i > 0 {
        let t = parts.drop_first();
        assert forall|j: int| 0 <= j < i - 1 implies !(#[trigger] t[j] == PathPart::ParentDir || t[j] == PathPart::Prefix || t[j] == PathPart::RootDir) by {
            assert(t[j] == parts[j + 1]);
        }
        lemma_first_bad_part(t, i - 1);
    }
}

proof fn lemma_first_bad_part_bounds(parts: Seq<PathPart>)
    ensures
        0 <= first_bad_part(parts) <= parts.len(),
        first_bad_part(parts) < parts.len() ==> (parts[first_bad_part(parts)] == PathPart::ParentDir
            || parts[first_bad_part(parts)] == PathPart::Prefix || parts[first_bad_part(parts)] == PathPart::RootDir),
    decreases parts.len(),
{
    if parts.len() > 0 && !(parts[0] == PathPart::ParentDir || parts[0] == PathPart::Prefix || parts[0] == PathPart::RootDir) {
        let t = parts.drop_first();
        lemma_first_bad_part_bounds(t);
        if first_bad_part(t) < t.len() {
            assert(parts[first_bad_part(parts)] == t[first_bad_part(t)]);
        }
    }
}

proof fn lemma_first_bad_part_at_most(parts: Seq<PathPart>, k: int)
    requires
        0 <= k < parts.len(),
        parts[k] == PathPart::ParentDir || parts[k] == PathPart::Prefix || parts[k] == PathPart::RootDir,
    ensures
        first_bad_part(parts) <= k,
    decreases k,
{
    if k > 0 && !(parts[0] == PathPart::ParentDir || parts[0] == PathPart::Prefix || parts[0] == PathPart::RootDir) {
        let t = parts.drop_first();
        assert(t[k - 1] == parts[k]);
        lemma_first_bad_part_at_most(t, k - 1);
    }
}

/// A path a peer may name must be relative and stay inside the share: the
/// decision, given whether the path is absolute and the kinds of its components.
pub fn check_relative_path(p: &str, is_absolute: bool, parts: &Vec<PathPart>) -> (res: Result<(), DomainError>)
    ensures
        is_absolute ==> (res matches Err(DomainError::PermissionDenied(m)) && m@ == "absolute path not allow: "@ + p@),
        !is_absolute && first_bad_part(parts@) < parts@.len() ==> (res matches Err(DomainError::PermissionDenied(m))
            && m@ == (if parts@[first_bad_part(parts@)] == PathPart::ParentDir {
                "path traversal denied: "@
            } else {
                "absolute/root path denied: "@
            }) + p@),
        !is_absolute && first_bad_part(parts@) >= parts@.len() ==> res is Ok,
{
    if is_absolute {
        let mut m = "absolute path not allow: ".to_string();
        m.append(p);
        return Err(DomainError::PermissionDenied(m));
    }
    let mut i: usize = 0;
    while i < parts.len()
        invariant
            !is_absolute,
            i <= parts@.len(),
            forall|j: int| 0 <= j < i ==> !(#[trigger] parts@[j] == PathPart::ParentDir || parts@[j] == PathPart::Prefix || parts@[j] == PathPart::RootDir),
        decreases parts@.len() - i,
    {
        match parts[i] {
            PathPart::ParentDir => {
                proof {
                    lemma_first_bad_part(parts@, i as int);
                }
                let mut m = "path traversal denied: ".to_string();
                m.append(p);
                return Err(DomainError::PermissionDenied(m));
            },
            PathPart::Prefix | PathPart::RootDir => {
                proof {
                    lemma_first_bad_part(parts@, i as int);
                }
                let mut m = "absolute/root path denied: ".to_string();
                m.append(p);
                return Err(DomainError::PermissionDenied(m));
            },
            _ => {},
        }
        i = i + 1;
    }
    proof {
        lemma_first_bad_part(parts@, i as int);
    }
    Ok(())
}

/// The permission a share gives `peer`: that of its membership, ReadOnly when it has none.
pub open spec fn peer_permission(share: &Share, peer: Seq<char>) -> SharePermission {
    match permission_of(share.members@, peer) {
        Some(p) => p,
        None => SharePermission::ReadOnly,
    }
}

/// The file a sync action moves.
pub open spec fn request_of(e: FileEntryView) -> (Seq<char>, u64, Seq<char>) {
    (e.path, e.size, match e.sha256 {
        Some(h) => h,
        None => Seq::empty(),
    })
}

pub open spec fn request_matches(r: FileRequest, e: FileEntryView) -> bool {
    (r.file_path@, r.file_size, r.sha256@) == request_of(e)
}

/// A path `validate_relative_path` is known to accept on every platform.
pub open spec fn path_accepted(p: Seq<char>) -> bool {
    plain_relative(p) && !has_dotdot_segment(p)
}

/// A path `validate_relative_path` is known to refuse on every platform.
pub open spec fn path_refused(p: Seq<char>) -> bool {
    (p.len() > 0 && p[0] == '/') || (plain_relative(p) && has_dotdot_segment(p))
}

/// The paths a conflict names: its own and, when both sides are kept, the copy's.
pub open spec fn conflict_paths_of(c: SyncConflict) -> Seq<Seq<char>> {
    match c.resolution {
        ConflictResolution::KeepBoth { conflict_copy_path } => seq![c.path@, conflict_copy_path@],
        _ => seq![c.path@],
    }
}

/// The paths the conflicts name, conflict by conflict.
pub open spec fn conflict_path_list(cs: Seq<SyncConflict>) -> Seq<Seq<char>>
    decreases cs.len(),
{
    if cs.len() == 0 {
        Seq::empty()
    } else {
        conflict_path_list(cs.drop_last()) + conflict_paths_of(cs.last())
    }
}

/// The paths of some sync actions, in order.
pub open spec fn action_paths(actions: Seq<SyncAction>) -> Seq<Seq<char>> {
    actions.map_values(|a: SyncAction| a.path@)
}

/// Every path a plan reads or writes, in the order they are checked: pulls,
/// pushes, then each conflict and its copy.
pub open spec fn plan_paths(plan: &SyncPlan) -> Seq<Seq<char>> {
    action_paths(plan.to_pull@) + action_paths(plan.to_push@) + conflict_path_list(plan.conflicts@)
}

/// A transfer item as a new job lays it out: pending, nothing done yet, cut
/// into unhashed chunks of the size its file size calls for.
pub open spec fn fresh_item(it: TransferItemView) -> bool {
    &&& it.status == TransferItemStatus::Pending
    &&& it.chunks_done == 0
    &&& it.chunk_size == spec_chunk_size(it.file_size)
    &&& layout_ok(it.chunks, it.file_size, it.chunk_size)
    &&& hashes_empty(it.chunks)
    &&& it.temp_path.is_none()
}

/// One sync round with a peer, decided step by step: permission, plan,
/// transfer jobs for the plan, and the index entries to store afterwards.
pub struct HttpSyncFlow {
    pub local_device_id: DeviceId,
}

impl HttpSyncFlow {
    pub fn new(local_device_id: DeviceId) -> (res: Self)
        ensures
            res.local_device_id == local_device_id,
    {
        HttpSyncFlow { local_device_id }
    }

    /// Checks a path named in a plan; see [`check_relative_path`]. It is
    /// refused exactly when the platform reads it as absolute or one of its
    /// components is a parent, a prefix or a root, with the first such reason
    /// as the message. On every platform that means: a path starting with `/`
    /// is refused, and a plain relative path is refused as a traversal
    /// exactly when it has a `..` segment.
    pub fn validate_relative_path(p: &str) -> (res: Result<(), DomainError>)
        ensures
            res is Ok <==> path_ok(p@),
            res matches Err(e) ==> e matches DomainError::PermissionDenied(m) && m@ == refusal_text(p@),
            p@.len() > 0 && p@[0] == '/' ==> res is Err,
            plain_relative(p@) && !has_dotdot_segment(p@) ==> res is Ok,
            plain_relative(p@) && has_dotdot_segment(p@) ==> (res matches Err(DomainError::PermissionDenied(m))
                && m@ == "path traversal denied: "@ + p@),
    {
        let absolute = path_is_absolute(p);
        let parts = path_parts(p);
        proof {
            lemma_first_bad_part_bounds(parts@);
            if parts@.len() > 0 && (parts@[0] == PathPart::RootDir || parts@[0] == PathPart::Prefix) {
                lemma_first_bad_part_at_most(parts@, 0);
            }
            if plain_relative(p@) && has_dotdot_segment(p@) {
                let k = choose|k: int| 0 <= k < parts@.len() && #[trigger] parts@[k] == PathPart::ParentDir;
                lemma_first_bad_part_at_most(parts@, k);
            }
            if exists|k: int| 0 <= k < parts@.len() && bad_part(#[trigger] parts@[k]) {
                let k = choose|k: int| 0 <= k < parts@.len() && bad_part(#[trigger] parts@[k]);
                lemma_first_bad_part_at_most(parts@, k);
            }
        }
        check_relative_path(p, absolute, &parts)
    }

    /// The permission `share` gives `peer`.
    pub fn permission_for_peer(share: &Share, peer: &DeviceId) -> (res: SharePermission)
        ensures
            res == peer_permission(share, peer@),
    {
        match share.get_permission(peer) {
            Some(p) => p,
            None => SharePermission::ReadOnly,
        }
    }

    /// The plan between the local and the remote index, under the permission
    /// the share gives `peer`.
    pub fn generate_plan(&self, local: &Vec<FileEntry>, remote: &Vec<FileEntry>, share: &Share, peer: &DeviceId) -> (plan: SyncPlan)
        requires
            conflicts_resolvable(local@, remote@),
        ensures
            plan@ == plan_over(all_paths(local@, remote@), local@, remote@, peer_permission(share, peer@)),
    {
        let permission = Self::permission_for_peer(share, peer);
        SyncPlanGenerator::generate(local.as_slice(), remote.as_slice(), &self.local_device_id, &permission)
    }

    /// The files moved by `actions`, in order; an entry without a hash gives an empty one.
    pub fn make_file_requests(actions: &Vec<SyncAction>) -> (res: Vec<FileRequest>)
        ensures
            res@.len() == actions@.len(),
            forall|k: int| 0 <= k < actions@.len() ==> request_matches(#[trigger] res@[k], actions@[k].entry@),
    {
        let mut res: Vec<FileRequest> = Vec::new();
        let mut i: usize = 0;
        while i < actions.len()
            invariant
                i <= actions@.len(),
                res@.len() == i,
                forall|k: int| 0 <= k < i ==> request_matches(#[trigger] res@[k], actions@[k].entry@),
            decreases actions@.len() - i,
        {
            let e = &actions[i].entry;
            let sha = match &e.sha256 {
                Some(h) => h.clone(),
                None => String::new(),
            };
            res.push(FileRequest { file_path: e.path.clone(), file_size: e.size, sha256: sha });
            i = i + 1;
        }
        res
    }

    /// The job moving the files of `actions` with `peer` in direction
    /// `job_type`, tagged with the share of the first action; none for no action.
    pub fn job_for_actions(actions: &Vec<SyncAction>, job_type: TransferType, peer: &DeviceId) -> (res: Option<TransferJob>)
        requires
            forall|k: int| 0 <= k < actions@.len() ==> file_size_fits(#[trigger] actions@[k].entry.size),
        ensures
            actions@.len() == 0 <==> res is None,
            res matches Some(j) ==> {
                &&& j.job_type == job_type
                &&& j.peer_device_id == *peer
                &&& j.state == TransferState::Pending
                &&& j.share_id matches Some(s) && s@ == actions@[0].entry.share_id@
                &&& j@.items.len() == actions@.len()
                &&& forall|k: int| 0 <= k < actions@.len() ==> {
                    let it = #[trigger] j@.items[k];
                    &&& (it.file_path@, it.file_size, it.sha256@) == request_of(actions@[k].entry@)
                    &&& fresh_item(it)
                }
            },
    {
        if actions.len() == 0 {
            return None;
        }
        let files = Self::make_file_requests(actions);
        let mut job = TransferJob::create_from_files(job_type, peer.clone(), files);
        job.share_id = Some(actions[0].entry.share_id.0.clone());
        Some(job)
    }

    /// The follow-up download a conflict calls for: the remote side under the
    /// conflict copy name when both are kept, or under its own path when the
    /// remote side wins; none when the local side is kept or nothing is decided.
    pub fn conflict_job(conflict: &SyncConflict, peer: &DeviceId) -> (res: Option<TransferJob>)
        requires
            file_size_fits(conflict.remote.size),
        ensures
            match conflict.resolution {
                ConflictResolution::KeepBoth { conflict_copy_path } => res matches Some(j) && {
                    &&& j.job_type == TransferType::SyncPull
                    &&& j.peer_device_id == *peer
                    &&& j.share_id matches Some(s) && s@ == conflict.local.share_id@
                    &&& j@.items.len() == 1
                    &&& j@.items[0].file_path == conflict_copy_path
                    &&& j@.items[0].file_size == conflict.remote.size
                    &&& j@.items[0].sha256@ == request_of(conflict.remote@).2
                    &&& fresh_item(j@.items[0])
                    &&& j.state == TransferState::Pending
                },
                ConflictResolution::KeepRemote => res matches Some(j) && {
                    &&& j.job_type == TransferType::SyncPull
                    &&& j.peer_device_id == *peer
                    &&& j.share_id matches Some(s) && s@ == conflict.remote.share_id@
                    &&& j@.items.len() == 1
                    &&& j@.items[0].file_path == conflict.remote.path
                    &&& j@.items[0].file_size == conflict.remote.size
                    &&& j@.items[0].sha256@ == request_of(conflict.remote@).2
                    &&& fresh_item(j@.items[0])
                    &&& j.state == TransferState::Pending
                },
                _ => res is None,
            },
    {
        let sha = match &conflict.remote.sha256 {
            Some(h) => h.clone(),
            None => String::new(),
        };
        match &conflict.resolution {
            ConflictResolution::KeepBoth { conflict_copy_path } => {
                let mut files: Vec<FileRequest> = Vec::new();
                files.push(FileRequest { file_path: conflict_copy_path.clone(), file_size: conflict.remote.size, sha256: sha });
                let mut job = TransferJob::create_from_files(TransferType::SyncPull, peer.clone(), files);
                job.share_id = Some(conflict.local.share_id.0.clone());
                Some(job)
            },
            ConflictResolution::KeepRemote => {
                let mut files: Vec<FileRequest> = Vec::new();
                files.push(FileRequest { file_path: conflict.remote.path.clone(), file_size: conflict.remote.size, sha256: sha });
                let mut job = TransferJob::create_from_files(TransferType::SyncPull, peer.clone(), files);
                job.share_id = Some(conflict.remote.share_id.0.clone());
                Some(job)
            },
            _ => None,
        }
    }

    /// The entry to store after pulling `remote`: the local entry with the
    /// remote version folded in, or the remote entry when there is none.
    pub fn pulled_entry(local: Option<FileEntry>, remote: &FileEntry) -> (res: FileEntry)
        ensures
            match local {
                Some(l) => res@ == (FileEntryView { version: vv_merge(l.version@, remote.version@), ..l@ }),
                None => res@ == remote@,
            },
    {
        match local {
            Some(l) => l.apply_remote_version(remote),
            None => remote.clone(),
        }
    }

    /// The entry to store after pushing `remote`: the local entry with the
    /// pushed version folded in; none when there is no local entry.
    pub fn pushed_entry(local: Option<FileEntry>, remote: &FileEntry) -> (res: Option<FileEntry>)
        ensures
            match local {
                Some(l) => res matches Some(e) && e@ == (FileEntryView { version: vv_merge(l.version@, remote.version@), ..l@ }),
                None => res is None,
            },
    {
        match local {
            Some(l) => Some(l.apply_remote_version(remote)),
            None => None,
        }
    }

    /// The entry to store after a conflict: the stored local entry carrying
    /// the merge of both conflicting versions; none when there is no local entry.
    pub fn conflict_entry(local: Option<FileEntry>, conflict: &SyncConflict) -> (res: Option<FileEntry>)
        ensures
            match local {
                Some(l) => res matches Some(e) && e@ == (FileEntryView {
                    version: vv_merge(conflict.local.version@, conflict.remote.version@),
                    ..l@
                }),
                None => res is None,
            },
    {
        match local {
            Some(l) => {
                let mut e = l;
                e.version = conflict.local.version.merge(&conflict.remote.version);
                Some(e)
            },
            None => None,
        }
    }

    /// The completion event of a plan that moves files: the number of files
    /// (cut to 32 bits), under the share of the first pull, else the first push.
    pub fn completion_event(plan: &SyncPlan) -> (res: Option<SyncCompleted>)
        ensures
            plan.to_pull@.len() == 0 && plan.to_push@.len() == 0 <==> res is None,
            res matches Some(ev) ==> {
                &&& ev.files_synced == (plan.to_pull@.len() + plan.to_push@.len()) as u32
                &&& ev.share_id@ == if plan.to_pull@.len() > 0 {
                    plan.to_pull@[0].entry.share_id@
                } else {
                    plan.to_push@[0].entry.share_id@
                }
            },
    {
        let total: u128 = plan.to_pull.len() as u128 + plan.to_push.len() as u128;
        #[verifier::truncate]
        let files_synced = total as u32;
        if plan.to_pull.len() > 0 {
            Some(SyncCompleted { share_id: plan.to_pull[0].entry.share_id.clone(), files_synced })
        } else if plan.to_push.len() > 0 {
            Some(SyncCompleted { share_id: plan.to_push[0].entry.share_id.clone(), files_synced })
        } else {
            None
        }
    }

    /// The paths a plan names, in [`plan_paths`] order.
    fn collect_plan_paths(plan: &SyncPlan) -> (res: Vec<String>)
        ensures
            texts(res@) == plan_paths(plan),
    {
        let mut res: Vec<String> = Vec::new();
        let mut i: usize = 0;
        while i < plan.to_pull.len()
            invariant
                i <= plan.to_pull@.len(),
                texts(res@) == action_paths(plan.to_pull@.subrange(0, i as int)),
            decreases plan.to_pull@.len() - i,
        {
            res.push(plan.to_pull[i].path.clone());
            proof {
                assert(action_paths(plan.to_pull@.subrange(0, i + 1)) =~= action_paths(plan.to_pull@.subrange(0, i as int)).push(plan.to_pull@[i as int].path@));
                assert(texts(res@) =~= action_paths(plan.to_pull@.subrange(0, i as int)).push(plan.to_pull@[i as int].path@));
            }
            i = i + 1;
        }
        assert(plan.to_pull@.subrange(0, plan.to_pull@.len() as int) =~= plan.to_pull@);
        let ghost pulls = texts(res@);
        let mut i: usize = 0;
        while i < plan.to_push.len()
            invariant
                i <= plan.to_push@.len(),
                pulls == action_paths(plan.to_pull@),
                texts(res@) == pulls + action_paths(plan.to_push@.subrange(0, i as int)),
            decreases plan.to_push@.len() - i,
        {
            let ghost before = texts(res@);
            res.push(plan.to_push[i].path.clone());
            proof {
                assert(texts(res@) =~= before.push(plan.to_push@[i as int].path@));
                assert(action_paths(plan.to_push@.subrange(0, i + 1)) =~= action_paths(plan.to_push@.subrange(0, i as int)).push(plan.to_push@[i as int].path@));
                assert(texts(res@) =~= pulls + action_paths(plan.to_push@.subrange(0, i + 1)));
            }
            i = i + 1;
        }
        assert(plan.to_push@.subrange(0, plan.to_push@.len() as int) =~= plan.to_push@);
        let ghost head = texts(res@);
        let mut i: usize = 0;
        while i < plan.conflicts.len()
            invariant
                i <= plan.conflicts@.len(),
                head == action_paths(plan.to_pull@) + action_paths(plan.to_push@),
                texts(res@) == head + conflict_path_list(plan.conflicts@.subrange(0, i as int)),
            decreases plan.conflicts@.len() - i,
        {
            let c = &plan.conflicts[i];
            let ghost before = texts(res@);
            res.push(c.path.clone());
            match &c.resolution {
                ConflictResolution::KeepBoth { conflict_copy_path } => {
                    res.push(conflict_copy_path.clone());
                },
                _ => {},
            }
            proof {
                let sub = plan.conflicts@.subrange(0, i + 1);
                assert(sub.drop_last() =~= plan.conflicts@.subrange(0, i as int));
                assert(sub.last() == plan.conflicts@[i as int]);
                assert(texts(res@) =~= before + conflict_paths_of(plan.conflicts@[i as int]));
            }
            i = i + 1;
        }
        assert(plan.conflicts@.subrange(0, plan.conflicts@.len() as int) =~= plan.conflicts@);
        res
    }

    /// Checks every path a plan names, in [`plan_paths`] order, with
    /// [`HttpSyncFlow::validate_relative_path`], stopping at the first
    /// refusal: the plan passes exactly when every path is [`path_ok`], and
    /// is otherwise refused for its first path that is not, with that path's
    /// reason.
    pub fn validate_plan(plan: &SyncPlan) -> (res: Result<(), DomainError>)
        ensures
            res is Ok <==> forall|i: int| 0 <= i < plan_paths(plan).len() ==> path_ok(#[trigger] plan_paths(plan)[i]),
            res matches Err(e) ==> exists|i: int| {
                &&& 0 <= i < plan_paths(plan).len()
                &&& !path_ok(#[trigger] plan_paths(plan)[i])
                &&& forall|j: int| 0 <= j < i ==> path_ok(plan_paths(plan)[j])
                &&& e matches DomainError::PermissionDenied(m) && m@ == refusal_text(plan_paths(plan)[i])
            },
            (forall|i: int| 0 <= i < plan_paths(plan).len() ==> path_accepted(#[trigger] plan_paths(plan)[i])) ==> res is Ok,
            (exists|i: int| 0 <= i < plan_paths(plan).len() && path_refused(#[trigger] plan_paths(plan)[i])) ==> res is Err,
    {
        let paths = Self::collect_plan_paths(plan);
        let ghost pp = plan_paths(plan);
        let mut i: usize = 0;
        while i < paths.len()
            invariant
                i <= paths@.len(),
                texts(paths@) == pp,
                pp == plan_paths(plan),
                forall|j: int| 0 <= j < i ==> path_ok(#[trigger] pp[j]) && !path_refused(pp[j]),
            decreases paths@.len() - i,
        {
            assert(pp[i as int] == paths@[i as int]@);
            let r = Self::validate_relative_path(paths[i].as_str());
            if r.is_err() {
                assert(!path_accepted(pp[i as int]));
                return r;
            }
            i = i + 1;
        }
        Ok(())
    }

    /// One conflict event per conflict of the plan, in order.
    pub fn conflict_events(plan: &SyncPlan) -> (res: Vec<ConflictDetected>)
        ensures
            res@.len() == plan.conflicts@.len(),
            forall|k: int| 0 <= k < res@.len() ==> {
                let c = plan.conflicts@[k];
                &&& (#[trigger] res@[k]).share_id@ == c.local.share_id@
                &&& res@[k].path == c.path
                &&& res@[k].local_version@ == c.local.version@
                &&& res@[k].remote_version@ == c.remote.version@
            },
    {
        let mut res: Vec<ConflictDetected> = Vec::new();
        let mut i: usize = 0;
        while i < plan.conflicts.len()
            invariant
                i <= plan.conflicts@.len(),
                res@.len() == i,
                forall|k: int| 0 <= k < i ==> {
                    let c = plan.conflicts@[k];
                    &&& (#[trigger] res@[k]).share_id@ == c.local.share_id@
                    &&& res@[k].path == c.path
                    &&& res@[k].local_version@ == c.local.version@
                    &&& res@[k].remote_version@ == c.remote.version@
                },
            decreases plan.conflicts@.len() - i,
        {
            let c = &plan.conflicts[i];
            res.push(ConflictDetected {
                share_id: c.local.share_id.clone(),
                path: c.path.clone(),
                local_version: c.local.version.clone(),
                remote_version: c.remote.version.clone(),
            });
            i = i + 1;
        }
        res
    }
}

} // verus!
