use vstd::prelude::*;
use crate::model::device::DeviceId;
use crate::model::file_entry::{
    FileEntry, FileEntryView, SyncAction, SyncActionView, SyncConflict, SyncConflictView, SyncPlan,
};
use crate::model::share::{SharePermission, spec_can_pull, spec_can_push};
use crate::model::version::vv_le;
use crate::service::conflict_resolver::{ConflictResolver, resolve_ok, spec_resolve};
use crate::text::{str_lt, text_lt, lemma_text_lt_total, lemma_text_lt_transitive, lemma_text_lt_irreflexive, lemma_text_lt_asymmetric};

verus! {

/// What a plan holds, each item by its view.
pub struct SyncPlanView {
    pub to_pull: Seq<SyncActionView>,
    pub to_push: Seq<SyncActionView>,
    pub conflicts: Seq<SyncConflictView>,
    pub unchanged: Seq<Seq<char>>,
}

impl View for SyncPlan {
    type V = SyncPlanView;

    open spec fn view(&self) -> SyncPlanView {
        SyncPlanView {
            to_pull: self.to_pull@.map_values(|a: SyncAction| a@),
            to_push: self.to_push@.map_values(|a: SyncAction| a@),
            conflicts: self.conflicts@.map_values(|c: SyncConflict| c@),
            unchanged: self.unchanged@.map_values(|s: String| s@),
        }
    }
}

/// Position of the last entry of `index` with path `p`, or -1.
pub open spec fn last_index(index: Seq<FileEntry>, p: Seq<char>) -> int
    decreases index.len(),
{
    if index.len() == 0 {
        -1
    } else if index.last().path@ == p {
        index.len() - 1
    } else {
        last_index(index.drop_last(), p)
    }
}

/// The last entry of `index` with path `p`: a later entry for a path replaces an earlier one.
pub open spec fn last_entry(index: Seq<FileEntry>, p: Seq<char>) -> Option<FileEntryView> {
    let i = last_index(index, p);
    if 0 <= i < index.len() {
        Some(index[i]@)
    } else {
        None
    }
}

/// Whether some entry of `index` has path `p`.
pub open spec fn has_path(index: Seq<FileEntry>, p: Seq<char>) -> bool {
    exists|i: int| 0 <= i < index.len() && #[trigger] index[i].path@ == p
}

/// Strictly increasing in the order of `str`.
pub open spec fn strictly_sorted(ps: Seq<Seq<char>>) -> bool {
    forall|a: int, b: int| 0 <= a < b < ps.len() ==> text_lt(#[trigger] ps[a], #[trigger] ps[b])
}

/// Every path of either index, once each, in increasing order.
pub open spec fn is_path_order(ps: Seq<Seq<char>>, local: Seq<FileEntry>, remote: Seq<FileEntry>) -> bool {
    &&& strictly_sorted(ps)
    &&& forall|p: Seq<char>| ps.contains(p) <==> (has_path(local, p) || has_path(remote, p))
}

/// The sorted, duplicate-free list of all paths of both indexes.
pub open spec fn all_paths(local: Seq<FileEntry>, remote: Seq<FileEntry>) -> Seq<Seq<char>> {
    choose|ps: Seq<Seq<char>>| is_path_order(ps, local, remote)
}

pub open spec fn action(p: Seq<char>, e: FileEntryView) -> SyncActionView {
    SyncActionView { path: p, entry: e, missing_blocks: Seq::empty() }
}

pub open spec fn empty_plan() -> SyncPlanView {
    SyncPlanView { to_pull: Seq::empty(), to_push: Seq::empty(), conflicts: Seq::empty(), unchanged: Seq::empty() }
}

/// How one path changes the plan, given its local and remote entries.
pub open spec fn plan_step(
    acc: SyncPlanView,
    p: Seq<char>,
    lo: Option<FileEntryView>,
    ro: Option<FileEntryView>,
    can_pull: bool,
    can_push: bool,
) -> SyncPlanView {
    match (lo, ro) {
        (Some(l), None) => if can_push && !l.deleted {
            SyncPlanView { to_push: acc.to_push.push(action(p, l)), ..acc }
        } else {
            acc
        },
        (None, Some(r)) => if can_pull && !r.deleted {
            SyncPlanView { to_pull: acc.to_pull.push(action(p, r)), ..acc }
        } else {
            acc
        },
        (Some(l), Some(r)) => {
            let la = vv_le(l.version, r.version);
            let ra = vv_le(r.version, l.version);
            if la && ra {
                SyncPlanView { unchanged: acc.unchanged.push(p), ..acc }
            } else if la {
                if can_pull {
                    SyncPlanView { to_pull: acc.to_pull.push(action(p, r)), ..acc }
                } else {
                    acc
                }
            } else if ra {
                if can_push {
                    SyncPlanView { to_push: acc.to_push.push(action(p, l)), ..acc }
                } else {
                    acc
                }
            } else {
                SyncPlanView {
                    conflicts: acc.conflicts.push(
                        SyncConflictView { path: p, local: l, remote: r, resolution: spec_resolve(l, r) },
                    ),
                    ..acc
                }
            }
        },
        (None, None) => acc,
    }
}

/// The plan for the paths `ps`, taken in order.
pub open spec fn plan_over(
    ps: Seq<Seq<char>>,
    local: Seq<FileEntry>,
    remote: Seq<FileEntry>,
    permission: SharePermission,
) -> SyncPlanView
    decreases ps.len(),
{
    if ps.len() == 0 {
        empty_plan()
    } else {
        plan_step(
            plan_over(ps.drop_last(), local, remote, permission),
            ps.last(),
            last_entry(local, ps.last()),
            last_entry(remote, ps.last()),
            spec_can_pull(permission),
            spec_can_push(permission),
        )
    }
}

/// Every path whose two entries conflict can be resolved without a failing cut.
pub open spec fn conflicts_resolvable(local: Seq<FileEntry>, remote: Seq<FileEntry>) -> bool {
    forall|p: Seq<char>|
        #![trigger last_entry(local, p), last_entry(remote, p)]
        last_entry(local, p) is Some && last_entry(remote, p) is Some
            && !vv_le(last_entry(local, p)->0.version, last_entry(remote, p)->0.version)
            && !vv_le(last_entry(remote, p)->0.version, last_entry(local, p)->0.version)
            ==> resolve_ok(last_entry(local, p)->0, last_entry(remote, p)->0)
}

/// Where the last entry of a path sits, when there is one.
pub proof fn lemma_last_index_bounds(index: Seq<FileEntry>, p: Seq<char>)
    ensures
        -1 <= last_index(index, p) < index.len(),
        last_index(index, p) >= 0 <==> has_path(index, p),
        last_index(index, p) >= 0 ==> index[last_index(index, p)].path@ == p,
    decreases index.len(),
{
    if index.len() > 0 {
        let q = index.drop_last();
        lemma_last_index_bounds(q, p);
        if index.last().path@ != p {
            if has_path(index, p) {
                let i = choose|i: int| 0 <= i < index.len() && #[trigger] index[i].path@ == p;
                assert(q[i] == index[i]);
            }
            if has_path(q, p) {
                let i = choose|i: int| 0 <= i < q.len() && #[trigger] q[i].path@ == p;
                assert(index[i] == q[i]);
            }
        } else {
            assert(index[index.len() - 1].path@ == p);
        }
    }
}

proof fn lemma_last_index_prefix(index: Seq<FileEntry>, i: int, p: Seq<char>)
    requires
        0 <= i < index.len(),
    ensures
        last_index(index.subrange(0, i + 1), p) == if index[i].path@ == p {
            i
        } else {
            last_index(index.subrange(0, i), p)
        },
{
    assert(index.subrange(0, i + 1).drop_last() =~= index.subrange(0, i));
}

proof fn lemma_sorted_unique(a: Seq<Seq<char>>, b: Seq<Seq<char>>)
    requires
        strictly_sorted(a),
        strictly_sorted(b),
        forall|p: Seq<char>| a.contains(p) <==> b.contains(p),
    ensures
        a == b,
    decreases a.len(),
{
    if a.len() == 0 {
        if b.len() > 0 {
            assert(b.contains(b[0]));
        }
        assert(a =~= b);
    } else {
        assert(a.contains(a[0]));
        let j = choose|j: int| 0 <= j < b.len() && b[j] == a[0];
        assert(b.contains(b[0]));
        let i = choose|i: int| 0 <= i < a.len() && a[i] == b[0];
        if j > 0 {
            assert(text_lt(b[0], b[j]));
            if i > 0 {
                assert(text_lt(a[0], a[i]));
                lemma_text_lt_asymmetric(a[0], a[i]);
            } else {
                lemma_text_lt_irreflexive(a[0]);
            }
        }
        assert(a[0] == b[0]);
        let ta = a.drop_first();
        let tb = b.drop_first();
        assert forall|p: Seq<char>| ta.contains(p) <==> tb.contains(p) by {
            if ta.contains(p) {
                let k = choose|k: int| 0 <= k < ta.len() && ta[k] == p;
                assert(a[k + 1] == p);
                assert(text_lt(a[0], a[k + 1]));
                assert(b.contains(p));
                let m = choose|m: int| 0 <= m < b.len() && b[m] == p;
                if m == 0 {
                    lemma_text_lt_irreflexive(p);
                }
                assert(tb[m - 1] == p);
            }
            if tb.contains(p) {
                let k = choose|k: int| 0 <= k < tb.len() && tb[k] == p;
                assert(b[k + 1] == p);
                assert(text_lt(b[0], b[k + 1]));
                assert(a.contains(p));
                let m = choose|m: int| 0 <= m < a.len() && a[m] == p;
                if m == 0 {
                    lemma_text_lt_irreflexive(p);
                }
                assert(ta[m - 1] == p);
            }
        }
        assert forall|x: int, y: int| 0 <= x < y < ta.len() implies text_lt(#[trigger] ta[x], #[trigger] ta[y]) by {
            assert(text_lt(a[x + 1], a[y + 1]));
        }
        assert forall|x: int, y: int| 0 <= x < y < tb.len() implies text_lt(#[trigger] tb[x], #[trigger] tb[y]) by {
            assert(text_lt(b[x + 1], b[y + 1]));
        }
        lemma_sorted_unique(ta, tb);
        assert(a =~= seq![a[0]] + ta);
        assert(b =~= seq![b[0]] + tb);
    }
}

/// A path with the positions of its last local and last remote entry.
struct PathRow {
    path: String,
    local: Option<usize>,
    remote: Option<usize>,
}

spec fn opt_index(i: int) -> Option<usize> {
    if i >= 0 {
        Some(i as usize)
    } else {
        None
    }
}

spec fn row_paths(rows: Seq<PathRow>) -> Seq<Seq<char>> {
    rows.map_values(|r: PathRow| r.path@)
}

spec fn rows_sorted(rows: Seq<PathRow>) -> bool {
    forall|a: int, b: int| 0 <= a < b < rows.len() ==> text_lt(#[trigger] rows[a].path@, #[trigger] rows[b].path@)
}

/// Where `p` is among the sorted rows, or where it belongs.
fn locate(rows: &Vec<PathRow>, p: &String) -> (res: (bool, usize))
    requires
        rows_sorted(rows@),
    ensures
        res.1 <= rows@.len(),
        forall|k: int| 0 <= k < res.1 ==> text_lt(#[trigger] rows@[k].path@, p@),
        res.0 ==> res.1 < rows@.len() && rows@[res.1 as int].path@ == p@,
        !res.0 ==> forall|k: int| res.1 <= k < rows@.len() ==> text_lt(p@, #[trigger] rows@[k].path@),
{
    let mut pos: usize = 0;
    while pos < rows.len() && str_lt(rows[pos].path.as_str(), p.as_str())
        invariant
            pos <= rows@.len(),
            forall|k: int| 0 <= k < pos ==> text_lt(#[trigger] rows@[k].path@, p@),
        decreases rows@.len() - pos,
    {
        pos = pos + 1;
    }
    if pos < rows.len() && rows[pos].path == *p {
        return (true, pos);
    }
    proof {
        if pos < rows@.len() {
            lemma_text_lt_total(rows@[pos as int].path@, p@);
            assert forall|k: int| pos <= k < rows@.len() implies text_lt(p@, #[trigger] rows@[k].path@) by {
                if k > pos {
                    lemma_text_lt_transitive(p@, rows@[pos as int].path@, rows@[k].path@);
                }
            }
        }
    }
    (false, pos)
}

spec fn rows_cover(rows: Seq<PathRow>, local: Seq<FileEntry>, remote: Seq<FileEntry>) -> bool {
    &&& rows_sorted(rows)
    &&& forall|p: Seq<char>| (exists|k: int| 0 <= k < rows.len() && #[trigger] rows[k].path@ == p) <==> (has_path(local, p) || has_path(remote, p))
    &&& forall|k: int| 0 <= k < rows.len() ==> (#[trigger] rows[k]).local == opt_index(last_index(local, rows[k].path@))
    &&& forall|k: int| 0 <= k < rows.len() ==> (#[trigger] rows[k]).remote == opt_index(last_index(remote, rows[k].path@))
}

proof fn lemma_has_path_prefix(index: Seq<FileEntry>, i: int, p: Seq<char>)
    requires
        0 <= i < index.len(),
    ensures
        has_path(index.subrange(0, i + 1), p) <==> has_path(index.subrange(0, i), p) || index[i].path@ == p,
{
    let a = index.subrange(0, i + 1);
    let b = index.subrange(0, i);
    if has_path(a, p) {
        let k = choose|k: int| 0 <= k < a.len() && #[trigger] a[k].path@ == p;
        if k < i {
            assert(b[k] == a[k]);
        }
    }
    if has_path(b, p) {
        let k = choose|k: int| 0 <= k < b.len() && #[trigger] b[k].path@ == p;
        assert(a[k] == b[k]);
    }
    if index[i].path@ == p {
        assert(a[i] == index[i]);
    }
}

/// Adds entry `i` of `index` (the local side when `is_local`) to the rows.
fn add_entry(
    rows: &mut Vec<PathRow>,
    index: &[FileEntry],
    i: usize,
    is_local: bool,
    Ghost(local): Ghost<Seq<FileEntry>>,
    Ghost(remote): Ghost<Seq<FileEntry>>,
)
    requires
        i < index@.len(),
        is_local ==> local == index@.subrange(0, i as int) && remote.len() == 0,
        !is_local ==> remote == index@.subrange(0, i as int),
        rows_cover(old(rows)@, local, remote),
    ensures
        is_local ==> rows_cover(final(rows)@, index@.subrange(0, i + 1), remote),
        !is_local ==> rows_cover(final(rows)@, local, index@.subrange(0, i + 1)),
{
    let p = &index[i].path;
    let (found, pos) = locate(rows, p);
    let ghost nl = if is_local { index@.subrange(0, i + 1) } else { local };
    let ghost nr = if is_local { remote } else { index@.subrange(0, i + 1) };
    proof {
        assert forall|q: Seq<char>| #![trigger last_index(nl, q)] last_index(nl, q) == if is_local && q == p@ {
            i as int
        } else {
            last_index(local, q)
        } by {
            if is_local {
                lemma_last_index_prefix(index@, i as int, q);
            }
        }
        assert forall|q: Seq<char>| #![trigger last_index(nr, q)] last_index(nr, q) == if !is_local && q == p@ {
            i as int
        } else {
            last_index(remote, q)
        } by {
            if !is_local {
                lemma_last_index_prefix(index@, i as int, q);
            }
        }
        assert forall|q: Seq<char>| (has_path(nl, q) || has_path(nr, q)) <==> (has_path(local, q) || has_path(remote, q) || q == p@) by {
            lemma_has_path_prefix(index@, i as int, q);
        }
    }
    if found {
        let ghost before = rows@;
        let row = PathRow {
            path: rows[pos].path.clone(),
            local: if is_local { Some(i) } else { rows[pos].local },
            remote: if is_local { rows[pos].remote } else { Some(i) },
        };
        rows.set(pos, row);
        proof {
            assert forall|q: Seq<char>| (exists|k: int| 0 <= k < rows@.len() && #[trigger] rows@[k].path@ == q) <==> (has_path(nl, q) || has_path(nr, q)) by {
                if exists|k: int| 0 <= k < before.len() && #[trigger] before[k].path@ == q {
                    let k = choose|k: int| 0 <= k < before.len() && #[trigger] before[k].path@ == q;
                    assert(rows@[k].path@ == q);
                }
                if exists|k: int| 0 <= k < rows@.len() && #[trigger] rows@[k].path@ == q {
                    let k = choose|k: int| 0 <= k < rows@.len() && #[trigger] rows@[k].path@ == q;
                    assert(before[k].path@ == q);
                }
                if q == p@ {
                    assert(rows@[pos as int].path@ == q);
                }
            }
            assert forall|a: int, b: int| 0 <= a < b < rows@.len() implies text_lt(#[trigger] rows@[a].path@, #[trigger] rows@[b].path@) by {
                assert(text_lt(before[a].path@, before[b].path@));
            }
            assert forall|k: int| 0 <= k < rows@.len() implies (#[trigger] rows@[k]).local == opt_index(last_index(nl, rows@[k].path@)) by {
                if k != pos {
                    assert(before[k] == rows@[k]);
                    if is_local {
                        if k < pos {
                            assert(text_lt(before[k].path@, before[pos as int].path@));
                        } else {
                            assert(text_lt(before[pos as int].path@, before[k].path@));
                        }
                        if rows@[k].path@ == p@ {
                            lemma_text_lt_irreflexive(p@);
                        }
                    }
                }
            }
            assert forall|k: int| 0 <= k < rows@.len() implies (#[trigger] rows@[k]).remote == opt_index(last_index(nr, rows@[k].path@)) by {
                if k != pos {
                    assert(before[k] == rows@[k]);
                    if !is_local {
                        if k < pos {
                            assert(text_lt(before[k].path@, before[pos as int].path@));
                        } else {
                            assert(text_lt(before[pos as int].path@, before[k].path@));
                        }
                        if rows@[k].path@ == p@ {
                            lemma_text_lt_irreflexive(p@);
                        }
                    }
                }
            }
        }
    } else {
        let ghost before = rows@;
        proof {
            assert(!has_path(local, p@) && !has_path(remote, p@)) by {
                if has_path(local, p@) || has_path(remote, p@) {
                    let k = choose|k: int| 0 <= k < before.len() && #[trigger] before[k].path@ == p@;
                    if k < pos {
                        assert(text_lt(before[k].path@, p@));
                    } else {
                        assert(text_lt(p@, before[k].path@));
                    }
                    lemma_text_lt_irreflexive(p@);
                }
            }
            lemma_last_index_bounds(local, p@);
            lemma_last_index_bounds(remote, p@);
        }
        let row = PathRow {
            path: p.clone(),
            local: if is_local { Some(i) } else { None },
            remote: if is_local { None } else { Some(i) },
        };
        rows.insert(pos, row);
        proof {
            assert forall|k: int| 0 <= k < rows@.len() implies #[trigger] rows@[k] == if k < pos {
                before[k]
            } else if k == pos {
                row
            } else {
                before[k - 1]
            } by {}
            assert forall|q: Seq<char>| (exists|k: int| 0 <= k < rows@.len() && #[trigger] rows@[k].path@ == q) <==> (has_path(nl, q) || has_path(nr, q)) by {
                if exists|k: int| 0 <= k < before.len() && #[trigger] before[k].path@ == q {
                    let k = choose|k: int| 0 <= k < before.len() && #[trigger] before[k].path@ == q;
                    if k < pos {
                        assert(rows@[k].path@ == q);
                    } else {
                        assert(rows@[k + 1].path@ == q);
                    }
                }
                if exists|k: int| 0 <= k < rows@.len() && #[trigger] rows@[k].path@ == q {
                    let k = choose|k: int| 0 <= k < rows@.len() && #[trigger] rows@[k].path@ == q;
                    if k < pos {
                        assert(before[k].path@ == q);
                    } else if k > pos {
                        assert(before[k - 1].path@ == q);
                    }
                }
                if q == p@ {
                    assert(rows@[pos as int].path@ == q);
                }
            }
            assert forall|a: int, b: int| 0 <= a < b < rows@.len() implies text_lt(#[trigger] rows@[a].path@, #[trigger] rows@[b].path@) by {
                if a < pos && b < pos {
                    assert(text_lt(before[a].path@, before[b].path@));
                } else if a < pos && b == pos {
                } else if a < pos && b > pos {
                    assert(text_lt(before[a].path@, p@));
                    assert(text_lt(p@, before[b - 1].path@));
                    lemma_text_lt_transitive(before[a].path@, p@, before[b - 1].path@);
                } else if a == pos {
                } else {
                    assert(text_lt(before[a - 1].path@, before[b - 1].path@));
                }
            }
            assert forall|k: int| 0 <= k < rows@.len() implies (#[trigger] rows@[k]).local == opt_index(last_index(nl, rows@[k].path@)) by {
                if k != pos {
                    let j = if k < pos { k } else { k - 1 };
                    assert(before[j] == rows@[k]);
                    assert(text_lt(before[j].path@, p@) || text_lt(p@, before[j].path@));
                    if rows@[k].path@ == p@ {
                        lemma_text_lt_irreflexive(p@);
                    }
                }
            }
            assert forall|k: int| 0 <= k < rows@.len() implies (#[trigger] rows@[k]).remote == opt_index(last_index(nr, rows@[k].path@)) by {
                if k != pos {
                    let j = if k < pos { k } else { k - 1 };
                    assert(before[j] == rows@[k]);
                    assert(text_lt(before[j].path@, p@) || text_lt(p@, before[j].path@));
                    if rows@[k].path@ == p@ {
                        lemma_text_lt_irreflexive(p@);
                    }
                }
            }
        }
    }
}

pub struct SyncPlanGenerator;

impl SyncPlanGenerator {
    /// Decides, path by path in the order of `str`, what to pull, push, flag
    /// as conflict or leave: a path only one side has moves to the other side
    /// (tombstones stay), equal versions are unchanged, a strictly newer side
    /// wins, diverged versions are conflicts settled by [`ConflictResolver::resolve`].
    /// Moves are made only when `permission` allows them; a later entry for a
    /// path replaces an earlier one of the same index.
    pub fn generate(
        local_index: &[FileEntry],
        remote_index: &[FileEntry],
        _local_device: &DeviceId,
        permission: &SharePermission,
    ) -> (plan: SyncPlan)
        requires
            conflicts_resolvable(local_index@, remote_index@),
        ensures
            plan@ == plan_over(all_paths(local_index@, remote_index@), local_index@, remote_index@, *permission),
    {
        let can_pull = permission.can_pull();
        let can_push = permission.can_push();
        let ghost local = local_index@;
        let ghost remote = remote_index@;

        let mut rows: Vec<PathRow> = Vec::new();
        let mut i: usize = 0;
        proof {
            assert(Seq::<FileEntry>::empty() =~= local.subrange(0, 0));
        }
        while i < local_index.len()
            invariant
                i <= local.len(),
                local == local_index@,
                rows_cover(rows@, local.subrange(0, i as int), Seq::<FileEntry>::empty()),
            decreases local.len() - i,
        {
            add_entry(&mut rows, local_index, i, true, Ghost(local.subrange(0, i as int)), Ghost(Seq::<FileEntry>::empty()));
            i = i + 1;
        }
        assert(local.subrange(0, local.len() as int) =~= local);
        let mut j: usize = 0;
        assert(Seq::<FileEntry>::empty() =~= remote.subrange(0, 0));
        while j < remote_index.len()
            invariant
                j <= remote.len(),
                local == local_index@,
                remote == remote_index@,
                rows_cover(rows@, local, remote.subrange(0, j as int)),
            decreases remote.len() - j,
        {
            add_entry(&mut rows, remote_index, j, false, Ghost(local), Ghost(remote.subrange(0, j as int)));
            j = j + 1;
        }
        assert(remote.subrange(0, remote.len() as int) =~= remote);
        let ghost ps = row_paths(rows@);
        proof {
            assert forall|a: int, b: int| 0 <= a < b < ps.len() implies text_lt(#[trigger] ps[a], #[trigger] ps[b]) by {
                assert(text_lt(rows@[a].path@, rows@[b].path@));
            }
            assert forall|p: Seq<char>| ps.contains(p) <==> (has_path(local, p) || has_path(remote, p)) by {
                if ps.contains(p) {
                    let k = choose|k: int| 0 <= k < ps.len() && ps[k] == p;
                    assert(rows@[k].path@ == p);
                }
                if has_path(local, p) || has_path(remote, p) {
                    let k = choose|k: int| 0 <= k < rows@.len() && #[trigger] rows@[k].path@ == p;
                    assert(ps[k] == p);
                }
            }
            assert(is_path_order(ps, local, remote));
            lemma_sorted_unique(ps, all_paths(local, remote));
        }

        let mut plan = SyncPlan { to_pull: Vec::new(), to_push: Vec::new(), conflicts: Vec::new(), unchanged: Vec::new() };
        proof {
            assert(plan@.to_pull =~= Seq::<SyncActionView>::empty());
            assert(plan@.to_push =~= Seq::<SyncActionView>::empty());
            assert(plan@.conflicts =~= Seq::<SyncConflictView>::empty());
            assert(plan@.unchanged =~= Seq::<Seq<char>>::empty());
            assert(ps.subrange(0, 0) =~= Seq::<Seq<char>>::empty());
        }
        let mut k: usize = 0;
        while k < rows.len()
            invariant
                k <= rows@.len(),
                local == local_index@,
                remote == remote_index@,
                ps == row_paths(rows@),
                rows_cover(rows@, local, remote),
                can_pull == spec_can_pull(*permission),
                can_push == spec_can_push(*permission),
                conflicts_resolvable(local, remote),
                plan@ == plan_over(ps.subrange(0, k as int), local, remote, *permission),
            decreases rows@.len() - k,
        {
            let ghost p = rows@[k as int].path@;
            let ghost before = plan@;
            proof {
                let q = ps.subrange(0, k + 1);
                assert(q.drop_last() =~= ps.subrange(0, k as int));
                assert(q.last() == p);
                lemma_last_index_bounds(local, p);
                lemma_last_index_bounds(remote, p);
            }
            let row_local = rows[k].local;
            let row_remote = rows[k].remote;
            match (row_local, row_remote) {
                (Some(li), None) => {
                    let l = &local_index[li];
                    if can_push && !l.deleted {
                        plan.to_push.push(SyncAction { path: rows[k].path.clone(), entry: l.clone(), missing_blocks: Vec::new() });
                        assert(plan@.to_push =~= before.to_push.push(action(p, l@)));
                    }
                },
                (None, Some(ri)) => {
                    let r = &remote_index[ri];
                    if can_pull && !r.deleted {
                        plan.to_pull.push(SyncAction { path: rows[k].path.clone(), entry: r.clone(), missing_blocks: Vec::new() });
                        assert(plan@.to_pull =~= before.to_pull.push(action(p, r@)));
                    }
                },
                (Some(li), Some(ri)) => {
                    let l = &local_index[li];
                    let r = &remote_index[ri];
                    let la = l.version.is_ancestor_of(&r.version);
                    let ra = r.version.is_ancestor_of(&l.version);
                    if la && ra {
                        plan.unchanged.push(rows[k].path.clone());
                        assert(plan@.unchanged =~= before.unchanged.push(p));
                    } else if la && !ra {
                        if can_pull {
                            plan.to_pull.push(SyncAction { path: rows[k].path.clone(), entry: r.clone(), missing_blocks: Vec::new() });
                            assert(plan@.to_pull =~= before.to_pull.push(action(p, r@)));
                        }
                    } else if ra && !la {
                        if can_push {
                            plan.to_push.push(SyncAction { path: rows[k].path.clone(), entry: l.clone(), missing_blocks: Vec::new() });
                            assert(plan@.to_push =~= before.to_push.push(action(p, l@)));
                        }
                    } else {
                        proof {
                            assert(last_entry(local, p) == Some(l@));
                            assert(last_entry(remote, p) == Some(r@));
                        }
                        let resolution = ConflictResolver::resolve(l, r);
                        plan.conflicts.push(SyncConflict {
                            path: rows[k].path.clone(),
                            local: l.clone(),
                            remote: r.clone(),
                            resolution,
                        });
                        assert(plan@.conflicts =~= before.conflicts.push(
                            SyncConflictView { path: p, local: l@, remote: r@, resolution: spec_resolve(l@, r@) },
                        ));
                    }
                },
                (None, None) => {},
            }
            k = k + 1;
        }
        proof {
            assert(ps.subrange(0, rows@.len() as int) =~= ps);
        }
        plan
    }
}


/// Without the right to push, a plan pushes nothing; without the right to
/// pull, it pulls nothing.
pub proof fn lemma_plan_respects_permission(
    ps: Seq<Seq<char>>,
    local: Seq<FileEntry>,
    remote: Seq<FileEntry>,
    permission: SharePermission,
)
    ensures
        !spec_can_push(permission) ==> plan_over(ps, local, remote, permission).to_push.len() == 0,
        !spec_can_pull(permission) ==> plan_over(ps, local, remote, permission).to_pull.len() == 0,
    decreases ps.len(),
{
    if ps.len() > 0 {
        lemma_plan_respects_permission(ps.drop_last(), local, remote, permission);
    }
}

/// Two identical indexes need no transfer and hold no conflict: every path is unchanged.
pub proof fn lemma_same_index_plan(ps: Seq<Seq<char>>, index: Seq<FileEntry>, permission: SharePermission)
    requires
        forall|i: int| 0 <= i < ps.len() ==> has_path(index, #[trigger] ps[i]),
    ensures
        plan_over(ps, index, index, permission).to_pull.len() == 0,
        plan_over(ps, index, index, permission).to_push.len() == 0,
        plan_over(ps, index, index, permission).conflicts.len() == 0,
        plan_over(ps, index, index, permission).unchanged == ps,
    decreases ps.len(),
{
    if ps.len() > 0 {
        let q = ps.drop_last();
        assert forall|i: int| 0 <= i < q.len() implies has_path(index, #[trigger] q[i]) by {
            assert(q[i] == ps[i]);
        }
        lemma_same_index_plan(q, index, permission);
        let p = ps.last();
        assert(has_path(index, ps[ps.len() - 1]));
        lemma_last_index_bounds(index, p);
        let e = last_entry(index, p);
        assert(e is Some);
        crate::model::version::lemma_ancestor_reflexive(e->0.version);
        assert(q.push(p) =~= ps);
    }
}


/// What a plan moves: every pull carries the remote side's entry for its
/// path and every push the local side's, and a path present on one side
/// only is moved only when its entry there is live: a tombstone the other
/// side never had is neither pulled nor pushed.
pub proof fn lemma_plan_moves_live_one_sided_entries(
    ps: Seq<Seq<char>>,
    local: Seq<FileEntry>,
    remote: Seq<FileEntry>,
    permission: SharePermission,
)
    ensures
        forall|k: int| 0 <= k < plan_over(ps, local, remote, permission).to_pull.len() ==> {
            let a = #[trigger] plan_over(ps, local, remote, permission).to_pull[k];
            &&& last_entry(remote, a.path) == Some(a.entry)
            &&& last_entry(local, a.path) is None ==> !a.entry.deleted
        },
        forall|k: int| 0 <= k < plan_over(ps, local, remote, permission).to_push.len() ==> {
            let a = #[trigger] plan_over(ps, local, remote, permission).to_push[k];
            &&& last_entry(local, a.path) == Some(a.entry)
            &&& last_entry(remote, a.path) is None ==> !a.entry.deleted
        },
    decreases ps.len(),
{
    if ps.len() > 0 {
        let q = ps.drop_last();
        lemma_plan_moves_live_one_sided_entries(q, local, remote, permission);
        let before = plan_over(q, local, remote, permission);
        let after = plan_over(ps, local, remote, permission);
        assert forall|k: int| 0 <= k < after.to_pull.len() implies {
            let a = #[trigger] after.to_pull[k];
            &&& last_entry(remote, a.path) == Some(a.entry)
            &&& last_entry(local, a.path) is None ==> !a.entry.deleted
        } by {
            if k < before.to_pull.len() {
                assert(after.to_pull[k] == before.to_pull[k]);
            }
        }
        assert forall|k: int| 0 <= k < after.to_push.len() implies {
            let a = #[trigger] after.to_push[k];
            &&& last_entry(local, a.path) == Some(a.entry)
            &&& last_entry(remote, a.path) is None ==> !a.entry.deleted
        } by {
            if k < before.to_push.len() {
                assert(after.to_push[k] == before.to_push[k]);
            }
        }
    }
}

} // verus!
