use vstd::prelude::*;
use crate::model::device::DeviceId;

verus! {

/// The counter a version map holds for a device (absent devices count as 0).
pub open spec fn vv_get(m: Map<Seq<char>, u64>, k: Seq<char>) -> u64 {
    if m.contains_key(k) {
        m[k]
    } else {
        0
    }
}

/// `a` happened before or equals `b`: no device counter of `a` exceeds the one in `b`.
pub open spec fn vv_le(a: Map<Seq<char>, u64>, b: Map<Seq<char>, u64>) -> bool {
    forall|k: Seq<char>| a.contains_key(k) ==> #[trigger] a[k] <= vv_get(b, k)
}

/// Neither version descends from the other.
pub open spec fn vv_conflict(a: Map<Seq<char>, u64>, b: Map<Seq<char>, u64>) -> bool {
    !vv_le(a, b) && !vv_le(b, a)
}

/// Point-wise maximum over the union of the known devices.
pub open spec fn vv_merge(a: Map<Seq<char>, u64>, b: Map<Seq<char>, u64>) -> Map<Seq<char>, u64> {
    Map::new(
        |k: Seq<char>| a.contains_key(k) || b.contains_key(k),
        |k: Seq<char>|
            if vv_get(a, k) >= vv_get(b, k) {
                vv_get(a, k)
            } else {
                vv_get(b, k)
            },
    )
}

/// One more event recorded by device `d`.
pub open spec fn vv_increment(a: Map<Seq<char>, u64>, d: Seq<char>) -> Map<Seq<char>, u64> {
    a.insert(d, (vv_get(a, d) + 1) as u64)
}

/// No two entries name the same device.
pub open spec fn distinct_keys(s: Seq<(DeviceId, u64)>) -> bool {
    forall|i: int, j: int| 0 <= i < j < s.len() ==> #[trigger] s[i].0@ != #[trigger] s[j].0@
}

pub open spec fn has_key(s: Seq<(DeviceId, u64)>, k: Seq<char>) -> bool {
    exists|i: int| 0 <= i < s.len() && #[trigger] s[i].0@ == k
}

/// The map that a list of (device, counter) entries denotes.
pub open spec fn entries_map(s: Seq<(DeviceId, u64)>) -> Map<Seq<char>, u64> {
    Map::new(
        |k: Seq<char>| has_key(s, k),
        |k: Seq<char>| s[choose|i: int| 0 <= i < s.len() && #[trigger] s[i].0@ == k].1,
    )
}

proof fn lemma_entries_map_at(s: Seq<(DeviceId, u64)>, i: int)
    requires
        distinct_keys(s),
        0 <= i < s.len(),
    ensures
        entries_map(s).contains_key(s[i].0@),
        entries_map(s)[s[i].0@] == s[i].1,
{
    let k = s[i].0@;
    assert(has_key(s, k));
    let j = choose|j: int| 0 <= j < s.len() && #[trigger] s[j].0@ == k;
    if j != i {
        if j < i {
            assert(s[j].0@ != s[i].0@);
        } else {
            assert(s[i].0@ != s[j].0@);
        }
    }
}

proof fn lemma_entries_map_push(s: Seq<(DeviceId, u64)>, d: DeviceId, v: u64)
    requires
        distinct_keys(s),
        !has_key(s, d@),
    ensures
        distinct_keys(s.push((d, v))),
        entries_map(s.push((d, v))) == entries_map(s).insert(d@, v),
{
    let t = s.push((d, v));
    assert forall|i: int, j: int| 0 <= i < j < t.len() implies #[trigger] t[i].0@ != #[trigger] t[j].0@ by {
        if j == s.len() {
            if t[i].0@ == d@ {
                assert(s[i].0@ == d@);
            }
        } else {
            assert(s[i].0@ != s[j].0@);
        }
    }
    assert forall|k: Seq<char>| entries_map(t).contains_key(k) <==> entries_map(s).insert(d@, v).contains_key(k) by {
        if has_key(t, k) {
            let i = choose|i: int| 0 <= i < t.len() && #[trigger] t[i].0@ == k;
            if i < s.len() {
                assert(s[i].0@ == k);
            }
        }
        if has_key(s, k) {
            let i = choose|i: int| 0 <= i < s.len() && #[trigger] s[i].0@ == k;
            assert(t[i].0@ == k);
        }
        if k == d@ {
            assert(t[s.len() as int].0@ == k);
        }
    }
    assert forall|k: Seq<char>| #[trigger] entries_map(t).contains_key(k) implies entries_map(t)[k] == entries_map(s).insert(d@, v)[k] by {
        let i = choose|i: int| 0 <= i < t.len() && #[trigger] t[i].0@ == k;
        lemma_entries_map_at(t, i);
        if i < s.len() {
            assert(s[i] == t[i]);
            lemma_entries_map_at(s, i);
        }
    }
    assert(entries_map(t) =~= entries_map(s).insert(d@, v));
}

proof fn lemma_entries_map_update(s: Seq<(DeviceId, u64)>, i: int, v: u64)
    requires
        distinct_keys(s),
        0 <= i < s.len(),
    ensures
        distinct_keys(s.update(i, (s[i].0, v))),
        entries_map(s.update(i, (s[i].0, v))) == entries_map(s).insert(s[i].0@, v),
{
    let t = s.update(i, (s[i].0, v));
    assert forall|a: int, b: int| 0 <= a < b < t.len() implies #[trigger] t[a].0@ != #[trigger] t[b].0@ by {
        assert(s[a].0@ != s[b].0@);
    }
    assert forall|k: Seq<char>| entries_map(t).contains_key(k) <==> entries_map(s).insert(s[i].0@, v).contains_key(k) by {
        if has_key(t, k) {
            let j = choose|j: int| 0 <= j < t.len() && #[trigger] t[j].0@ == k;
            assert(s[j].0@ == k);
        }
        if has_key(s, k) {
            let j = choose|j: int| 0 <= j < s.len() && #[trigger] s[j].0@ == k;
            assert(t[j].0@ == k);
        }
        if k == s[i].0@ {
            assert(t[i].0@ == k);
        }
    }
    assert forall|k: Seq<char>| #[trigger] entries_map(t).contains_key(k) implies entries_map(t)[k] == entries_map(s).insert(s[i].0@, v)[k] by {
        let j = choose|j: int| 0 <= j < t.len() && #[trigger] t[j].0@ == k;
        lemma_entries_map_at(t, j);
        if j != i {
            lemma_entries_map_at(s, j);
            assert(s[j].0@ != s[i].0@);
        }
    }
    assert(entries_map(t) =~= entries_map(s).insert(s[i].0@, v));
}

/// The counters that (device, counter) pairs give, a later pair for a device
/// replacing an earlier one.
pub open spec fn pairs_map(pairs: Seq<(DeviceId, u64)>) -> Map<Seq<char>, u64>
    decreases pairs.len(),
{
    if pairs.len() == 0 {
        Map::empty()
    } else {
        pairs_map(pairs.drop_last()).insert(pairs.last().0@, pairs.last().1)
    }
}

/// Version vector: for each device, how many changes it has made that this
/// version includes. Kept as a list of (device, counter) entries with pairwise
/// distinct devices (the type invariant), whose map is the view, rather than a
/// `HashMap`: vstd specifies `HashMap` only for keys known to obey its key
/// model (the integer types and `bool`); for device-id keys that would have to
/// be assumed.
#[derive(Debug)]
pub struct VersionVector {
    entries: Vec<(DeviceId, u64)>,
}

impl View for VersionVector {
    type V = Map<Seq<char>, u64>;

    closed spec fn view(&self) -> Map<Seq<char>, u64> {
        entries_map(self.entries@)
    }
}

impl VersionVector {
    #[verifier::type_invariant]
    spec fn wf(self) -> bool {
        distinct_keys(self.entries@)
    }

    /// The entries, each device once.
    pub closed spec fn spec_entries(&self) -> Seq<(DeviceId, u64)> {
        self.entries@
    }

    pub fn new() -> (res: Self)
        ensures
            res@ == Map::<Seq<char>, u64>::empty(),
    {
        let res = VersionVector { entries: Vec::new() };
        assert(res@ =~= Map::<Seq<char>, u64>::empty());
        res
    }

    /// Position of `device` among the entries, if it has one.
    fn find(&self, device: &DeviceId) -> (res: Option<usize>)
        ensures
            match res {
                Some(i) => i < self.entries@.len() && self.entries@[i as int].0@ == device@,
                None => !has_key(self.entries@, device@),
            },
    {
        let mut i: usize = 0;
        while i < self.entries.len()
            invariant
                i <= self.entries@.len(),
                forall|j: int| 0 <= j < i ==> #[trigger] self.entries@[j].0@ != device@,
            decreases self.entries@.len() - i,
        {
            if self.entries[i].0 == *device {
                return Some(i);
            }
            i = i + 1;
        }
        None
    }

    /// Counter of `device` (0 when the device is unknown).
    pub fn get(&self, device: &DeviceId) -> (res: u64)
        ensures
            res == vv_get(self@, device@),
    {
        proof {
            use_type_invariant(self);
        }
        match self.find(device) {
            Some(i) => {
                proof {
                    lemma_entries_map_at(self.entries@, i as int);
                }
                self.entries[i].1
            },
            None => 0,
        }
    }

    /// Builds a vector from (device, counter) pairs; a later pair for the
    /// same device replaces an earlier one.
    pub fn from_entries(pairs: Vec<(DeviceId, u64)>) -> (res: Self)
        ensures
            res@ == pairs_map(pairs@),
            forall|k: Seq<char>|
                #![trigger res@.contains_key(k)]
                res@.contains_key(k) <==> has_key(pairs@, k),
    {
        let mut res = VersionVector::new();
        let mut i: usize = 0;
        while i < pairs.len()
            invariant
                i <= pairs@.len(),
                forall|k: Seq<char>|
                    #![trigger res@.contains_key(k)]
                    res@.contains_key(k) <==> has_key(pairs@.subrange(0, i as int), k),
                res@ == pairs_map(pairs@.subrange(0, i as int)),
            decreases pairs@.len() - i,
        {
            let ghost before = res@;
            res.set(pairs[i].0.clone(), pairs[i].1);
            proof {
                assert(pairs@.subrange(0, i + 1).drop_last() =~= pairs@.subrange(0, i as int));
                let p = pairs@.subrange(0, i as int);
                let q = pairs@.subrange(0, i + 1);
                assert forall|k: Seq<char>| has_key(q, k) <==> has_key(p, k) || k == pairs@[i as int].0@ by {
                    if has_key(q, k) {
                        let j = choose|j: int| 0 <= j < q.len() && #[trigger] q[j].0@ == k;
                        if j < i {
                            assert(p[j].0@ == k);
                        }
                    }
                    if has_key(p, k) {
                        let j = choose|j: int| 0 <= j < p.len() && #[trigger] p[j].0@ == k;
                        assert(q[j].0@ == k);
                    }
                    if k == pairs@[i as int].0@ {
                        assert(q[i as int].0@ == k);
                    }
                }
            }
            i = i + 1;
        }
        assert(pairs@.subrange(0, pairs@.len() as int) =~= pairs@);
        res
    }

    /// Sets the counter of `device` to `value`.
    pub fn set(&mut self, device: DeviceId, value: u64)
        ensures
            final(self)@ == old(self)@.insert(device@, value),
    {
        proof {
            use_type_invariant(&*self);
        }
        match self.find(&device) {
            Some(i) => {
                proof {
                    lemma_entries_map_update(self.entries@, i as int, value);
                }
                let mut entries: Vec<(DeviceId, u64)> = Vec::new();
                std::mem::swap(&mut entries, &mut self.entries);
                let d = entries[i].0.clone();
                entries.set(i, (d, value));
                self.entries = entries;
            },
            None => {
                proof {
                    lemma_entries_map_push(self.entries@, device, value);
                }
                let mut entries: Vec<(DeviceId, u64)> = Vec::new();
                std::mem::swap(&mut entries, &mut self.entries);
                entries.push((device, value));
                self.entries = entries;
            },
        }
    }

    /// The (device, counter) pairs, each device once.
    pub fn entries(&self) -> (res: Vec<(DeviceId, u64)>)
        ensures
            entries_map(res@) == self@,
            distinct_keys(res@),
    {
        proof {
            use_type_invariant(self);
        }
        let mut res: Vec<(DeviceId, u64)> = Vec::new();
        let mut i: usize = 0;
        while i < self.entries.len()
            invariant
                i <= self.entries@.len(),
                res@ == self.entries@.subrange(0, i as int),
            decreases self.entries@.len() - i,
        {
            res.push((self.entries[i].0.clone(), self.entries[i].1));
            assert(res@ =~= self.entries@.subrange(0, i + 1));
            i = i + 1;
        }
        assert(res@ =~= self.entries@);
        res
    }

    /// True when every change this version holds is also held by `other`.
    pub fn is_ancestor_of(&self, other: &Self) -> (res: bool)
        ensures
            res == vv_le(self@, other@),
    {
        proof {
            use_type_invariant(self);
        }
        let mut i: usize = 0;
        while i < self.entries.len()
            invariant
                i <= self.entries@.len(),
                distinct_keys(self.entries@),
                forall|j: int| 0 <= j < i ==> #[trigger] self.entries@[j].1 <= vv_get(other@, self.entries@[j].0@),
            decreases self.entries@.len() - i,
        {
            let v = self.entries[i].1;
            let o = other.get(&self.entries[i].0);
            if v > o {
                proof {
                    lemma_entries_map_at(self.entries@, i as int);
                }
                return false;
            }
            i = i + 1;
        }
        proof {
            assert forall|k: Seq<char>| self@.contains_key(k) implies #[trigger] self@[k] <= vv_get(other@, k) by {
                let j = choose|j: int| 0 <= j < self.entries@.len() && #[trigger] self.entries@[j].0@ == k;
                lemma_entries_map_at(self.entries@, j);
            }
        }
        true
    }

    /// True when neither version descends from the other.
    pub fn conflicts_with(&self, other: &Self) -> (res: bool)
        ensures
            res == vv_conflict(self@, other@),
    {
        !self.is_ancestor_of(other) && !other.is_ancestor_of(self)
    }

    /// A copy with one more change by `device`.
    pub fn increment(&self, device: &DeviceId) -> (res: Self)
        requires
            vv_get(self@, device@) < u64::MAX,
        ensures
            res@ == vv_increment(self@, device@),
    {
        let mut res = self.clone();
        let c = res.get(device);
        res.set(device.clone(), c + 1);
        res
    }

    /// The least version that descends from both `self` and `other`.
    pub fn merge(&self, other: &Self) -> (res: Self)
        ensures
            res@ == vv_merge(self@, other@),
    {
        proof {
            use_type_invariant(other);
        }
        let mut res = self.clone();
        let mut i: usize = 0;
        while i < other.entries.len()
            invariant
                i <= other.entries@.len(),
                distinct_keys(other.entries@),
                forall|k: Seq<char>|
                    #![trigger res@.contains_key(k)]
                    res@.contains_key(k) <==> self@.contains_key(k) || has_key(other.entries@.subrange(0, i as int), k),
                forall|k: Seq<char>|
                    #![trigger vv_get(res@, k)]
                    vv_get(res@, k) == if has_key(other.entries@.subrange(0, i as int), k) && vv_get(other@, k) > vv_get(self@, k) {
                        vv_get(other@, k)
                    } else {
                        vv_get(self@, k)
                    },
            decreases other.entries@.len() - i,
        {
            let d = &other.entries[i].0;
            let ov = other.entries[i].1;
            let cur = res.get(d);
            let ghost before = res@;
            proof {
                lemma_entries_map_at(other.entries@, i as int);
            }
            if ov > cur {
                res.set(d.clone(), ov);
            } else {
                res.set(d.clone(), cur);
            }
            proof {
                let p = other.entries@.subrange(0, i as int);
                let q = other.entries@.subrange(0, i + 1);
                assert forall|k: Seq<char>| has_key(q, k) <==> has_key(p, k) || k == d@ by {
                    if has_key(q, k) {
                        let j = choose|j: int| 0 <= j < q.len() && #[trigger] q[j].0@ == k;
                        if j < i {
                            assert(p[j].0@ == k);
                        }
                    }
                    if has_key(p, k) {
                        let j = choose|j: int| 0 <= j < p.len() && #[trigger] p[j].0@ == k;
                        assert(q[j].0@ == k);
                    }
                    if k == d@ {
                        assert(q[i as int].0@ == k);
                    }
                }
                assert(!has_key(p, d@)) by {
                    if has_key(p, d@) {
                        let j = choose|j: int| 0 <= j < p.len() && #[trigger] p[j].0@ == d@;
                        assert(other.entries@[j].0@ != other.entries@[i as int].0@);
                    }
                }
                assert forall|k: Seq<char>| #![trigger vv_get(res@, k)]
                    vv_get(res@, k) == if has_key(q, k) && vv_get(other@, k) > vv_get(self@, k) {
                        vv_get(other@, k)
                    } else {
                        vv_get(self@, k)
                    } by {
                    if k != d@ {
                        assert(vv_get(before, k) == vv_get(res@, k));
                    }
                }
            }
            i = i + 1;
        }
        proof {
            assert(other.entries@.subrange(0, other.entries@.len() as int) =~= other.entries@);
            assert forall|k: Seq<char>| has_key(other.entries@, k) <==> other@.contains_key(k) by {}
            assert forall|k: Seq<char>| #[trigger] res@.contains_key(k) implies res@[k] == vv_merge(self@, other@)[k] by {
                assert(vv_get(res@, k) == res@[k]);
            }
            assert(res@ =~= vv_merge(self@, other@));
        }
        res
    }
}

impl Clone for VersionVector {
    fn clone(&self) -> (res: Self)
        ensures
            res@ == self@,
    {
        proof {
            use_type_invariant(self);
        }
        let entries = self.entries();
        VersionVector { entries }
    }
}

/// Every version descends from itself.
pub proof fn lemma_ancestor_reflexive(a: Map<Seq<char>, u64>)
    ensures
        vv_le(a, a),
{
}

/// Descent is transitive.
pub proof fn lemma_ancestor_transitive(a: Map<Seq<char>, u64>, b: Map<Seq<char>, u64>, c: Map<Seq<char>, u64>)
    requires
        vv_le(a, b),
        vv_le(b, c),
    ensures
        vv_le(a, c),
{
    assert forall|k: Seq<char>| a.contains_key(k) implies #[trigger] a[k] <= vv_get(c, k) by {
        if b.contains_key(k) {
            assert(b[k] <= vv_get(c, k));
        }
    }
}

/// Two versions that descend from each other hold the same counter for every device.
pub proof fn lemma_ancestor_antisymmetric(a: Map<Seq<char>, u64>, b: Map<Seq<char>, u64>, k: Seq<char>)
    requires
        vv_le(a, b),
        vv_le(b, a),
    ensures
        vv_get(a, k) == vv_get(b, k),
{
    if a.contains_key(k) {
        assert(a[k] <= vv_get(b, k));
    }
    if b.contains_key(k) {
        assert(b[k] <= vv_get(a, k));
    }
}

/// Conflict is symmetric.
pub proof fn lemma_conflict_symmetric(a: Map<Seq<char>, u64>, b: Map<Seq<char>, u64>)
    ensures
        vv_conflict(a, b) == vv_conflict(b, a),
{
}

/// A merge descends from both of its inputs.
pub proof fn lemma_merge_upper_bound(a: Map<Seq<char>, u64>, b: Map<Seq<char>, u64>)
    ensures
        vv_le(a, vv_merge(a, b)),
        vv_le(b, vv_merge(a, b)),
{
    let m = vv_merge(a, b);
    assert forall|k: Seq<char>| a.contains_key(k) implies #[trigger] a[k] <= vv_get(m, k) by {
        assert(m.contains_key(k));
    }
    assert forall|k: Seq<char>| b.contains_key(k) implies #[trigger] b[k] <= vv_get(m, k) by {
        assert(m.contains_key(k));
    }
}

/// A merge is the least version that descends from both inputs.
pub proof fn lemma_merge_least(a: Map<Seq<char>, u64>, b: Map<Seq<char>, u64>, c: Map<Seq<char>, u64>)
    requires
        vv_le(a, c),
        vv_le(b, c),
    ensures
        vv_le(vv_merge(a, b), c),
{
    let m = vv_merge(a, b);
    assert forall|k: Seq<char>| m.contains_key(k) implies #[trigger] m[k] <= vv_get(c, k) by {
        if a.contains_key(k) {
            assert(a[k] <= vv_get(c, k));
        }
        if b.contains_key(k) {
            assert(b[k] <= vv_get(c, k));
        }
    }
}

/// Merging is commutative.
pub proof fn lemma_merge_commutative(a: Map<Seq<char>, u64>, b: Map<Seq<char>, u64>)
    ensures
        vv_merge(a, b) == vv_merge(b, a),
{
    assert(vv_merge(a, b) =~= vv_merge(b, a));
}

/// Merging a version with itself changes nothing.
pub proof fn lemma_merge_idempotent(a: Map<Seq<char>, u64>)
    ensures
        vv_merge(a, a) == a,
{
    assert(vv_merge(a, a) =~= a);
}

/// Merging is associative.
pub proof fn lemma_merge_associative(a: Map<Seq<char>, u64>, b: Map<Seq<char>, u64>, c: Map<Seq<char>, u64>)
    ensures
        vv_merge(vv_merge(a, b), c) == vv_merge(a, vv_merge(b, c)),
{
    assert(vv_merge(vv_merge(a, b), c) =~= vv_merge(a, vv_merge(b, c)));
}

/// An increment strictly descends from the version it came from.
pub proof fn lemma_increment_descends(a: Map<Seq<char>, u64>, d: Seq<char>)
    requires
        vv_get(a, d) < u64::MAX,
    ensures
        vv_le(a, vv_increment(a, d)),
        !vv_le(vv_increment(a, d), a),
{
    let n = vv_increment(a, d);
    assert forall|k: Seq<char>| a.contains_key(k) implies #[trigger] a[k] <= vv_get(n, k) by {
        assert(n.contains_key(k));
    }
    assert(n.contains_key(d));
    assert(n[d] > vv_get(a, d));
}

/// When one version descends from the other, merging yields the later one.
pub proof fn lemma_merge_of_ancestor(a: Map<Seq<char>, u64>, b: Map<Seq<char>, u64>)
    requires
        vv_le(a, b),
    ensures
        vv_le(vv_merge(a, b), b),
        vv_le(b, vv_merge(a, b)),
{
    lemma_ancestor_reflexive(b);
    lemma_merge_least(a, b, b);
    lemma_merge_upper_bound(a, b);
}

} // verus!
