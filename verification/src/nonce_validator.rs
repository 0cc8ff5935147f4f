use vstd::prelude::*;
use crate::clock::unix_now;
use crate::error::DomainError;

verus! {

/// Most nonces remembered at once.
pub const MAX_NONCES: usize = 10_000;

pub open spec fn keys_distinct(s: Seq<(String, u64)>) -> bool {
    forall|i: int, j: int| 0 <= i < j < s.len() ==> #[trigger] s[i].0@ != #[trigger] s[j].0@
}

pub open spec fn seq_has(s: Seq<(String, u64)>, k: Seq<char>) -> bool {
    exists|i: int| 0 <= i < s.len() && #[trigger] s[i].0@ == k
}

/// The map (nonce text to timestamp) that a list of entries denotes.
pub open spec fn nonce_map(s: Seq<(String, u64)>) -> Map<Seq<char>, u64> {
    Map::new(
        |k: Seq<char>| seq_has(s, k),
        |k: Seq<char>| s[choose|i: int| 0 <= i < s.len() && #[trigger] s[i].0@ == k].1,
    )
}

/// Nonces whose timestamp is not older than `cutoff`.
pub open spec fn keep_recent(m: Map<Seq<char>, u64>, cutoff: u64) -> Map<Seq<char>, u64> {
    Map::new(|k: Seq<char>| m.contains_key(k) && m[k] >= cutoff, |k: Seq<char>| m[k])
}

/// How many entries have a timestamp not older than `cutoff`.
pub open spec fn count_recent(s: Seq<(String, u64)>, cutoff: u64) -> nat
    decreases s.len(),
{
    if s.len() == 0 {
        0
    } else {
        count_recent(s.drop_last(), cutoff) + if s.last().1 >= cutoff {
            1nat
        } else {
            0
        }
    }
}

proof fn lemma_count_recent_le(s: Seq<(String, u64)>, cutoff: u64)
    ensures
        count_recent(s, cutoff) <= s.len(),
    decreases s.len(),
{
    if s.len() > 0 {
        lemma_count_recent_le(s.drop_last(), cutoff);
    }
}

/// Age bound of accepted timestamps: `now - window`, or 0.
pub open spec fn cutoff_of(now: u64, window: u64) -> u64 {
    if now >= window {
        (now - window) as u64
    } else {
        0
    }
}

pub open spec fn distance(a: u64, b: u64) -> u64 {
    if a >= b {
        (a - b) as u64
    } else {
        (b - a) as u64
    }
}

proof fn lemma_nonce_map_at(s: Seq<(String, u64)>, i: int)
    requires
        keys_distinct(s),
        0 <= i < s.len(),
    ensures
        nonce_map(s).contains_key(s[i].0@),
        nonce_map(s)[s[i].0@] == s[i].1,
{
    let k = s[i].0@;
    assert(seq_has(s, k));
    let j = choose|j: int| 0 <= j < s.len() && #[trigger] s[j].0@ == k;
    if j != i {
        if j < i {
            assert(s[j].0@ != s[i].0@);
        } else {
            assert(s[i].0@ != s[j].0@);
        }
    }
}

proof fn lemma_nonce_map_push(s: Seq<(String, u64)>, e: (String, u64))
    requires
        keys_distinct(s),
        !seq_has(s, e.0@),
    ensures
        keys_distinct(s.push(e)),
        nonce_map(s.push(e)) == nonce_map(s).insert(e.0@, e.1),
{
    let t = s.push(e);
    assert forall|i: int, j: int| 0 <= i < j < t.len() implies #[trigger] t[i].0@ != #[trigger] t[j].0@ by {
        if j == s.len() {
            if t[i].0@ == e.0@ {
                assert(s[i].0@ == e.0@);
            }
        } else {
            assert(s[i].0@ != s[j].0@);
        }
    }
    assert forall|k: Seq<char>| nonce_map(t).contains_key(k) <==> nonce_map(s).insert(e.0@, e.1).contains_key(k) by {
        if seq_has(t, k) {
            let i = choose|i: int| 0 <= i < t.len() && #[trigger] t[i].0@ == k;
            if i < s.len() {
                assert(s[i].0@ == k);
            }
        }
        if seq_has(s, k) {
            let i = choose|i: int| 0 <= i < s.len() && #[trigger] s[i].0@ == k;
            assert(t[i].0@ == k);
        }
        if k == e.0@ {
            assert(t[s.len() as int].0@ == k);
        }
    }
    assert forall|k: Seq<char>| #[trigger] nonce_map(t).contains_key(k) implies nonce_map(t)[k] == nonce_map(s).insert(e.0@, e.1)[k] by {
        let i = choose|i: int| 0 <= i < t.len() && #[trigger] t[i].0@ == k;
        lemma_nonce_map_at(t, i);
        if i < s.len() {
            assert(s[i] == t[i]);
            lemma_nonce_map_at(s, i);
        }
    }
    assert(nonce_map(t) =~= nonce_map(s).insert(e.0@, e.1));
}

proof fn lemma_nonce_map_remove(s: Seq<(String, u64)>, i: int)
    requires
        keys_distinct(s),
        0 <= i < s.len(),
    ensures
        keys_distinct(s.remove(i)),
        nonce_map(s.remove(i)) == nonce_map(s).remove(s[i].0@),
{
    let t = s.remove(i);
    assert forall|a: int, b: int| 0 <= a < b < t.len() implies #[trigger] t[a].0@ != #[trigger] t[b].0@ by {
        let a2 = if a < i { a } else { a + 1 };
        let b2 = if b < i { b } else { b + 1 };
        assert(t[a] == s[a2]);
        assert(t[b] == s[b2]);
        assert(s[a2].0@ != s[b2].0@);
    }
    assert forall|k: Seq<char>| nonce_map(t).contains_key(k) <==> nonce_map(s).remove(s[i].0@).contains_key(k) by {
        if seq_has(t, k) {
            let a = choose|a: int| 0 <= a < t.len() && #[trigger] t[a].0@ == k;
            let a2 = if a < i { a } else { a + 1 };
            assert(t[a] == s[a2]);
            assert(s[a2].0@ == k);
            assert(s[a2].0@ != s[i].0@);
        }
        if seq_has(s, k) && k != s[i].0@ {
            let a = choose|a: int| 0 <= a < s.len() && #[trigger] s[a].0@ == k;
            if a < i {
                assert(t[a] == s[a]);
                assert(t[a].0@ == k);
            } else {
                assert(a != i);
                assert(t[a - 1] == s[a]);
                assert(t[a - 1].0@ == k);
            }
        }
    }
    assert forall|k: Seq<char>| #[trigger] nonce_map(t).contains_key(k) implies nonce_map(t)[k] == nonce_map(s).remove(s[i].0@)[k] by {
        let a = choose|a: int| 0 <= a < t.len() && #[trigger] t[a].0@ == k;
        lemma_nonce_map_at(t, a);
        let a2 = if a < i { a } else { a + 1 };
        assert(t[a] == s[a2]);
        lemma_nonce_map_at(s, a2);
    }
    assert(nonce_map(t) =~= nonce_map(s).remove(s[i].0@));
}

/// Remembers recent request nonces to reject replays. Kept as a list of (nonce,
/// timestamp) entries with pairwise distinct nonces and at most [`MAX_NONCES`]
/// of them (the type invariant), whose map is the view, rather than a
/// `HashMap`: vstd specifies `HashMap` only for keys known to obey its key
/// model (the integer types and `bool`); for nonce-text keys that would have to
/// be assumed.
pub struct NonceValidator {
    seen: Vec<(String, u64)>,
    window_secs: u64,
}

impl View for NonceValidator {
    type V = Map<Seq<char>, u64>;

    closed spec fn view(&self) -> Map<Seq<char>, u64> {
        nonce_map(self.seen@)
    }
}

/// The outcome of checking a request with `nonce` stamped `timestamp` at
/// clock time `now`, taking the validator from `before` to `after`: a
/// timestamp further than the window from `now` is refused and nothing
/// changes; otherwise nonces older than `now - window` are forgotten; a nonce
/// still remembered is a replay; a new one is remembered, and when that makes
/// more than [`MAX_NONCES`] one with the oldest timestamp is forgotten.
pub open spec fn validated(
    before: NonceValidator,
    after: NonceValidator,
    nonce: Seq<char>,
    timestamp: u64,
    now: u64,
    res: Result<(), DomainError>,
) -> bool {
    let w = before.window();
    let cutoff = cutoff_of(now, w);
    let recent = keep_recent(before@, cutoff);
    let added = recent.insert(nonce, timestamp);
    &&& after.window() == w
    &&& after.size() <= MAX_NONCES
    &&& if distance(now, timestamp) > w {
        res == Err::<(), DomainError>(DomainError::TimestampOutOfWindow) && after@ == before@
    } else if recent.contains_key(nonce) {
        res == Err::<(), DomainError>(DomainError::NonceReplay) && after@ == recent
    } else if before.recent_size(cutoff) < MAX_NONCES {
        res is Ok && after@ == added && after.size() == before.recent_size(cutoff) + 1
    } else {
        res is Ok && after.size() == MAX_NONCES && exists|k: Seq<char>|
            #![trigger added[k]]
            added.contains_key(k) && (forall|j: Seq<char>| added.contains_key(j) ==> added[k] <= #[trigger] added[j])
                && after@ == added.remove(k)
    }
}

impl NonceValidator {
    #[verifier::type_invariant]
    spec fn wf(self) -> bool {
        keys_distinct(self.seen@) && self.seen@.len() <= MAX_NONCES
    }

    /// How many nonces are remembered.
    pub closed spec fn size(&self) -> nat {
        self.seen@.len()
    }

    /// How many remembered nonces are not older than `cutoff`.
    pub closed spec fn recent_size(&self, cutoff: u64) -> nat {
        count_recent(self.seen@, cutoff)
    }

    pub closed spec fn window(&self) -> u64 {
        self.window_secs
    }

    /// A validator accepting timestamps within `window_secs` of the clock, remembering nothing yet.
    pub fn new(window_secs: u64) -> (res: Self)
        ensures
            res@ == Map::<Seq<char>, u64>::empty(),
            res.size() == 0,
            res.window() == window_secs,
    {
        let res = NonceValidator { seen: Vec::new(), window_secs };
        assert(res@ =~= Map::<Seq<char>, u64>::empty());
        res
    }

    /// A validator with a five-minute window.
    pub fn default() -> (res: Self)
        ensures
            res@ == Map::<Seq<char>, u64>::empty(),
            res.window() == 300,
    {
        Self::new(60 * 5)
    }

    pub fn window_secs(&self) -> (res: u64)
        ensures
            res == self.window(),
    {
        self.window_secs
    }

    /// Checks a request with `nonce` stamped `timestamp` at clock time `now`.
    /// A timestamp further than the window from `now` is refused and nothing
    /// changes. Otherwise nonces older than `now - window` are forgotten; a
    /// nonce still remembered is a replay; a new one is remembered, and when
    /// that makes more than [`MAX_NONCES`] the one with the oldest timestamp
    /// is forgotten.
    pub fn validate_at(&mut self, nonce: &str, timestamp: u64, now: u64) -> (res: Result<(), DomainError>)
        ensures
            validated(*old(self), *final(self), nonce@, timestamp, now, res),
    {
        proof {
            use_type_invariant(&*self);
        }
        let w = self.window_secs;
        let diff = if now >= timestamp { now - timestamp } else { timestamp - now };
        if diff > w {
            return Err(DomainError::TimestampOutOfWindow);
        }
        let cutoff = if now >= w { now - w } else { 0 };
        let ghost old_seen = self.seen@;
        let ghost recent = keep_recent(nonce_map(old_seen), cutoff);
        let mut kept: Vec<(String, u64)> = Vec::new();
        let mut i: usize = 0;
        while i < self.seen.len()
            invariant
                i <= self.seen@.len(),
                self.seen@ == old_seen,
                self.window_secs == w,
                old_seen.len() <= MAX_NONCES,
                keys_distinct(old_seen),
                keys_distinct(kept@),
                kept@.len() == count_recent(old_seen.subrange(0, i as int), cutoff),
                forall|k: Seq<char>| #![trigger nonce_map(kept@).contains_key(k)]
                    nonce_map(kept@).contains_key(k) <==> seq_has(old_seen.subrange(0, i as int), k) && nonce_map(old_seen)[k] >= cutoff,
                forall|k: Seq<char>| #![trigger nonce_map(kept@)[k]]
                    nonce_map(kept@).contains_key(k) ==> nonce_map(kept@)[k] == nonce_map(old_seen)[k],
            decreases old_seen.len() - i,
        {
            let ts = self.seen[i].1;
            let ghost p = old_seen.subrange(0, i as int);
            let ghost q = old_seen.subrange(0, i + 1);
            proof {
                assert(q.drop_last() =~= p);
                lemma_nonce_map_at(old_seen, i as int);
                assert forall|k: Seq<char>| seq_has(q, k) <==> seq_has(p, k) || k == old_seen[i as int].0@ by {
                    if seq_has(q, k) {
                        let a = choose|a: int| 0 <= a < q.len() && #[trigger] q[a].0@ == k;
                        if a < i {
                            assert(p[a].0@ == k);
                        }
                    }
                    if seq_has(p, k) {
                        let a = choose|a: int| 0 <= a < p.len() && #[trigger] p[a].0@ == k;
                        assert(q[a].0@ == k);
                    }
                    if k == old_seen[i as int].0@ {
                        assert(q[i as int].0@ == k);
                    }
                }
                assert(!seq_has(p, old_seen[i as int].0@)) by {
                    if seq_has(p, old_seen[i as int].0@) {
                        let a = choose|a: int| 0 <= a < p.len() && #[trigger] p[a].0@ == old_seen[i as int].0@;
                        assert(old_seen[a].0@ != old_seen[i as int].0@);
                    }
                }
            }
            if ts >= cutoff {
                let e = (self.seen[i].0.clone(), ts);
                proof {
                    assert(!seq_has(kept@, e.0@)) by {
                        if seq_has(kept@, e.0@) {
                            let a = choose|a: int| 0 <= a < kept@.len() && #[trigger] kept@[a].0@ == e.0@;
                            assert(nonce_map(kept@).contains_key(e.0@));
                        }
                    }
                    lemma_nonce_map_push(kept@, e);
                }
                kept.push(e);
            }
            i = i + 1;
        }
        proof {
            lemma_count_recent_le(old_seen, cutoff);
            assert(old_seen.subrange(0, old_seen.len() as int) =~= old_seen);
            assert forall|k: Seq<char>| seq_has(old_seen, k) <==> nonce_map(old_seen).contains_key(k) by {}
            assert(nonce_map(kept@) =~= recent);
        }
        let mut j: usize = 0;
        while j < kept.len()
            invariant
                j <= kept@.len(),
                self.window_secs == w,
                w == old(self).window_secs,
                old_seen == old(self).seen@,
                cutoff == cutoff_of(now, w),
                distance(now, timestamp) <= w,
                recent == keep_recent(nonce_map(old_seen), cutoff),
                keys_distinct(kept@),
                kept@.len() <= MAX_NONCES,
                kept@.len() == count_recent(old_seen, cutoff),
                nonce_map(kept@) == recent,
                forall|a: int| 0 <= a < j ==> #[trigger] kept@[a].0@ != nonce@,
            decreases kept@.len() - j,
        {
            if crate::text::str_eq(kept[j].0.as_str(), nonce) {
                proof {
                    lemma_nonce_map_at(kept@, j as int);
                }
                self.seen = kept;
                return Err(DomainError::NonceReplay);
            }
            j = j + 1;
        }
        let e = (nonce.to_string(), timestamp);
        proof {
            lemma_nonce_map_push(kept@, e);
        }
        kept.push(e);
        let ghost added = nonce_map(kept@);
        if kept.len() > MAX_NONCES {
            let mut m: usize = 0;
            let mut a: usize = 1;
            while a < kept.len()
                invariant
                    1 <= a <= kept@.len(),
                    m < a,
                    forall|b: int| 0 <= b < a ==> kept@[m as int].1 <= #[trigger] kept@[b].1,
                decreases kept@.len() - a,
            {
                if kept[a].1 < kept[m].1 {
                    m = a;
                }
                a = a + 1;
            }
            proof {
                let k = kept@[m as int].0@;
                lemma_nonce_map_at(kept@, m as int);
                assert forall|jj: Seq<char>| added.contains_key(jj) implies added[k] <= #[trigger] added[jj] by {
                    let b = choose|b: int| 0 <= b < kept@.len() && #[trigger] kept@[b].0@ == jj;
                    lemma_nonce_map_at(kept@, b);
                }
                lemma_nonce_map_remove(kept@, m as int);
            }
            let _ = kept.remove(m);
            self.seen = kept;
        } else {
            self.seen = kept;
        }
        Ok(())
    }

    /// Checks a request against the current clock; see [`NonceValidator::validate_at`].
    pub fn validate(&mut self, nonce: &str, timestamp: u64) -> (res: Result<(), DomainError>)
        ensures
            exists|now: u64| #[trigger] validated(*old(self), *final(self), nonce@, timestamp, now, res),
    {
        let now = unix_now();
        let res = self.validate_at(nonce, timestamp, now);
        assert(validated(*old(self), *self, nonce@, timestamp, now, res));
        res
    }
}

/// Replays are refused: a nonce that `validate_at` accepted and stored with
/// timestamp `ts` (the state then being the recent nonces plus this one) is
/// still remembered by a later check at any clock time `later` whose window
/// reaches back to `ts`, so that check reports a replay or, when the new
/// request's own timestamp is off, a timestamp out of window.
pub proof fn lemma_accepted_nonce_remembered(
    m: Map<Seq<char>, u64>,
    w: u64,
    nonce: Seq<char>,
    ts: u64,
    now: u64,
    later: u64,
)
    requires
        distance(now, ts) <= w,
        cutoff_of(later, w) <= ts,
    ensures
        keep_recent(keep_recent(m, cutoff_of(now, w)).insert(nonce, ts), cutoff_of(later, w)).contains_key(nonce),
{
}

/// A check that finds the store below its cap forgets no remembered nonce
/// whose timestamp is still inside the check's window, and keeps its
/// timestamp.
pub proof fn lemma_nonce_kept(
    before: NonceValidator,
    after: NonceValidator,
    nonce: Seq<char>,
    timestamp: u64,
    now: u64,
    res: Result<(), DomainError>,
    kept: Seq<char>,
)
    requires
        validated(before, after, nonce, timestamp, now, res),
        before@.contains_key(kept),
        cutoff_of(now, before.window()) <= before@[kept],
        before.recent_size(cutoff_of(now, before.window())) < MAX_NONCES,
    ensures
        after@.contains_key(kept),
        after@[kept] == before@[kept],
{
    let recent = keep_recent(before@, cutoff_of(now, before.window()));
    assert(recent.contains_key(kept));
}

/// Step `i` of a run of checks: the validator goes from `states[i]` to
/// `states[i + 1]` checking `nonces[i]` stamped `stamps[i]` at `clocks[i]`.
pub open spec fn run_step(
    states: Seq<NonceValidator>,
    nonces: Seq<Seq<char>>,
    stamps: Seq<u64>,
    clocks: Seq<u64>,
    results: Seq<Result<(), DomainError>>,
    i: int,
) -> bool {
    validated(states[i], states[i + 1], nonces[i], stamps[i], clocks[i], results[i])
}

/// Step `i` finds the store below its cap.
pub open spec fn run_below_cap(states: Seq<NonceValidator>, clocks: Seq<u64>, i: int) -> bool {
    states[i].recent_size(cutoff_of(clocks[i], states[i].window())) < MAX_NONCES
}

proof fn lemma_run_keeps(
    states: Seq<NonceValidator>,
    nonces: Seq<Seq<char>>,
    stamps: Seq<u64>,
    clocks: Seq<u64>,
    results: Seq<Result<(), DomainError>>,
    i: int,
)
    requires
        2 <= nonces.len(),
        states.len() == nonces.len() + 1,
        stamps.len() == nonces.len(),
        clocks.len() == nonces.len(),
        results.len() == nonces.len(),
        forall|j: int| 0 <= j < nonces.len() ==> #[trigger] run_step(states, nonces, stamps, clocks, results, j),
        results[0] is Ok,
        forall|j: int| 0 <= j < nonces.len() - 1 ==> #[trigger] run_below_cap(states, clocks, j),
        forall|j: int| 0 < j < nonces.len() ==> cutoff_of(#[trigger] clocks[j], states[0].window()) <= stamps[0],
        1 <= i < nonces.len(),
    ensures
        states[i]@.contains_key(nonces[0]),
        states[i]@[nonces[0]] == stamps[0],
        states[i].window() == states[0].window(),
    decreases i,
{
    if i == 1 {
        assert(run_step(states, nonces, stamps, clocks, results, 0));
        assert(run_below_cap(states, clocks, 0));
    } else {
        lemma_run_keeps(states, nonces, stamps, clocks, results, i - 1);
        assert(run_step(states, nonces, stamps, clocks, results, i - 1));
        assert(run_below_cap(states, clocks, i - 1));
        assert(cutoff_of(clocks[i - 1], states[0].window()) <= stamps[0]);
        lemma_nonce_kept(states[i - 1], states[i], nonces[i - 1], stamps[i - 1], clocks[i - 1], results[i - 1], nonces[0]);
    }
}

/// Replays are refused over a run of checks: once a nonce is accepted, a
/// later request with it is refused (as a replay when its own timestamp is
/// inside the window), provided every check up to that request found the
/// store below its cap and each later check's window still reaches back to
/// the accepted timestamp. At the cap, a new nonce with the oldest timestamp
/// is forgotten at once, so the proviso cannot be dropped.
pub proof fn lemma_replay_refused_later(
    states: Seq<NonceValidator>,
    nonces: Seq<Seq<char>>,
    stamps: Seq<u64>,
    clocks: Seq<u64>,
    results: Seq<Result<(), DomainError>>,
)
    requires
        2 <= nonces.len(),
        states.len() == nonces.len() + 1,
        stamps.len() == nonces.len(),
        clocks.len() == nonces.len(),
        results.len() == nonces.len(),
        forall|j: int| 0 <= j < nonces.len() ==> #[trigger] run_step(states, nonces, stamps, clocks, results, j),
        results[0] is Ok,
        forall|j: int| 0 <= j < nonces.len() - 1 ==> #[trigger] run_below_cap(states, clocks, j),
        forall|j: int| 0 < j < nonces.len() ==> cutoff_of(#[trigger] clocks[j], states[0].window()) <= stamps[0],
        nonces.last() == nonces[0],
    ensures
        results.last() is Err,
        distance(clocks.last(), stamps.last()) <= states[0].window() ==> results.last()
            == Err::<(), DomainError>(DomainError::NonceReplay),
{
    let l = nonces.len() - 1;
    lemma_run_keeps(states, nonces, stamps, clocks, results, l);
    assert(run_step(states, nonces, stamps, clocks, results, l));
    assert(cutoff_of(clocks[l], states[0].window()) <= stamps[0]);
    let recent = keep_recent(states[l]@, cutoff_of(clocks[l], states[l].window()));
    assert(recent.contains_key(nonces[0]));
}

} // verus!
