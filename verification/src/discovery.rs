use vstd::prelude::*;

verus! {

/// The texts of a list of strings.
pub open spec fn texts(v: Seq<String>) -> Seq<Seq<char>> {
    v.map_values(|s: String| s@)
}

/// Discovery by probing addresses the user entered by hand.
#[derive(Debug)]
pub struct ManualIpStrategy {
    ips: Vec<String>,
}

impl View for ManualIpStrategy {
    type V = Seq<Seq<char>>;

    closed spec fn view(&self) -> Seq<Seq<char>> {
        texts(self.ips@)
    }
}

impl ManualIpStrategy {
    pub fn new() -> (res: Self)
        ensures
            res@ == Seq::<Seq<char>>::empty(),
    {
        let res = ManualIpStrategy { ips: Vec::new() };
        assert(res@ =~= Seq::<Seq<char>>::empty());
        res
    }

    /// Adds `ip` unless it is already listed.
    pub fn add_ip(&mut self, ip: String)
        ensures
            old(self)@.contains(ip@) ==> final(self)@ == old(self)@,
            !old(self)@.contains(ip@) ==> final(self)@ == old(self)@.push(ip@),
    {
        let mut i: usize = 0;
        while i < self.ips.len()
            invariant
                i <= self.ips@.len(),
                forall|j: int| 0 <= j < i ==> #[trigger] self.ips@[j]@ != ip@,
            decreases self.ips@.len() - i,
        {
            if self.ips[i] == ip {
                assert(self@[i as int] == ip@);
                return;
            }
            i = i + 1;
        }
        proof {
            assert forall|j: int| 0 <= j < self@.len() implies self@[j] != ip@ by {
                assert(self@[j] == self.ips@[j]@);
            }
        }
        let ghost before = self.ips@;
        self.ips.push(ip);
        assert(texts(self.ips@) =~= texts(before).push(ip@));
    }

    /// The listed addresses, in the order they were added.
    pub fn ips(&self) -> (res: Vec<String>)
        ensures
            texts(res@) == self@,
    {
        let mut res: Vec<String> = Vec::new();
        let mut i: usize = 0;
        while i < self.ips.len()
            invariant
                i <= self.ips@.len(),
                res@.len() == i,
                forall|k: int| 0 <= k < i ==> #[trigger] res@[k]@ == self.ips@[k]@,
            decreases self.ips@.len() - i,
        {
            res.push(self.ips[i].clone());
            i = i + 1;
        }
        assert(texts(res@) =~= texts(self.ips@));
        res
    }
}

/// The addresses `1..=n` of the /24 network of `local`, in order.
pub open spec fn subnet_range(local: [u8; 4], n: nat) -> Seq<[u8; 4]> {
    Seq::new(n, |k: int| [local[0], local[1], local[2], (k + 1) as u8])
}

/// The hosts `1..=n` of the /24 network of `local`, other than `local` itself.
pub open spec fn subnet_hosts(local: [u8; 4], n: nat) -> Seq<[u8; 4]> {
    subnet_range(local, n).filter(|h: [u8; 4]| h[3] != local[3])
}

/// Discovery by probing every host of the local /24 network.
pub struct HttpScanStrategy;

impl HttpScanStrategy {
    pub fn new() -> (res: Self) {
        HttpScanStrategy
    }

    /// The addresses to probe around `local`: hosts 1 to 254 of its /24
    /// network, in order, without `local` itself.
    pub fn subnet_ips(local: [u8; 4]) -> (res: Vec<[u8; 4]>)
        ensures
            res@ == subnet_hosts(local, 254),
    {
        let mut res: Vec<[u8; 4]> = Vec::new();
        let mut i: u8 = 1;
        proof {
            reveal_with_fuel(Seq::filter, 1);
            assert(subnet_range(local, 0) =~= Seq::<[u8; 4]>::empty());
        }
        while i <= 254
            invariant
                1 <= i <= 255,
                res@ == subnet_hosts(local, (i - 1) as nat),
            decreases 255 - i,
        {
            proof {
                reveal_with_fuel(Seq::filter, 1);
                assert(subnet_range(local, i as nat).drop_last() =~= subnet_range(local, (i - 1) as nat));
                assert(subnet_range(local, i as nat).last() == [local[0], local[1], local[2], i]);
            }
            if i != local[3] {
                res.push([local[0], local[1], local[2], i]);
            }
            i = i + 1;
        }
        res
    }
}


/// No address is listed twice.
pub open spec fn no_duplicates(s: Seq<Seq<char>>) -> bool {
    forall|a: int, b: int| 0 <= a < b < s.len() ==> s[a] != s[b]
}

/// Adding addresses by hand never lists one twice.
pub proof fn lemma_add_ip_keeps_unique(before: Seq<Seq<char>>, ip: Seq<char>)
    requires
        no_duplicates(before),
    ensures
        no_duplicates(if before.contains(ip) { before } else { before.push(ip) }),
{
    if !before.contains(ip) {
        let after = before.push(ip);
        assert forall|a: int, b: int| 0 <= a < b < after.len() implies after[a] != after[b] by {
            if b == before.len() {
                assert(after[a] == before[a]);
                if before[a] == ip {
                    assert(before.contains(ip));
                }
            }
        }
    }
}


/// Strategy `a` comes before strategy `b`: lower priority number first,
/// and in the order given among equal priorities.
pub open spec fn runs_before(priorities: Seq<u8>, a: usize, b: usize) -> bool {
    priorities[a as int] < priorities[b as int] || (priorities[a as int] == priorities[b as int] && a < b)
}

/// How many of `s` are below `p`.
pub open spec fn count_below(s: Seq<u8>, p: int) -> nat
    decreases s.len(),
{
    if s.len() == 0 {
        0
    } else {
        count_below(s.drop_last(), p) + if (s.last() as int) < p {
            1nat
        } else {
            0
        }
    }
}

/// How many of `s` equal `p`.
pub open spec fn count_equal(s: Seq<u8>, p: int) -> nat
    decreases s.len(),
{
    if s.len() == 0 {
        0
    } else {
        count_equal(s.drop_last(), p) + if s.last() as int == p {
            1nat
        } else {
            0
        }
    }
}

proof fn lemma_count_below_next(s: Seq<u8>, p: int)
    ensures
        count_below(s, p + 1) == count_below(s, p) + count_equal(s, p),
    decreases s.len(),
{
    if s.len() > 0 {
        lemma_count_below_next(s.drop_last(), p);
    }
}

proof fn lemma_count_below_zero(s: Seq<u8>)
    ensures
        count_below(s, 0) == 0,
    decreases s.len(),
{
    if s.len() > 0 {
        lemma_count_below_zero(s.drop_last());
    }
}

proof fn lemma_count_below_all(s: Seq<u8>)
    ensures
        count_below(s, 256) == s.len(),
    decreases s.len(),
{
    if s.len() > 0 {
        lemma_count_below_all(s.drop_last());
    }
}

/// The order in which discovery strategies are tried: by priority, and in
/// the given order among equal priorities (a stable sort by priority).
pub fn discovery_order(priorities: &Vec<u8>) -> (res: Vec<usize>)
    ensures
        res@.len() == priorities@.len(),
        forall|k: int| 0 <= k < res@.len() ==> res@[k] < priorities@.len(),
        forall|a: int, b: int| 0 <= a < b < res@.len() ==> runs_before(priorities@, #[trigger] res@[a], #[trigger] res@[b]),
        forall|i: usize| i < priorities@.len() ==> res@.contains(i),
{
    let n = priorities.len();
    let mut res: Vec<usize> = Vec::new();
    let mut p: u16 = 0;
    proof {
        lemma_count_below_zero(priorities@);
    }
    while p < 256
        invariant
            n == priorities@.len(),
            p <= 256,
            res@.len() == count_below(priorities@, p as int),
            forall|k: int| 0 <= k < res@.len() ==> res@[k] < n && (priorities@[res@[k] as int] as int) < p,
            forall|a: int, b: int| 0 <= a < b < res@.len() ==> runs_before(priorities@, #[trigger] res@[a], #[trigger] res@[b]),
            forall|i: usize| i < n && (priorities@[i as int] as int) < p ==> res@.contains(i),
        decreases 256 - p,
    {
        let mut i: usize = 0;
        while i < n
            invariant
                n == priorities@.len(),
                p < 256,
                i <= n,
                res@.len() == count_below(priorities@, p as int) + count_equal(priorities@.subrange(0, i as int), p as int),
                forall|k: int| 0 <= k < res@.len() ==> res@[k] < n && ((priorities@[res@[k] as int] as int) < p
                    || (priorities@[res@[k] as int] as int == p && res@[k] < i)),
                forall|a: int, b: int| 0 <= a < b < res@.len() ==> runs_before(priorities@, #[trigger] res@[a], #[trigger] res@[b]),
                forall|j: usize| j < n && (priorities@[j as int] as int) < p ==> res@.contains(j),
                forall|j: usize| j < i && priorities@[j as int] as int == p ==> res@.contains(j),
            decreases n - i,
        {
            proof {
                assert(priorities@.subrange(0, i + 1).drop_last() =~= priorities@.subrange(0, i as int));
            }
            if priorities[i] as u16 == p {
                let ghost before = res@;
                res.push(i);
                proof {
                    assert forall|a: int, b: int| 0 <= a < b < res@.len() implies runs_before(priorities@, #[trigger] res@[a], #[trigger] res@[b]) by {
                        if b == res@.len() - 1 {
                            assert(res@[a] == before[a]);
                        } else {
                            assert(res@[a] == before[a] && res@[b] == before[b]);
                        }
                    }
                    assert forall|j: usize| j < n && (priorities@[j as int] as int) < p implies res@.contains(j) by {
                        assert(before.contains(j));
                        let k = choose|k: int| 0 <= k < before.len() && before[k] == j;
                        assert(res@[k] == j);
                    }
                    assert forall|j: usize| j < i + 1 && priorities@[j as int] as int == p implies res@.contains(j) by {
                        if j < i {
                            assert(before.contains(j));
                            let k = choose|k: int| 0 <= k < before.len() && before[k] == j;
                            assert(res@[k] == j);
                        } else {
                            assert(res@[res@.len() - 1] == j);
                        }
                    }
                }
            }
            i = i + 1;
        }
        proof {
            assert(priorities@.subrange(0, n as int) =~= priorities@);
            lemma_count_below_next(priorities@, p as int);
        }
        p = p + 1;
    }
    proof {
        lemma_count_below_all(priorities@);
    }
    res
}

} // verus!
