use vstd::prelude::*;
use rand::RngCore;
use crate::encoding::{dec_text, format_hex_padded, hex_padded, to_decimal};
use crate::text::str_eq;

verus! {

/// `https://<ip>:<port>/api/lansync/v1<path>`.
pub open spec fn api_url(ip: Seq<char>, port: u16, path: Seq<char>) -> Seq<char> {
    "https://"@ + ip + ":"@ + dec_text(port as nat) + "/api/lansync/v1"@ + path
}

/// The URL of API endpoint `path` on the peer at `ip`:`port`.
pub fn format_url(ip: &str, port: u16, path: &str) -> (res: String)
    ensures
        res@ == api_url(ip@, port, path@),
{
    let mut s = "https://".to_string();
    s.append(ip);
    s.append(":");
    let p = to_decimal(port as u64);
    s.append(p.as_str());
    s.append("/api/lansync/v1");
    s.append(path);
    s
}

/// Calls `rand::RngCore::next_u64` on the operating system's generator.
/// The value is random, so nothing is stated of it.
#[verifier::external_body]
fn random_u64() -> (res: u64) {
    let mut rng = rand::rngs::OsRng;
    rng.next_u64()
}

proof fn lemma_hex_padded_len(n: int, w: nat)
    ensures
        hex_padded(n, w).len() == w,
    decreases w,
{
    if w > 0 {
        lemma_hex_padded_len(n / 16, (w - 1) as nat);
    }
}

/// A fresh request nonce: a random 64-bit number as 16 lowercase hex digits.
pub fn generate_nonce() -> (res: String)
    ensures
        res@.len() == 16,
        exists|n: u64| res@ == hex_padded(n as int, 16),
{
    let n = random_u64();
    let s = format_hex_padded(n, 16);
    proof {
        lemma_hex_padded_len(n as int, 16);
    }
    s
}

/// When the HTTP client is rebuilt with fresh connections.
pub struct TlsRotationPolicy {
    pub max_age_secs: u64,
    pub max_bytes: u64,
}

impl TlsRotationPolicy {
    /// Every hour, or after a gibibyte has been moved.
    pub fn standard() -> (res: Self)
        ensures
            res.max_age_secs == 3600,
            res.max_bytes == 1_073_741_824,
    {
        TlsRotationPolicy { max_age_secs: 3600, max_bytes: 1_073_741_824 }
    }

    /// Whether a client `elapsed_secs` old that moved `bytes` is due for rotation.
    pub fn should_rotate(&self, elapsed_secs: u64, bytes: u64) -> (res: bool)
        ensures
            res == (elapsed_secs >= self.max_age_secs || bytes >= self.max_bytes),
    {
        elapsed_secs >= self.max_age_secs || bytes >= self.max_bytes
    }
}

/// The texts of `v` other than `t`, in order.
pub open spec fn without_text(v: Seq<Seq<char>>, t: Seq<char>) -> Seq<Seq<char>>
    decreases v.len(),
{
    if v.len() == 0 {
        v
    } else {
        let rest = without_text(v.drop_last(), t);
        if v.last() == t {
            rest
        } else {
            rest.push(v.last())
        }
    }
}

proof fn lemma_without_text(v: Seq<Seq<char>>, t: Seq<char>)
    ensures
        !without_text(v, t).contains(t),
        forall|u: Seq<char>| u != t ==> (without_text(v, t).contains(u) <==> v.contains(u)),
    decreases v.len(),
{
    if v.len() > 0 {
        let p = v.drop_last();
        lemma_without_text(p, t);
        let r = without_text(p, t);
        assert forall|u: Seq<char>| u != t implies (without_text(v, t).contains(u) <==> v.contains(u)) by {
            let w = without_text(v, t);
            if v.contains(u) {
                let i = choose|i: int| 0 <= i < v.len() && v[i] == u;
                if i < p.len() {
                    assert(p[i] == u);
                    assert(p.contains(u));
                    assert(r.contains(u));
                    let k = choose|k: int| 0 <= k < r.len() && r[k] == u;
                    if v.last() == t {
                        assert(w == r);
                    } else {
                        assert(w == r.push(v.last()));
                        assert(w[k] == u);
                    }
                    assert(w.contains(u));
                } else {
                    assert(v.last() == u);
                    assert(w == r.push(v.last()));
                    assert(w[r.len() as int] == u);
                }
            }
            if without_text(v, t).contains(u) {
                let w = without_text(v, t);
                let i = choose|i: int| 0 <= i < w.len() && w[i] == u;
                if v.last() != t && i == r.len() {
                    assert(v[v.len() - 1] == u);
                } else {
                    assert(r[i] == u);
                    assert(r.contains(u));
                    assert(without_text(p, t).contains(u));
                    assert(p.contains(u));
                    let j = choose|j: int| 0 <= j < p.len() && p[j] == u;
                    assert(v[j] == u);
                }
            }
        }
        if without_text(v, t).contains(t) {
            let w = without_text(v, t);
            let i = choose|i: int| 0 <= i < w.len() && w[i] == t;
            if v.last() != t && i == r.len() {
            } else {
                assert(r[i] == t);
                assert(r.contains(t));
            }
        }
    }
}

/// Certificate fingerprints of the peers this device trusts.
#[derive(Debug)]
pub struct TrustedFingerprints {
    fingerprints: Vec<String>,
}

impl View for TrustedFingerprints {
    type V = Seq<Seq<char>>;

    closed spec fn view(&self) -> Seq<Seq<char>> {
        self.fingerprints@.map_values(|s: String| s@)
    }
}

impl TrustedFingerprints {
    pub fn new() -> (res: Self)
        ensures
            res@ == Seq::<Seq<char>>::empty(),
    {
        let res = TrustedFingerprints { fingerprints: Vec::new() };
        assert(res@ =~= Seq::<Seq<char>>::empty());
        res
    }

    /// Whether `fingerprint` is trusted.
    pub fn contains(&self, fingerprint: &str) -> (res: bool)
        ensures
            res == self@.contains(fingerprint@),
    {
        let mut i: usize = 0;
        while i < self.fingerprints.len()
            invariant
                i <= self.fingerprints@.len(),
                forall|j: int| 0 <= j < i ==> #[trigger] self.fingerprints@[j]@ != fingerprint@,
            decreases self.fingerprints@.len() - i,
        {
            if str_eq(self.fingerprints[i].as_str(), fingerprint) {
                assert(self@[i as int] == fingerprint@);
                return true;
            }
            i = i + 1;
        }
        assert forall|j: int| 0 <= j < self@.len() implies self@[j] != fingerprint@ by {
            assert(self@[j] == self.fingerprints@[j]@);
        }
        false
    }

    /// Trusts `fingerprint` too.
    pub fn add(&mut self, fingerprint: &str)
        ensures
            old(self)@.contains(fingerprint@) ==> final(self)@ == old(self)@,
            !old(self)@.contains(fingerprint@) ==> final(self)@ == old(self)@.push(fingerprint@),
    {
        if !self.contains(fingerprint) {
            let ghost before = self.fingerprints@;
            self.fingerprints.push(fingerprint.to_string());
            assert(self@ =~= before.map_values(|s: String| s@).push(fingerprint@));
        }
    }

    /// Stops trusting `fingerprint`.
    pub fn remove(&mut self, fingerprint: &str)
        ensures
            final(self)@ == without_text(old(self)@, fingerprint@),
    {
        let mut kept: Vec<String> = Vec::new();
        let mut i: usize = 0;
        while i < self.fingerprints.len()
            invariant
                i <= self.fingerprints@.len(),
                kept@.map_values(|s: String| s@) == without_text(self@.subrange(0, i as int), fingerprint@),
            decreases self.fingerprints@.len() - i,
        {
            proof {
                assert(self@.subrange(0, i + 1).drop_last() =~= self@.subrange(0, i as int));
                assert(self@[i as int] == self.fingerprints@[i as int]@);
            }
            if !str_eq(self.fingerprints[i].as_str(), fingerprint) {
                let ghost before = kept@;
                kept.push(self.fingerprints[i].clone());
                assert(kept@.map_values(|s: String| s@) =~= before.map_values(|s: String| s@).push(self@[i as int]));
            }
            i = i + 1;
        }
        assert(self@.subrange(0, i as int) =~= self@);
        self.fingerprints = kept;
    }

    /// A server certificate is accepted when its fingerprint is trusted, or
    /// while pairing (`bootstrap`) accepts any certificate.
    pub fn verify_server(&self, fingerprint: &str, bootstrap: bool) -> (res: Result<(), String>)
        ensures
            res is Ok <==> (self@.contains(fingerprint@) || bootstrap),
            res matches Err(m) ==> m@ == "Certificate fingerprint "@ + fingerprint@ + " not in trusted set"@,
    {
        if self.contains(fingerprint) || bootstrap {
            return Ok(());
        }
        let mut m = "Certificate fingerprint ".to_string();
        m.append(fingerprint);
        m.append(" not in trusted set");
        Err(m)
    }
}

/// A trusted fingerprint is trusted; a removed one is not, and removing
/// one leaves the others as they were.
pub proof fn lemma_trust_add_remove(v: Seq<Seq<char>>, t: Seq<char>, u: Seq<char>)
    ensures
        (if v.contains(t) { v } else { v.push(t) }).contains(t),
        !without_text(v, t).contains(t),
        u != t ==> (without_text(v, t).contains(u) <==> v.contains(u)),
{
    if !v.contains(t) {
        assert(v.push(t)[v.len() as int] == t);
    }
    lemma_without_text(v, t);
}

} // verus!
