use vstd::prelude::*;
use crate::error::DomainError;
use crate::model::device::{Device, DeviceId, DeviceState};
use crate::model::pairing::PairingSession;
use crate::ports::PairingRequest;
use crate::security::{fingerprint_cut_ok, fingerprint_short, spec_fingerprint_short};

verus! {

/// Position of the first session with device `d` (the length when there is none).
pub open spec fn session_index(s: Seq<PairingSession>, d: Seq<char>) -> int
    decreases s.len(),
{
    if s.len() == 0 {
        0
    } else if s[0].target_device@ == d {
        0
    } else {
        1 + session_index(s.drop_first(), d)
    }
}

proof fn lemma_session_index(s: Seq<PairingSession>, d: Seq<char>, i: int)
    requires
        0 <= i <= s.len(),
        forall|j: int| 0 <= j < i ==> #[trigger] s[j].target_device@ != d,
        i == s.len() || s[i].target_device@ == d,
    ensures
        session_index(s, d) == i,
    decreases i,
{
    if i > 0 {
        let t = s.drop_first();
        assert forall|j: int| 0 <= j < i - 1 implies #[trigger] t[j].target_device@ != d by {
            assert(t[j] == s[j + 1]);
        }
        lemma_session_index(t, d, i - 1);
    }
}

/// The sessions still open at `now`, in order.
pub open spec fn live_sessions(s: Seq<PairingSession>, now: u64) -> Seq<PairingSession>
    decreases s.len(),
{
    if s.len() == 0 {
        s
    } else {
        let rest = live_sessions(s.drop_last(), now);
        if s.last().expires_at > now {
            rest.push(s.last())
        } else {
            rest
        }
    }
}

/// Whether `res` is what checking PIN `pin` against `s` at `now` gives: an
/// expired session fails first, then a wrong PIN, else the check passes.
pub open spec fn pin_verdict(s: PairingSession, pin: Seq<char>, now: u64, res: Result<(), DomainError>) -> bool {
    if now > s.expires_at {
        res == Err::<(), DomainError>(DomainError::SessionExpired)
    } else if s.pin_code@ != pin {
        res == Err::<(), DomainError>(DomainError::InvalidPinCode)
    } else {
        res is Ok
    }
}

/// The pairing sessions this device has open, at most one per device. Kept as a
/// list (the view) in which opening a session keeps at most one per device
/// (`lemma_insert_one_per_device`), rather than a `HashMap`: vstd specifies
/// `HashMap` only for keys known to obey its key model (the integer types and
/// `bool`); for device-id keys that would have to be assumed.
#[derive(Debug)]
pub struct PairingSessions {
    sessions: Vec<PairingSession>,
}

impl View for PairingSessions {
    type V = Seq<PairingSession>;

    closed spec fn view(&self) -> Seq<PairingSession> {
        self.sessions@
    }
}

impl PairingSessions {
    pub fn new() -> (res: Self)
        ensures
            res@ == Seq::<PairingSession>::empty(),
    {
        PairingSessions { sessions: Vec::new() }
    }

    /// Drops every session that has expired by `now`.
    pub fn sweep(&mut self, now: u64)
        ensures
            final(self)@ == live_sessions(old(self)@, now),
    {
        let mut kept: Vec<PairingSession> = Vec::new();
        let mut i: usize = 0;
        while i < self.sessions.len()
            invariant
                i <= self.sessions@.len(),
                kept@ == live_sessions(self.sessions@.subrange(0, i as int), now),
            decreases self.sessions@.len() - i,
        {
            proof {
                assert(self.sessions@.subrange(0, i + 1).drop_last() =~= self.sessions@.subrange(0, i as int));
            }
            if self.sessions[i].expires_at > now {
                kept.push(self.sessions[i].clone());
            }
            i = i + 1;
        }
        assert(self.sessions@.subrange(0, i as int) =~= self.sessions@);
        self.sessions = kept;
    }

    /// Position of the session with `target`, if there is one.
    fn find(&self, target: &DeviceId) -> (res: Option<usize>)
        ensures
            match res {
                Some(i) => i as int == session_index(self@, target@) && i < self@.len(),
                None => session_index(self@, target@) == self@.len(),
            },
    {
        let mut i: usize = 0;
        while i < self.sessions.len()
            invariant
                i <= self.sessions@.len(),
                forall|j: int| 0 <= j < i ==> #[trigger] self.sessions@[j].target_device@ != target@,
            decreases self.sessions@.len() - i,
        {
            if self.sessions[i].target_device == *target {
                proof {
                    lemma_session_index(self.sessions@, target@, i as int);
                }
                return Some(i);
            }
            i = i + 1;
        }
        proof {
            lemma_session_index(self.sessions@, target@, i as int);
        }
        None
    }

    /// Keeps `session` as the session with its device, replacing an earlier one.
    pub fn insert(&mut self, session: PairingSession)
        ensures
            ({
                let i = session_index(old(self)@, session.target_device@);
                final(self)@ == if i < old(self)@.len() {
                    old(self)@.update(i, session)
                } else {
                    old(self)@.push(session)
                }
            }),
    {
        match self.find(&session.target_device) {
            Some(i) => {
                self.sessions.set(i, session);
            },
            None => {
                self.sessions.push(session);
            },
        }
    }

    /// Closes the session with `target`, if there is one.
    pub fn remove(&mut self, target: &DeviceId)
        ensures
            ({
                let i = session_index(old(self)@, target@);
                final(self)@ == if i < old(self)@.len() { old(self)@.remove(i) } else { old(self)@ }
            }),
    {
        match self.find(target) {
            Some(i) => {
                self.sessions.remove(i);
            },
            None => {},
        }
    }

    /// Checks `pin` for the session with `target` at `now`; a session that
    /// accepted its PIN is closed.
    pub fn confirm(&mut self, target: &DeviceId, pin: &str, now: u64) -> (res: Result<(), DomainError>)
        ensures
            ({
                let i = session_index(old(self)@, target@);
                if i < old(self)@.len() {
                    &&& pin_verdict(old(self)@[i], pin@, now, res)
                    &&& final(self)@ == if res is Ok { old(self)@.remove(i) } else { old(self)@ }
                } else {
                    &&& res matches Err(DomainError::NotFound(m))
                        && m@ == "No active pairing session for device "@ + target@
                    &&& final(self)@ == old(self)@
                }
            }),
    {
        match self.find(target) {
            Some(i) => {
                let r = self.sessions[i].verify(pin, now);
                if r.is_ok() {
                    self.sessions.remove(i);
                }
                r
            },
            None => {
                let mut m = "No active pairing session for device ".to_string();
                m.append(target.0.as_str());
                Err(DomainError::NotFound(m))
            },
        }
    }
}

/// Where to send a pairing request: a device must be known and still only discovered.
pub fn pairing_address(target: &DeviceId, device: Option<&Device>) -> (res: Result<String, DomainError>)
    ensures
        match device {
            None => res matches Err(DomainError::DeviceNotFound(m)) && m@ == target@,
            Some(d) => match d.state {
                DeviceState::Discovered(data) => res matches Ok(a) && a == data.address,
                _ => res == Err::<String, DomainError>(DomainError::InvalidStateTransition("Device is not in Discovered state")),
            },
        },
{
    match device {
        None => Err(DomainError::DeviceNotFound(target.0.clone())),
        Some(d) => match &d.state {
            DeviceState::Discovered(data) => Ok(data.address.clone()),
            _ => Err(DomainError::InvalidStateTransition("Device is not in Discovered state")),
        },
    }
}

/// The pairing request presenting this device.
pub fn pairing_request(local_device_id: &DeviceId, local_alias: String, platform: String) -> (res: PairingRequest)
    requires
        fingerprint_cut_ok(local_device_id@),
    ensures
        res.device_id@ == local_device_id@,
        res.alias == local_alias,
        res.platform == platform,
        res.fingerprint@ == spec_fingerprint_short(local_device_id@),
{
    PairingRequest {
        device_id: local_device_id.0.clone(),
        alias: local_alias,
        platform,
        fingerprint: fingerprint_short(local_device_id.0.as_str()),
    }
}


/// No device has two sessions.
pub open spec fn one_per_device(s: Seq<PairingSession>) -> bool {
    forall|a: int, b: int| 0 <= a < b < s.len() ==> s[a].target_device@ != s[b].target_device@
}

proof fn lemma_session_index_bounds(s: Seq<PairingSession>, d: Seq<char>)
    ensures
        0 <= session_index(s, d) <= s.len(),
        session_index(s, d) < s.len() ==> s[session_index(s, d)].target_device@ == d,
        forall|j: int| 0 <= j < session_index(s, d) ==> #[trigger] s[j].target_device@ != d,
    decreases s.len(),
{
    if s.len() > 0 && s[0].target_device@ != d {
        let t = s.drop_first();
        lemma_session_index_bounds(t, d);
        assert forall|j: int| 0 <= j < session_index(s, d) implies #[trigger] s[j].target_device@ != d by {
            if j > 0 {
                assert(s[j] == t[j - 1]);
            }
        }
    }
}

/// Opening a session keeps at most one session per device.
pub proof fn lemma_insert_one_per_device(s: Seq<PairingSession>, session: PairingSession)
    requires
        one_per_device(s),
    ensures
        one_per_device({
            let i = session_index(s, session.target_device@);
            if i < s.len() {
                s.update(i, session)
            } else {
                s.push(session)
            }
        }),
{
    let d = session.target_device@;
    lemma_session_index_bounds(s, d);
    let i = session_index(s, d);
    if i < s.len() {
        let u = s.update(i, session);
        assert forall|a: int, b: int| 0 <= a < b < u.len() implies u[a].target_device@ != u[b].target_device@ by {
            if a != i && b != i {
                assert(u[a] == s[a] && u[b] == s[b]);
            } else if a == i {
                assert(u[b] == s[b]);
                assert(s[a].target_device@ == d);
            } else {
                assert(u[a] == s[a]);
                assert(s[b].target_device@ == d);
            }
        }
    } else {
        let p = s.push(session);
        assert forall|a: int, b: int| 0 <= a < b < p.len() implies p[a].target_device@ != p[b].target_device@ by {
            assert(p[a] == s[a]);
            if b < s.len() {
                assert(p[b] == s[b]);
            }
        }
    }
}

} // verus!
