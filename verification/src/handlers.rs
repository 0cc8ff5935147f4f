use vstd::prelude::*;
use crate::model::device::DeviceId;
use crate::ports::AuditEntry;
use crate::text::str_eq;

verus! {

/// Security events from one device that raise an alarm within the window.
pub const THRESHOLD: u32 = 5;

/// Length of the window, in seconds, over which security events are counted.
pub const WINDOW_SECS: u64 = 600;

/// The times of `times` later than `cutoff`, in order.
pub open spec fn kept_after(times: Seq<u64>, cutoff: u64) -> Seq<u64> {
    times.filter(|t: u64| t > cutoff)
}

/// `now - WINDOW_SECS`, or 0 when that would be negative.
pub open spec fn window_start(now: u64) -> u64 {
    if now >= WINDOW_SECS {
        (now - WINDOW_SECS) as u64
    } else {
        0
    }
}

/// The times of the recent security events of one device.
#[derive(Debug)]
pub struct DeviceErrorTracker {
    errors: Vec<u64>,
}

impl View for DeviceErrorTracker {
    type V = Seq<u64>;

    closed spec fn view(&self) -> Seq<u64> {
        self.errors@
    }
}

impl DeviceErrorTracker {
    pub fn new() -> (res: Self)
        ensures
            res@ == Seq::<u64>::empty(),
    {
        DeviceErrorTracker { errors: Vec::new() }
    }

    /// Records an event at `now`: events at or before the window start are
    /// forgotten, and the number of events left, this one included, is returned.
    pub fn record(&mut self, now: u64) -> (res: u32)
        ensures
            final(self)@ == kept_after(old(self)@, window_start(now)).push(now),
            res == final(self)@.len() as u32,
    {
        let cutoff = now.saturating_sub(WINDOW_SECS);
        let mut kept: Vec<u64> = Vec::new();
        let mut i: usize = 0;
        while i < self.errors.len()
            invariant
                i <= self.errors@.len(),
                cutoff == window_start(now),
                kept@ == kept_after(self.errors@.subrange(0, i as int), cutoff),
            decreases self.errors@.len() - i,
        {
            proof {
                let q = self.errors@.subrange(0, i + 1);
                assert(q.drop_last() =~= self.errors@.subrange(0, i as int));
                reveal_with_fuel(Seq::filter, 1);
            }
            if self.errors[i] > cutoff {
                kept.push(self.errors[i]);
            }
            i = i + 1;
        }
        proof {
            assert(self.errors@.subrange(0, self.errors@.len() as int) =~= self.errors@);
        }
        kept.push(now);
        self.errors = kept;
        #[verifier::truncate]
        (self.errors.len() as u32)
    }
}

/// The tracker of device `d`: that of the first entry for `d`.
pub open spec fn tracker_of(entries: Seq<(String, DeviceErrorTracker)>, d: Seq<char>) -> Option<Seq<u64>>
    decreases entries.len(),
{
    if entries.len() == 0 {
        None
    } else if entries[0].0@ == d {
        Some(entries[0].1@)
    } else {
        tracker_of(entries.drop_first(), d)
    }
}

proof fn lemma_tracker_update(
    s: Seq<(String, DeviceErrorTracker)>,
    i: int,
    d: Seq<char>,
    x: (String, DeviceErrorTracker),
)
    requires
        0 <= i < s.len(),
        forall|j: int| 0 <= j < i ==> #[trigger] s[j].0@ != d,
        s[i].0@ == d,
        x.0@ == d,
    ensures
        tracker_of(s.update(i, x), d) == Some(x.1@),
        forall|e: Seq<char>| e != d ==> tracker_of(s.update(i, x), e) == tracker_of(s, e),
    decreases i,
{
    let u = s.update(i, x);
    if i > 0 {
        let t = s.drop_first();
        assert forall|j: int| 0 <= j < i - 1 implies #[trigger] t[j].0@ != d by {
            assert(t[j] == s[j + 1]);
        }
        lemma_tracker_update(t, i - 1, d, x);
        assert(u.drop_first() =~= t.update(i - 1, x));
        assert(u[0] == s[0]);
        assert forall|e: Seq<char>| e != d implies tracker_of(u, e) == tracker_of(s, e) by {
            assert(u.len() == s.len());
            if s[0].0@ != e {
                assert(tracker_of(u, e) == tracker_of(u.drop_first(), e));
                assert(tracker_of(u.drop_first(), e) == tracker_of(t.update(i - 1, x), e));
                assert(tracker_of(t.update(i - 1, x), e) == tracker_of(t, e));
                assert(tracker_of(s, e) == tracker_of(t, e));
            }
        }
    } else {
        assert(u.drop_first() =~= s.drop_first());
        assert(u[0] == x);
        assert forall|e: Seq<char>| e != d implies tracker_of(u, e) == tracker_of(s, e) by {
            assert(u[0].0@ != e);
            assert(s[0].0@ != e);
            assert(tracker_of(u, e) == tracker_of(u.drop_first(), e));
        }
    }
}

proof fn lemma_tracker_push(s: Seq<(String, DeviceErrorTracker)>, d: Seq<char>, x: (String, DeviceErrorTracker))
    requires
        tracker_of(s, d) is None,
        x.0@ == d,
    ensures
        tracker_of(s.push(x), d) == Some(x.1@),
        forall|e: Seq<char>| e != d ==> tracker_of(s.push(x), e) == tracker_of(s, e),
    decreases s.len(),
{
    let p = s.push(x);
    if s.len() > 0 {
        lemma_tracker_push(s.drop_first(), d, x);
        assert(p.drop_first() =~= s.drop_first().push(x));
        assert(p[0] == s[0]);
        assert forall|e: Seq<char>| e != d implies tracker_of(p, e) == tracker_of(s, e) by {
            assert(p.len() == s.len() + 1);
            if s[0].0@ != e {
                assert(tracker_of(p, e) == tracker_of(p.drop_first(), e));
                assert(tracker_of(p.drop_first(), e) == tracker_of(s.drop_first().push(x), e));
                assert(tracker_of(s.drop_first().push(x), e) == tracker_of(s.drop_first(), e));
                assert(tracker_of(s, e) == tracker_of(s.drop_first(), e));
            }
        }
    } else {
        assert(p.drop_first() =~= Seq::<(String, DeviceErrorTracker)>::empty());
        assert(p[0] == x);
        assert forall|e: Seq<char>| e != d implies tracker_of(p, e) == tracker_of(s, e) by {
            assert(p[0].0@ != e);
            assert(tracker_of(p, e) == tracker_of(p.drop_first(), e));
        }
    }
}

proof fn lemma_tracker_scan(s: Seq<(String, DeviceErrorTracker)>, i: int, d: Seq<char>)
    requires
        0 <= i <= s.len(),
        forall|j: int| 0 <= j < i ==> #[trigger] s[j].0@ != d,
    ensures
        tracker_of(s, d) == tracker_of(s.subrange(i, s.len() as int), d),
    decreases i,
{
    if i > 0 {
        let t = s.drop_first();
        assert forall|j: int| 0 <= j < i - 1 implies #[trigger] t[j].0@ != d by {
            assert(t[j] == s[j + 1]);
        }
        lemma_tracker_scan(t, i - 1, d);
        assert(t.subrange(i - 1, t.len() as int) =~= s.subrange(i, s.len() as int));
    } else {
        assert(s.subrange(0, s.len() as int) =~= s);
    }
}

/// Whether an event kind counts against the device it concerns.
pub open spec fn is_security_kind(kind: Seq<char>) -> bool {
    kind == "TrustRevoked"@ || kind == "TransferFailed"@ || kind == "ChunkVerificationFailed"@
}

/// Counts security events per device and flags devices with too many of them
/// within the window. The trackers are a list of (device, tracker) entries, of
/// which the first for a device counts (`recorded` states it), rather than a
/// `HashMap`: vstd specifies `HashMap` only for keys known to obey its key
/// model (the integer types and `bool`); for device-id keys that would have to
/// be assumed.
#[derive(Debug)]
pub struct SecurityEventHandler {
    trackers: Vec<(String, DeviceErrorTracker)>,
}

impl SecurityEventHandler {
    /// The recorded event times of device `d`, if any event was recorded for it.
    pub closed spec fn recorded(&self, d: Seq<char>) -> Option<Seq<u64>> {
        tracker_of(self.trackers@, d)
    }

    pub fn new() -> (res: Self)
        ensures
            forall|d: Seq<char>| res.recorded(d) is None,
    {
        SecurityEventHandler { trackers: Vec::new() }
    }

    /// Whether events of kind `kind` are security events.
    pub fn is_security_event(kind: &str) -> (res: bool)
        ensures
            res == is_security_kind(kind@),
    {
        str_eq(kind, "TrustRevoked") || str_eq(kind, "TransferFailed") || str_eq(kind, "ChunkVerificationFailed")
    }

    /// Records a security event of `device_id` at `now` and returns how many
    /// events of that device fall within the window, this one included.
    pub fn record_event(&mut self, device_id: &str, now: u64) -> (res: u32)
        ensures
            ({
                let before = match old(self).recorded(device_id@) {
                    Some(t) => t,
                    None => Seq::empty(),
                };
                let after = kept_after(before, window_start(now)).push(now);
                &&& final(self).recorded(device_id@) == Some(after)
                &&& res == after.len() as u32
            }),
            forall|e: Seq<char>| e != device_id@ ==> final(self).recorded(e) == old(self).recorded(e),
    {
        let mut i: usize = 0;
        while i < self.trackers.len() && !str_eq(self.trackers[i].0.as_str(), device_id)
            invariant
                i <= self.trackers@.len(),
                forall|j: int| 0 <= j < i ==> #[trigger] self.trackers@[j].0@ != device_id@,
            decreases self.trackers@.len() - i,
        {
            i = i + 1;
        }
        proof {
            lemma_tracker_scan(self.trackers@, i as int, device_id@);
        }
        let mut trackers: Vec<(String, DeviceErrorTracker)> = Vec::new();
        std::mem::swap(&mut trackers, &mut self.trackers);
        let ghost old_trackers = trackers@;
        if i < trackers.len() {
            let mut entry = trackers.remove(i);
            let count = entry.1.record(now);
            trackers.insert(i, entry);
            proof {
                assert(trackers@ =~= old_trackers.update(i as int, trackers@[i as int]));
                lemma_tracker_update(old_trackers, i as int, device_id@, trackers@[i as int]);
            }
            self.trackers = trackers;
            count
        } else {
            let mut t = DeviceErrorTracker::new();
            let count = t.record(now);
            proof {
                assert(old_trackers.subrange(i as int, old_trackers.len() as int).len() == 0);
                reveal_with_fuel(Seq::filter, 1);
                assert(kept_after(Seq::<u64>::empty(), window_start(now)) =~= Seq::<u64>::empty());
            }
            trackers.push((device_id.to_string(), t));
            proof {
                lemma_tracker_push(old_trackers, device_id@, trackers@.last());
                assert(trackers@ =~= old_trackers.push(trackers@.last()));
            }
            self.trackers = trackers;
            count
        }
    }

    /// Whether `count` events within the window call for an alarm.
    pub fn is_alarming(count: u32) -> (res: bool)
        ensures
            res == (count >= THRESHOLD),
    {
        count >= THRESHOLD
    }
}

/// Writes one audit entry per domain event.
pub struct AuditEventHandler;

impl AuditEventHandler {
    pub fn new() -> (res: Self) {
        AuditEventHandler
    }

    /// The audit entry for an event of kind `event_type` about `aggregate_id`,
    /// under entry id `id` at `timestamp`; its details read `Event: ` and the kind.
    pub fn entry_for(&self, id: String, timestamp: u64, event_type: &str, aggregate_id: &str) -> (res: AuditEntry)
        ensures
            res.id == id,
            res.timestamp == timestamp,
            res.event_type@ == event_type@,
            res.aggregate_id@ == aggregate_id@,
            res.details@ == "Event: "@ + event_type@,
    {
        let mut details = "Event: ".to_string();
        details.append(event_type);
        AuditEntry {
            id,
            timestamp,
            event_type: event_type.to_string(),
            aggregate_id: aggregate_id.to_string(),
            details,
        }
    }
}

/// Cleans up after a device loses its trust: its transfers are cancelled
/// and it is removed from every share.
pub struct CascadeCleanupHandler;

impl CascadeCleanupHandler {
    pub fn new() -> (res: Self) {
        CascadeCleanupHandler
    }

    /// The device to clean up after an event of kind `event_type` about
    /// `aggregate_id`: only a revocation of trust calls for it.
    pub fn revoked_device(&self, event_type: &str, aggregate_id: &str) -> (res: Option<DeviceId>)
        ensures
            res is Some <==> event_type@ == "TrustRevoked"@,
            res matches Some(d) ==> d@ == aggregate_id@,
    {
        if str_eq(event_type, "TrustRevoked") {
            Some(DeviceId(aggregate_id.to_string()))
        } else {
            None
        }
    }
}

} // verus!
