use vstd::prelude::*;

verus! {

#[verifier::external_type_specification]
#[verifier::external_body]
pub struct ExSystemTime(std::time::SystemTime);

/// Calls `std::time::SystemTime::now`. The result is the machine's clock,
/// so nothing is stated of it.
#[verifier::external_body]
fn system_now() -> std::time::SystemTime {
    std::time::SystemTime::now()
}

/// Calls `std::time::SystemTime::duration_since(UNIX_EPOCH)` and converts the
/// duration to whole seconds; `None` when the clock is before the epoch.
/// The result rests on the clock value, so nothing is stated of it.
#[verifier::external_body]
fn seconds_since_epoch(t: &std::time::SystemTime) -> Option<u64> {
    t.duration_since(std::time::UNIX_EPOCH).ok().map(|d| d.as_secs())
}

/// Current UNIX time in seconds, 0 when the clock reads before the epoch.
pub fn unix_now() -> u64 {
    let t = system_now();
    match seconds_since_epoch(&t) {
        Some(s) => s,
        None => 0,
    }
}

} // verus!
