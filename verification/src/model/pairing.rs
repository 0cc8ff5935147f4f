use vstd::prelude::*;
use rand::Rng;
use crate::encoding::{dec_padded, format_padded};
use crate::error::DomainError;
use crate::ids::{new_uuid_v4, uuid_shaped};
use crate::model::device::DeviceId;
use crate::text::str_eq;

verus! {

/// An out-of-band PIN exchange with a device being paired.
#[derive(Debug)]
pub struct PairingSession {
    pub id: String,
    pub target_device: DeviceId,
    pub pin_code: String,
    pub expires_at: u64,
}

impl Clone for PairingSession {
    fn clone(&self) -> (res: Self)
        ensures
            res == *self,
    {
        PairingSession {
            id: self.id.clone(),
            target_device: self.target_device.clone(),
            pin_code: self.pin_code.clone(),
            expires_at: self.expires_at,
        }
    }
}

impl PairingSession {
    /// A session with a fresh random id.
    pub fn new(target_device: DeviceId, pin_code: String, expires_at: u64) -> (res: Self)
        ensures
            uuid_shaped(res.id@),
            res.target_device == target_device,
            res.pin_code == pin_code,
            res.expires_at == expires_at,
    {
        PairingSession { id: new_uuid_v4(), target_device, pin_code, expires_at }
    }

    /// Accepts `code` at `current_time` when the session has not expired and the PIN matches.
    pub fn verify(&self, code: &str, current_time: u64) -> (res: Result<(), DomainError>)
        ensures
            current_time > self.expires_at ==> res == Err::<(), DomainError>(DomainError::SessionExpired),
            current_time <= self.expires_at && self.pin_code@ != code@ ==> res == Err::<(), DomainError>(
                DomainError::InvalidPinCode,
            ),
            current_time <= self.expires_at && self.pin_code@ == code@ ==> res is Ok,
    {
        if current_time > self.expires_at {
            return Err(DomainError::SessionExpired);
        }
        if !str_eq(self.pin_code.as_str(), code) {
            return Err(DomainError::InvalidPinCode);
        }
        Ok(())
    }
}

/// Calls `rand::Rng::gen_range(0..bound)` on the operating system's
/// generator, which panics on an empty range. Documented result: a value in
/// the range; which one is random.
#[verifier::external_body]
fn random_below(bound: u32) -> (res: u32)
    requires
        bound > 0,
    ensures
        res < bound,
{
    let mut rng = rand::rngs::OsRng;
    rng.gen_range(0..bound)
}

/// How many distinct PINs there are: six decimal digits.
pub const PIN_SPACE: u32 = 1_000_000;

/// A PIN as six decimal digits, zero padded.
pub fn format_pin(n: u32) -> (res: String)
    requires
        n < 1_000_000,
    ensures
        res@ == dec_padded(n as int, 6),
        res@.len() == 6,
{
    let s = format_padded(n, 6);
    proof {
        lemma_dec_padded_len(n as int, 6);
    }
    s
}

proof fn lemma_dec_padded_len(n: int, w: nat)
    ensures
        dec_padded(n, w).len() == w,
    decreases w,
{
    if w > 0 {
        lemma_dec_padded_len(n / 10, (w - 1) as nat);
    }
}

/// A fresh random six-digit PIN.
pub fn generate_pin() -> (res: String)
    ensures
        res@.len() == 6,
        exists|n: int| 0 <= n < 1_000_000 && res@ == dec_padded(n, 6),
{
    let n = random_below(PIN_SPACE);
    format_pin(n)
}

/// Seconds a pairing session stays valid.
pub const PAIRING_TTL_SECS: u64 = 300;

/// Expiry time of a session opened at `now`.
pub fn session_expiry(now: u64) -> (res: u64)
    requires
        now <= u64::MAX - PAIRING_TTL_SECS,
    ensures
        res == now + PAIRING_TTL_SECS,
{
    now + PAIRING_TTL_SECS
}

/// A session is still open at `now` while it expires strictly later.
pub fn session_is_live(session: &PairingSession, now: u64) -> (res: bool)
    ensures
        res == (session.expires_at > now),
{
    session.expires_at > now
}

} // verus!
