use vstd::prelude::*;
use vstd::utf8::encode_utf8;
use crate::error::DomainError;
use crate::text::{bytes_prefix, has_prefix, text_trim_start, trim_start};

verus! {

/// Identity of a device: the hex SHA-256 of its certificate.
#[derive(Debug, Eq, Hash)]
pub struct DeviceId(pub String);

impl View for DeviceId {
    type V = Seq<char>;

    open spec fn view(&self) -> Seq<char> {
        self.0@
    }
}

impl Clone for DeviceId {
    fn clone(&self) -> (res: Self)
        ensures
            res == *self,
    {
        DeviceId(self.0.clone())
    }
}

impl PartialEq for DeviceId {
    fn eq(&self, other: &Self) -> (res: bool) {
        self.0 == other.0
    }
}

impl vstd::std_specs::cmp::PartialEqSpecImpl for DeviceId {
    open spec fn obeys_eq_spec() -> bool {
        true
    }

    open spec fn eq_spec(&self, other: &DeviceId) -> bool {
        self.0@ == other.0@
    }
}

/// A PEM-encoded device certificate.
#[derive(Debug)]
pub struct Certificate(String);

impl View for Certificate {
    type V = Seq<char>;

    closed spec fn view(&self) -> Seq<char> {
        self.0@
    }
}

impl Clone for Certificate {
    fn clone(&self) -> (res: Self)
        ensures
            res == *self,
    {
        Certificate(self.0.clone())
    }
}

/// After leading whitespace the text starts with `-----BEGIN`.
pub open spec fn looks_like_pem(pem: Seq<char>) -> bool {
    bytes_prefix(encode_utf8("-----BEGIN"@), encode_utf8(text_trim_start(pem)))
}

impl Certificate {
    /// Accepts text that, after leading whitespace, starts with `-----BEGIN`.
    pub fn from_pem(pem: String) -> (res: Result<Self, DomainError>)
        ensures
            res is Ok <==> looks_like_pem(pem@),
            match res {
                Ok(c) => c@ == pem@,
                Err(e) => e matches DomainError::BusinessRuleViolation(m)
                    && m@ == "Certificate must be a valid PEM-encoded string starting with '-----BEGIN'"@,
            },
    {
        let ok = has_prefix(trim_start(pem.as_str()), "-----BEGIN");
        if !ok {
            return Err(DomainError::BusinessRuleViolation(
                "Certificate must be a valid PEM-encoded string starting with '-----BEGIN'".to_string(),
            ));
        }
        Ok(Certificate(pem))
    }

    /// The PEM text.
    pub fn as_pem(&self) -> (res: &str)
        ensures
            res@ == self@,
    {
        self.0.as_str()
    }

    /// A certificate from any text, without the PEM check (for test data).
    pub fn mock(raw: &str) -> (res: Self)
        ensures
            res@ == raw@,
    {
        Certificate(raw.to_string())
    }
}

#[derive(Debug)]
pub struct DiscoveredData {
    pub alias: String,
    pub address: String,
}

#[derive(Debug)]
pub struct PairedData {
    pub certificate: Certificate,
    pub paired_at: u64,
    pub alias: String,
    pub address: String,
    pub last_seen_at: Option<u64>,
}

#[derive(Debug)]
pub struct RevokedData {
    pub revoked_at: u64,
    pub certificate: Certificate,
    pub alias: String,
    pub address: String,
}

/// Trust life cycle of a peer: Discovered, then Paired, then Revoked.
#[derive(Debug)]
pub enum DeviceState {
    Discovered(DiscoveredData),
    Paired(PairedData),
    Revoked(RevokedData),
}

impl DeviceState {
    /// Discovered to Paired with `certificate` at `timestamp`.
    pub fn confirm_pairing(self, certificate: Certificate, timestamp: u64) -> (res: Result<Self, DomainError>)
        ensures
            res is Ok <==> self is Discovered,
            match (self, res) {
                (DeviceState::Discovered(d), Ok(s)) => s == DeviceState::Paired(PairedData {
                    certificate,
                    paired_at: timestamp,
                    alias: d.alias,
                    address: d.address,
                    last_seen_at: None,
                }),
                (_, Err(e)) => e == DomainError::InvalidStateTransition("only Discovered can be paired"),
                _ => false,
            },
    {
        match self {
            DeviceState::Discovered(data) => Ok(DeviceState::Paired(PairedData {
                certificate,
                paired_at: timestamp,
                alias: data.alias,
                address: data.address,
                last_seen_at: None,
            })),
            _ => Err(DomainError::InvalidStateTransition("only Discovered can be paired")),
        }
    }

    /// Paired to Revoked at `timestamp`, keeping certificate, alias and address.
    pub fn revoke(self, timestamp: u64) -> (res: Result<Self, DomainError>)
        ensures
            res is Ok <==> self is Paired,
            match (self, res) {
                (DeviceState::Paired(d), Ok(s)) => s == DeviceState::Revoked(RevokedData {
                    revoked_at: timestamp,
                    certificate: d.certificate,
                    alias: d.alias,
                    address: d.address,
                }),
                (_, Err(e)) => e == DomainError::InvalidStateTransition("only Paired can be revoked"),
                _ => false,
            },
    {
        match self {
            DeviceState::Paired(data) => Ok(DeviceState::Revoked(RevokedData {
                revoked_at: timestamp,
                certificate: data.certificate,
                alias: data.alias,
                address: data.address,
            })),
            _ => Err(DomainError::InvalidStateTransition("only Paired can be revoked")),
        }
    }
}

/// A known peer.
#[derive(Debug)]
pub struct Device {
    pub id: DeviceId,
    pub state: DeviceState,
}

impl Clone for DeviceState {
    fn clone(&self) -> (res: Self)
        ensures
            res == *self,
    {
        match self {
            DeviceState::Discovered(d) => DeviceState::Discovered(
                DiscoveredData { alias: d.alias.clone(), address: d.address.clone() },
            ),
            DeviceState::Paired(d) => DeviceState::Paired(
                PairedData {
                    certificate: d.certificate.clone(),
                    paired_at: d.paired_at,
                    alias: d.alias.clone(),
                    address: d.address.clone(),
                    last_seen_at: d.last_seen_at,
                },
            ),
            DeviceState::Revoked(d) => DeviceState::Revoked(
                RevokedData {
                    revoked_at: d.revoked_at,
                    certificate: d.certificate.clone(),
                    alias: d.alias.clone(),
                    address: d.address.clone(),
                },
            ),
        }
    }
}

impl Clone for Device {
    fn clone(&self) -> (res: Self)
        ensures
            res == *self,
    {
        Device { id: self.id.clone(), state: self.state.clone() }
    }
}

} // verus!
