use vstd::prelude::*;
use base64::Engine;
use crate::error::DomainError;
use crate::model::device::DeviceId;

verus! {

#[verifier::external_type_specification]
#[verifier::external_body]
pub struct ExDecodeError(base64::DecodeError);

/// The digit of the standard base64 alphabet for a 6-bit value:
/// `A`-`Z`, `a`-`z`, `0`-`9`, `+`, `/`.
pub open spec fn b64_digit(n: int) -> char {
    if n < 26 {
        (65 + n) as char
    } else if n < 52 {
        (97 + n - 26) as char
    } else if n < 62 {
        (48 + n - 52) as char
    } else if n == 62 {
        '+'
    } else {
        '/'
    }
}

/// The standard, padded base64 text of `bytes` (RFC 4648 section 4): each
/// group of three bytes gives four digits, and a last group of one or two
/// bytes gives two or three digits followed by `=` padding to four.
pub open spec fn base64_standard(bytes: Seq<u8>) -> Seq<char>
    decreases bytes.len(),
{
    if bytes.len() == 0 {
        Seq::empty()
    } else if bytes.len() == 1 {
        let b0 = bytes[0] as int;
        seq![b64_digit(b0 / 4), b64_digit((b0 % 4) * 16), '=', '=']
    } else if bytes.len() == 2 {
        let (b0, b1) = (bytes[0] as int, bytes[1] as int);
        seq![b64_digit(b0 / 4), b64_digit((b0 % 4) * 16 + b1 / 16), b64_digit((b1 % 16) * 4), '=']
    } else {
        let (b0, b1, b2) = (bytes[0] as int, bytes[1] as int, bytes[2] as int);
        seq![b64_digit(b0 / 4), b64_digit((b0 % 4) * 16 + b1 / 16), b64_digit((b1 % 16) * 4 + b2 / 64), b64_digit(b2 % 64)]
            + base64_standard(bytes.subrange(3, bytes.len() as int))
    }
}

/// Calls `base64::engine::general_purpose::STANDARD.encode`, which writes
/// the standard alphabet with padding: the text [`base64_standard`] states.
#[verifier::external_body]
fn base64_encode(bytes: &[u8]) -> (res: String)
    ensures
        res@ == base64_standard(bytes@),
{
    base64::engine::general_purpose::STANDARD.encode(bytes)
}

/// Calls `base64::engine::general_purpose::STANDARD.decode`. This engine pads
/// and rejects non-canonical padding and trailing bits, so what it accepts
/// is exactly the encoding of what it returns, and the encoding of any bytes
/// decodes back to them.
#[verifier::external_body]
fn base64_decode(text: &str) -> (res: Result<Vec<u8>, base64::DecodeError>)
    ensures
        res matches Ok(v) ==> base64_standard(v@) == text@,
        forall|b: Seq<u8>| #![trigger base64_standard(b)] base64_standard(b) == text@ ==> res is Ok && res->Ok_0@ == b,
{
    base64::engine::general_purpose::STANDARD.decode(text)
}

/// Calls `Display::fmt` on a base64 decoding error; nothing is stated of the text.
#[verifier::external_body]
fn decode_error_text(e: &base64::DecodeError) -> (res: String) {
    format!("{}", e)
}

/// Keychain service under which device keys are kept.
pub const SERVICE_NAME: &'static str = "com.kfilesync.passphrase";

/// Keeps device keys in the platform keychain, as base64 text under the
/// service name, one entry per device.
pub struct PlatformKeyStore;

impl PlatformKeyStore {
    pub fn new() -> (res: Self) {
        PlatformKeyStore
    }

    /// The keychain account of the key of device `id`.
    pub fn account(&self, id: &DeviceId) -> (res: String)
        ensures
            res@ == id@,
    {
        id.0.clone()
    }

    /// The text stored in the keychain for `key`.
    pub fn encode_key(&self, key: &[u8]) -> (res: String)
        ensures
            res@ == base64_standard(key@),
    {
        base64_encode(key)
    }

    /// The key held in keychain text `stored`; text that is not canonical
    /// base64 is a security error.
    pub fn decode_key(&self, stored: &str) -> (res: Result<Vec<u8>, DomainError>)
        ensures
            decoded_as(stored@, res),
    {
        match base64_decode(stored) {
            Ok(v) => Ok(v),
            Err(e) => {
                let mut m = "Failed to decode key from platform keystore: ".to_string();
                let t = decode_error_text(&e);
                m.append(t.as_str());
                Err(DomainError::Security(m))
            },
        }
    }
}

/// What reading keychain text `stored` may give: the key whose encoding it
/// is, and only then a key; otherwise a security error.
pub open spec fn decoded_as(stored: Seq<char>, res: Result<Vec<u8>, DomainError>) -> bool {
    &&& res matches Ok(v) ==> base64_standard(v@) == stored
    &&& forall|b: Seq<u8>| #![trigger base64_standard(b)] base64_standard(b) == stored ==> res is Ok && res->Ok_0@ == b
    &&& res matches Err(e) ==> (e matches DomainError::Security(m)
        && "Failed to decode key from platform keystore: "@.is_prefix_of(m@))
}

/// A key stored and loaded back is the key that was stored.
pub proof fn lemma_key_round_trip(key: Seq<u8>, loaded: Result<Vec<u8>, DomainError>)
    requires
        decoded_as(base64_standard(key), loaded),
    ensures
        loaded is Ok && loaded->Ok_0@ == key,
{
    assert(base64_standard(key) == base64_standard(key));
}

/// Keeps device keys as files `<device id>.key` in one directory.
pub struct FileKeyStore {
    pub storage_dir: String,
}

impl FileKeyStore {
    /// A store over `storage_dir`, which must already exist.
    pub fn new(storage_dir: String) -> (res: Self)
        ensures
            res.storage_dir == storage_dir,
    {
        FileKeyStore { storage_dir }
    }

    /// Name of the file holding the key of device `id`.
    pub fn key_file_name(&self, id: &DeviceId) -> (res: String)
        ensures
            res@ == id@ + ".key"@,
    {
        let mut s = id.0.clone();
        s.append(".key");
        s
    }
}

#[verifier::external_type_specification]
#[verifier::external_body]
pub struct ExRcgenError(rcgen::RcgenError);

/// Calls `rcgen::generate_simple_self_signed(names)`, then on the certificate
/// `serialize_der`, `serialize_pem` and `serialize_private_key_pem`, in that
/// order. The key pair is drawn at random and each serialization signs anew,
/// so nothing is stated of the outputs. `serialize_private_key_pem` panics
/// only for a remote key pair, and the certificate made here holds a local one.
#[verifier::external_body]
fn rcgen_self_signed(names: Vec<String>) -> (res: Result<
    (Result<Vec<u8>, rcgen::RcgenError>, Result<String, rcgen::RcgenError>, String),
    rcgen::RcgenError,
>) {
    let cert = rcgen::generate_simple_self_signed(names)?;
    Ok((cert.serialize_der(), cert.serialize_pem(), cert.serialize_private_key_pem()))
}

/// Calls `Display::fmt` on an rcgen error; nothing is stated of the text.
#[verifier::external_body]
fn rcgen_error_text(e: &rcgen::RcgenError) -> (res: String) {
    e.to_string()
}

/// The name a device's certificate is issued for.
pub const CERT_SUBJECT_NAME: &'static str = "lansync.local";

fn cert_error(prefix: &str, e: &rcgen::RcgenError) -> (res: DomainError)
    ensures
        res matches DomainError::Security(m) && prefix@.is_prefix_of(m@),
{
    let mut m = prefix.to_string();
    let t = rcgen_error_text(e);
    m.append(t.as_str());
    assert(m@.subrange(0, prefix@.len() as int) =~= prefix@);
    DomainError::Security(m)
}

/// The names a device's certificate is issued for: [`CERT_SUBJECT_NAME`] alone.
pub fn cert_subject_names() -> (res: Vec<String>)
    ensures
        res@.len() == 1,
        res@[0]@ == CERT_SUBJECT_NAME@,
{
    let mut names: Vec<String> = Vec::new();
    names.push(CERT_SUBJECT_NAME.to_string());
    names
}

/// What certificate generation gives, from what rcgen returned: the
/// certificate PEM, the private-key PEM and the certificate DER when every
/// step succeeded; otherwise a security error naming the first step that
/// failed (generation, then the DER, then the PEM encoding), followed by
/// rcgen's message.
pub fn cert_outcome(
    r: Result<(Result<Vec<u8>, rcgen::RcgenError>, Result<String, rcgen::RcgenError>, String), rcgen::RcgenError>,
) -> (res: Result<(String, String, Vec<u8>), DomainError>)
    ensures
        r matches Ok((Ok(der), Ok(pem), key)) ==> (res matches Ok((p, k, d)) && p@ == pem@ && k@ == key@ && d@ == der@),
        r is Err ==> (res matches Err(DomainError::Security(m)) && "Cert generation failed: "@.is_prefix_of(m@)),
        r matches Ok((Err(_), _, _)) ==> (res matches Err(DomainError::Security(m))
            && "Cert DER serialization failed: "@.is_prefix_of(m@)),
        r matches Ok((Ok(_), Err(_), _)) ==> (res matches Err(DomainError::Security(m))
            && "Cert serialization failed: "@.is_prefix_of(m@)),
{
    match r {
        Err(e) => Err(cert_error("Cert generation failed: ", &e)),
        Ok((der, pem, key_pem)) => match der {
            Err(e) => Err(cert_error("Cert DER serialization failed: ", &e)),
            Ok(cert_der) => match pem {
                Err(e) => Err(cert_error("Cert serialization failed: ", &e)),
                Ok(cert_pem) => Ok((cert_pem, key_pem, cert_der)),
            },
        },
    }
}

/// A fresh self-signed certificate for [`cert_subject_names`]: rcgen makes
/// it (with a random key) and [`cert_outcome`] reads what it returned.
pub fn generate_self_signed_cert() -> (res: Result<(String, String, Vec<u8>), DomainError>)
    ensures
        res matches Err(e) ==> e matches DomainError::Security(m) && (
            "Cert generation failed: "@.is_prefix_of(m@)
            || "Cert DER serialization failed: "@.is_prefix_of(m@)
            || "Cert serialization failed: "@.is_prefix_of(m@)),
{
    cert_outcome(rcgen_self_signed(cert_subject_names()))
}

} // verus!
