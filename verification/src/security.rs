use vstd::prelude::*;
use vstd::utf8::*;
use vstd::string::StringSliceAdditionalSpecFns;
use sha2::Digest;
use crate::clock::unix_now;
use crate::encoding::{hex_lower, to_hex_lower};
use crate::error::DomainError;
use crate::model::transfer::{ChunkInfo, build_chunks, layout_fits, layout_ok};

verus! {

broadcast use vstd::utf8::encode_utf8_decode_utf8;

/// The SHA-256 digest of `data`.
pub uninterp spec fn sha256_bytes(data: Seq<u8>) -> Seq<u8>;

/// The BLAKE3 digest of `data`.
pub uninterp spec fn blake3_bytes(data: Seq<u8>) -> Seq<u8>;

/// Calls `sha2::Sha256::digest`; the result is named `sha256_bytes` and is 32 bytes long.
#[verifier::external_body]
fn sha256_digest(data: &[u8]) -> (res: Vec<u8>)
    ensures
        res@ == sha256_bytes(data@),
        res@.len() == 32,
{
    sha2::Sha256::digest(data).to_vec()
}

/// Calls `blake3::hash`; the result is named `blake3_bytes` and is 32 bytes long.
#[verifier::external_body]
fn blake3_digest(data: &[u8]) -> (res: Vec<u8>)
    ensures
        res@ == blake3_bytes(data@),
        res@.len() == 32,
{
    blake3::hash(data).as_bytes().to_vec()
}

/// Calls `std::str::from_utf8`: the text when `bytes` are valid UTF-8.
#[verifier::external_body]
fn str_from_utf8(bytes: &[u8]) -> (res: Option<&str>)
    ensures
        res is Some <==> valid_utf8(bytes@),
        res matches Some(s) ==> s.spec_bytes() == bytes@,
{
    std::str::from_utf8(bytes).ok()
}

/// Lowercase hex SHA-256 of `data`.
pub open spec fn spec_sha256_hex(data: Seq<u8>) -> Seq<char> {
    hex_lower(sha256_bytes(data))
}

/// Lowercase hex BLAKE3 of `data`.
pub open spec fn spec_blake3_hex(data: Seq<u8>) -> Seq<char> {
    hex_lower(blake3_bytes(data))
}

/// The device id that a certificate in DER form stands for: hex SHA-256 of the DER bytes.
pub fn device_id_from_cert_der(cert_der: &[u8]) -> (res: String)
    ensures
        res@ == spec_sha256_hex(cert_der@),
{
    let d = sha256_digest(cert_der);
    to_hex_lower(d.as_slice())
}

/// The bytes that the short fingerprint is made from: the first 16 bytes of the id.
pub open spec fn fingerprint_bytes(device_id: Seq<char>) -> Seq<u8> {
    if encode_utf8(device_id).len() >= 16 {
        encode_utf8(device_id).subrange(0, 16)
    } else {
        encode_utf8(device_id)
    }
}

/// A group of up to four bytes as text, or `????` when it is not valid UTF-8.
pub open spec fn group_text(g: Seq<u8>) -> Seq<char> {
    if valid_utf8(g) {
        decode_utf8(g)
    } else {
        "????"@
    }
}

pub open spec fn group_at(b: Seq<u8>, k: int) -> Seq<u8> {
    b.subrange(4 * k, if 4 * k + 4 <= b.len() { 4 * k + 4 } else { b.len() as int })
}

/// The first `k` groups joined with `-`.
pub open spec fn joined_groups(b: Seq<u8>, k: nat) -> Seq<char>
    decreases k,
{
    if k == 0 {
        Seq::empty()
    } else if k == 1 {
        group_text(group_at(b, 0))
    } else {
        joined_groups(b, (k - 1) as nat) + "-"@ + group_text(group_at(b, k - 1))
    }
}

pub open spec fn group_count(len: int) -> nat {
    ((len + 3) / 4) as nat
}

/// The short fingerprint shown to users: the first 16 bytes of the id in
/// groups of four joined with `-`.
pub open spec fn spec_fingerprint_short(device_id: Seq<char>) -> Seq<char> {
    let b = fingerprint_bytes(device_id);
    joined_groups(b, group_count(b.len() as int))
}

/// The first 16 bytes are cut on a character boundary.
pub open spec fn fingerprint_cut_ok(device_id: Seq<char>) -> bool {
    encode_utf8(device_id).len() >= 16 ==> is_char_boundary(encode_utf8(device_id), 16)
}

/// Short fingerprint of a device id, e.g. `a1b2-c3d4-e5f6-0718`.
pub fn fingerprint_short(device_id: &str) -> (res: String)
    requires
        fingerprint_cut_ok(device_id@),
    ensures
        res@ == spec_fingerprint_short(device_id@),
{
    let all = device_id.as_bytes();
    let hex: &[u8] = if all.len() >= 16 {
        &all[0..16]
    } else {
        all
    };
    let ghost b = fingerprint_bytes(device_id@);
    assert(hex@ == b);
    let n = hex.len();
    let count = (n + 3) / 4;
    let mut s = String::new();
    let mut k: usize = 0;
    while k < count
        invariant
            hex@ == b,
            n == b.len(),
            n <= 16,
            count == group_count(n as int),
            k <= count,
            s@ == joined_groups(b, k as nat),
        decreases count - k,
    {
        let start = 4 * k;
        let end = if 4 * k + 4 <= n { 4 * k + 4 } else { n };
        let g = &hex[start..end];
        assert(g@ == group_at(b, k as int));
        if k > 0 {
            s.append("-");
        }
        match str_from_utf8(g) {
            Some(t) => {
                proof {
                    assert(t@ == decode_utf8(t.spec_bytes()));
                }
                s.append(t);
            },
            None => {
                s.append("????");
            },
        }
        proof {
            if k == 0 {
                assert(s@ =~= joined_groups(b, 1));
            } else {
                assert(s@ =~= joined_groups(b, (k + 1) as nat));
            }
        }
        k = k + 1;
    }
    s
}

pub struct ChunkHasher;

/// `chunks` are the layout of `data` with every hash the BLAKE3 hex of its piece
/// (with chunk size 0 the piece is all of `data`).
pub open spec fn hashed_layout_ok(chunks: Seq<ChunkInfo>, data: Seq<u8>, chunk_size: u32) -> bool {
    &&& layout_ok(chunks, data.len() as u64, chunk_size)
    &&& forall|k: int|
        0 <= k < chunks.len() ==> (#[trigger] chunks[k]).hash@ == if chunk_size == 0 {
            spec_blake3_hex(data)
        } else {
            spec_blake3_hex(data.subrange(chunks[k].offset as int, chunks[k].offset + chunks[k].size))
        }
}

impl ChunkHasher {
    /// Cuts `data` (a whole file) into chunks of `chunk_size` and hashes each with BLAKE3.
    pub fn hash_chunks(data: &[u8], chunk_size: u32) -> (res: Vec<ChunkInfo>)
        requires
            data@.len() <= u64::MAX,
            layout_fits(data@.len() as u64, chunk_size),
        ensures
            hashed_layout_ok(res@, data@, chunk_size),
    {
        let data_len = data.len();
        let file_size = data_len as u64;
        let layout = build_chunks(file_size, chunk_size);
        let mut res: Vec<ChunkInfo> = Vec::new();
        let mut i: usize = 0;
        while i < layout.len()
            invariant
                i <= layout@.len(),
                file_size == data@.len(),
                data_len == data@.len(),
                layout_ok(layout@, file_size, chunk_size),
                res@.len() == i,
                forall|k: int| 0 <= k < i ==> {
                    &&& (#[trigger] res@[k]).index == layout@[k].index
                    &&& res@[k].offset == layout@[k].offset
                    &&& res@[k].size == layout@[k].size
                    &&& res@[k].hash@ == if chunk_size == 0 {
                        spec_blake3_hex(data@)
                    } else {
                        spec_blake3_hex(data@.subrange(layout@[k].offset as int, layout@[k].offset + layout@[k].size))
                    }
                },
            decreases layout@.len() - i,
        {
            let c = &layout[i];
            let piece: &[u8] = if chunk_size == 0 {
                data
            } else {
                proof {
                    if i < layout@.len() - 1 {
                        assert(layout@[i as int].offset + layout@[i as int].size == layout@[i + 1].offset) by (nonlinear_arith)
                            requires
                                layout@[i as int].offset == i * chunk_size,
                                layout@[i + 1].offset == (i + 1) * chunk_size,
                                layout@[i as int].size == chunk_size,
                        ;
                        assert(layout@[i + 1].offset <= layout@.last().offset) by (nonlinear_arith)
                            requires
                                layout@[i + 1].offset == (i + 1) * chunk_size,
                                layout@.last().offset == (layout@.len() - 1) * chunk_size,
                                i + 1 <= layout@.len() - 1,
                        ;
                    } else {
                        assert(layout@[i as int] == layout@.last());
                    }
                    assert(layout@[i as int].offset + layout@[i as int].size <= file_size);
                    assert(c.offset + c.size <= data@.len());
                }
                &data[c.offset as usize..(c.offset + c.size as u64) as usize]
            };
            let digest = blake3_digest(piece);
            let hash = to_hex_lower(digest.as_slice());
            res.push(ChunkInfo { index: c.index, offset: c.offset, size: c.size, hash });
            i = i + 1;
        }
        proof {
            assert forall|k: int| 0 <= k < res@.len() - 1 implies #[trigger] res@[k].size == chunk_size by {
                if chunk_size != 0 {
                    assert(layout@[k].size == chunk_size);
                }
            }
        }
        res
    }

    /// Whether `data` has the BLAKE3 hex hash `expected_hash`.
    pub fn verify_chunk(data: &[u8], expected_hash: &str) -> (res: bool)
        ensures
            res == (spec_blake3_hex(data@) == expected_hash@),
    {
        let digest = blake3_digest(data);
        let hex = to_hex_lower(digest.as_slice());
        crate::text::str_eq(hex.as_str(), expected_hash)
    }

    /// Lowercase hex SHA-256 of `data` (a whole file).
    pub fn sha256_hex(data: &[u8]) -> (res: String)
        ensures
            res@ == spec_sha256_hex(data@),
    {
        let d = sha256_digest(data);
        to_hex_lower(d.as_slice())
    }
}

} // verus!
