use vstd::prelude::*;

verus! {

/// Chunk size chosen for a file of `file_size` bytes; 0 means "one piece".
pub open spec fn spec_chunk_size(file_size: u64) -> u32 {
    if file_size <= 131_072 {
        0
    } else if file_size <= 268_435_456 {
        131_072
    } else if file_size <= 1_073_741_824 {
        1_048_576
    } else if file_size <= 17_179_869_184 {
        4_194_304
    } else {
        16_777_216
    }
}

/// Up to 128 KiB no chunking, up to 256 MiB chunks of 128 KiB, up to 1 GiB
/// chunks of 1 MiB, up to 16 GiB chunks of 4 MiB, above that 16 MiB.
pub fn compute_chunk_size(file_size: u64) -> (res: u32)
    ensures
        res == spec_chunk_size(file_size),
{
    if file_size <= 131_072 {
        0
    } else if file_size <= 268_435_456 {
        131_072
    } else if file_size <= 1_073_741_824 {
        1_048_576
    } else if file_size <= 17_179_869_184 {
        4_194_304
    } else {
        16_777_216
    }
}

/// The size table: files up to 128 KiB go as one piece, up to 256 MiB in
/// 128 KiB chunks, up to 1 GiB in 1 MiB chunks, up to 16 GiB in 4 MiB chunks,
/// and larger files in 16 MiB chunks.
pub proof fn lemma_chunk_size_table(file_size: u64)
    ensures
        file_size <= 131_072 ==> spec_chunk_size(file_size) == 0,
        131_072 < file_size <= 268_435_456 ==> spec_chunk_size(file_size) == 131_072,
        268_435_456 < file_size <= 1_073_741_824 ==> spec_chunk_size(file_size) == 1_048_576,
        1_073_741_824 < file_size <= 17_179_869_184 ==> spec_chunk_size(file_size) == 4_194_304,
        17_179_869_184 < file_size ==> spec_chunk_size(file_size) == 16_777_216,
{
}

/// A larger file never gets smaller chunks, and a chunked file is cut into
/// at most 4096 chunks up to 16 GiB.
pub proof fn lemma_chunk_size_grows(a: u64, b: u64)
    ensures
        a <= b ==> spec_chunk_size(a) <= spec_chunk_size(b),
        spec_chunk_size(a) > 0 && a <= 17_179_869_184 ==> a <= 4096 * spec_chunk_size(a),
{
}

} // verus!
