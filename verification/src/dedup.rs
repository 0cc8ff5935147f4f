use vstd::prelude::*;
use crate::model::file_entry::{BlockInfo, BlockList};
use crate::text::str_eq;
use crate::ports::LocalBlockCopy;

verus! {

/// Blocks split by where they will come from.
#[derive(Debug)]
pub struct DeduplicationResult {
    pub local_copies: Vec<LocalBlockCopy>,
    pub network_fetches: Vec<BlockInfo>,
}

/// For each needed block with a local copy, the first copy found, in order.
pub open spec fn local_sources(copies: Seq<Vec<LocalBlockCopy>>) -> Seq<LocalBlockCopy>
    decreases copies.len(),
{
    if copies.len() == 0 {
        Seq::empty()
    } else {
        let rest = local_sources(copies.drop_last());
        if copies.last()@.len() > 0 {
            rest.push(copies.last()@[0])
        } else {
            rest
        }
    }
}

/// The needed blocks without any local copy, in order.
pub open spec fn remote_blocks(needed: Seq<BlockInfo>, copies: Seq<Vec<LocalBlockCopy>>) -> Seq<BlockInfo>
    decreases needed.len(),
{
    if needed.len() == 0 || copies.len() == 0 {
        Seq::empty()
    } else {
        let rest = remote_blocks(needed.drop_last(), copies.drop_last());
        if copies.last()@.len() > 0 {
            rest
        } else {
            rest.push(needed.last())
        }
    }
}

/// Decides, block by block, whether a needed block can be copied from a
/// local file that already holds it or must be fetched from the peer.
pub struct BlockDeduplicator;

impl BlockDeduplicator {
    pub fn new() -> (res: Self) {
        BlockDeduplicator
    }

    /// Splits `needed` given, for each block in turn, the local copies found
    /// for its hash: a block with copies is taken from the first of them,
    /// a block without is fetched.
    pub fn deduplicate(&self, needed: &Vec<BlockInfo>, copies: &Vec<Vec<LocalBlockCopy>>) -> (res: DeduplicationResult)
        requires
            copies@.len() == needed@.len(),
        ensures
            res.local_copies@ == local_sources(copies@),
            res.network_fetches@ == remote_blocks(needed@, copies@),
    {
        let mut local_copies: Vec<LocalBlockCopy> = Vec::new();
        let mut network_fetches: Vec<BlockInfo> = Vec::new();
        let mut i: usize = 0;
        while i < needed.len()
            invariant
                i <= needed@.len(),
                copies@.len() == needed@.len(),
                local_copies@ == local_sources(copies@.subrange(0, i as int)),
                network_fetches@ == remote_blocks(needed@.subrange(0, i as int), copies@.subrange(0, i as int)),
            decreases needed@.len() - i,
        {
            proof {
                assert(copies@.subrange(0, i + 1).drop_last() =~= copies@.subrange(0, i as int));
                assert(needed@.subrange(0, i + 1).drop_last() =~= needed@.subrange(0, i as int));
            }
            if copies[i].len() > 0 {
                local_copies.push(copies[i][0].clone());
            } else {
                network_fetches.push(needed[i].clone());
            }
            i = i + 1;
        }
        proof {
            assert(copies@.subrange(0, i as int) =~= copies@);
            assert(needed@.subrange(0, i as int) =~= needed@);
        }
        DeduplicationResult { local_copies, network_fetches }
    }
}


/// Every needed block is served exactly once: either from a local copy or
/// from the network.
pub proof fn lemma_every_block_served(needed: Seq<BlockInfo>, copies: Seq<Vec<LocalBlockCopy>>)
    requires
        copies.len() == needed.len(),
    ensures
        local_sources(copies).len() + remote_blocks(needed, copies).len() == needed.len(),
    decreases needed.len(),
{
    if needed.len() > 0 {
        lemma_every_block_served(needed.drop_last(), copies.drop_last());
    }
}


/// Bytes of `blocks` before the one at position `i`.
pub open spec fn offset_before(blocks: Seq<BlockInfo>, i: int) -> int
    decreases i,
{
    if i <= 0 {
        0
    } else {
        offset_before(blocks, i - 1) + blocks[i - 1].size
    }
}

/// The copies of a block with hash `hash` in a file at `path` made of
/// `blocks`: (hash, path, offset) for each block with that hash, in order.
pub open spec fn copies_of(path: Seq<char>, blocks: Seq<BlockInfo>, hash: Seq<char>) -> Seq<(Seq<char>, Seq<char>, int)>
    decreases blocks.len(),
{
    if blocks.len() == 0 {
        Seq::empty()
    } else {
        let rest = copies_of(path, blocks.drop_last(), hash);
        if blocks.last().hash@ == hash {
            rest.push((hash, path, offset_before(blocks, blocks.len() - 1)))
        } else {
            rest
        }
    }
}

/// A copy as (hash, path, offset).
pub open spec fn copy_view(c: LocalBlockCopy) -> (Seq<char>, Seq<char>, int) {
    (c.hash@, c.source_path@, c.source_offset as int)
}

proof fn lemma_offset_bound(blocks: Seq<BlockInfo>, i: int)
    requires
        0 <= i <= blocks.len(),
    ensures
        0 <= offset_before(blocks, i) <= i * (u32::MAX as int),
    decreases i,
{
    if i > 0 {
        lemma_offset_bound(blocks, i - 1);
    }
}

proof fn lemma_offset_prefix(blocks: Seq<BlockInfo>, i: int, j: int)
    requires
        0 <= i <= j <= blocks.len(),
    ensures
        offset_before(blocks.subrange(0, j), i) == offset_before(blocks, i),
    decreases i,
{
    if i > 0 {
        lemma_offset_prefix(blocks, i - 1, j);
    }
}

/// Where a block with hash `hash` already sits in the file at `path`, whose
/// blocks are `blocks`: each block with that hash, at the sum of the sizes
/// of the blocks before it.
pub fn block_copies_in(path: &str, blocks: &BlockList, hash: &str) -> (res: Vec<LocalBlockCopy>)
    requires
        blocks@.len() <= u32::MAX,
    ensures
        res@.map_values(|c: LocalBlockCopy| copy_view(c)) == copies_of(path@, blocks@, hash@),
{
    let mut res: Vec<LocalBlockCopy> = Vec::new();
    let mut offset: u64 = 0;
    let mut i: usize = 0;
    while i < blocks.0.len()
        invariant
            i <= blocks@.len(),
            blocks@ == blocks.0@,
            blocks@.len() <= u32::MAX,
            offset == offset_before(blocks@, i as int),
            res@.map_values(|c: LocalBlockCopy| copy_view(c)) == copies_of(path@, blocks@.subrange(0, i as int), hash@),
        decreases blocks@.len() - i,
    {
        let b = &blocks.0[i];
        proof {
            let s = blocks@.subrange(0, i + 1);
            assert(s.drop_last() =~= blocks@.subrange(0, i as int));
            lemma_offset_prefix(blocks@, i as int, i + 1);
            lemma_offset_bound(blocks@, i + 1);
            assert((i + 1) * (u32::MAX as int) <= (u32::MAX as int) * (u32::MAX as int)) by (nonlinear_arith)
                requires
                    i + 1 <= u32::MAX,
            ;
        }
        if str_eq(b.hash.as_str(), hash) {
            let ghost before = res@;
            res.push(LocalBlockCopy { hash: hash.to_string(), source_path: path.to_string(), source_offset: offset });
            proof {
                assert(res@.map_values(|c: LocalBlockCopy| copy_view(c)) =~= before.map_values(|c: LocalBlockCopy| copy_view(c)).push(copy_view(res@.last())));
            }
        }
        offset = offset + b.size as u64;
        i = i + 1;
    }
    assert(blocks@.subrange(0, i as int) =~= blocks@);
    res
}

} // verus!
