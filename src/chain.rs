//! The local chain as the synchronisation logic sees it: a linked run of
//! block headers above a finalized height.
use vstd::prelude::*;
use crate::bytes::{bytes_eq, Digest};
use crate::ledger::Attestation;

verus! {

/// What the chain keeps of a block.
#[derive(Debug, Clone, Copy, PartialEq, Eq)]
pub struct BlockInfo {
    pub height: u64,
    pub hash: Digest,
    pub prev_block_hash: Digest,
    pub iteration: u8,
    pub state_hash: Digest,
    /// The block's attestation; `None` for a block read from the candidate
    /// store, which carries none yet.
    pub att: Option<Attestation>,
}

/// Why a block was not appended.
#[derive(Debug, Clone, Copy, PartialEq, Eq)]
pub enum AcceptError {
    InvalidHeight,
    InvalidPrevHash,
}

/// `b` extends `tip`: one higher, and linked to its hash.
pub open spec fn extends(tip: BlockInfo, b: BlockInfo) -> bool {
    b.height as int == tip.height as int + 1 && b.prev_block_hash == tip.hash
}

/// Every block of the sequence extends the one before it.
pub open spec fn linked(blocks: Seq<BlockInfo>) -> bool {
    forall|i: int| 0 < i < blocks.len() ==> extends(#[trigger] blocks[i - 1], blocks[i])
}

/// The block at height `h`, if the chain holds it.
pub open spec fn at_height(blocks: Seq<BlockInfo>, h: int) -> Option<BlockInfo> {
    let i = h - blocks[0].height as int;
    if blocks.len() > 0 && 0 <= i < blocks.len() { Some(blocks[i]) } else { None }
}

/// Position of the first block, at or after `i`, with this hash; -1 if none.
pub open spec fn hash_index_from(blocks: Seq<BlockInfo>, hash: Digest, i: int) -> int
    decreases blocks.len() - i,
{
    if i >= blocks.len() || i < 0 {
        -1
    } else if blocks[i].hash == hash {
        i
    } else {
        hash_index_from(blocks, hash, i + 1)
    }
}

pub proof fn lemma_hash_index_range(blocks: Seq<BlockInfo>, hash: Digest, i: int)
    requires
        0 <= i,
    ensures
        -1 <= hash_index_from(blocks, hash, i) < blocks.len(),
        hash_index_from(blocks, hash, i) >= 0 ==> blocks[hash_index_from(blocks, hash, i)].hash == hash,
    decreases blocks.len() - i,
{
    if i < blocks.len() && blocks[i].hash != hash {
        lemma_hash_index_range(blocks, hash, i + 1);
    }
}

/// The chain holds a block with this hash.
pub open spec fn holds_hash(blocks: Seq<BlockInfo>, hash: Digest) -> bool {
    exists|i: int| 0 <= i < blocks.len() && blocks[i].hash == hash
}

proof fn lemma_heights(blocks: Seq<BlockInfo>, i: int)
    requires
        linked(blocks),
        0 <= i < blocks.len(),
    ensures
        blocks[i].height as int == blocks[0].height as int + i,
    decreases i,
{
    if i > 0 {
        lemma_heights(blocks, i - 1);
        assert(extends(blocks[i - 1], blocks[i]));
    }
}

/// Every accepted block links to the tip it was accepted on: in a
/// well-formed chain each block is one higher than the block before it and
/// names that block's hash as its previous hash.
pub proof fn lemma_accepted_blocks_link(c: Chain, i: int)
    requires
        c.wf(),
        0 < i < c.blocks().len(),
    ensures
        c.blocks()[i].prev_block_hash == c.blocks()[i - 1].hash,
        c.blocks()[i].height == c.blocks()[i - 1].height + 1,
        c.blocks()[i].height == c.blocks()[0].height + i,
{
    assert(extends(c.blocks()[i - 1], c.blocks()[i]));
    lemma_heights(c.blocks(), i);
}

/// The block a well-formed chain holds at height `h` has height `h`, and
/// lies between the first held block and the tip.
pub proof fn lemma_at_height(c: Chain, h: int)
    requires
        c.wf(),
        at_height(c.blocks(), h) is Some,
    ensures
        at_height(c.blocks(), h)->0.height == h,
        at_height(c.blocks(), h)->0.height <= c.tip_spec().height,
{
    let i = h - c.blocks()[0].height;
    lemma_heights(c.blocks(), i);
    lemma_heights(c.blocks(), c.blocks().len() - 1);
}

/// Accepting the same block twice: once `b` is the tip, it does not extend
/// the tip, so a second acceptance is refused and changes nothing.
pub proof fn lemma_accept_same_block_twice(c: Chain, b: BlockInfo)
    requires
        c.wf(),
        c.tip_spec() == b,
    ensures
        !extends(c.tip_spec(), b),
{
}

/// The local chain.
pub struct Chain {
    blocks: Vec<BlockInfo>,
    final_height: u64,
}

impl Chain {
    /// The held blocks, lowest first.
    pub closed spec fn blocks(&self) -> Seq<BlockInfo> {
        self.blocks@
    }

    /// Height of the last finalized block.
    pub closed spec fn final_height_spec(&self) -> u64 {
        self.final_height
    }

    pub open spec fn tip_spec(&self) -> BlockInfo {
        self.blocks().last()
    }

    /// Non-empty, linked, and finalized no higher than the tip and no lower
    /// than the first held block.
    pub closed spec fn wf(&self) -> bool {
        &&& self.blocks@.len() > 0
        &&& linked(self.blocks@)
        &&& self.blocks@[0].height <= self.final_height <= self.blocks@.last().height
    }

    /// A chain holding only `base`, finalized at it.
    pub fn new(base: BlockInfo) -> (r: Chain)
        ensures
            r.wf(),
            r.blocks() == seq![base],
            r.final_height_spec() == base.height,
    {
        let mut blocks: Vec<BlockInfo> = Vec::new();
        blocks.push(base);
        let r = Chain { blocks, final_height: base.height };
        assert(r.blocks@ =~= seq![base]);
        r
    }

    /// The highest block.
    pub fn tip(&self) -> (r: BlockInfo)
        requires
            self.wf(),
        ensures
            r == self.tip_spec(),
    {
        self.blocks[self.blocks.len() - 1]
    }

    /// Height of the highest block.
    pub fn height(&self) -> (r: u64)
        requires
            self.wf(),
        ensures
            r == self.tip_spec().height,
    {
        self.blocks[self.blocks.len() - 1].height
    }

    /// Height of the last finalized block.
    pub fn final_height(&self) -> (r: u64)
        ensures
            r == self.final_height_spec(),
    {
        self.final_height
    }

    /// The block at height `h`, if held.
    pub fn block_at_height(&self, h: u64) -> (r: Option<BlockInfo>)
        requires
            self.wf(),
        ensures
            r == at_height(self.blocks(), h as int),
    {
        let base = self.blocks[0].height;
        if h < base {
            return None;
        }
        let i = h - base;
        if i < self.blocks.len() as u64 {
            Some(self.blocks[i as usize])
        } else {
            None
        }
    }

    /// Whether a block with this hash is held.
    pub fn contains_hash(&self, hash: &Digest) -> (r: bool)
        ensures
            r == holds_hash(self.blocks(), *hash),
    {
        match self.find_by_hash(hash) {
            Some(_) => true,
            None => false,
        }
    }

    /// Position of the block with this hash, if held.
    pub fn find_by_hash(&self, hash: &Digest) -> (r: Option<usize>)
        ensures
            r matches Some(i) ==> i < self.blocks().len() && self.blocks()[i as int].hash == *hash,
            r is None ==> !holds_hash(self.blocks(), *hash),
            r matches Some(i) ==> i as int == hash_index_from(self.blocks(), *hash, 0),
            r is None <==> hash_index_from(self.blocks(), *hash, 0) < 0,
    {
        proof {
            lemma_hash_index_range(self.blocks@, *hash, 0);
        }
        let mut i: usize = 0;
        while i < self.blocks.len()
            invariant
                i <= self.blocks@.len(),
                -1 <= hash_index_from(self.blocks@, *hash, 0) < self.blocks@.len(),
                forall|x: int| 0 <= x < i ==> self.blocks@[x].hash != *hash,
                hash_index_from(self.blocks@, *hash, 0) == hash_index_from(self.blocks@, *hash, i as int),
            decreases self.blocks@.len() - i,
        {
            if bytes_eq(&self.blocks[i].hash, hash) {
                return Some(i);
            }
            i = i + 1;
        }
        None
    }

    /// The held block at a position.
    pub fn block(&self, i: usize) -> (r: BlockInfo)
        requires
            i < self.blocks().len(),
        ensures
            r == self.blocks()[i as int],
    {
        self.blocks[i]
    }

    /// Appends `blk` when it extends the tip; otherwise changes nothing.
    pub fn try_accept_block(&mut self, blk: BlockInfo) -> (r: Result<(), AcceptError>)
        requires
            old(self).wf(),
        ensures
            final(self).wf(),
            final(self).final_height_spec() == old(self).final_height_spec(),
            r is Ok <==> extends(old(self).tip_spec(), blk),
            r is Ok ==> final(self).blocks() == old(self).blocks().push(blk),
            r is Err ==> final(self).blocks() == old(self).blocks(),
            r == Err::<(), AcceptError>(AcceptError::InvalidHeight) <==> blk.height as int != old(self).tip_spec().height as int + 1,
    {
        let tip = self.blocks[self.blocks.len() - 1];
        if tip.height == u64::MAX || blk.height != tip.height + 1 {
            return Err(AcceptError::InvalidHeight);
        }
        if !bytes_eq(&blk.prev_block_hash, &tip.hash) {
            return Err(AcceptError::InvalidPrevHash);
        }
        let ghost before = self.blocks@;
        self.blocks.push(blk);
        assert forall|i: int| 0 < i < self.blocks@.len() implies extends(#[trigger] self.blocks@[i - 1], self.blocks@[i]) by {
            if i < before.len() {
                assert(extends(before[i - 1], before[i]));
            }
        }
        Ok(())
    }

    /// Drops every block above height `h`, which must not be below the
    /// finalized height.
    pub fn revert_to_height(&mut self, h: u64)
        requires
            old(self).wf(),
            old(self).final_height_spec() <= h <= old(self).tip_spec().height,
        ensures
            final(self).wf(),
            final(self).final_height_spec() == old(self).final_height_spec(),
            final(self).blocks() == old(self).blocks().take(h - old(self).blocks()[0].height + 1),
            final(self).tip_spec().height == h,
    {
        let base = self.blocks[0].height;
        let len = self.blocks.len();
        proof {
            lemma_heights(self.blocks@, self.blocks@.len() - 1);
            assert(self.blocks@.last() == self.blocks@[self.blocks@.len() - 1]);
            assert(h - base < len);
        }
        let keep = (h - base) as usize + 1;
        self.blocks.truncate(keep);
        proof {
            lemma_heights(self.blocks@, self.blocks@.len() - 1);
        }
    }

    /// Marks every block up to height `h` as final.
    pub fn finalize_up_to(&mut self, h: u64)
        requires
            old(self).wf(),
            h <= old(self).tip_spec().height,
        ensures
            final(self).wf(),
            final(self).blocks() == old(self).blocks(),
            final(self).final_height_spec() == if h > old(self).final_height_spec() { h } else { old(self).final_height_spec() },
    {
        if h > self.final_height {
            self.final_height = h;
        }
    }
}

} // verus!
