//! A chain of blocks: appending sealed blocks and checking the links.

use vstd::prelude::*;
use crate::block::{Block, has_zero_prefix};

verus! {

/// Every block after the first carries the digest of its own fields and the
/// hash of the block before it.
pub open spec fn chain_valid(c: Seq<Block>) -> bool {
    forall|i: int| 1 <= i < c.len() ==> {
        &&& (#[trigger] c[i]).hash@ == c[i].digest_spec()
        &&& c[i].previous_hash@ == c[i - 1].hash@
    }
}

/// Every block after the first is sealed at `difficulty`: its hash starts
/// with that many zeros, unless the nonce search ran out.
pub open spec fn chain_sealed(c: Seq<Block>, difficulty: nat) -> bool {
    forall|i: int| 1 <= i < c.len() ==>
        has_zero_prefix((#[trigger] c[i]).hash@, difficulty) || c[i].nonce == u64::MAX
}

/// A chain as appending builds it: at least one block, each block's index its
/// position, and valid links.
pub open spec fn chain_wf(c: Seq<Block>) -> bool {
    &&& c.len() >= 1
    &&& forall|i: int| 0 <= i < c.len() ==> (#[trigger] c[i]).index == i
    &&& chain_valid(c)
}

/// Whether a chain is valid, checked block by block.
pub fn check_chain(chain: &Vec<Block>) -> (r: bool)
    ensures
        r == chain_valid(chain@),
{
    let mut i: usize = 1;
    while i < chain.len()
        invariant
            1 <= i,
            i <= chain@.len() || chain@.len() == 0,
            forall|j: int| 1 <= j < i && j < chain@.len() ==> {
                &&& (#[trigger] chain@[j]).hash@ == chain@[j].digest_spec()
                &&& chain@[j].previous_hash@ == chain@[j - 1].hash@
            },
        decreases chain@.len() - i,
    {
        let current = &chain[i];
        let previous = &chain[i - 1];
        let h = current.calculate_hash();
        if !(current.hash == h) {
            return false;
        }
        if !(current.previous_hash == previous.hash) {
            return false;
        }
        i = i + 1;
    }
    true
}

/// Appends a block holding `data` after the last one, sealed at `difficulty`.
pub fn append_block(chain: &mut Vec<Block>, data: String, difficulty: usize)
    requires
        chain_wf(old(chain)@),
    ensures
        chain_wf(final(chain)@),
        chain_sealed(old(chain)@, difficulty as nat) ==> chain_sealed(final(chain)@, difficulty as nat),
        final(chain)@.len() == old(chain)@.len() + 1,
        final(chain)@.drop_last() == old(chain)@,
        final(chain)@.last().data@ == data@,
        final(chain)@.last().previous_hash@ == old(chain)@.last().hash@,
        has_zero_prefix(final(chain)@.last().hash@, difficulty as nat)
            || final(chain)@.last().nonce == u64::MAX,
{
    let n = chain.len();
    let latest = &chain[n - 1];
    assert(latest.index == n - 1);
    let mut block = Block::new(latest.index + 1, data, latest.hash.clone());
    block.mine_block(difficulty);
    chain.push(block);
    assert(chain@.drop_last() =~= old(chain)@);
}

#[derive(Debug)]
pub struct Blockchain {
    pub chain: Vec<Block>,
    pub difficulty: usize,
}

impl Blockchain {
    /// The chain is as appending builds it.
    pub open spec fn wf(&self) -> bool {
        chain_wf(self.chain@)
    }

    /// A chain holding only a genesis block.
    pub fn new(difficulty: usize) -> (r: Blockchain)
        ensures
            r.wf(),
            r.difficulty == difficulty,
            r.chain@.len() == 1,
            r.chain@[0].data@ == "Genesis Block"@,
            r.chain@[0].previous_hash@ == "0"@,
    {
        let mut chain: Vec<Block> = Vec::new();
        let genesis_block = Block::new(0, "Genesis Block".to_string(), "0".to_string());
        chain.push(genesis_block);
        Blockchain { chain, difficulty }
    }

    /// The last block.
    pub fn get_latest_block(&self) -> (r: &Block)
        requires
            self.chain@.len() > 0,
        ensures
            *r == self.chain@.last(),
    {
        &self.chain[self.chain.len() - 1]
    }

    /// Appends a sealed block holding `data`.
    pub fn add_block(&mut self, data: String)
        requires
            old(self).wf(),
        ensures
            final(self).wf(),
            final(self).difficulty == old(self).difficulty,
            final(self).chain@.drop_last() == old(self).chain@,
            final(self).chain@.last().data@ == data@,
            final(self).chain@.last().previous_hash@ == old(self).chain@.last().hash@,
            has_zero_prefix(final(self).chain@.last().hash@, old(self).difficulty as nat)
                || final(self).chain@.last().nonce == u64::MAX,
    {
        append_block(&mut self.chain, data, self.difficulty);
    }

    /// Whether every block after the first holds its own digest and the hash of
    /// the block before it.
    pub fn is_valid(&self) -> (r: bool)
        ensures
            r == chain_valid(self.chain@),
    {
        check_chain(&self.chain)
    }
}

} // verus!
