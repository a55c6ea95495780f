//! A block: one payload, sealed by a proof-of-work search over its nonce.

use vstd::prelude::*;
use crate::text::{decimal, hex_of_bytes, sha256_of, hex_encode, push_decimal, sha256, now_rfc3339};

verus! {

/// The text that a block's digest is taken over: its fields in a fixed order,
/// numbers in decimal.
pub open spec fn digest_input(index: u64, timestamp: Seq<char>, data: Seq<char>, previous_hash: Seq<char>, nonce: u64) -> Seq<char> {
    decimal(index as nat) + timestamp + data + previous_hash + decimal(nonce as nat)
}

/// The lowercase hexadecimal SHA-256 digest of a block's fields.
pub open spec fn block_digest(index: u64, timestamp: Seq<char>, data: Seq<char>, previous_hash: Seq<char>, nonce: u64) -> Seq<char> {
    hex_of_bytes(sha256_of(digest_input(index, timestamp, data, previous_hash, nonce)))
}

/// The first `d` characters of `h` are all `'0'`.
pub open spec fn has_zero_prefix(h: Seq<char>, d: nat) -> bool {
    d <= h.len() && forall|i: int| 0 <= i < d ==> h[i] == '0'
}

#[derive(Debug, Clone)]
pub struct Block {
    pub index: u64,
    pub timestamp: String,
    pub data: String,
    pub previous_hash: String,
    pub hash: String,
    pub nonce: u64,
}

/// Whether the first `d` characters of `s` are all `'0'`.
pub fn starts_with_zeros(s: &str, d: usize) -> (r: bool)
    ensures
        r == has_zero_prefix(s@, d as nat),
{
    let n = s.unicode_len();
    if d > n {
        return false;
    }
    let mut i: usize = 0;
    while i < d
        invariant
            d <= n == s@.len(),
            i <= d,
            forall|j: int| 0 <= j < i ==> s@[j] == '0',
        decreases d - i,
    {
        if s.get_char(i) != '0' {
            return false;
        }
        i = i + 1;
    }
    true
}

impl Block {
    /// The digest of this block's fields with another nonce.
    pub open spec fn digest_with_nonce(&self, nonce: u64) -> Seq<char> {
        block_digest(self.index, self.timestamp@, self.data@, self.previous_hash@, nonce)
    }

    /// The digest of this block's own fields.
    pub open spec fn digest_spec(&self) -> Seq<char> {
        self.digest_with_nonce(self.nonce)
    }

    /// A block with the given creation time, nonce 0 and the digest of its fields.
    pub fn with_timestamp(index: u64, timestamp: String, data: String, previous_hash: String) -> (b: Block)
        ensures
            b.index == index,
            b.timestamp@ == timestamp@,
            b.data@ == data@,
            b.previous_hash@ == previous_hash@,
            b.nonce == 0,
            b.hash@ == b.digest_spec(),
    {
        let mut block = Block { index, timestamp, data, previous_hash, hash: String::new(), nonce: 0 };
        block.hash = block.calculate_hash();
        block
    }

    /// A block created now, with nonce 0 and the digest of its fields.
    pub fn new(index: u64, data: String, previous_hash: String) -> (b: Block)
        ensures
            b.index == index,
            b.data@ == data@,
            b.previous_hash@ == previous_hash@,
            b.nonce == 0,
            b.hash@ == b.digest_spec(),
    {
        let timestamp = now_rfc3339();
        Block::with_timestamp(index, timestamp, data, previous_hash)
    }

    /// The digest of the block's current fields.
    pub fn calculate_hash(&self) -> (r: String)
        ensures
            r@ == self.digest_spec(),
    {
        let mut input = String::new();
        push_decimal(&mut input, self.index);
        input.append(self.timestamp.as_str());
        input.append(self.data.as_str());
        input.append(self.previous_hash.as_str());
        push_decimal(&mut input, self.nonce);
        assert(input@ =~= digest_input(self.index, self.timestamp@, self.data@, self.previous_hash@, self.nonce));
        let bytes = sha256(input.as_str());
        hex_encode(&bytes)
    }

    /// Seals the block: unless its hash already starts with `difficulty`
    /// zeros, raises the nonce one step at a time and recomputes the hash
    /// until it does. The search stops early only if the nonce reaches its
    /// largest value.
    pub fn mine_block(&mut self, difficulty: usize)
        ensures
            final(self).index == old(self).index,
            final(self).timestamp@ == old(self).timestamp@,
            final(self).data@ == old(self).data@,
            final(self).previous_hash@ == old(self).previous_hash@,
            has_zero_prefix(old(self).hash@, difficulty as nat) || old(self).nonce == u64::MAX
                ==> *final(self) == *old(self),
            !has_zero_prefix(old(self).hash@, difficulty as nat) && old(self).nonce < u64::MAX ==> {
                &&& final(self).nonce > old(self).nonce
                &&& final(self).hash@ == final(self).digest_spec()
                &&& has_zero_prefix(final(self).hash@, difficulty as nat) || final(self).nonce == u64::MAX
                &&& forall|n: u64| old(self).nonce < n < final(self).nonce
                    ==> !has_zero_prefix(#[trigger] old(self).digest_with_nonce(n), difficulty as nat)
            },
    {
        let ghost start = *self;
        while !starts_with_zeros(self.hash.as_str(), difficulty) && self.nonce < u64::MAX
            invariant
                self.index == start.index,
                self.timestamp == start.timestamp,
                self.data == start.data,
                self.previous_hash == start.previous_hash,
                self.nonce >= start.nonce,
                self.nonce == start.nonce ==> *self == start,
                self.nonce > start.nonce ==> self.hash@ == self.digest_spec(),
                self.nonce > start.nonce ==> !has_zero_prefix(start.hash@, difficulty as nat),
                forall|n: u64| start.nonce < n < self.nonce
                    ==> !has_zero_prefix(#[trigger] start.digest_with_nonce(n), difficulty as nat),
            decreases u64::MAX - self.nonce,
        {
            let ghost prev = self.nonce;
            self.nonce = self.nonce + 1;
            self.hash = self.calculate_hash();
            assert(forall|n: u64| start.nonce < n < self.nonce
                ==> !has_zero_prefix(#[trigger] start.digest_with_nonce(n), difficulty as nat)) by {
                assert(prev > start.nonce ==> start.digest_with_nonce(prev) == self.digest_with_nonce(prev));
            }
        }
    }
}

} // verus!
