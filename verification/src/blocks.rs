//! What stands where in an encoded block.
//!
//! The first item of a block is its header. The items of a header start with
//! the hash of the parent, the hash of the uncles, the author and the root of
//! the state.

use crate::rlp;
use crate::types::{Bytes, H256};
use vstd::prelude::*;

verus! {

/// Where the hash of the parent stands in a header.
pub const PARENT_HASH: usize = 0;

/// Where the root of the state stands in a header.
pub const STATE_ROOT: usize = 3;

/// The hash that 32 bytes are.
pub open spec fn hash_from(bytes: Seq<u8>) -> H256 {
    H256 {
        hi: rlp::be_value(bytes.take(16)) as u128,
        lo: rlp::be_value(bytes.skip(16)) as u128,
    }
}

/// Whether item `n` of a header is a hash.
pub open spec fn has_hash(header: Seq<u8>, n: nat) -> bool {
    rlp::is_list_of(header, n + 1) && rlp::is_string_of(rlp::item(header, n), 32)
}

/// The hash that is item `n` of a header.
pub open spec fn hash_in(header: Seq<u8>, n: nat) -> H256 {
    hash_from(rlp::payload(rlp::item(header, n)))
}

/// Whether item `n` of the header of a block is a hash.
pub open spec fn block_has_hash(block: Seq<u8>, n: nat) -> bool {
    rlp::is_list_of(block, 1) && has_hash(rlp::item(block, 0), n)
}

/// Whether a block names its parent.
pub open spec fn names_parent(block: Seq<u8>) -> bool {
    block_has_hash(block, PARENT_HASH as nat)
}

/// The hash of the parent of a block.
pub open spec fn parent_hash(block: Seq<u8>) -> H256 {
    hash_in(rlp::item(block, 0), PARENT_HASH as nat)
}

/// Whether a block names the root of its state.
pub open spec fn names_state(block: Seq<u8>) -> bool {
    block_has_hash(block, STATE_ROOT as nat)
}

/// The root of the state of a block.
pub open spec fn state_root(block: Seq<u8>) -> H256 {
    hash_in(rlp::item(block, 0), STATE_ROOT as nat)
}

/// Reads the number that the 16 bytes from `start` on write.
fn read_half(bytes: &Bytes, start: usize) -> (half: u128)
    requires
        start + 16 <= bytes@.len(),
    ensures
        half == rlp::be_value(bytes@.subrange(start as int, start + 16)),
{
    let ghost digits = bytes@.subrange(start as int, start + 16);
    let mut half: u128 = 0;
    let mut i: usize = 0;
    assert(start + 16 <= bytes.len());
    assert(digits.take(0) =~= Seq::empty());
    while i < 16
        invariant
            i <= 16,
            start + 16 <= bytes.len(),
            digits == bytes@.subrange(start as int, start + 16),
            half == rlp::be_value(digits.take(i as int)),
        decreases 16 - i,
    {
        proof {
            assert(digits.take(i + 1).drop_last() =~= digits.take(i as int));
            assert(digits.take(i + 1).last() == bytes@[start + i]);
            rlp::lemma_be_value_bound(digits.take(i + 1));
            lemma_half(digits.take(i + 1).len());
        }
        half = half * 256 + bytes[start + i] as u128;
        i = i + 1;
    }
    assert(digits.take(16) =~= digits);
    half
}

/// Up to 16 digits in base 256 fit 128 bits.
proof fn lemma_half(k: nat)
    requires
        k <= 16,
    ensures
        rlp::pow256(k) <= 0x1_0000_0000_0000_0000_0000_0000_0000_0000nat,
{
    reveal_with_fuel(rlp::pow256, 17);
}

/// Returns the hash that is item `n` of the header of a block, or `None` where
/// there is none.
fn read_hash(block: &Bytes, n: usize) -> (hash: Option<H256>)
    ensures
        match hash {
            Some(h) => block_has_hash(block@, n as nat) && h == hash_in(
                rlp::item(block@, 0),
                n as nat,
            ),
            None => !block_has_hash(block@, n as nat),
        },
{
    if !rlp::check_list(block, 1) {
        return None;
    }
    let header = rlp::copy_item(block, 0);
    match rlp::locate_string(&header, n, 32) {
        None => None,
        Some(span) => {
            let ghost bytes = header@.subrange(span.start as int, span.end as int);
            assert(bytes == rlp::payload(rlp::item(header@, n as nat)) && bytes.len() == 32);
            assert(bytes.take(16) =~= header@.subrange(span.start as int, span.start + 16));
            assert(bytes.skip(16) =~= header@.subrange(span.start + 16, span.start + 32));
            let hi: u128 = read_half(&header, span.start);
            let lo: u128 = read_half(&header, span.start + 16);
            Some(H256 { hi, lo })
        },
    }
}

/// Returns the hash of the parent of a block, or `None` where the block does
/// not name it.
pub fn read_parent_hash(block: &Bytes) -> (hash: Option<H256>)
    ensures
        match hash {
            Some(h) => names_parent(block@) && h == parent_hash(block@),
            None => !names_parent(block@),
        },
{
    read_hash(block, PARENT_HASH)
}

/// Returns the root of the state of a block, or `None` where the block does
/// not name it.
pub fn read_state_root(block: &Bytes) -> (root: Option<H256>)
    ensures
        match root {
            Some(h) => names_state(block@) && h == state_root(block@),
            None => !names_state(block@),
        },
{
    read_hash(block, STATE_ROOT)
}

/// Different bytes are different hashes.
pub proof fn law_hashes_are_told_apart(bytes: Seq<u8>, others: Seq<u8>)
    requires
        bytes.len() == 32,
        others.len() == 32,
    ensures
        hash_from(bytes) == hash_from(others) <==> bytes == others,
{
    lemma_half(16);
    rlp::lemma_be_value_bound(bytes.take(16));
    rlp::lemma_be_value_bound(bytes.skip(16));
    rlp::lemma_be_value_bound(others.take(16));
    rlp::lemma_be_value_bound(others.skip(16));
    if hash_from(bytes) == hash_from(others) {
        rlp::lemma_be_value_injective(bytes.take(16), others.take(16));
        rlp::lemma_be_value_injective(bytes.skip(16), others.skip(16));
        assert(bytes =~= bytes.take(16) + bytes.skip(16));
        assert(others =~= others.take(16) + others.skip(16));
    }
}

} // verus!
