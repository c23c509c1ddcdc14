//! What encoded blocks mean.
//!
//! The encoding is described here from the side of the writer: what bytes a
//! string and a list are written as. The laws say that what is written so is
//! read back, item for item.

use crate::answers::{Known, Lookup};
use crate::blocks;
use crate::rlp;
use crate::types::{BlockId, Bytes, Opaque};
use vstd::arithmetic::power::pow;
use vstd::prelude::*;

verus! {

/// A single digit in base 256 means itself, and digits put behind others shift
/// these by as many places as they are.
pub proof fn law_numerals(digit: u8, front: Seq<u8>, back: Seq<u8>)
    ensures
        rlp::be_value(seq![digit]) == digit,
        rlp::be_value(front + back) == rlp::be_value(front) * pow(256, back.len())
            + rlp::be_value(back),
    decreases back.len(),
{
    reveal(pow);
    assert(seq![digit].drop_last() =~= Seq::empty());
    assert(rlp::be_value(Seq::empty()) == 0);
    if back.len() == 0 {
        assert(front + back =~= front);
        assert(pow(256, 0) == 1);
    } else {
        let fewer = back.drop_last();
        law_numerals(digit, front, fewer);
        assert((front + back).drop_last() =~= front + fewer);
        assert(pow(256, back.len()) == 256 * pow(256, fewer.len()));
        let high = rlp::be_value(front) as int;
        let shift = pow(256, fewer.len());
        assert((high * shift) * 256 == high * (256 * shift)) by (nonlinear_arith);
    }
}

/// Whether `digits` write `n` in base 256, most significant first, with no zero
/// in front.
pub open spec fn writes(digits: Seq<u8>, n: nat) -> bool {
    rlp::be_value(digits) == n && (digits.len() > 0 ==> digits[0] != 0)
}

/// The digits of a number write it.
pub proof fn law_digits(n: nat)
    ensures
        writes(rlp::be_bytes(n), n),
    decreases n,
{
    if n > 0 {
        law_digits(n / 256);
        assert(rlp::be_bytes(n).drop_last() =~= rlp::be_bytes(n / 256));
        if n < 256 {
            assert(rlp::be_bytes(n / 256).len() == 0);
        } else {
            assert(rlp::be_bytes(n / 256).len() > 0);
        }
    }
}

/// Whether `bytes` is what `inside` is written as behind a header of one byte
/// that is `short` more than its length or, where it has more than 55 bytes,
/// `long` more than the number of digits of its length, which then follow.
pub open spec fn is_framed(bytes: Seq<u8>, inside: Seq<u8>, short: int, long: int) -> bool {
    if inside.len() <= 55 {
        bytes == seq![(short + inside.len()) as u8] + inside
    } else {
        exists|digits: Seq<u8>|
            1 <= digits.len() <= 8 && #[trigger] writes(digits, inside.len()) && bytes == seq![
                (long + digits.len()) as u8,
            ] + digits + inside
    }
}

/// Whether `bytes` is what the string `inside` is written as.
pub open spec fn is_written_string(bytes: Seq<u8>, inside: Seq<u8>) -> bool {
    if inside.len() == 1 && inside[0] < 0x80 {
        bytes == inside
    } else {
        is_framed(bytes, inside, 0x80, 0xb7)
    }
}

/// Whether `bytes` is what a list is written as whose items are written as
/// `inside`, one after the other.
pub open spec fn is_written_list(bytes: Seq<u8>, inside: Seq<u8>) -> bool {
    is_framed(bytes, inside, 0xc0, 0xf7)
}

/// Whether `bytes` is what some string or some list is written as.
pub open spec fn is_written_item(bytes: Seq<u8>) -> bool {
    ||| exists|inside: Seq<u8>| #[trigger] is_written_string(bytes, inside)
    ||| exists|inside: Seq<u8>| #[trigger] is_written_list(bytes, inside)
}

/// Whether `bytes` is what a list of `items` is written as, each of which is
/// what a string or a list is written as.
pub open spec fn is_written_list_of(bytes: Seq<u8>, items: Seq<Seq<u8>>) -> bool {
    &&& is_written_list(bytes, items.flatten())
    &&& forall|i: int| 0 <= i < items.len() ==> is_written_item(#[trigger] items[i])
}

/// What is framed is an item with that payload.
proof fn lemma_framed(bytes: Seq<u8>, inside: Seq<u8>, short: int, long: int)
    requires
        is_framed(bytes, inside, short, long),
        (short == 0x80 && long == 0xb7) || (short == 0xc0 && long == 0xf7),
    ensures
        rlp::is_item(bytes),
        rlp::payload(bytes) == inside,
        bytes[0] >= 0xc0 <==> short == 0xc0,
        bytes[0] >= 0x80,
{
    if inside.len() > 55 {
        let digits = choose|digits: Seq<u8>|
            1 <= digits.len() <= 8 && #[trigger] writes(digits, inside.len()) && bytes == seq![
                (long + digits.len()) as u8,
            ] + digits + inside;
        assert(bytes[0] == (long + digits.len()) as u8);
        assert(rlp::header_len(bytes) == 1 + digits.len());
        assert(bytes.subrange(1, 1int + digits.len()) =~= digits);
        assert(rlp::payload_len(bytes) == inside.len());
    } else {
        assert(bytes[0] == (short + inside.len()) as u8);
    }
    assert(rlp::payload(bytes) =~= inside);
}

/// A written string is read as the string that it is, and not as a list.
pub proof fn law_string_is_read(bytes: Seq<u8>, inside: Seq<u8>)
    requires
        is_written_string(bytes, inside),
    ensures
        rlp::is_item(bytes),
        rlp::payload(bytes) == inside,
        rlp::is_string_of(bytes, inside.len()),
        !rlp::starts_with_list(bytes),
{
    if inside.len() == 1 && inside[0] < 0x80 {
        assert(rlp::payload(bytes) =~= inside);
    } else {
        lemma_framed(bytes, inside, 0x80, 0xb7);
    }
}

/// A written list is read as the list that it is, and not as a string.
pub proof fn law_list_is_read(bytes: Seq<u8>, inside: Seq<u8>, n: nat)
    requires
        is_written_list(bytes, inside),
    ensures
        rlp::is_item(bytes),
        rlp::payload(bytes) == inside,
        rlp::starts_with_list(bytes),
        !rlp::is_string_of(bytes, n),
{
    lemma_framed(bytes, inside, 0xc0, 0xf7);
}

/// An item that is cut short is no item any more.
pub proof fn law_cut_items_are_none(bytes: Seq<u8>, n: int)
    requires
        rlp::is_item(bytes),
        0 <= n < bytes.len(),
    ensures
        !rlp::starts_with_item(bytes.take(n)),
{
    let cut = bytes.take(n);
    let h = rlp::header_len(bytes) as int;
    if 0 < h <= n {
        assert(cut.subrange(1, h) =~= bytes.subrange(1, h));
    }
}

/// What is written as a list is a written list of what was to be written.
pub proof fn law_list_is_written(inside: Seq<u8>)
    requires
        inside.len() <= usize::MAX,
    ensures
        is_written_list(rlp::list(inside), inside),
{
    let n = inside.len();
    if n > 55 {
        law_digits(n);
        rlp::law_list_payload(inside);
        let digits = rlp::be_bytes(n);
        rlp::lemma_be_bytes_len(n);
        assert(digits.len() > 0);
        assert(writes(digits, n));
        assert(rlp::list(inside) =~= seq![(0xf7 + digits.len()) as u8] + digits + inside);
    }
}

/// The items behind the first `n` are what is left behind them.
proof fn lemma_items_left(items: Seq<Seq<u8>>, n: nat)
    requires
        forall|i: int| 0 <= i < items.len() ==> is_written_item(#[trigger] items[i]),
        n <= items.len(),
    ensures
        rlp::has_items(items.flatten(), n),
        rlp::after(items.flatten(), n) == items.skip(n as int).flatten(),
    decreases n,
{
    if n > 0 {
        let before = (n - 1) as nat;
        lemma_items_left(items, before);
        let rest = items.skip(before as int);
        lemma_written_item(items[before as int]);
        assert(rest.first() == items[before as int]);
        assert(rest.drop_first() =~= items.skip(n as int));
        assert(rest.flatten() == items[before as int] + items.skip(n as int).flatten());
        rlp::lemma_item_alone(items[before as int], items.skip(n as int).flatten());
    } else {
        assert(items.skip(0) =~= items);
    }
}

/// What is written as an item is one.
proof fn lemma_written_item(bytes: Seq<u8>)
    requires
        is_written_item(bytes),
    ensures
        rlp::is_item(bytes),
{
    if exists|inside: Seq<u8>| #[trigger] is_written_string(bytes, inside) {
        let inside = choose|inside: Seq<u8>| #[trigger] is_written_string(bytes, inside);
        law_string_is_read(bytes, inside);
    } else {
        let inside = choose|inside: Seq<u8>| #[trigger] is_written_list(bytes, inside);
        law_list_is_read(bytes, inside, 0);
    }
}

/// The items of a written list are read back: there are as many as were
/// written, and each is the one that was written there.
pub proof fn law_items_are_read(bytes: Seq<u8>, items: Seq<Seq<u8>>, n: nat)
    requires
        is_written_list_of(bytes, items),
    ensures
        rlp::is_list_of(bytes, n) <==> n <= items.len(),
        n < items.len() ==> rlp::item(bytes, n) == items[n as int],
{
    let inside = items.flatten();
    law_list_is_read(bytes, inside, 0);
    if n <= items.len() {
        lemma_items_left(items, n);
    } else {
        lemma_items_left(items, items.len());
        assert(items.skip(items.len() as int).flatten().len() == 0);
        assert(!rlp::has_items(inside, items.len() + 1));
        rlp::lemma_fewer_items(inside, items.len() + 1, n);
    }
    if n < items.len() {
        let rest = items.skip(n as int);
        lemma_written_item(items[n as int]);
        assert(rest.first() == items[n as int]);
        rlp::lemma_item_alone(items[n as int], rest.drop_first().flatten());
        assert(rlp::item(bytes, n) =~= items[n as int]);
    }
}

/// The header of a block that was written as a list of at least three items is
/// the first of them, and its body is what a list of the second and the third is
/// written as.
pub proof fn law_parts_of_a_written_block<T: Opaque>(
    known: Known<T>,
    id: BlockId,
    block: Bytes,
    items: Seq<Seq<u8>>,
)
    requires
        known.block_of(id) == Lookup::Ready(Some(block)),
        is_written_list_of(block@, items),
        items.len() >= 3,
    ensures
        known.names_list_of(id, 3),
        known.header_of(id) == Lookup::Ready(Some(items[0])),
        known.body_of(id) matches Lookup::Ready(Some(body)) && is_written_list_of(
            body,
            seq![items[1], items[2]],
        ),
{
    law_items_are_read(block@, items, 0);
    law_items_are_read(block@, items, 1);
    law_items_are_read(block@, items, 2);
    law_items_are_read(block@, items, 3);
    rlp::law_items_fit(block@, 1, 2);
    assert(block@.len() == block.len());
    let inside = items[1] + items[2];
    law_list_is_written(inside);
    let both = seq![items[1], items[2]];
    assert(both.drop_first() =~= seq![items[2]]);
    assert(seq![items[2]].drop_first() =~= Seq::empty());
    reveal_with_fuel(Seq::flatten, 3);
    assert(both.flatten() =~= inside);
}

/// A hash is the number that its 32 bytes write, the first 16 of them in its
/// upper half.
pub proof fn law_hash_is_its_bytes(bytes: Seq<u8>)
    requires
        bytes.len() == 32,
    ensures
        blocks::hash_from(bytes).hi * 0x1_0000_0000_0000_0000_0000_0000_0000_0000
            + blocks::hash_from(bytes).lo == rlp::be_value(bytes),
{
    let front = bytes.take(16);
    let back = bytes.skip(16);
    assert(bytes =~= front + back);
    law_numerals(0, front, back);
    reveal(pow);
    reveal_with_fuel(pow, 17);
    assert(pow(256, 16) == 0x1_0000_0000_0000_0000_0000_0000_0000_0000);
    reveal_with_fuel(rlp::pow256, 17);
    rlp::lemma_be_value_bound(front);
    rlp::lemma_be_value_bound(back);
}

/// The parent of a block that was written with a header is the hash that was
/// written as the first item of the header, and the root of its state is the one
/// that was written as the fourth.
pub proof fn law_hashes_of_a_written_block(
    block: Seq<u8>,
    items: Seq<Seq<u8>>,
    fields: Seq<Seq<u8>>,
    hash: Seq<u8>,
)
    requires
        is_written_list_of(block, items),
        items.len() > 0,
        is_written_list_of(items[0], fields),
        hash.len() == 32,
    ensures
        fields.len() > 0 && is_written_string(fields[0], hash) ==> {
            &&& blocks::names_parent(block)
            &&& blocks::parent_hash(block) == blocks::hash_from(hash)
        },
        fields.len() > 3 && is_written_string(fields[3], hash) ==> {
            &&& blocks::names_state(block)
            &&& blocks::state_root(block) == blocks::hash_from(hash)
        },
{
    law_items_are_read(block, items, 0);
    law_items_are_read(block, items, 1);
    law_items_are_read(items[0], fields, 0);
    law_items_are_read(items[0], fields, 1);
    law_items_are_read(items[0], fields, 3);
    law_items_are_read(items[0], fields, 4);
    if fields.len() > 0 && is_written_string(fields[0], hash) {
        law_string_is_read(fields[0], hash);
    }
    if fields.len() > 3 && is_written_string(fields[3], hash) {
        law_string_is_read(fields[3], hash);
    }
}

/// A block names no parent if it is no list, if its first item is none, or if
/// the first item of that is not a string of 32 bytes.
pub proof fn law_blocks_without_a_parent(
    block: Seq<u8>,
    items: Seq<Seq<u8>>,
    fields: Seq<Seq<u8>>,
    other: Seq<u8>,
)
    requires
        is_written_list_of(block, items),
    ensures
        items.len() == 0 ==> !blocks::names_parent(block) && !blocks::names_state(block),
        items.len() > 0 && is_written_string(items[0], other) ==> !blocks::names_parent(block)
            && !blocks::names_state(block),
        items.len() > 0 && is_written_list_of(items[0], fields) ==> {
            &&& fields.len() == 0 ==> !blocks::names_parent(block)
            &&& fields.len() <= 3 ==> !blocks::names_state(block)
            &&& fields.len() > 0 && is_written_string(fields[0], other) && other.len() != 32
                ==> !blocks::names_parent(block)
            &&& fields.len() > 3 && is_written_string(fields[3], other) && other.len() != 32
                ==> !blocks::names_state(block)
        },
{
    law_items_are_read(block, items, 0);
    law_items_are_read(block, items, 1);
    if items.len() > 0 {
        if is_written_string(items[0], other) {
            law_string_is_read(items[0], other);
        }
        if is_written_list_of(items[0], fields) {
            law_items_are_read(items[0], fields, 0);
            law_items_are_read(items[0], fields, 1);
            law_items_are_read(items[0], fields, 3);
            law_items_are_read(items[0], fields, 4);
            if fields.len() > 0 && is_written_string(fields[0], other) {
                law_string_is_read(fields[0], other);
            }
            if fields.len() > 3 && is_written_string(fields[3], other) {
                law_string_is_read(fields[3], other);
            }
        }
    }
}

} // verus!
