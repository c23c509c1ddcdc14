//! The recursive length prefix encoding, as far as blocks need it.
//!
//! An item is a header, which says what follows and how long it is, and a
//! payload. The payload of a list is the encodings of its items, one after
//! the other. A stored block is a list that starts with three items: its
//! header, the list of its transactions and the list of its uncles.

use vstd::prelude::*;

verus! {

/// The number that `digits` writes in base 256, most significant digit first.
pub open spec fn be_value(digits: Seq<u8>) -> nat
    decreases digits.len(),
{
    if digits.len() == 0 {
        0
    } else {
        be_value(digits.drop_last()) * 256 + digits.last() as nat
    }
}

/// The digits of `n` in base 256 without leading zeros, most significant first.
pub open spec fn be_bytes(n: nat) -> Seq<u8>
    decreases n,
{
    if n == 0 {
        Seq::empty()
    } else {
        be_bytes(n / 256).push((n % 256) as u8)
    }
}

/// How many bytes the header of the item at the front of `bytes` takes.
pub open spec fn header_len(bytes: Seq<u8>) -> nat {
    if bytes[0] < 0x80 {
        0
    } else if bytes[0] <= 0xb7 {
        1
    } else if bytes[0] <= 0xbf {
        (1 + (bytes[0] - 0xb7)) as nat
    } else if bytes[0] <= 0xf7 {
        1
    } else {
        (1 + (bytes[0] - 0xf7)) as nat
    }
}

/// How many bytes the payload of the item at the front of `bytes` takes.
pub open spec fn payload_len(bytes: Seq<u8>) -> nat {
    if bytes[0] < 0x80 {
        1
    } else if bytes[0] <= 0xb7 {
        (bytes[0] - 0x80) as nat
    } else if 0xc0 <= bytes[0] <= 0xf7 {
        (bytes[0] - 0xc0) as nat
    } else {
        be_value(bytes.subrange(1, header_len(bytes) as int))
    }
}

/// How many bytes the item at the front of `bytes` takes.
pub open spec fn item_len(bytes: Seq<u8>) -> nat {
    header_len(bytes) + payload_len(bytes)
}

/// Whether a whole item stands at the front of `bytes`.
pub open spec fn starts_with_item(bytes: Seq<u8>) -> bool {
    &&& bytes.len() > 0
    &&& header_len(bytes) <= bytes.len()
    &&& item_len(bytes) <= bytes.len()
}

/// Whether `bytes` is one item and nothing else.
pub open spec fn is_item(bytes: Seq<u8>) -> bool {
    starts_with_item(bytes) && item_len(bytes) == bytes.len()
}

/// Whether a list stands at the front of `bytes`.
pub open spec fn starts_with_list(bytes: Seq<u8>) -> bool {
    starts_with_item(bytes) && bytes[0] >= 0xc0
}

/// The payload of the item at the front of `bytes`.
pub open spec fn payload(bytes: Seq<u8>) -> Seq<u8> {
    bytes.subrange(header_len(bytes) as int, item_len(bytes) as int)
}

/// What is left of `bytes` behind its first `n` items.
pub open spec fn after(bytes: Seq<u8>, n: nat) -> Seq<u8>
    decreases n,
{
    if n == 0 {
        bytes
    } else {
        let rest = after(bytes, (n - 1) as nat);
        rest.skip(item_len(rest) as int)
    }
}

/// Whether at least `n` items stand at the front of `bytes`.
pub open spec fn has_items(bytes: Seq<u8>, n: nat) -> bool
    decreases n,
{
    n == 0 || (has_items(bytes, (n - 1) as nat) && starts_with_item(after(bytes, (n - 1) as nat)))
}

/// The encoding of item `n` of the list at the front of `bytes`.
pub open spec fn item(bytes: Seq<u8>, n: nat) -> Seq<u8> {
    let rest = after(payload(bytes), n);
    rest.take(item_len(rest) as int)
}

/// Whether a string of `n` bytes stands at the front of `bytes`.
pub open spec fn is_string_of(bytes: Seq<u8>, n: nat) -> bool {
    starts_with_item(bytes) && bytes[0] < 0xc0 && payload_len(bytes) == n
}

/// Whether `bytes` starts with a list that has at least `n` items.
pub open spec fn is_list_of(bytes: Seq<u8>, n: nat) -> bool {
    starts_with_list(bytes) && has_items(payload(bytes), n)
}

/// Whether `bytes` is a list of exactly `n` items and nothing else, and its
/// header is the one that such a list gets when it is written.
pub open spec fn is_exact_list_of(bytes: Seq<u8>, n: nat) -> bool {
    &&& is_list_of(bytes, n)
    &&& after(payload(bytes), n).len() == 0
    &&& bytes == list(payload(bytes))
}

/// The header of a list whose payload takes `n` bytes.
pub open spec fn list_header(n: nat) -> Seq<u8> {
    if n < 56 {
        seq![(0xc0 + n) as u8]
    } else {
        seq![(0xf7 + be_bytes(n).len()) as u8] + be_bytes(n)
    }
}

/// The list whose items have the encodings that `payload` puts one after the
/// other.
pub open spec fn list(payload: Seq<u8>) -> Seq<u8> {
    list_header(payload.len()) + payload
}

/// A leading part of a numeral does not mean more than the whole.
proof fn lemma_be_value_prefix(digits: Seq<u8>, n: int)
    requires
        0 <= n <= digits.len(),
    ensures
        be_value(digits.take(n)) <= be_value(digits),
    decreases digits.len(),
{
    if n < digits.len() {
        lemma_be_value_prefix(digits.drop_last(), n);
        assert(digits.drop_last().take(n) =~= digits.take(n));
    } else {
        assert(digits.take(n) =~= digits);
    }
}

/// The extent of an item inside a buffer.
struct Extent {
    /// How long its header is.
    header: usize,
    /// How long it is as a whole.
    whole: usize,
}

/// Reads the number in `bytes[start..stop]`, or returns `None` where it is
/// over `limit`.
fn read_length(bytes: &Vec<u8>, start: usize, stop: usize, limit: usize) -> (length: Option<usize>)
    requires
        start <= stop <= bytes@.len(),
    ensures
        match length {
            Some(n) => n == be_value(bytes@.subrange(start as int, stop as int)) && n <= limit,
            None => be_value(bytes@.subrange(start as int, stop as int)) > limit,
        },
{
    let ghost digits = bytes@.subrange(start as int, stop as int);
    let mut value: u128 = 0;
    let mut i: usize = start;
    assert(digits.take(0) =~= Seq::empty());
    while i < stop
        invariant
            start <= i <= stop <= bytes@.len(),
            digits == bytes@.subrange(start as int, stop as int),
            value == be_value(digits.take(i - start)),
            value <= limit,
        decreases stop - i,
    {
        proof {
            assert(digits.take(i + 1 - start).drop_last() =~= digits.take(i - start));
            assert(digits.take(i + 1 - start).last() == bytes@[i as int]);
            lemma_be_value_prefix(digits, i + 1 - start);
        }
        value = value * 256 + bytes[i] as u128;
        if value > limit as u128 {
            return None;
        }
        i = i + 1;
    }
    assert(digits.take(stop - start) =~= digits);
    Some(value as usize)
}

/// Measures the item at the front of `bytes[start..end]`, or returns `None`
/// where no whole item stands there.
fn measure(bytes: &Vec<u8>, start: usize, end: usize) -> (extent: Option<Extent>)
    requires
        start <= end <= bytes@.len(),
    ensures
        match extent {
            Some(e) => {
                let here = bytes@.subrange(start as int, end as int);
                &&& starts_with_item(here)
                &&& e.header == header_len(here)
                &&& e.whole == item_len(here)
            },
            None => !starts_with_item(bytes@.subrange(start as int, end as int)),
        },
{
    let ghost here = bytes@.subrange(start as int, end as int);
    if start == end {
        return None;
    }
    let first: u8 = bytes[start];
    let room: usize = end - start;
    let (header, length): (usize, usize) = if first < 0x80 {
        (0, 1)
    } else if first <= 0xb7 {
        (1, (first - 0x80) as usize)
    } else if 0xc0 <= first && first <= 0xf7 {
        (1, (first - 0xc0) as usize)
    } else {
        let digits: usize = if first <= 0xbf {
            (first - 0xb7) as usize
        } else {
            (first - 0xf7) as usize
        };
        if digits >= room {
            return None;
        }
        proof {
            assert(here.subrange(1, 1 + digits) =~= bytes@.subrange(start + 1, start + 1 + digits));
        }
        match read_length(bytes, start + 1, start + 1 + digits, room) {
            None => {
                return None;
            },
            Some(length) => (1 + digits, length),
        }
    };
    if length > room - header {
        return None;
    }
    Some(Extent { header, whole: header + length })
}

/// Where an item of a list stands in a buffer.
pub struct Span {
    /// The index of its first byte.
    pub start: usize,
    /// The index behind its last byte.
    pub end: usize,
}

/// Finds item `n` of the list at the front of `bytes`, or returns `None`
/// where there is no such list or it has too few items.
pub fn locate(bytes: &Vec<u8>, n: usize) -> (span: Option<Span>)
    ensures
        match span {
            Some(s) => {
                &&& is_list_of(bytes@, (n + 1) as nat)
                &&& s.start <= s.end <= bytes@.len()
                &&& bytes@.subrange(s.start as int, s.end as int) == item(bytes@, n as nat)
            },
            None => !is_list_of(bytes@, (n + 1) as nat),
        },
{
    assert(bytes@.subrange(0, bytes@.len() as int) =~= bytes@);
    let list = match measure(bytes, 0, bytes.len()) {
        None => {
            return None;
        },
        Some(list) => list,
    };
    if bytes[0] < 0xc0 {
        return None;
    }
    let mut start: usize = list.header;
    let end: usize = list.whole;
    let mut i: usize = 0;
    loop
        invariant
            starts_with_list(bytes@),
            list.header == header_len(bytes@),
            end == item_len(bytes@),
            start <= end <= bytes@.len(),
            i <= n,
            has_items(payload(bytes@), i as nat),
            after(payload(bytes@), i as nat) == bytes@.subrange(start as int, end as int),
        decreases n - i,
    {
        let extent = match measure(bytes, start, end) {
            None => {
                proof {
                    lemma_fewer_items(payload(bytes@), (i + 1) as nat, (n + 1) as nat);
                }
                return None;
            },
            Some(extent) => extent,
        };
        if i == n {
            let span = Span { start, end: start + extent.whole };
            assert(bytes@.subrange(span.start as int, span.end as int) =~= item(bytes@, n as nat));
            return Some(span);
        }
        assert(bytes@.subrange(start as int, end as int).skip(extent.whole as int)
            =~= bytes@.subrange(start + extent.whole, end as int));
        start = start + extent.whole;
        i = i + 1;
    }
}

/// Finds the payload of item `n` of the list at the front of `bytes`, or
/// returns `None` where there is no such item or it is not a string of
/// `length` bytes.
pub fn locate_string(bytes: &Vec<u8>, n: usize, length: usize) -> (span: Option<Span>)
    ensures
        match span {
            Some(s) => {
                &&& is_list_of(bytes@, (n + 1) as nat)
                &&& is_string_of(item(bytes@, n as nat), length as nat)
                &&& s.start <= s.end <= bytes@.len()
                &&& bytes@.subrange(s.start as int, s.end as int) == payload(item(bytes@, n as nat))
            },
            None => !(is_list_of(bytes@, (n + 1) as nat) && is_string_of(
                item(bytes@, n as nat),
                length as nat,
            )),
        },
{
    let whole = match locate(bytes, n) {
        None => {
            return None;
        },
        Some(whole) => whole,
    };
    let extent = match measure(bytes, whole.start, whole.end) {
        None => {
            return None;
        },
        Some(extent) => extent,
    };
    assert(item(bytes@, n as nat)[0] == bytes@[whole.start as int]);
    if bytes[whole.start] >= 0xc0 || extent.whole - extent.header != length {
        return None;
    }
    let span = Span { start: whole.start + extent.header, end: whole.start + extent.whole };
    assert(bytes@.subrange(span.start as int, span.end as int) =~= payload(
        item(bytes@, n as nat),
    ));
    Some(span)
}

/// Whoever has `more` items at the front has `fewer` of them there too.
pub proof fn lemma_fewer_items(bytes: Seq<u8>, fewer: nat, more: nat)
    requires
        fewer <= more,
    ensures
        has_items(bytes, more) ==> has_items(bytes, fewer),
    decreases more,
{
    if fewer < more {
        lemma_fewer_items(bytes, fewer, (more - 1) as nat);
    }
}

/// Tells whether `bytes` starts with a list of at least `n` items.
pub fn check_list(bytes: &Vec<u8>, n: usize) -> (list: bool)
    requires
        n > 0,
    ensures
        list == is_list_of(bytes@, n as nat),
{
    locate(bytes, n - 1).is_some()
}

/// Returns a copy of item `n` of the list at the front of `bytes`.
pub fn copy_item(bytes: &Vec<u8>, n: usize) -> (copy: Vec<u8>)
    requires
        is_list_of(bytes@, (n + 1) as nat),
    ensures
        copy@ == item(bytes@, n as nat),
{
    let mut copy: Vec<u8> = Vec::new();
    if let Some(span) = locate(bytes, n) {
        append_range(&mut copy, bytes, span.start, span.end);
    }
    copy
}

/// Appends `bytes[start..end]` to `out`.
fn append_range(out: &mut Vec<u8>, bytes: &Vec<u8>, start: usize, end: usize)
    requires
        start <= end <= bytes@.len(),
    ensures
        final(out)@ == old(out)@ + bytes@.subrange(start as int, end as int),
{
    let mut i: usize = start;
    while i < end
        invariant
            start <= i <= end <= bytes@.len(),
            out@ == old(out)@ + bytes@.subrange(start as int, i as int),
        decreases end - i,
    {
        out.push(bytes[i]);
        i = i + 1;
    }
}

/// Appends the digits of `n` in base 256 to `out`.
fn append_be_bytes(out: &mut Vec<u8>, n: usize)
    ensures
        final(out)@ == old(out)@ + be_bytes(n as nat),
    decreases n,
{
    if n > 0 {
        append_be_bytes(out, n / 256);
        out.push((n % 256) as u8);
    }
}

/// Returns how many digits `n` has in base 256.
fn count_be_bytes(n: usize) -> (count: u8)
    ensures
        count == be_bytes(n as nat).len(),
        count <= 8,
{
    let mut rest: usize = n;
    let mut count: u8 = 0;
    proof {
        lemma_be_bytes_len(n as nat);
    }
    while rest > 0
        invariant
            count + be_bytes(rest as nat).len() == be_bytes(n as nat).len(),
            be_bytes(n as nat).len() <= 8,
        decreases rest,
    {
        rest = rest / 256;
        count = count + 1;
    }
    count
}

/// 256 to the power of `k`.
pub open spec fn pow256(k: nat) -> nat
    decreases k,
{
    if k == 0 {
        1
    } else {
        256 * pow256((k - 1) as nat)
    }
}

/// A numeral of `k` digits in base 256 means less than 256 to the power of `k`.
pub proof fn lemma_be_value_bound(digits: Seq<u8>)
    ensures
        be_value(digits) < pow256(digits.len()),
    decreases digits.len(),
{
    if digits.len() > 0 {
        lemma_be_value_bound(digits.drop_last());
    }
}

/// Numerals of the same length that mean the same are the same.
pub proof fn lemma_be_value_injective(digits: Seq<u8>, others: Seq<u8>)
    requires
        digits.len() == others.len(),
        be_value(digits) == be_value(others),
    ensures
        digits == others,
    decreases digits.len(),
{
    if digits.len() > 0 {
        lemma_be_value_injective(digits.drop_last(), others.drop_last());
        assert(digits =~= digits.drop_last().push(digits.last()));
        assert(others =~= others.drop_last().push(others.last()));
    } else {
        assert(digits =~= others);
    }
}

/// A length that fits the machine has at most 8 digits in base 256.
pub proof fn lemma_be_bytes_len(n: nat)
    requires
        n <= usize::MAX,
    ensures
        be_bytes(n).len() <= 8,
{
    assert(pow256(8) == 0x1_0000_0000_0000_0000nat) by {
        reveal_with_fuel(pow256, 9);
    }
    lemma_digit_count(n, 8);
}

/// A number below 256 to the power of `k` has at most `k` digits in base 256.
proof fn lemma_digit_count(n: nat, k: nat)
    requires
        n < pow256(k),
    ensures
        be_bytes(n).len() <= k,
    decreases k,
{
    if n > 0 {
        lemma_digit_count(n / 256, (k - 1) as nat);
    }
}

/// Returns the list of the items `first` and `second` of the list at the
/// front of `bytes`.
pub fn list_of_two(bytes: &Vec<u8>, first: usize, second: usize) -> (encoded: Vec<u8>)
    requires
        first < second < usize::MAX,
        is_list_of(bytes@, (second + 1) as nat),
    ensures
        encoded@ == list(item(bytes@, first as nat) + item(bytes@, second as nat)),
{
    let mut encoded: Vec<u8> = Vec::new();
    proof {
        lemma_fewer_items(payload(bytes@), (first + 1) as nat, (second + 1) as nat);
    }
    if let (Some(a), Some(b)) = (locate(bytes, first), locate(bytes, second)) {
        proof {
            law_items_fit(bytes@, first as nat, second as nat);
            assert(item(bytes@, first as nat).len() == a.end - a.start);
            assert(item(bytes@, second as nat).len() == b.end - b.start);
            assert(bytes@.len() == bytes.len());
        }
        let length: usize = (a.end - a.start) + (b.end - b.start);
        if length < 56 {
            encoded.push(0xc0 + length as u8);
        } else {
            encoded.push(0xf7 + count_be_bytes(length));
            append_be_bytes(&mut encoded, length);
        }
        append_range(&mut encoded, bytes, a.start, a.end);
        append_range(&mut encoded, bytes, b.start, b.end);
        assert(encoded@ =~= list(item(bytes@, first as nat) + item(bytes@, second as nat)));
    }
    encoded
}

/// Two items of a list take no more room together than the list does.
pub proof fn law_items_fit(bytes: Seq<u8>, first: nat, second: nat)
    requires
        first < second,
        is_list_of(bytes, second + 1),
    ensures
        item(bytes, first).len() + item(bytes, second).len() <= bytes.len(),
{
    let inside = payload(bytes);
    lemma_after_len(inside, first + 1, second);
    lemma_fewer_items(inside, first + 1, second + 1);
    lemma_after_len(inside, 0, first);
}

/// The rest behind more items is no longer than the rest behind fewer.
proof fn lemma_after_len(bytes: Seq<u8>, fewer: nat, more: nat)
    requires
        fewer <= more,
        has_items(bytes, more),
    ensures
        after(bytes, more).len() <= after(bytes, fewer).len(),
    decreases more,
{
    if fewer < more {
        lemma_after_len(bytes, fewer, (more - 1) as nat);
    }
}

/// The digits of a number in base 256 mean that number.
proof fn lemma_be_round_trip(n: nat)
    ensures
        be_value(be_bytes(n)) == n,
    decreases n,
{
    if n > 0 {
        lemma_be_round_trip(n / 256);
        assert(be_bytes(n).drop_last() =~= be_bytes(n / 256));
    }
}

/// Where an item ends does not depend on what follows it.
pub proof fn lemma_item_alone(item: Seq<u8>, rest: Seq<u8>)
    requires
        is_item(item),
    ensures
        starts_with_item(item + rest),
        item_len(item + rest) == item.len(),
        header_len(item + rest) == header_len(item),
        (item + rest).take(item.len() as int) == item,
        (item + rest).skip(item.len() as int) == rest,
{
    let n = header_len(item) as int;
    if n > 0 {
        assert((item + rest).subrange(1, n) =~= item.subrange(1, n));
    }
    assert((item + rest).take(item.len() as int) =~= item);
    assert((item + rest).skip(item.len() as int) =~= rest);
}

/// A list is an item, and its payload is what it was made of.
pub proof fn law_list_payload(inside: Seq<u8>)
    requires
        inside.len() <= usize::MAX,
    ensures
        is_item(list(inside)),
        starts_with_list(list(inside)),
        payload(list(inside)) == inside,
{
    let n = inside.len();
    let whole = list(inside);
    lemma_be_bytes_len(n);
    lemma_be_round_trip(n);
    if n >= 56 {
        assert(be_bytes(n).len() > 0);
        assert(whole[0] == (0xf7 + be_bytes(n).len()) as u8);
        assert(whole.subrange(1, header_len(whole) as int) =~= be_bytes(n));
    }
    assert(payload(whole) =~= inside);
}

/// An exact list of three items is the list of these items.
pub proof fn law_list_of_three(bytes: Seq<u8>)
    requires
        is_exact_list_of(bytes, 3),
    ensures
        bytes == list(item(bytes, 0) + (item(bytes, 1) + item(bytes, 2))),
{
    let inside = payload(bytes);
    reveal_with_fuel(after, 4);
    reveal_with_fuel(has_items, 4);
    let one = after(inside, 1);
    let two = after(inside, 2);
    assert(inside =~= item(bytes, 0) + one);
    assert(one =~= item(bytes, 1) + two);
    assert(two =~= item(bytes, 2) + after(inside, 3));
    assert(inside =~= item(bytes, 0) + (item(bytes, 1) + item(bytes, 2)));
}

/// Each item of a list is an item.
pub proof fn law_item_is_item(bytes: Seq<u8>, n: nat)
    requires
        is_list_of(bytes, n + 1),
    ensures
        is_item(item(bytes, n)),
{
    let rest = after(payload(bytes), n);
    let one = item(bytes, n);
    let h = header_len(rest) as int;
    if h > 0 {
        assert(one.subrange(1, h) =~= rest.subrange(1, h));
    }
}

/// A list of two items gives each of them back.
pub proof fn law_list_of_two(first: Seq<u8>, second: Seq<u8>)
    requires
        is_item(first),
        is_item(second),
        first.len() + second.len() <= usize::MAX,
    ensures
        is_list_of(list(first + second), 2),
        item(list(first + second), 0) == first,
        item(list(first + second), 1) == second,
{
    let inside = first + second;
    law_list_payload(inside);
    lemma_item_alone(first, second);
    lemma_item_alone(second, Seq::empty());
    assert(second + Seq::<u8>::empty() =~= second);
    reveal_with_fuel(after, 3);
    reveal_with_fuel(has_items, 4);
    assert(after(inside, 1) == second);
}

} // verus!
