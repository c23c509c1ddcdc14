//! Which log entries a search finds, in terms of what the chain has said.

use crate::answers::{BloomSearch, Known, Lookup, Request};
use crate::laws::logs::law_block_logs_are_the_selected;
use crate::logs::{
    block_logs, indices_fit, lists_hits, localized, logs_before, place_of, views, Filter,
    LocalizedLog, LocalizedLogEntry,
};
use crate::types::{BlockNumber, Opaque, Receipt, H256};
use vstd::prelude::*;

verus! {

/// The search of the chain that goes with a bloom filter of a filter.
pub open spec fn search_for(
    filter: Filter,
    i: int,
    first: BlockNumber,
    last: BlockNumber,
) -> BloomSearch {
    BloomSearch { bloom: filter.bloom_possibilities@[i], from: first, to: last }
}

/// Every bloom filter is searched for between the numbers of the two ends: there
/// are as many results as bloom filters, and each is what the chain finds for
/// its bloom filter.
pub proof fn law_every_bloom_is_searched<T: Opaque>(
    known: Known<T>,
    filter: Filter,
    n: nat,
    first: BlockNumber,
    last: BlockNumber,
)
    requires
        known.number_of(filter.from_block) == Lookup::Ready(Some(first)),
        known.number_of(filter.to_block) == Lookup::Ready(Some(last)),
        n <= filter.bloom_possibilities@.len(),
        forall|i: int|
            0 <= i < n ==> known.blocks_with_bloom.contains_key(
                #[trigger] search_for(filter, i, first, last),
            ),
    ensures
        known.hits(filter, n) matches Lookup::Ready(hits) && {
            &&& hits.len() == n
            &&& forall|i: int|
                #![trigger hits[i]]
                0 <= i < n ==> hits[i] == known.blocks_with_bloom[
                    search_for(filter, i, first, last)
                ]@
        },
    decreases n,
{
    if n > 0 {
        law_every_bloom_is_searched(known, filter, (n - 1) as nat, first, last);
        assert(known.blocks_with_bloom.contains_key(search_for(filter, n - 1, first, last)));
    }
}

/// A filter one of whose ends has no number finds no block.
pub proof fn law_nothing_is_found_without_ends<T: Opaque>(
    known: Known<T>,
    filter: Filter,
    n: nat,
    first: Option<BlockNumber>,
    last: Option<BlockNumber>,
)
    requires
        known.number_of(filter.from_block) == Lookup::Ready(first),
        known.number_of(filter.to_block) == Lookup::Ready(last),
        first is None || last is None,
    ensures
        known.hits(filter, n) matches Lookup::Ready(hits) && hits.len() == 0,
    decreases n,
{
    if n > 0 {
        law_nothing_is_found_without_ends(known, filter, (n - 1) as nat, first, last);
    }
}

/// The searches wait for the answers that they need, the first that is missing
/// first.
pub proof fn law_bloom_questions<T: Opaque>(
    known: Known<T>,
    filter: Filter,
    n: nat,
    first: BlockNumber,
    last: BlockNumber,
)
    requires
        known.number_of(filter.from_block) == Lookup::Ready(Some(first)),
        known.number_of(filter.to_block) == Lookup::Ready(Some(last)),
        n < filter.bloom_possibilities@.len(),
        forall|i: int|
            0 <= i < n ==> known.blocks_with_bloom.contains_key(
                #[trigger] search_for(filter, i, first, last),
            ),
        !known.blocks_with_bloom.contains_key(search_for(filter, n as int, first, last)),
    ensures
        known.hits(filter, filter.bloom_possibilities@.len()) matches Lookup::Ask(request)
            && request == Request::BlocksWithBloom(search_for(filter, n as int, first, last)),
{
    law_every_bloom_is_searched(known, filter, n, first, last);
    let request = Request::BlocksWithBloom(search_for(filter, n as int, first, last));
    assert(known.hits(filter, (n + 1) as nat) == Lookup::<Seq<Seq<BlockNumber>>>::Ask(request));
    lemma_question_stays(known, filter, (n + 1) as nat, filter.bloom_possibilities@.len());
}

/// A question that stands in the way of some searches stands in the way of more
/// of them.
proof fn lemma_question_stays<T: Opaque>(known: Known<T>, filter: Filter, fewer: nat, more: nat)
    requires
        fewer <= more,
        known.hits(filter, fewer) is Ask,
    ensures
        known.hits(filter, more) == known.hits(filter, fewer),
    decreases more,
{
    if fewer < more {
        lemma_question_stays(known, filter, fewer, (more - 1) as nat);
    }
}

/// The blocks that are searched are exactly those that the chain finds for one
/// of the bloom filters of the filter, the lower before the higher.
pub proof fn law_searched_blocks<T: Opaque>(
    known: Known<T>,
    filter: Filter,
    first: BlockNumber,
    last: BlockNumber,
    hits: Seq<Seq<BlockNumber>>,
    numbers: Seq<BlockNumber>,
    number: BlockNumber,
)
    requires
        known.number_of(filter.from_block) == Lookup::Ready(Some(first)),
        known.number_of(filter.to_block) == Lookup::Ready(Some(last)),
        forall|i: int|
            0 <= i < filter.bloom_possibilities@.len() ==> known.blocks_with_bloom.contains_key(
                #[trigger] search_for(filter, i, first, last),
            ),
        known.hits(filter, filter.bloom_possibilities@.len()) == Lookup::Ready(hits),
        lists_hits(numbers, hits),
    ensures
        numbers.contains(number) <==> exists|i: int|
            0 <= i < filter.bloom_possibilities@.len() && known.blocks_with_bloom[
                #[trigger] search_for(filter, i, first, last)
            ]@.contains(number),
        forall|i: int, j: int| 0 <= i < j < numbers.len() ==> numbers[i] < numbers[j],
{
    let n = filter.bloom_possibilities@.len();
    law_every_bloom_is_searched(known, filter, n, first, last);
    if numbers.contains(number) {
        let i = choose|i: int|
            #![trigger hits[i]]
            0 <= i < hits.len() && hits[i].contains(number);
        assert(known.blocks_with_bloom[search_for(filter, i, first, last)]@.contains(number));
    }
    if exists|i: int|
        0 <= i < n && known.blocks_with_bloom[
            #[trigger] search_for(filter, i, first, last)
        ]@.contains(number) {
        let i = choose|i: int|
            0 <= i < n && known.blocks_with_bloom[
                #[trigger] search_for(filter, i, first, last)
            ]@.contains(number);
        assert(hits[i].contains(number));
    }
}

/// How many log entries the first `n` receipts have when they are all put
/// together.
pub open spec fn entries_in<T: Opaque>(receipts: Seq<Receipt<T>>, n: int) -> nat {
    receipts.take(n).map_values(|receipt: Receipt<T>| receipt.logs@).flatten().len()
}

/// One more receipt adds its log entries.
proof fn lemma_entries_in<T: Opaque>(receipts: Seq<Receipt<T>>, n: int)
    requires
        0 <= n <= receipts.len(),
    ensures
        entries_in(receipts, n) == logs_before(receipts, n as nat),
    decreases n,
{
    let logs = |receipt: Receipt<T>| receipt.logs@;
    let all = receipts.take(n).map_values(logs);
    if n > 0 {
        lemma_entries_in(receipts, n - 1);
        let fewer = receipts.take(n - 1).map_values(logs);
        assert(all =~= fewer.push(receipts[n - 1].logs@));
        fewer.lemma_flatten_push(receipts[n - 1].logs@);
    } else {
        assert(all.len() == 0);
    }
}

/// Log entry `i` of transaction `r` of a block, with its place in the chain. Its
/// index counts all log entries of the block up to those of its transaction, and
/// those before it in the transaction.
pub open spec fn entry_at<T: Opaque>(
    number: BlockNumber,
    hash: H256,
    receipts: Seq<Receipt<T>>,
    hashes: Seq<H256>,
    r: int,
    i: int,
) -> LocalizedLog<T> {
    LocalizedLog {
        entry: receipts[r].logs@[i].entry,
        block_hash: hash,
        block_number: number as usize,
        transaction_hash: if r < hashes.len() {
            hashes[r]
        } else {
            H256 { hi: 0, lo: 0 }
        },
        transaction_index: r as usize,
        log_index: (entries_in(receipts, r + 1) + i) as usize,
    }
}

/// Whether `log` is a selected log entry of a block, at its place.
pub open spec fn is_entry<T: Opaque>(
    number: BlockNumber,
    hash: H256,
    receipts: Seq<Receipt<T>>,
    hashes: Seq<H256>,
    log: LocalizedLog<T>,
) -> bool {
    exists|r: int, i: int|
        0 <= r < receipts.len() && 0 <= i < receipts[r].logs@.len()
            && #[trigger] receipts[r].logs@[i].selected && log == entry_at(
            number,
            hash,
            receipts,
            hashes,
            r,
            i,
        )
}

/// The log entries that are found in a block are exactly the selected ones of
/// its receipts, at their places.
pub proof fn law_entries_of_a_block<T: Opaque>(
    known: Known<T>,
    number: BlockNumber,
    hash: H256,
    receipts: Vec<Receipt<T>>,
    hashes: Vec<H256>,
)
    requires
        known.log_indices_fit(),
        known.block_hash.contains_pair(number, Some(hash)),
        known.block_receipts.contains_pair(hash, Some(receipts)),
        known.block.contains_key(hash),
        known.block[hash] is Some,
        known.transaction_hashes.contains_pair(hash, hashes),
    ensures
        known.logs_of(number) matches Lookup::Ready(logs) && {
            &&& forall|r: int, i: int|
                0 <= r < receipts@.len() && 0 <= i < receipts@[r].logs@.len()
                    && #[trigger] receipts@[r].logs@[i].selected ==> logs.contains(
                    entry_at(number, hash, receipts@, hashes@, r, i),
                )
            &&& forall|k: int|
                0 <= k < logs.len() ==> is_entry(
                    number,
                    hash,
                    receipts@,
                    hashes@,
                    #[trigger] logs[k],
                )
        },
{
    let n = receipts@.len();
    assert(n == receipts.len());
    assert(indices_fit(receipts@)) by {
        assert(known.block_receipts.contains_key(hash));
    }
    law_block_logs_are_the_selected(number, hash, receipts@, hashes@, n);
    let logs = block_logs(number, hash, receipts@, hashes@, n);
    assert(known.logs_of(number) == Lookup::Ready(logs));
    assert forall|r: int, i: int| 0 <= r < n implies localized(
        receipts@[r].logs@,
        i,
        #[trigger] place_of(number, hash, receipts@, hashes@, r),
    ) == #[trigger] entry_at(number, hash, receipts@, hashes@, r, i) by {
        lemma_entries_in(receipts@, r + 1);
    }
    assert forall|r: int, i: int|
        0 <= r < n && 0 <= i < receipts@[r].logs@.len()
            && #[trigger] receipts@[r].logs@[i].selected implies logs.contains(
        entry_at(number, hash, receipts@, hashes@, r, i),
    ) by {
        let place = place_of(number, hash, receipts@, hashes@, r);
        assert(localized(receipts@[r].logs@, i, place) == entry_at(
            number,
            hash,
            receipts@,
            hashes@,
            r,
            i,
        ));
    }
    assert forall|k: int| 0 <= k < logs.len() implies is_entry(
        number,
        hash,
        receipts@,
        hashes@,
        #[trigger] logs[k],
    ) by {
        let r = logs[k].transaction_index as int;
        let place = place_of(number, hash, receipts@, hashes@, r);
        let i = choose|i: int|
            0 <= i < receipts@[r].logs@.len() && #[trigger] receipts@[r].logs@[i].selected
                && logs[k] == localized(receipts@[r].logs@, i, place);
        assert(receipts@[r].logs@[i].selected);
        assert(logs[k] == entry_at(number, hash, receipts@, hashes@, r, i));
    }
}

/// A block of which the chain lacks the hash, the receipts or the block itself
/// has no log entries. What is asked for is the first of these that is missing,
/// and the hashes of the transactions last.
pub proof fn law_incomplete_blocks<T: Opaque>(known: Known<T>, number: BlockNumber)
    ensures
        !known.block_hash.contains_key(number) ==> {
            known.logs_of(number) matches Lookup::Ask(request) && request == Request::BlockHash(
                number,
            )
        },
        known.block_hash.contains_key(number) ==> match known.block_hash[number] {
            None => known.logs_of(number) matches Lookup::Ready(logs) && logs.len() == 0,
            Some(hash) => {
                &&& !known.block_receipts.contains_key(hash) ==> {
                    known.logs_of(number) matches Lookup::Ask(request) && request
                        == Request::BlockReceipts(hash)
                }
                &&& known.block_receipts.contains_key(hash) && known.block_receipts[hash] is None
                    ==> { known.logs_of(number) matches Lookup::Ready(logs) && logs.len() == 0 }
                &&& known.block_receipts.contains_key(hash) && known.block_receipts[hash] is Some
                    ==> {
                    &&& !known.block.contains_key(hash) ==> {
                        known.logs_of(number) matches Lookup::Ask(request) && request
                            == Request::Block(hash)
                    }
                    &&& known.block.contains_key(hash) && known.block[hash] is None ==> {
                        known.logs_of(number) matches Lookup::Ready(logs) && logs.len() == 0
                    }
                    &&& known.block.contains_key(hash) && known.block[hash] is Some
                        && !known.transaction_hashes.contains_key(hash) ==> {
                        known.logs_of(number) matches Lookup::Ask(request) && request
                            == Request::TransactionHashes(hash)
                    }
                }
            },
        },
{
}

/// The log entries of several blocks are those of each, one block after the
/// other.
pub proof fn law_entries_block_after_block<T: Opaque>(known: Known<T>, numbers: Seq<BlockNumber>)
    requires
        forall|j: int| 0 <= j < numbers.len() ==> known.logs_of(#[trigger] numbers[j]) is Ready,
    ensures
        known.logs_of_all(numbers) == numbers.map_values(
            |number: BlockNumber| known.logs_of(number)->Ready_0,
        ).flatten(),
    decreases numbers.len(),
{
    let read = |number: BlockNumber| known.logs_of(number)->Ready_0;
    if numbers.len() > 0 {
        let fewer = numbers.drop_last();
        assert forall|j: int| 0 <= j < fewer.len() implies known.logs_of(
            #[trigger] fewer[j],
        ) is Ready by {
            assert(numbers[j] == fewer[j]);
        }
        law_entries_block_after_block(known, fewer);
        assert(known.logs_of(numbers[numbers.len() - 1]) is Ready);
        assert(numbers.map_values(read) =~= fewer.map_values(read).push(read(numbers.last())));
        fewer.map_values(read).lemma_flatten_push(read(numbers.last()));
    } else {
        assert(numbers.map_values(read).len() == 0);
        assert(known.logs_of_all(numbers) =~= numbers.map_values(read).flatten());
    }
}

/// What is missing for several blocks is what stands in the way of each of them,
/// and nothing else.
pub proof fn law_missing_is_what_each_block_asks<T: Opaque>(
    known: Known<T>,
    numbers: Seq<BlockNumber>,
    request: Request,
)
    ensures
        known.missing_for(numbers).contains(request) <==> exists|j: int|
            #![trigger numbers[j]]
            0 <= j < numbers.len() && known.logs_of(numbers[j]) == Lookup::<
                Seq<LocalizedLog<T>>,
            >::Ask(request),
        known.missing_for(numbers).len() <= numbers.len(),
    decreases numbers.len(),
{
    let missing = known.missing_for(numbers);
    if numbers.len() > 0 {
        let fewer = numbers.drop_last();
        let before = known.missing_for(fewer);
        law_missing_is_what_each_block_asks(known, fewer, request);
        if missing.contains(request) {
            let k = choose|k: int| 0 <= k < missing.len() && missing[k] == request;
            if k < before.len() {
                assert(before[k] == request);
                let j = choose|j: int|
                    #![trigger fewer[j]]
                    0 <= j < fewer.len() && known.logs_of(fewer[j]) == Lookup::<
                        Seq<LocalizedLog<T>>,
                    >::Ask(request);
                assert(numbers[j] == fewer[j]);
            } else {
                assert(numbers[numbers.len() - 1] == numbers.last());
            }
        }
        if exists|j: int|
            #![trigger numbers[j]]
            0 <= j < numbers.len() && known.logs_of(numbers[j]) == Lookup::<
                Seq<LocalizedLog<T>>,
            >::Ask(request) {
            let j = choose|j: int|
                #![trigger numbers[j]]
                0 <= j < numbers.len() && known.logs_of(numbers[j]) == Lookup::<
                    Seq<LocalizedLog<T>>,
                >::Ask(request);
            if j < fewer.len() {
                assert(fewer[j] == numbers[j]);
                let k = choose|k: int| 0 <= k < before.len() && before[k] == request;
                assert(missing[k] == request);
            } else {
                assert(missing.last() == request);
            }
        }
    }
}

/// The indices of the log entries of a block fit the machine exactly if for each
/// transaction the entries up to it and its own once more can be counted.
pub proof fn law_indices_fit<T: Opaque>(receipts: Seq<Receipt<T>>)
    ensures
        indices_fit(receipts) <==> forall|r: int|
            #![trigger receipts[r]]
            0 <= r < receipts.len() ==> entries_in(receipts, r + 1) + receipts[r].logs@.len()
                <= usize::MAX,
{
    assert forall|r: int| 0 <= r < receipts.len() implies #[trigger] entries_in(receipts, r + 1)
        == logs_before(receipts, (r + 1) as nat) by {
        lemma_entries_in(receipts, r + 1);
    }
    if indices_fit(receipts) {
        assert forall|r: int|
            #![trigger receipts[r]]
            0 <= r < receipts.len() implies entries_in(receipts, r + 1) + receipts[r].logs@.len()
            <= usize::MAX by {
            assert(entries_in(receipts, r + 1) == logs_before(receipts, (r + 1) as nat));
        }
    }
    if forall|r: int|
        #![trigger receipts[r]]
        0 <= r < receipts.len() ==> entries_in(receipts, r + 1) + receipts[r].logs@.len()
            <= usize::MAX {
        assert forall|i: int|
            #![trigger receipts[i]]
            0 <= i < receipts.len() implies logs_before(receipts, (i + 1) as nat)
            + receipts[i].logs@.len() <= usize::MAX by {
            assert(entries_in(receipts, i + 1) == logs_before(receipts, (i + 1) as nat));
        }
    }
}

/// Found entries stand for what they show, one for one.
pub proof fn law_entries_show_what_they_are<'a, T: Opaque>(
    entries: Seq<LocalizedLogEntry<'a, T>>,
    i: int,
)
    requires
        0 <= i < entries.len(),
    ensures
        views(entries).len() == entries.len(),
        views(entries)[i].entry == *entries[i].entry,
        views(entries)[i].block_hash == entries[i].block_hash,
        views(entries)[i].block_number == entries[i].block_number,
        views(entries)[i].transaction_hash == entries[i].transaction_hash,
        views(entries)[i].transaction_index == entries[i].transaction_index,
        views(entries)[i].log_index == entries[i].log_index,
{
}

} // verus!
