//! What holds of the search for log entries.

use crate::answers::{Known, Lookup, Request};
use crate::laws::reads::{
    answered, holds_on, law_learning_is_sound, law_reads_ask_openly, law_reads_hold_on,
    law_within_chains,
};
use crate::logs::{
    ascending, block_logs, indices_fit, lists_hits, localized, logs_before, place_of, selected_logs,
    Filter, LocalizedLog, LogPlace,
};
use crate::types::{BlockNumber, CandidateLog, Opaque, Receipt, TransactionId, H256};
use vstd::prelude::*;

verus! {

/// The blocks that are searched, and the order in which they are, follow from
/// what the searches by bloom filter give.
pub proof fn law_one_way_to_list(
    numbers: Seq<BlockNumber>,
    others: Seq<BlockNumber>,
    hits: Seq<Seq<BlockNumber>>,
)
    requires
        lists_hits(numbers, hits),
        lists_hits(others, hits),
    ensures
        numbers == others,
    decreases numbers.len(),
{
    assert forall|n: BlockNumber| numbers.contains(n) <==> #[trigger] others.contains(n) by {
        assert(numbers.contains(n) <==> exists|i: int|
            #![trigger hits[i]]
            0 <= i < hits.len() && hits[i].contains(n));
    }
    lemma_same_members(numbers, others);
}

/// Ascending sequences with the same members are the same.
proof fn lemma_same_members(a: Seq<BlockNumber>, b: Seq<BlockNumber>)
    requires
        ascending(a),
        ascending(b),
        forall|n: BlockNumber| a.contains(n) <==> #[trigger] b.contains(n),
    ensures
        a == b,
    decreases a.len(),
{
    if a.len() == 0 {
        if b.len() > 0 {
            assert(b.contains(b[0]));
        }
        assert(a =~= b);
    } else {
        assert(a.contains(a.last()));
        assert(b.contains(a.last()));
        assert(b.len() > 0);
        assert(b.contains(b.last()));
        assert(a.contains(b.last()));
        let i = choose|i: int| 0 <= i < b.len() && b[i] == a.last();
        let j = choose|j: int| 0 <= j < a.len() && a[j] == b.last();
        assert(a.last() == b.last());
        let shorter_a = a.drop_last();
        let shorter_b = b.drop_last();
        assert forall|n: BlockNumber| shorter_a.contains(n) <==> #[trigger] shorter_b.contains(
            n,
        ) by {
            if shorter_a.contains(n) {
                let k = choose|k: int| 0 <= k < shorter_a.len() && shorter_a[k] == n;
                assert(a[k] == n);
                assert(b.contains(n));
                let m = choose|m: int| 0 <= m < b.len() && b[m] == n;
                assert(shorter_b[m] == n);
            }
            if shorter_b.contains(n) {
                let k = choose|k: int| 0 <= k < shorter_b.len() && shorter_b[k] == n;
                assert(b[k] == n);
                assert(b.contains(n));
                assert(a.contains(n));
                let m = choose|m: int| 0 <= m < a.len() && a[m] == n;
                assert(shorter_a[m] == n);
            }
        }
        lemma_same_members(shorter_a, shorter_b);
        assert(a =~= shorter_a.push(a.last()));
        assert(b =~= shorter_b.push(b.last()));
    }
}

/// Whether `found` is one of the first `n` log entries of a transaction, at its
/// place, and selected.
pub open spec fn is_selected<T: Opaque>(
    logs: Seq<CandidateLog<T>>,
    n: nat,
    place: LogPlace,
    found: LocalizedLog<T>,
) -> bool {
    exists|i: int|
        0 <= i < n && #[trigger] logs[i].selected && found == localized(logs, i, place)
}

/// Of the log entries of a transaction exactly the selected ones are found,
/// each once and in their order, and their indices ascend.
pub proof fn law_selected_logs<T: Opaque>(logs: Seq<CandidateLog<T>>, n: nat, place: LogPlace)
    requires
        n <= logs.len(),
        0 <= place.first_log_index,
        place.first_log_index + logs.len() <= usize::MAX,
    ensures
        forall|k: int|
            #![trigger selected_logs(logs, n, place)[k]]
            0 <= k < selected_logs(logs, n, place).len() ==> is_selected(
                logs,
                n,
                place,
                selected_logs(logs, n, place)[k],
            ),
        forall|i: int|
            0 <= i < n && #[trigger] logs[i].selected ==> selected_logs(logs, n, place).contains(
                localized(logs, i, place),
            ),
        forall|k: int, m: int|
            0 <= k < m < selected_logs(logs, n, place).len() ==> #[trigger] selected_logs(
                logs,
                n,
                place,
            )[k].log_index < #[trigger] selected_logs(logs, n, place)[m].log_index,
    decreases n,
{
    let found = selected_logs(logs, n, place);
    if n > 0 {
        let last = (n - 1) as nat;
        law_selected_logs(logs, last, place);
        let before = selected_logs(logs, last, place);
        assert forall|k: int|
            #![trigger found[k]]
            0 <= k < found.len() implies is_selected(logs, n, place, found[k]) by {
            if k < before.len() {
                assert(before[k] == found[k]);
                assert(is_selected(logs, last, place, before[k]));
                let i = choose|i: int|
                    0 <= i < last && #[trigger] logs[i].selected && before[k] == localized(
                        logs,
                        i,
                        place,
                    );
                assert(logs[i].selected);
            } else {
                assert(logs[last as int].selected);
            }
        }
        assert forall|i: int| 0 <= i < n && #[trigger] logs[i].selected implies found.contains(
            localized(logs, i, place),
        ) by {
            if i < last {
                let k = choose|k: int|
                    0 <= k < before.len() && before[k] == localized(logs, i, place);
                assert(found[k] == localized(logs, i, place));
            } else {
                assert(found[before.len() as int] == localized(logs, i, place));
            }
        }
        assert forall|k: int, m: int| 0 <= k < m < found.len() implies #[trigger] found[k].log_index
            < #[trigger] found[m].log_index by {
            assert(before[k] == found[k]);
            if m < before.len() {
                assert(before[m] == found[m]);
            } else {
                assert(is_selected(logs, last, place, before[k]));
                let i = choose|i: int|
                    0 <= i < last && #[trigger] logs[i].selected && before[k] == localized(
                        logs,
                        i,
                        place,
                    );
                assert(found[m] == localized(logs, last as int, place));
            }
        }
    }
}

/// Whether one log entry comes before another: in an earlier block, in an
/// earlier transaction of the same block, or earlier in the same transaction.
pub open spec fn precedes<T: Opaque>(first: LocalizedLog<T>, second: LocalizedLog<T>) -> bool {
    ||| first.block_number < second.block_number
    ||| first.block_number == second.block_number && first.transaction_index
        < second.transaction_index
    ||| first.block_number == second.block_number && first.transaction_index
        == second.transaction_index && first.log_index < second.log_index
}

/// Every log entry that is found in a block carries its hash and its number,
/// the hash of the transaction that has made it, or zero where that is not
/// known, and the index of that transaction; and the entries come in order,
/// each once.
pub proof fn law_block_logs<T: Opaque>(
    number: BlockNumber,
    hash: H256,
    receipts: Seq<Receipt<T>>,
    hashes: Seq<H256>,
    n: nat,
)
    requires
        n <= receipts.len() <= usize::MAX,
        indices_fit(receipts),
    ensures
        forall|k: int|
            #![trigger block_logs(number, hash, receipts, hashes, n)[k]]
            0 <= k < block_logs(number, hash, receipts, hashes, n).len() ==> {
                let log = block_logs(number, hash, receipts, hashes, n)[k];
                &&& log.block_hash == hash
                &&& log.block_number == number as usize
                &&& log.transaction_index < n
                &&& log.transaction_hash == (if log.transaction_index < hashes.len() {
                    hashes[log.transaction_index as int]
                } else {
                    H256::zero()
                })
            },
        forall|k: int, m: int|
            0 <= k < m < block_logs(number, hash, receipts, hashes, n).len() ==> precedes(
                #[trigger] block_logs(number, hash, receipts, hashes, n)[k],
                #[trigger] block_logs(number, hash, receipts, hashes, n)[m],
            ),
    decreases n,
{
    if n > 0 {
        let last = (n - 1) as nat;
        law_block_logs(number, hash, receipts, hashes, last);
        let before = block_logs(number, hash, receipts, hashes, last);
        let logs = receipts[last as int].logs@;
        let place = place_of(number, hash, receipts, hashes, last as int);
        assert(logs_before(receipts, (last + 1) as nat) + receipts[last as int].logs@.len()
            <= usize::MAX);
        law_selected_logs(logs, logs.len(), place);
        let more = selected_logs(logs, logs.len(), place);
        let found = block_logs(number, hash, receipts, hashes, n);
        assert forall|k: int|
            #![trigger found[k]]
            0 <= k < found.len() implies if k < before.len() {
            found[k] == before[k]
        } else {
            &&& found[k] == more[k - before.len()]
            &&& found[k].transaction_index == last
            &&& found[k].block_hash == place.block_hash
            &&& found[k].block_number == number as usize
            &&& found[k].transaction_hash == place.transaction_hash
        } by {
            if k >= before.len() {
                assert(found[k] == more[k - before.len()]);
            }
        }
        assert forall|k: int, m: int| 0 <= k < m < found.len() implies precedes(
            #[trigger] found[k],
            #[trigger] found[m],
        ) by {
            if m < before.len() {
                assert(found[k] == before[k]);
                assert(found[m] == before[m]);
            } else if k >= before.len() {
                assert(more[k - before.len()].log_index < more[m - before.len()].log_index);
            } else {
                assert(found[k] == before[k]);
            }
        }
    }
}

/// No selected log entry of a block is lost, and none that is not selected is
/// found.
pub proof fn law_block_logs_are_the_selected<T: Opaque>(
    number: BlockNumber,
    hash: H256,
    receipts: Seq<Receipt<T>>,
    hashes: Seq<H256>,
    n: nat,
)
    requires
        n <= receipts.len() <= usize::MAX,
        indices_fit(receipts),
    ensures
        forall|r: int, i: int|
            0 <= r < n && 0 <= i < receipts[r].logs@.len()
                && #[trigger] receipts[r].logs@[i].selected ==> block_logs(
                number,
                hash,
                receipts,
                hashes,
                n,
            ).contains(
                localized(receipts[r].logs@, i, place_of(number, hash, receipts, hashes, r)),
            ),
        forall|k: int|
            #![trigger block_logs(number, hash, receipts, hashes, n)[k]]
            0 <= k < block_logs(number, hash, receipts, hashes, n).len() ==> {
                let log = block_logs(number, hash, receipts, hashes, n)[k];
                let r = log.transaction_index as int;
                r < n && is_selected(
                    receipts[r].logs@,
                    receipts[r].logs@.len(),
                    place_of(number, hash, receipts, hashes, r),
                    log,
                )
            },
    decreases n,
{
    if n > 0 {
        let last = (n - 1) as nat;
        law_block_logs_are_the_selected(number, hash, receipts, hashes, last);
        let before = block_logs(number, hash, receipts, hashes, last);
        let logs = receipts[last as int].logs@;
        let place = place_of(number, hash, receipts, hashes, last as int);
        assert(logs_before(receipts, (last + 1) as nat) + receipts[last as int].logs@.len()
            <= usize::MAX);
        law_selected_logs(logs, logs.len(), place);
        let more = selected_logs(logs, logs.len(), place);
        let found = block_logs(number, hash, receipts, hashes, n);
        assert forall|r: int, i: int|
            0 <= r < n && 0 <= i < receipts[r].logs@.len()
                && #[trigger] receipts[r].logs@[i].selected implies found.contains(
            localized(receipts[r].logs@, i, place_of(number, hash, receipts, hashes, r)),
        ) by {
            let log = localized(
                receipts[r].logs@,
                i,
                place_of(number, hash, receipts, hashes, r),
            );
            if r < last {
                assert(before.contains(log));
                let k = choose|k: int| 0 <= k < before.len() && before[k] == log;
                assert(found[k] == log);
            } else {
                assert(logs[i].selected);
                assert(more.contains(log));
                let k = choose|k: int| 0 <= k < more.len() && more[k] == log;
                assert(found[before.len() + k] == log);
            }
        }
        assert forall|k: int|
            #![trigger found[k]]
            0 <= k < found.len() implies {
            let r = found[k].transaction_index as int;
            r < n && is_selected(
                receipts[r].logs@,
                receipts[r].logs@.len(),
                place_of(number, hash, receipts, hashes, r),
                found[k],
            )
        } by {
            if k < before.len() {
                assert(found[k] == before[k]);
            } else {
                assert(found[k] == more[k - before.len()]);
                assert(is_selected(logs, logs.len(), place, more[k - before.len()]));
            }
        }
    }
}

/// How far the reading of a block has come when it asks this.
pub open spec fn rank(request: Request) -> int {
    match request {
        Request::BlockHash(_) => 0,
        Request::BlockReceipts(_) => 1,
        Request::Block(_) => 2,
        Request::TransactionHashes(_) => 3,
        _ => 4,
    }
}

/// Each answer brings the search in a block further, and the fourth at the
/// latest brings it to its end.
pub proof fn law_log_search_advances<T: Opaque>(
    known: Known<T>,
    more: Known<T>,
    number: BlockNumber,
)
    requires
        known.within(more),
    ensures
        known.logs_of(number) matches Lookup::Ask(request) ==> {
            &&& 0 <= rank(request) <= 3
            &&& more.answers(request) ==> match more.logs_of(number) {
                Lookup::Ready(_) => true,
                Lookup::Ask(next) => rank(request) < rank(next) <= 3,
            }
        },
{
}

/// The search for log entries asks openly, and more answers do not change what
/// is found.
pub proof fn law_logs_hold_on<T: Opaque>(known: Known<T>, more: Known<T>, number: BlockNumber)
    requires
        known.within(more),
    ensures
        known.asks_openly(known.logs_of(number)),
        holds_on(known.logs_of(number), more.logs_of(number)),
{
}

/// The searches by bloom filter ask openly, and more answers do not change what
/// they give.
pub proof fn law_hits_hold_on<T: Opaque>(known: Known<T>, more: Known<T>, filter: Filter, n: nat)
    requires
        known.within(more),
    ensures
        known.asks_openly(known.hits(filter, n)),
        holds_on(known.hits(filter, n), more.hits(filter, n)),
    decreases n,
{
    if n > 0 {
        let bloom = filter.bloom_possibilities@[n - 1];
        law_hits_hold_on(known, more, filter, (n - 1) as nat);
        law_reads_ask_openly(
            known,
            filter.from_block,
            TransactionId::Hash(H256::zero()),
            H256::zero(),
            H256::zero(),
            bloom,
            filter.to_block,
        );
        law_reads_hold_on(
            known,
            more,
            filter.from_block,
            TransactionId::Hash(H256::zero()),
            H256::zero(),
            H256::zero(),
            bloom,
            filter.to_block,
        );
    }
}

/// The questions that a search for log entries puts are open ones, and where
/// none is left, more answers do not change what is found.
pub proof fn law_missing_questions<T: Opaque>(
    known: Known<T>,
    more: Known<T>,
    numbers: Seq<BlockNumber>,
)
    requires
        known.within(more),
    ensures
        forall|i: int|
            0 <= i < known.missing_for(numbers).len() ==> !known.answers(
                #[trigger] known.missing_for(numbers)[i],
            ),
        known.missing_for(numbers).len() == 0 ==> more.missing_for(numbers).len() == 0
            && more.logs_of_all(numbers) == known.logs_of_all(numbers),
        known.complete() ==> known.missing_for(numbers).len() == 0,
    decreases numbers.len(),
{
    if numbers.len() > 0 {
        law_missing_questions(known, more, numbers.drop_last());
        law_logs_hold_on(known, more, numbers.last());
        if let Lookup::Ask(request) = known.logs_of(numbers.last()) {
            if known.complete() {
                assert(known.answers(request));
            }
        }
    }
}

impl<T: Opaque> Known<T> {
    /// These answers together with those that `chain` has to `requests`.
    pub open spec fn learn_all(self, chain: Known<T>, requests: Seq<Request>) -> Known<T>
        decreases requests.len(),
    {
        if requests.len() == 0 {
            self
        } else {
            self.learn_all(chain, requests.drop_last()).learn(chain, requests.last())
        }
    }

    /// These answers after a round in which all questions are answered that
    /// stand in the way of the log entries of `numbers`.
    pub open spec fn after_round(self, chain: Known<T>, numbers: Seq<BlockNumber>) -> Known<T> {
        self.learn_all(chain, self.missing_for(numbers))
    }
}

/// Learning the answers to several questions from a chain keeps within the
/// chain, and leaves none of the questions open.
pub proof fn law_learning_all_is_sound<T: Opaque>(
    known: Known<T>,
    chain: Known<T>,
    requests: Seq<Request>,
)
    requires
        known.within(chain),
        chain.complete(),
    ensures
        known.learn_all(chain, requests).within(chain),
        known.within(known.learn_all(chain, requests)),
        forall|i: int|
            0 <= i < requests.len() ==> known.learn_all(chain, requests).answers(
                #[trigger] requests[i],
            ),
    decreases requests.len(),
{
    if requests.len() > 0 {
        let fewer = requests.drop_last();
        let before = known.learn_all(chain, fewer);
        law_learning_all_is_sound(known, chain, fewer);
        law_learning_is_sound(before, chain, requests.last());
        let after = before.learn(chain, requests.last());
        law_within_chains(known, before, after);
        assert forall|i: int| 0 <= i < requests.len() implies after.answers(
            #[trigger] requests[i],
        ) by {
            if i < fewer.len() {
                assert(before.answers(fewer[i]));
            }
        }
    }
}

/// A question that stands in the way of one block stands in the way of all.
proof fn lemma_question_is_missing<T: Opaque>(
    known: Known<T>,
    numbers: Seq<BlockNumber>,
    k: int,
)
    requires
        0 <= k < numbers.len(),
        known.logs_of(numbers[k]) is Ask,
    ensures
        known.missing_for(numbers).contains(known.logs_of(numbers[k])->Ask_0),
    decreases numbers.len(),
{
    let request = known.logs_of(numbers[k])->Ask_0;
    let missing = known.missing_for(numbers);
    if k < numbers.len() - 1 {
        let fewer = numbers.drop_last();
        lemma_question_is_missing(known, fewer, k);
        let before = known.missing_for(fewer);
        let i = choose|i: int| 0 <= i < before.len() && before[i] == request;
        assert(missing[i] == request);
    } else {
        assert(missing.last() == request);
    }
}

/// Where no block has a question, none is missing.
proof fn lemma_nothing_missing<T: Opaque>(known: Known<T>, numbers: Seq<BlockNumber>)
    requires
        forall|k: int| 0 <= k < numbers.len() ==> known.logs_of(#[trigger] numbers[k]) is Ready,
    ensures
        known.missing_for(numbers).len() == 0,
    decreases numbers.len(),
{
    if numbers.len() > 0 {
        assert forall|k: int| 0 <= k < numbers.len() - 1 implies known.logs_of(
            #[trigger] numbers.drop_last()[k],
        ) is Ready by {
            assert(numbers[k] == numbers.drop_last()[k]);
        }
        lemma_nothing_missing(known, numbers.drop_last());
        assert(known.logs_of(numbers[numbers.len() - 1]) is Ready);
    }
}

/// A round brings the search in each block further.
proof fn lemma_round_advances<T: Opaque>(
    known: Known<T>,
    chain: Known<T>,
    numbers: Seq<BlockNumber>,
    k: int,
)
    requires
        known.within(chain),
        chain.complete(),
        0 <= k < numbers.len(),
    ensures
        known.after_round(chain, numbers).within(chain),
        known.logs_of(numbers[k]) is Ready ==> known.after_round(chain, numbers).logs_of(
            numbers[k],
        ) is Ready,
        known.logs_of(numbers[k]) matches Lookup::Ask(request) ==> match known.after_round(
            chain,
            numbers,
        ).logs_of(numbers[k]) {
            Lookup::Ready(_) => true,
            Lookup::Ask(next) => rank(request) < rank(next) <= 3,
        },
{
    let more = known.after_round(chain, numbers);
    let missing = known.missing_for(numbers);
    law_learning_all_is_sound(known, chain, missing);
    law_logs_hold_on(known, more, numbers[k]);
    if let Lookup::Ask(request) = known.logs_of(numbers[k]) {
        lemma_question_is_missing(known, numbers, k);
        let i = choose|i: int| 0 <= i < missing.len() && missing[i] == request;
        assert(more.answers(missing[i]));
        law_log_search_advances(known, more, numbers[k]);
    }
}

/// The search for log entries in given blocks, answered from a chain, is over
/// after four rounds, and finds what the chain holds.
pub proof fn law_log_search_takes_four_rounds<T: Opaque>(
    known: Known<T>,
    chain: Known<T>,
    numbers: Seq<BlockNumber>,
)
    requires
        known.within(chain),
        chain.complete(),
    ensures
        ({
            let half = known.after_round(chain, numbers).after_round(chain, numbers);
            let end = half.after_round(chain, numbers).after_round(chain, numbers);
            &&& end.missing_for(numbers).len() == 0
            &&& end.logs_of_all(numbers) == chain.logs_of_all(numbers)
        }),
{
    let one = known.after_round(chain, numbers);
    let two = one.after_round(chain, numbers);
    let three = two.after_round(chain, numbers);
    let end = three.after_round(chain, numbers);
    law_learning_all_is_sound(known, chain, known.missing_for(numbers));
    law_learning_all_is_sound(one, chain, one.missing_for(numbers));
    law_learning_all_is_sound(two, chain, two.missing_for(numbers));
    law_learning_all_is_sound(three, chain, three.missing_for(numbers));
    assert forall|k: int| 0 <= k < numbers.len() implies end.logs_of(
        #[trigger] numbers[k],
    ) is Ready by {
        law_log_search_advances(known, known, numbers[k]);
        lemma_round_advances(known, chain, numbers, k);
        lemma_round_advances(one, chain, numbers, k);
        lemma_round_advances(two, chain, numbers, k);
        lemma_round_advances(three, chain, numbers, k);
    }
    lemma_nothing_missing(end, numbers);
    law_missing_questions(end, chain, numbers);
}

/// How many of the two ends of a search have no number yet.
spec fn open_ends<T: Opaque>(known: Known<T>, filter: Filter) -> nat {
    (if known.number_of(filter.from_block) is Ask {
        1nat
    } else {
        0
    }) + (if known.number_of(filter.to_block) is Ask {
        1nat
    } else {
        0
    })
}

/// Among searches of which one is asked for there is a last one before it that
/// is known.
proof fn lemma_last_hit<T: Opaque>(known: Known<T>, filter: Filter, reached: nat, n: nat) -> (stop:
    nat)
    requires
        reached <= n,
        known.hits(filter, reached) is Ready,
        known.hits(filter, n) is Ask,
    ensures
        reached <= stop < n,
        known.hits(filter, stop) is Ready,
        known.hits(filter, stop + 1) == known.hits(filter, n),
    decreases n,
{
    if known.hits(filter, (n - 1) as nat) is Ready {
        (n - 1) as nat
    } else {
        lemma_last_hit(known, filter, reached, (n - 1) as nat)
    }
}

/// An answer from a chain brings the searches by bloom filter further: one more
/// of them is known, or one more of their ends.
proof fn lemma_hits_advance<T: Opaque>(
    known: Known<T>,
    chain: Known<T>,
    filter: Filter,
    reached: nat,
    n: nat,
) -> (further: nat)
    requires
        known.within(chain),
        chain.complete(),
        reached <= n,
        known.hits(filter, reached) is Ready,
        known.hits(filter, n) is Ask,
    ensures
        ({
            let next = known.learn(chain, known.hits(filter, n)->Ask_0);
            &&& reached <= further <= n
            &&& next.within(chain)
            &&& next.hits(filter, further) is Ready
            &&& n - further + open_ends(next, filter) < n - reached + open_ends(known, filter)
        }),
{
    let stop = lemma_last_hit(known, filter, reached, n);
    let request = known.hits(filter, n)->Ask_0;
    let next = known.learn(chain, request);
    law_learning_is_sound(known, chain, request);
    law_hits_hold_on(known, next, filter, stop);
    if open_ends(known, filter) > 0 {
        stop
    } else {
        stop + 1
    }
}

/// The searches by bloom filter, answered from a chain, give what the chain
/// holds, and take a question for each filter and two more.
pub proof fn law_hits_are_answered<T: Opaque>(
    known: Known<T>,
    chain: Known<T>,
    filter: Filter,
    n: nat,
)
    requires
        known.within(chain),
        chain.complete(),
    ensures
        answered(|k: Known<T>| k.hits(filter, n), known, chain, n + 2) == chain.hits(filter, n),
        chain.hits(filter, n) is Ready,
{
    law_hits_hold_on(chain, chain, filter, n);
    if let Lookup::Ask(request) = chain.hits(filter, n) {
        assert(chain.answers(request));
    }
    lemma_hits_answered(known, chain, filter, 0, n, n + 2);
}

/// The searches are answered in as many steps as are left behind those that are
/// known, and one for each open end.
proof fn lemma_hits_answered<T: Opaque>(
    known: Known<T>,
    chain: Known<T>,
    filter: Filter,
    reached: nat,
    n: nat,
    budget: nat,
)
    requires
        known.within(chain),
        chain.complete(),
        reached <= n,
        known.hits(filter, reached) is Ready,
        n - reached + open_ends(known, filter) <= budget,
    ensures
        answered(|k: Known<T>| k.hits(filter, n), known, chain, budget) == chain.hits(filter, n),
    decreases budget,
{
    law_hits_hold_on(known, chain, filter, n);
    if known.hits(filter, n) is Ask {
        let further = lemma_hits_advance(known, chain, filter, reached, n);
        let next = known.learn(chain, known.hits(filter, n)->Ask_0);
        lemma_hits_answered(next, chain, filter, further, n, (budget - 1) as nat);
    }
}

impl<T: Opaque> Known<T> {
    /// The questions that a search for log entries puts, where `numbers` are
    /// the blocks to be searched.
    pub open spec fn log_questions(self, filter: Filter, numbers: Seq<BlockNumber>) -> Seq<
        Request,
    > {
        match self.hits(filter, filter.bloom_possibilities@.len()) {
            Lookup::Ask(request) => seq![request],
            Lookup::Ready(_) => self.missing_for(numbers),
        }
    }

    /// These answers after so many rounds of a search, in each of which all its
    /// questions are answered from `chain`.
    pub open spec fn searched(
        self,
        chain: Known<T>,
        filter: Filter,
        numbers: Seq<BlockNumber>,
        rounds: nat,
    ) -> Known<T>
        decreases rounds,
    {
        if rounds == 0 {
            self
        } else {
            self.learn_all(chain, self.log_questions(filter, numbers)).searched(
                chain,
                filter,
                numbers,
                (rounds - 1) as nat,
            )
        }
    }
}

/// The search for log entries as a whole, answered from a chain, finds what the
/// chain holds: after a round for each bloom filter and six more it has no
/// question left.
pub proof fn law_log_search_is_answered<T: Opaque>(
    known: Known<T>,
    chain: Known<T>,
    filter: Filter,
    numbers: Seq<BlockNumber>,
)
    requires
        known.within(chain),
        chain.complete(),
        chain.hits(filter, filter.bloom_possibilities@.len()) matches Lookup::Ready(hits)
            && lists_hits(numbers, hits),
    ensures
        ({
            let n = filter.bloom_possibilities@.len();
            let end = known.searched(chain, filter, numbers, n + 6);
            &&& end.within(chain)
            &&& end.hits(filter, n) == chain.hits(filter, n)
            &&& end.log_questions(filter, numbers).len() == 0
            &&& end.logs_of_all(numbers) == chain.logs_of_all(numbers)
        }),
{
    lemma_search(known, chain, filter, numbers, 0, filter.bloom_possibilities@.len() + 6);
}

/// A search ends in as many rounds as are left behind the searches by bloom
/// filter that are known, one for each open end, and four more.
proof fn lemma_search<T: Opaque>(
    known: Known<T>,
    chain: Known<T>,
    filter: Filter,
    numbers: Seq<BlockNumber>,
    reached: nat,
    rounds: nat,
)
    requires
        known.within(chain),
        chain.complete(),
        reached <= filter.bloom_possibilities@.len(),
        known.hits(filter, reached) is Ready,
        filter.bloom_possibilities@.len() - reached + open_ends(known, filter) + 4 <= rounds,
    ensures
        ({
            let n = filter.bloom_possibilities@.len();
            let end = known.searched(chain, filter, numbers, rounds);
            &&& end.within(chain)
            &&& end.hits(filter, n) == chain.hits(filter, n)
            &&& end.log_questions(filter, numbers).len() == 0
            &&& end.logs_of_all(numbers) == chain.logs_of_all(numbers)
        }),
    decreases rounds,
{
    let n = filter.bloom_possibilities@.len();
    if let Lookup::Ask(request) = known.hits(filter, n) {
        let further = lemma_hits_advance(known, chain, filter, reached, n);
        let next = known.learn(chain, request);
        let one = seq![request];
        assert(one.drop_last() =~= Seq::empty());
        assert(known.learn_all(chain, one.drop_last()) == known);
        assert(known.learn_all(chain, one) == next);
        lemma_search(next, chain, filter, numbers, further, (rounds - 1) as nat);
    } else {
        assert forall|k: int| 0 <= k < numbers.len() implies {
            known.logs_of(#[trigger] numbers[k]) matches Lookup::Ask(request) ==> rank(request)
                + rounds >= 4
        } by {
            law_log_search_advances(known, known, numbers[k]);
        }
        lemma_rounds(known, chain, filter, numbers, rounds);
    }
}

/// A search whose blocks are known ends in as many rounds as the block that has
/// come least far needs.
proof fn lemma_rounds<T: Opaque>(
    known: Known<T>,
    chain: Known<T>,
    filter: Filter,
    numbers: Seq<BlockNumber>,
    rounds: nat,
)
    requires
        known.within(chain),
        chain.complete(),
        known.hits(filter, filter.bloom_possibilities@.len()) is Ready,
        forall|k: int|
            0 <= k < numbers.len() ==> {
                known.logs_of(#[trigger] numbers[k]) matches Lookup::Ask(request) ==> rank(request)
                    + rounds >= 4
            },
    ensures
        ({
            let n = filter.bloom_possibilities@.len();
            let end = known.searched(chain, filter, numbers, rounds);
            &&& end.within(chain)
            &&& end.hits(filter, n) == chain.hits(filter, n)
            &&& end.log_questions(filter, numbers).len() == 0
            &&& end.logs_of_all(numbers) == chain.logs_of_all(numbers)
        }),
    decreases rounds,
{
    let n = filter.bloom_possibilities@.len();
    law_hits_hold_on(known, chain, filter, n);
    if rounds == 0 {
        assert forall|k: int| 0 <= k < numbers.len() implies known.logs_of(
            #[trigger] numbers[k],
        ) is Ready by {
            law_log_search_advances(known, known, numbers[k]);
        }
        lemma_nothing_missing(known, numbers);
        law_missing_questions(known, chain, numbers);
    } else {
        let next = known.after_round(chain, numbers);
        law_learning_all_is_sound(known, chain, known.missing_for(numbers));
        law_hits_hold_on(known, next, filter, n);
        assert forall|k: int| 0 <= k < numbers.len() implies {
            next.logs_of(#[trigger] numbers[k]) matches Lookup::Ask(request) ==> rank(request)
                + (rounds - 1) >= 4
        } by {
            lemma_round_advances(known, chain, numbers, k);
        }
        lemma_rounds(next, chain, filter, numbers, (rounds - 1) as nat);
    }
}

/// The log entries of several blocks come in order, each once: each entry is
/// one of a listed block, and precedes those that follow it.
pub proof fn law_logs_ascend<T: Opaque>(known: Known<T>, numbers: Seq<BlockNumber>)
    requires
        known.log_indices_fit(),
        ascending(numbers),
        forall|i: int| 0 <= i < numbers.len() ==> #[trigger] numbers[i] <= usize::MAX,
    ensures
        forall|k: int|
            0 <= k < known.logs_of_all(numbers).len() ==> numbers.contains(
                (#[trigger] known.logs_of_all(numbers)[k]).block_number as u64,
            ),
        forall|k: int, m: int|
            0 <= k < m < known.logs_of_all(numbers).len() ==> precedes(
                #[trigger] known.logs_of_all(numbers)[k],
                #[trigger] known.logs_of_all(numbers)[m],
            ),
    decreases numbers.len(),
{
    if numbers.len() > 0 {
        let fewer = numbers.drop_last();
        let number = numbers.last();
        law_logs_ascend(known, fewer);
        let before = known.logs_of_all(fewer);
        let found = known.logs_of_all(numbers);
        assert(numbers[numbers.len() - 1] <= usize::MAX);
        if let Lookup::Ready(logs) = known.logs_of(number) {
            lemma_logs_of_a_block(known, number);
            assert forall|k: int| 0 <= k < found.len() implies if k < before.len() {
                #[trigger] found[k] == before[k]
            } else {
                found[k] == logs[k - before.len()] && found[k].block_number == number
            } by {
                if k >= before.len() {
                    assert(found[k] == logs[k - before.len()]);
                }
            }
        }
        assert forall|k: int| 0 <= k < found.len() implies numbers.contains(
            (#[trigger] found[k]).block_number as u64,
        ) by {
            if k < before.len() {
                assert(found[k] == before[k]);
                let n = before[k].block_number as u64;
                assert(fewer.contains(n));
                let i = choose|i: int| 0 <= i < fewer.len() && fewer[i] == n;
                assert(numbers[i] == n);
            } else {
                assert(numbers[numbers.len() - 1] == number);
            }
        }
        assert forall|k: int, m: int| 0 <= k < m < found.len() implies precedes(
            #[trigger] found[k],
            #[trigger] found[m],
        ) by {
            if m < before.len() {
                assert(found[k] == before[k]);
                assert(found[m] == before[m]);
            } else if k < before.len() {
                assert(found[k] == before[k]);
                let n = before[k].block_number as u64;
                assert(fewer.contains(n));
                let i = choose|i: int| 0 <= i < fewer.len() && fewer[i] == n;
                assert(numbers[i] == n);
                assert(numbers[i] < numbers[numbers.len() - 1]);
            } else {
                let logs = known.logs_of(number)->Ready_0;
                assert(precedes(logs[k - before.len()], logs[m - before.len()]));
            }
        }
    }
}

impl<T: Opaque> Known<T> {
    /// Whether `log` is a selected log entry of the block with this number, of
    /// which the chain has the hash, the receipts and the block itself.
    pub open spec fn has_selected(self, number: BlockNumber, log: LocalizedLog<T>) -> bool {
        &&& self.block_hash.contains_key(number)
        &&& self.block_hash[number] matches Some(hash)
        &&& self.block_receipts.contains_key(hash)
        &&& self.block_receipts[hash] matches Some(receipts)
        &&& self.block.contains_key(hash)
        &&& self.block[hash] is Some
        &&& self.transaction_hashes.contains_key(hash)
        &&& is_selected_of_block(number, hash, receipts@, self.transaction_hashes[hash]@, log)
    }
}

/// Whether `log` is a selected log entry of a block with these receipts.
pub open spec fn is_selected_of_block<T: Opaque>(
    number: BlockNumber,
    hash: H256,
    receipts: Seq<Receipt<T>>,
    hashes: Seq<H256>,
    log: LocalizedLog<T>,
) -> bool {
    exists|r: int|
        #![trigger receipts[r]]
        0 <= r < receipts.len() && is_selected(
            receipts[r].logs@,
            receipts[r].logs@.len(),
            place_of(number, hash, receipts, hashes, r),
            log,
        )
}

/// The log entries of a block are its selected ones.
proof fn lemma_logs_are_selected<T: Opaque>(
    known: Known<T>,
    number: BlockNumber,
    log: LocalizedLog<T>,
)
    requires
        known.log_indices_fit(),
    ensures
        known.logs_of(number) matches Lookup::Ready(logs) ==> (logs.contains(log)
            <==> known.has_selected(number, log)),
{
    if let Lookup::Ready(logs) = known.logs_of(number) {
        if let Some(hash) = known.block_hash[number] {
            if let (Some(receipts), Some(_)) = (known.block_receipts[hash], known.block[hash]) {
                let hashes = known.transaction_hashes[hash]@;
                let count = receipts@.len();
                assert(count == receipts.len());
                law_block_logs_are_the_selected(number, hash, receipts@, hashes, count);
                if logs.contains(log) {
                    let k = choose|k: int| 0 <= k < logs.len() && logs[k] == log;
                    assert(logs[k] == log);
                    let r = log.transaction_index as int;
                    assert(is_selected(
                        receipts@[r].logs@,
                        receipts@[r].logs@.len(),
                        place_of(number, hash, receipts@, hashes, r),
                        log,
                    ));
                }
                if known.has_selected(number, log) {
                    let r = choose|r: int|
                        #![trigger receipts@[r]]
                        0 <= r < count && is_selected(
                            receipts@[r].logs@,
                            receipts@[r].logs@.len(),
                            place_of(number, hash, receipts@, hashes, r),
                            log,
                        );
                    let i = choose|i: int|
                        0 <= i < receipts@[r].logs@.len() && #[trigger] receipts@[r].logs@[i].selected
                            && log == localized(
                            receipts@[r].logs@,
                            i,
                            place_of(number, hash, receipts@, hashes, r),
                        );
                    assert(receipts@[r].logs@[i].selected);
                }
            }
        }
    }
}

/// Where no question is left, the log entries that are found are exactly the
/// selected ones of the listed blocks.
pub proof fn law_logs_are_the_selected<T: Opaque>(
    known: Known<T>,
    numbers: Seq<BlockNumber>,
    log: LocalizedLog<T>,
)
    requires
        known.log_indices_fit(),
        known.missing_for(numbers).len() == 0,
    ensures
        known.logs_of_all(numbers).contains(log) <==> exists|j: int|
            #![trigger numbers[j]]
            0 <= j < numbers.len() && known.has_selected(numbers[j], log),
    decreases numbers.len(),
{
    let found = known.logs_of_all(numbers);
    if numbers.len() > 0 {
        let fewer = numbers.drop_last();
        let number = numbers.last();
        let before = known.logs_of_all(fewer);
        law_logs_are_the_selected(known, fewer, log);
        lemma_logs_are_selected(known, number, log);
        let logs = known.logs_of(number)->Ready_0;
        assert(found == before + logs);
        if found.contains(log) {
            let k = choose|k: int| 0 <= k < found.len() && found[k] == log;
            if k < before.len() {
                assert(before[k] == log);
                let j = choose|j: int|
                    #![trigger fewer[j]]
                    0 <= j < fewer.len() && known.has_selected(fewer[j], log);
                assert(known.has_selected(numbers[j], log));
            } else {
                assert(logs[k - before.len()] == log);
                assert(known.has_selected(numbers[numbers.len() - 1], log));
            }
        }
        if exists|j: int|
            #![trigger numbers[j]]
            0 <= j < numbers.len() && known.has_selected(numbers[j], log) {
            let j = choose|j: int|
                #![trigger numbers[j]]
                0 <= j < numbers.len() && known.has_selected(numbers[j], log);
            if j < fewer.len() {
                assert(known.has_selected(fewer[j], log));
                let k = choose|k: int| 0 <= k < before.len() && before[k] == log;
                assert(found[k] == log);
            } else {
                let k = choose|k: int| 0 <= k < logs.len() && logs[k] == log;
                assert(found[before.len() + k] == log);
            }
        }
    }
}

/// The log entries of a block carry its number and come in order.
proof fn lemma_logs_of_a_block<T: Opaque>(known: Known<T>, number: BlockNumber)
    requires
        known.log_indices_fit(),
        number <= usize::MAX,
    ensures
        known.logs_of(number) matches Lookup::Ready(logs) ==> {
            &&& forall|k: int|
                0 <= k < logs.len() ==> (#[trigger] logs[k]).block_number == number
            &&& forall|k: int, m: int|
                0 <= k < m < logs.len() ==> precedes(#[trigger] logs[k], #[trigger] logs[m])
        },
{
    if known.block_hash.contains_key(number) {
        if let Some(hash) = known.block_hash[number] {
            if known.block_receipts.contains_key(hash) && known.transaction_hashes.contains_key(
                hash,
            ) {
                if let Some(receipts) = known.block_receipts[hash] {
                    let hashes = known.transaction_hashes[hash]@;
                    assert(receipts@.len() == receipts.len());
                    law_block_logs(number, hash, receipts@, hashes, receipts@.len());
                }
            }
        }
    }
}

} // verus!
