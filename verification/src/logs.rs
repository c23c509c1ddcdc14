//! The search for log entries.

use crate::answers::{ask, Answers, Known, Lookup, Request};
use crate::client::Client;
use crate::types::{BlockId, BlockNumber, Bytes, CandidateLog, Opaque, Receipt, H2048, H256};
use vstd::prelude::*;

verus! {

/// What a search for log entries goes by.
pub struct Filter {
    /// The first block to look at.
    pub from_block: BlockId,
    /// The last block to look at.
    pub to_block: BlockId,
    /// The bloom filters of which a block has to have one.
    pub bloom_possibilities: Vec<H2048>,
}

/// A log entry and its place in the chain.
pub struct LocalizedLogEntry<'a, T: Opaque> {
    /// The log entry.
    pub entry: &'a T::LogEntry,
    /// The hash of the block.
    pub block_hash: H256,
    /// The number of the block.
    pub block_number: usize,
    /// The hash of the transaction.
    pub transaction_hash: H256,
    /// The index of the transaction in the block.
    pub transaction_index: usize,
    /// The index of the log entry.
    pub log_index: usize,
}

/// A log entry and its place in the chain, as a mathematical value.
pub struct LocalizedLog<T: Opaque> {
    /// The log entry.
    pub entry: T::LogEntry,
    /// The hash of the block.
    pub block_hash: H256,
    /// The number of the block.
    pub block_number: usize,
    /// The hash of the transaction.
    pub transaction_hash: H256,
    /// The index of the transaction in the block.
    pub transaction_index: usize,
    /// The index of the log entry.
    pub log_index: usize,
}

impl<'a, T: Opaque> View for LocalizedLogEntry<'a, T> {
    type V = LocalizedLog<T>;

    open spec fn view(&self) -> LocalizedLog<T> {
        LocalizedLog {
            entry: *self.entry,
            block_hash: self.block_hash,
            block_number: self.block_number,
            transaction_hash: self.transaction_hash,
            transaction_index: self.transaction_index,
            log_index: self.log_index,
        }
    }
}

/// What `entries` stand for.
pub open spec fn views<'a, T: Opaque>(entries: Seq<LocalizedLogEntry<'a, T>>) -> Seq<
    LocalizedLog<T>,
> {
    Seq::new(entries.len(), |i: int| entries[i]@)
}

/// What comes of a search for log entries with the answers at hand.
pub enum LogLookup<'a, T: Opaque> {
    /// The log entries found.
    Ready(Vec<LocalizedLogEntry<'a, T>>),
    /// The answers to these questions are needed first.
    Ask(Vec<Request>),
}

/// How many log entries the first `n` receipts have.
pub open spec fn logs_before<T: Opaque>(receipts: Seq<Receipt<T>>, n: nat) -> nat
    decreases n,
{
    if n == 0 {
        0
    } else {
        logs_before(receipts, (n - 1) as nat) + receipts[n - 1].logs@.len()
    }
}

/// The place that the log entries of one transaction have in common.
pub struct LogPlace {
    /// The hash of the block.
    pub block_hash: H256,
    /// The number of the block.
    pub block_number: BlockNumber,
    /// The hash of the transaction.
    pub transaction_hash: H256,
    /// The index of the transaction in the block.
    pub transaction_index: int,
    /// The index that the first log entry of the transaction has.
    pub first_log_index: int,
}

/// Log entry `i` of a transaction at its place.
pub open spec fn localized<T: Opaque>(
    logs: Seq<CandidateLog<T>>,
    i: int,
    place: LogPlace,
) -> LocalizedLog<T> {
    LocalizedLog {
        entry: logs[i].entry,
        block_hash: place.block_hash,
        block_number: place.block_number as usize,
        transaction_hash: place.transaction_hash,
        transaction_index: place.transaction_index as usize,
        log_index: (place.first_log_index + i) as usize,
    }
}

/// The selected ones of the first `n` log entries of a transaction.
pub open spec fn selected_logs<T: Opaque>(
    logs: Seq<CandidateLog<T>>,
    n: nat,
    place: LogPlace,
) -> Seq<LocalizedLog<T>>
    decreases n,
{
    if n == 0 {
        Seq::empty()
    } else {
        let before = selected_logs(logs, (n - 1) as nat, place);
        if logs[n - 1].selected {
            before.push(localized(logs, n - 1, place))
        } else {
            before
        }
    }
}

/// The place of the log entries of transaction `index` of a block.
///
/// The log entries of a transaction are numbered behind as many as it and the
/// transactions before it have.
pub open spec fn place_of<T: Opaque>(
    number: BlockNumber,
    hash: H256,
    receipts: Seq<Receipt<T>>,
    hashes: Seq<H256>,
    index: int,
) -> LogPlace {
    LogPlace {
        block_hash: hash,
        block_number: number,
        transaction_hash: if index < hashes.len() {
            hashes[index]
        } else {
            H256::zero()
        },
        transaction_index: index,
        first_log_index: logs_before(receipts, (index + 1) as nat) as int,
    }
}

/// The selected log entries of the first `n` transactions of a block.
pub open spec fn block_logs<T: Opaque>(
    number: BlockNumber,
    hash: H256,
    receipts: Seq<Receipt<T>>,
    hashes: Seq<H256>,
    n: nat,
) -> Seq<LocalizedLog<T>>
    decreases n,
{
    if n == 0 {
        Seq::empty()
    } else {
        block_logs(number, hash, receipts, hashes, (n - 1) as nat) + selected_logs(
            receipts[n - 1].logs@,
            receipts[n - 1].logs@.len(),
            place_of(number, hash, receipts, hashes, n - 1),
        )
    }
}

/// Whether the indices of the log entries of `receipts` fit the machine.
pub open spec fn indices_fit<T: Opaque>(receipts: Seq<Receipt<T>>) -> bool {
    forall|i: int|
        #![trigger receipts[i]]
        0 <= i < receipts.len() ==> logs_before(receipts, (i + 1) as nat)
            + receipts[i].logs@.len() <= usize::MAX
}

/// Whether each of `numbers` is below those that follow it.
pub open spec fn ascending(numbers: Seq<BlockNumber>) -> bool {
    forall|i: int, j: int| 0 <= i < j < numbers.len() ==> numbers[i] < numbers[j]
}

/// Whether `numbers` are those that stand in one of `hits`, in ascending order
/// and each once.
pub open spec fn lists_hits(numbers: Seq<BlockNumber>, hits: Seq<Seq<BlockNumber>>) -> bool {
    &&& ascending(numbers)
    &&& forall|number: BlockNumber| #[trigger]
        numbers.contains(number) <==> exists|i: int|
            #![trigger hits[i]]
            0 <= i < hits.len() && hits[i].contains(number)
}

impl<T: Opaque> Known<T> {
    /// The numbers that the first `n` bloom filters give, for each of them
    /// whose search has both ends.
    pub open spec fn hits(self, filter: Filter, n: nat) -> Lookup<Seq<Seq<BlockNumber>>>
        decreases n,
    {
        if n == 0 {
            Lookup::Ready(Seq::empty())
        } else {
            self.hits(filter, (n - 1) as nat).and_then(
                |before: Seq<Seq<BlockNumber>>|
                    self.bloom_hits(
                        filter.bloom_possibilities@[n - 1],
                        filter.from_block,
                        filter.to_block,
                    ).map(
                        |numbers: Option<Vec<BlockNumber>>|
                            match numbers {
                                Some(found) => before.push(found@),
                                None => before,
                            },
                    ),
            )
        }
    }

    /// The selected log entries of the block with this number. A block of
    /// which the chain lacks the hash, the receipts or the block itself has
    /// none.
    pub open spec fn logs_of(self, number: BlockNumber) -> Lookup<Seq<LocalizedLog<T>>> {
        ask(self.block_hash, number, Request::BlockHash(number)).and_then(
            |hash: Option<H256>|
                match hash {
                    Some(h) => ask(self.block_receipts, h, Request::BlockReceipts(h)).and_then(
                        |receipts: Option<Vec<Receipt<T>>>|
                            match receipts {
                                Some(r) => ask(self.block, h, Request::Block(h)).and_then(
                                    |block: Option<Bytes>|
                                        match block {
                                            Some(_) => ask(
                                                self.transaction_hashes,
                                                h,
                                                Request::TransactionHashes(h),
                                            ).map(
                                                |hashes: Vec<H256>|
                                                    block_logs(number, h, r@, hashes@, r@.len()),
                                            ),
                                            None => Lookup::Ready(Seq::empty()),
                                        },
                                ),
                                None => Lookup::Ready(Seq::empty()),
                            },
                    ),
                    None => Lookup::Ready(Seq::empty()),
                },
        )
    }

    /// The questions that stand in the way of the log entries of `numbers`.
    pub open spec fn missing_for(self, numbers: Seq<BlockNumber>) -> Seq<Request>
        decreases numbers.len(),
    {
        if numbers.len() == 0 {
            Seq::empty()
        } else {
            let before = self.missing_for(numbers.drop_last());
            match self.logs_of(numbers.last()) {
                Lookup::Ready(_) => before,
                Lookup::Ask(request) => before.push(request),
            }
        }
    }

    /// The log entries of `numbers`, one block after the other.
    pub open spec fn logs_of_all(self, numbers: Seq<BlockNumber>) -> Seq<LocalizedLog<T>>
        decreases numbers.len(),
    {
        if numbers.len() == 0 {
            Seq::empty()
        } else {
            let before = self.logs_of_all(numbers.drop_last());
            match self.logs_of(numbers.last()) {
                Lookup::Ready(logs) => before + logs,
                Lookup::Ask(_) => before,
            }
        }
    }

    /// Whether the indices of all log entries that have been read fit the
    /// machine.
    pub open spec fn log_indices_fit(self) -> bool {
        forall|hash: H256| #[trigger]
            self.block_receipts.contains_key(hash) ==> match self.block_receipts[hash] {
                Some(receipts) => indices_fit(receipts@),
                None => true,
            }
    }
}

/// Tells whether the indices of the log entries of `receipts` fit the machine.
pub fn check_indices<T: Opaque>(receipts: &Vec<Receipt<T>>) -> (fit: bool)
    ensures
        fit == indices_fit(receipts@),
{
    let mut before: usize = 0;
    let mut i: usize = 0;
    while i < receipts.len()
        invariant
            i <= receipts@.len(),
            before == logs_before(receipts@, i as nat),
            forall|j: int|
                #![trigger receipts@[j]]
                0 <= j < i ==> logs_before(receipts@, (j + 1) as nat) + receipts@[j].logs@.len()
                    <= usize::MAX,
        decreases receipts@.len() - i,
    {
        let count: usize = receipts[i].logs.len();
        assert(logs_before(receipts@, (i + 1) as nat) == before + count);
        if count > usize::MAX - before || count > usize::MAX - before - count {
            assert(!(logs_before(receipts@, (i + 1) as nat) + receipts@[i as int].logs@.len()
                <= usize::MAX));
            return false;
        }
        before = before + count;
        i = i + 1;
    }
    true
}

/// Puts `number` into `numbers`, which are in ascending order, unless it is
/// there already.
fn insert_number(numbers: &mut Vec<BlockNumber>, number: BlockNumber)
    requires
        ascending(old(numbers)@),
    ensures
        ascending(final(numbers)@),
        forall|n: BlockNumber| #[trigger]
            final(numbers)@.contains(n) <==> old(numbers)@.contains(n) || n == number,
{
    let mut low: usize = 0;
    let mut high: usize = numbers.len();
    while low < high
        invariant
            low <= high <= numbers@.len(),
            numbers@ == old(numbers)@,
            ascending(numbers@),
            forall|i: int| 0 <= i < low ==> numbers@[i] < number,
            forall|i: int| high <= i < numbers@.len() ==> number <= numbers@[i],
        decreases high - low,
    {
        let middle: usize = low + (high - low) / 2;
        if numbers[middle] < number {
            low = middle + 1;
        } else {
            high = middle;
        }
    }
    let ghost before = numbers@;
    if low < numbers.len() && numbers[low] == number {
        return;
    }
    numbers.insert(low, number);
    assert(numbers@ =~= before.insert(low as int, number));
    assert forall|n: BlockNumber| #[trigger] numbers@.contains(n) <==> before.contains(n) || n
        == number by {
        if before.contains(n) {
            let i = choose|i: int| 0 <= i < before.len() && before[i] == n;
            assert(numbers@[if i < low { i } else { i + 1 }] == n);
        }
        if n == number {
            assert(numbers@[low as int] == n);
        }
        if numbers@.contains(n) && n != number {
            let i = choose|i: int| 0 <= i < numbers@.len() && numbers@[i] == n;
            assert(before[if i < low { i } else { i - 1 }] == n);
        }
    }
}

impl<T: Opaque> Client<T> {
    /// Returns the numbers of the blocks that may have log entries for
    /// `filter`, in ascending order and each once.
    fn log_blocks(answers: &Answers<T>, filter: &Filter) -> (numbers: Lookup<Vec<BlockNumber>>)
        ensures
            match answers@.hits(*filter, filter.bloom_possibilities@.len()) {
                Lookup::Ready(hits) => numbers matches Lookup::Ready(n) && lists_hits(n@, hits),
                Lookup::Ask(request) => numbers == Lookup::<Vec<BlockNumber>>::Ask(request),
            },
    {
        let mut numbers: Vec<BlockNumber> = Vec::new();
        let mut i: usize = 0;
        while i < filter.bloom_possibilities.len()
            invariant
                i <= filter.bloom_possibilities@.len(),
                answers@.hits(*filter, i as nat) is Ready,
                lists_hits(numbers@, answers@.hits(*filter, i as nat)->Ready_0),
            decreases filter.bloom_possibilities@.len() - i,
        {
            let ghost hits = answers@.hits(*filter, i as nat)->Ready_0;
            match Self::blocks_with_bloom(
                answers,
                &filter.bloom_possibilities[i],
                filter.from_block,
                filter.to_block,
            ) {
                Lookup::Ready(Some(found)) => {
                    let ghost before = numbers@;
                    let mut k: usize = 0;
                    while k < found.len()
                        invariant
                            k <= found@.len(),
                            ascending(numbers@),
                            forall|n: BlockNumber| #[trigger]
                                numbers@.contains(n) <==> before.contains(n) || found@.take(
                                    k as int,
                                ).contains(n),
                        decreases found@.len() - k,
                    {
                        insert_number(&mut numbers, found[k]);
                        proof {
                            lemma_take_one_more(found@, k as int);
                        }
                        k = k + 1;
                    }
                    proof {
                        assert(found@.take(found@.len() as int) =~= found@);
                        lemma_hits_push(before, numbers@, hits, found@);
                    }
                },
                Lookup::Ready(None) => {},
                Lookup::Ask(request) => {
                    proof {
                        answers@.lemma_hits_question(
                            *filter,
                            (i + 1) as nat,
                            filter.bloom_possibilities@.len(),
                        );
                    }
                    return Lookup::Ask(request);
                },
            }
            i = i + 1;
        }
        Lookup::Ready(numbers)
    }

    /// Returns the selected log entries of the block with the given number.
    fn block_log_entries<'a>(answers: &'a Answers<T>, number: BlockNumber) -> (entries: Lookup<
        Vec<LocalizedLogEntry<'a, T>>,
    >)
        requires
            answers@.log_indices_fit(),
        ensures
            match entries {
                Lookup::Ready(entries) => answers@.logs_of(number) == Lookup::Ready(
                    views(entries@),
                ),
                Lookup::Ask(request) => answers@.logs_of(number) == Lookup::<
                    Seq<LocalizedLog<T>>,
                >::Ask(request),
            },
    {
        let mut entries: Vec<LocalizedLogEntry<'a, T>> = Vec::new();
        assert(views(entries@) =~= Seq::empty());
        let hash = match answers.block_hash.ask(&number, Request::BlockHash(number)) {
            Lookup::Ready(Some(hash)) => *hash,
            Lookup::Ready(None) => {
                return Lookup::Ready(entries);
            },
            Lookup::Ask(request) => {
                return Lookup::Ask(request);
            },
        };
        let receipts = match answers.block_receipts.ask(&hash, Request::BlockReceipts(hash)) {
            Lookup::Ready(Some(receipts)) => receipts,
            Lookup::Ready(None) => {
                return Lookup::Ready(entries);
            },
            Lookup::Ask(request) => {
                return Lookup::Ask(request);
            },
        };
        match answers.block.ask(&hash, Request::Block(hash)) {
            Lookup::Ready(Some(_)) => {},
            Lookup::Ready(None) => {
                return Lookup::Ready(entries);
            },
            Lookup::Ask(request) => {
                return Lookup::Ask(request);
            },
        }
        let hashes = match answers.transaction_hashes.ask(
            &hash,
            Request::TransactionHashes(hash),
        ) {
            Lookup::Ready(hashes) => hashes,
            Lookup::Ask(request) => {
                return Lookup::Ask(request);
            },
        };
        let mut log_index: usize = 0;
        let mut index: usize = 0;
        while index < receipts.len()
            invariant
                index <= receipts@.len(),
                indices_fit(receipts@),
                log_index == logs_before(receipts@, index as nat),
                views(entries@) == block_logs(number, hash, receipts@, hashes@, index as nat),
            decreases receipts@.len() - index,
        {
            let logs = &receipts[index].logs;
            assert(logs_before(receipts@, (index + 1) as nat) + receipts@[index as int].logs@.len()
                <= usize::MAX);
            log_index = log_index + logs.len();
            let transaction_hash = if index < hashes.len() {
                hashes[index]
            } else {
                H256::new()
            };
            let ghost before = views(entries@);
            let ghost place = place_of(number, hash, receipts@, hashes@, index as int);
            let mut i: usize = 0;
            assert(views(entries@) =~= before + selected_logs(logs@, 0, place));
            while i < logs.len()
                invariant
                    i <= logs@.len(),
                    log_index + logs@.len() <= usize::MAX,
                    place.block_hash == hash,
                    place.block_number == number,
                    place.transaction_hash == transaction_hash,
                    place.transaction_index == index,
                    place.first_log_index == log_index,
                    views(entries@) == before + selected_logs(logs@, i as nat, place),
                decreases logs@.len() - i,
            {
                if logs[i].selected {
                    let ghost shown = entries@;
                    entries.push(
                        LocalizedLogEntry {
                            entry: &logs[i].entry,
                            block_hash: hash,
                            block_number: number as usize,
                            transaction_hash,
                            transaction_index: index,
                            log_index: log_index + i,
                        },
                    );
                    assert(views(entries@) =~= views(shown).push(entries@.last()@));
                }
                i = i + 1;
                assert(views(entries@) =~= before + selected_logs(logs@, i as nat, place));
            }
            index = index + 1;
        }
        Lookup::Ready(entries)
    }

    /// Returns the log entries that `filter` selects, or the questions that
    /// stand in the way.
    pub fn logs<'a>(answers: &'a Answers<T>, filter: &Filter) -> (found: LogLookup<'a, T>)
        requires
            answers@.log_indices_fit(),
        ensures
            match answers@.hits(*filter, filter.bloom_possibilities@.len()) {
                Lookup::Ask(request) => found matches LogLookup::Ask(requests) && requests@
                    == seq![request],
                Lookup::Ready(hits) => exists|numbers: Seq<BlockNumber>| #[trigger]
                    lists_hits(numbers, hits) && match found {
                        LogLookup::Ready(entries) => answers@.missing_for(numbers).len() == 0
                            && views(entries@) == answers@.logs_of_all(numbers),
                        LogLookup::Ask(requests) => requests@.len() > 0 && requests@
                            == answers@.missing_for(numbers),
                    },
            },
    {
        let mut requests: Vec<Request> = Vec::new();
        let numbers = match Self::log_blocks(answers, filter) {
            Lookup::Ready(numbers) => numbers,
            Lookup::Ask(request) => {
                requests.push(request);
                return LogLookup::Ask(requests);
            },
        };
        let mut entries: Vec<LocalizedLogEntry<'a, T>> = Vec::new();
        assert(views(entries@) =~= Seq::empty());
        assert(numbers@.take(0) =~= Seq::empty());
        let mut i: usize = 0;
        while i < numbers.len()
            invariant
                i <= numbers@.len(),
                answers@.log_indices_fit(),
                requests@ == answers@.missing_for(numbers@.take(i as int)),
                views(entries@) == answers@.logs_of_all(numbers@.take(i as int)),
            decreases numbers@.len() - i,
        {
            let ghost shown = entries@;
            assert(numbers@.take(i + 1).drop_last() =~= numbers@.take(i as int));
            match Self::block_log_entries(answers, numbers[i]) {
                Lookup::Ready(mut more) => {
                    let ghost more_shown = more@;
                    entries.append(&mut more);
                    assert(views(entries@) =~= views(shown) + views(more_shown));
                },
                Lookup::Ask(request) => {
                    requests.push(request);
                },
            }
            i = i + 1;
        }
        assert(numbers@.take(i as int) =~= numbers@);
        if requests.len() > 0 {
            LogLookup::Ask(requests)
        } else {
            LogLookup::Ready(entries)
        }
    }
}

/// One more element joins the front of a sequence.
proof fn lemma_take_one_more(numbers: Seq<BlockNumber>, k: int)
    requires
        0 <= k < numbers.len(),
    ensures
        forall|n: BlockNumber| #[trigger]
            numbers.take(k + 1).contains(n) <==> numbers.take(k).contains(n) || n == numbers[k],
{
    let fewer = numbers.take(k);
    let more = numbers.take(k + 1);
    assert forall|n: BlockNumber| #[trigger] more.contains(n) <==> fewer.contains(n) || n
        == numbers[k] by {
        if fewer.contains(n) {
            let i = choose|i: int| 0 <= i < fewer.len() && fewer[i] == n;
            assert(more[i] == n);
        }
        if n == numbers[k] {
            assert(more[k] == n);
        }
        if more.contains(n) && n != numbers[k] {
            let i = choose|i: int| 0 <= i < more.len() && more[i] == n;
            assert(fewer[i] == n);
        }
    }
}

/// The numbers of one more search join those of the searches before.
proof fn lemma_hits_push(
    before: Seq<BlockNumber>,
    numbers: Seq<BlockNumber>,
    hits: Seq<Seq<BlockNumber>>,
    found: Seq<BlockNumber>,
)
    requires
        lists_hits(before, hits),
        ascending(numbers),
        forall|n: BlockNumber| #[trigger]
            numbers.contains(n) <==> before.contains(n) || found.contains(n),
    ensures
        lists_hits(numbers, hits.push(found)),
{
    let more = hits.push(found);
    assert forall|n: BlockNumber| #[trigger] numbers.contains(n) <==> exists|i: int|
        #![trigger more[i]]
        0 <= i < more.len() && more[i].contains(n) by {
        if before.contains(n) {
            let i = choose|i: int| #![trigger hits[i]] 0 <= i < hits.len() && hits[i].contains(n);
            assert(more[i].contains(n));
        }
        if found.contains(n) {
            assert(more[hits.len() as int].contains(n));
        }
        if exists|i: int| #![trigger more[i]] 0 <= i < more.len() && more[i].contains(n) {
            let i = choose|i: int| #![trigger more[i]] 0 <= i < more.len() && more[i].contains(n);
            if i < hits.len() {
                assert(hits[i].contains(n));
            }
        }
    }
}

impl<T: Opaque> Known<T> {
    /// A question that stands in the way of some searches stands in the way of
    /// more of them.
    proof fn lemma_hits_question(self, filter: Filter, fewer: nat, more: nat)
        requires
            fewer <= more,
            self.hits(filter, fewer) is Ask,
        ensures
            self.hits(filter, more) == self.hits(filter, fewer),
        decreases more,
    {
        if fewer < more {
            self.lemma_hits_question(filter, fewer, (more - 1) as nat);
        }
    }
}

} // verus!
