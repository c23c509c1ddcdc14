//! What has been read of the chain, and what is still to be read.
//!
//! A reading operation of the client is a function of the answers that are at
//! hand. It gives its result, or names the next question whose answer it
//! needs. Whoever runs it reads the chain, records the answer and calls it
//! again.

use crate::types::{
    Address, BlockDetails, BlockNumber, BlockStatus, Bytes, Opaque, Receipt, StateId,
    TransactionAddress, H2048, H256, U256,
};
use vstd::prelude::*;

verus! {

/// The ends of a way through the tree of blocks.
#[derive(Debug, Clone, Copy, PartialEq, Eq, Structural)]
pub struct RouteEnds {
    /// Where the way starts.
    pub from: H256,
    /// Where the way leads.
    pub to: H256,
}

/// A search for blocks by bloom filter.
#[derive(Debug, Clone, Copy, PartialEq, Eq)]
pub struct BloomSearch {
    /// The bits that a block has to have.
    pub bloom: H2048,
    /// The first block to look at.
    pub from: BlockNumber,
    /// The last block to look at.
    pub to: BlockNumber,
}

/// A search for the uncles that a child of a block may name.
#[derive(Debug, Clone, Copy, PartialEq, Eq, Structural)]
pub struct UncleSearch {
    /// The hash of the block.
    pub parent: H256,
    /// How many generations back to look.
    pub age: usize,
}

/// An account in a state.
#[derive(Debug, Clone, Copy, PartialEq, Eq)]
pub struct AccountSearch {
    /// The state.
    pub state: StateId,
    /// The address of the account.
    pub address: Address,
}

/// A question about the chain, the state of the accounts, the engine or the
/// block queue.
#[derive(Debug, Clone, Copy, PartialEq, Eq)]
pub enum Request {
    /// The hash of the best block.
    BestBlockHash,
    /// The number of the best block.
    BestBlockNumber,
    /// The total difficulty of the best block.
    BestBlockTotalDifficulty,
    /// The hash of the first block.
    GenesisHash,
    /// The hash of the block with this number in the best chain.
    BlockHash(BlockNumber),
    /// The number of the block with this hash.
    BlockNumber(H256),
    /// Whether the chain has the block with this hash.
    IsKnown(H256),
    /// The block with this hash.
    Block(H256),
    /// The details of the block with this hash.
    BlockDetails(H256),
    /// The decoded header of the block with this hash.
    BlockHeader(H256),
    /// The receipts of the block with this hash.
    BlockReceipts(H256),
    /// The hashes of the transactions of the block with this hash, which the
    /// chain has.
    TransactionHashes(H256),
    /// Where the transaction with this hash stands.
    TransactionAddress(H256),
    /// The transaction that stands there.
    Transaction(TransactionAddress),
    /// The way from one block to another.
    TreeRoute(RouteEnds),
    /// The numbers of the blocks that a search by bloom filter finds.
    BlocksWithBloom(BloomSearch),
    /// The uncles that a search finds.
    UncleHeaders(UncleSearch),
    /// What the block queue says of the block with this hash.
    QueueStatus(H256),
    /// The difficulty of the block queue.
    QueueTotalDifficulty,
    /// The nonce that the engine has new accounts start with.
    AccountStartNonce,
    /// The nonce of an account.
    Nonce(AccountSearch),
    /// The code of an account.
    Code(AccountSearch),
}

/// What comes of a reading operation with the answers at hand.
#[derive(Debug, PartialEq, Eq)]
pub enum Lookup<V> {
    /// The result.
    Ready(V),
    /// The answer to this question is needed first.
    Ask(Request),
}

impl<V> Lookup<V> {
    /// Goes on with `next` once the value is there.
    pub open spec fn and_then<W>(self, next: spec_fn(V) -> Lookup<W>) -> Lookup<W> {
        match self {
            Lookup::Ready(value) => next(value),
            Lookup::Ask(request) => Lookup::Ask(request),
        }
    }

    /// Applies `change` to the value once it is there.
    pub open spec fn map<W>(self, change: spec_fn(V) -> W) -> Lookup<W> {
        match self {
            Lookup::Ready(value) => Lookup::Ready(change(value)),
            Lookup::Ask(request) => Lookup::Ask(request),
        }
    }
}

/// Whether `got` is `want` up to borrowing the value.
pub open spec fn lends<V>(got: Lookup<&V>, want: Lookup<V>) -> bool {
    match got {
        Lookup::Ready(value) => want == Lookup::Ready(*value),
        Lookup::Ask(request) => want == Lookup::<V>::Ask(request),
    }
}

/// Whether `got` is `want` up to borrowing the value inside the option.
pub open spec fn lends_option<V>(got: Lookup<Option<&V>>, want: Lookup<Option<V>>) -> bool {
    match got {
        Lookup::Ready(Some(value)) => want == Lookup::Ready(Some(*value)),
        Lookup::Ready(None) => want == Lookup::Ready(None::<V>),
        Lookup::Ask(request) => want == Lookup::<Option<V>>::Ask(request),
    }
}

/// Whether `got` is `want` up to viewing the bytes as a sequence.
pub open spec fn gives_bytes(
    got: Lookup<Option<Bytes>>,
    want: Lookup<Option<Seq<u8>>>,
) -> bool {
    match got {
        Lookup::Ready(Some(bytes)) => want == Lookup::Ready(Some(bytes@)),
        Lookup::Ready(None) => want == Lookup::Ready(None::<Seq<u8>>),
        Lookup::Ask(request) => want == Lookup::<Option<Seq<u8>>>::Ask(request),
    }
}

/// The recorded answer for `key`, or else the question.
pub open spec fn ask<K, V>(recorded: Map<K, V>, key: K, request: Request) -> Lookup<V> {
    if recorded.contains_key(key) {
        Lookup::Ready(recorded[key])
    } else {
        Lookup::Ask(request)
    }
}

/// The recorded answer, or else the question.
pub open spec fn ask_once<V>(recorded: Option<V>, request: Request) -> Lookup<V> {
    match recorded {
        Some(value) => Lookup::Ready(value),
        None => Lookup::Ask(request),
    }
}

/// What answers can be recorded under.
pub trait Key: Sized {
    /// Tells whether two keys are equal.
    fn same(&self, other: &Self) -> (same: bool)
        ensures
            same == (*self == *other),
    ;
}

impl Key for BlockNumber {
    fn same(&self, other: &Self) -> (same: bool) {
        *self == *other
    }
}

impl Key for H256 {
    fn same(&self, other: &Self) -> (same: bool) {
        *self == *other
    }
}

impl Key for TransactionAddress {
    fn same(&self, other: &Self) -> (same: bool) {
        *self == *other
    }
}

impl Key for RouteEnds {
    fn same(&self, other: &Self) -> (same: bool) {
        *self == *other
    }
}

impl Key for UncleSearch {
    fn same(&self, other: &Self) -> (same: bool) {
        *self == *other
    }
}

impl Key for BloomSearch {
    fn same(&self, other: &Self) -> (same: bool) {
        if self.from != other.from || self.to != other.to {
            return false;
        }
        let mut i: usize = 0;
        while i < 32
            invariant
                i <= 32,
                forall|j: int|
                    0 <= j < i ==> self.bloom.words@[j] == other.bloom.words@[j],
            decreases 32 - i,
        {
            if self.bloom.words[i] != other.bloom.words[i] {
                return false;
            }
            i = i + 1;
        }
        assert(self.bloom.words =~= other.bloom.words);
        true
    }
}

impl Key for AccountSearch {
    fn same(&self, other: &Self) -> (same: bool) {
        if self.state != other.state {
            return false;
        }
        let mut i: usize = 0;
        while i < 20
            invariant
                i <= 20,
                forall|j: int|
                    0 <= j < i ==> self.address.bytes@[j] == other.address.bytes@[j],
            decreases 20 - i,
        {
            if self.address.bytes[i] != other.address.bytes[i] {
                return false;
            }
            i = i + 1;
        }
        assert(self.address.bytes =~= other.address.bytes);
        true
    }
}

/// The map that results from recording `entries` one after the other.
pub open spec fn recorded<K, V>(entries: Seq<(K, V)>) -> Map<K, V>
    decreases entries.len(),
{
    if entries.len() == 0 {
        Map::empty()
    } else {
        recorded(entries.drop_last()).insert(entries.last().0, entries.last().1)
    }
}

/// Recorded answers of one kind.
pub struct Table<K, V> {
    entries: Vec<(K, V)>,
}

impl<K, V> View for Table<K, V> {
    type V = Map<K, V>;

    closed spec fn view(&self) -> Map<K, V> {
        recorded(self.entries@)
    }
}

impl<K: Key, V> Table<K, V> {
    /// Returns a table without answers.
    pub fn new() -> (table: Table<K, V>)
        ensures
            table@ == Map::<K, V>::empty(),
    {
        Table { entries: Vec::new() }
    }

    /// Records `value` as the answer for `key`.
    pub fn record(&mut self, key: K, value: V)
        ensures
            final(self)@ == old(self)@.insert(key, value),
    {
        self.entries.push((key, value));
        assert(self.entries@.drop_last() =~= old(self).entries@);
    }

    /// Returns the recorded answer for `key`.
    pub fn get(&self, key: &K) -> (found: Option<&V>)
        ensures
            match found {
                Some(value) => self@.contains_key(*key) && *value == self@[*key],
                None => !self@.contains_key(*key),
            },
    {
        let mut i: usize = self.entries.len();
        assert(self.entries@.take(i as int) =~= self.entries@);
        while i > 0
            invariant
                i <= self.entries@.len(),
                recorded(self.entries@.take(i as int)).contains_key(*key) == self@.contains_key(
                    *key,
                ),
                self@.contains_key(*key) ==> recorded(self.entries@.take(i as int))[*key]
                    == self@[*key],
            decreases i,
        {
            assert(self.entries@.take(i as int).drop_last() =~= self.entries@.take(i - 1));
            i = i - 1;
            if self.entries[i].0.same(key) {
                return Some(&self.entries[i].1);
            }
        }
        None
    }

    /// Returns the recorded answer for `key`, or else the question.
    pub fn ask(&self, key: &K, request: Request) -> (found: Lookup<&V>)
        ensures
            lends(found, ask(self@, *key, request)),
    {
        match self.get(key) {
            Some(value) => Lookup::Ready(value),
            None => Lookup::Ask(request),
        }
    }
}

/// The answers that are at hand.
pub struct Answers<T: Opaque> {
    /// To [`Request::BestBlockHash`].
    pub best_block_hash: Option<H256>,
    /// To [`Request::BestBlockNumber`].
    pub best_block_number: Option<BlockNumber>,
    /// To [`Request::BestBlockTotalDifficulty`].
    pub best_block_total_difficulty: Option<U256>,
    /// To [`Request::GenesisHash`].
    pub genesis_hash: Option<H256>,
    /// To [`Request::BlockHash`].
    pub block_hash: Table<BlockNumber, Option<H256>>,
    /// To [`Request::BlockNumber`].
    pub block_number: Table<H256, Option<BlockNumber>>,
    /// To [`Request::IsKnown`].
    pub is_known: Table<H256, bool>,
    /// To [`Request::Block`].
    pub block: Table<H256, Option<Bytes>>,
    /// To [`Request::BlockDetails`].
    pub block_details: Table<H256, Option<BlockDetails>>,
    /// To [`Request::BlockHeader`].
    pub block_header: Table<H256, Option<T::Header>>,
    /// To [`Request::BlockReceipts`].
    pub block_receipts: Table<H256, Option<Vec<Receipt<T>>>>,
    /// To [`Request::TransactionHashes`].
    pub transaction_hashes: Table<H256, Vec<H256>>,
    /// To [`Request::TransactionAddress`].
    pub transaction_address: Table<H256, Option<TransactionAddress>>,
    /// To [`Request::Transaction`].
    pub transaction: Table<TransactionAddress, Option<T::LocalizedTransaction>>,
    /// To [`Request::TreeRoute`].
    pub tree_route: Table<RouteEnds, T::TreeRoute>,
    /// To [`Request::BlocksWithBloom`].
    pub blocks_with_bloom: Table<BloomSearch, Vec<BlockNumber>>,
    /// To [`Request::UncleHeaders`].
    pub uncle_headers: Table<UncleSearch, Vec<T::Header>>,
    /// To [`Request::QueueStatus`].
    pub queue_status: Table<H256, BlockStatus>,
    /// To [`Request::QueueTotalDifficulty`].
    pub queue_total_difficulty: Option<U256>,
    /// To [`Request::AccountStartNonce`].
    pub account_start_nonce: Option<U256>,
    /// To [`Request::Nonce`].
    pub nonce: Table<AccountSearch, U256>,
    /// To [`Request::Code`].
    pub code: Table<AccountSearch, Option<Bytes>>,
}

/// Answers as mathematical values.
///
/// Where every question has an answer, this is a whole chain with its queue.
pub struct Known<T: Opaque> {
    /// To [`Request::BestBlockHash`].
    pub best_block_hash: Option<H256>,
    /// To [`Request::BestBlockNumber`].
    pub best_block_number: Option<BlockNumber>,
    /// To [`Request::BestBlockTotalDifficulty`].
    pub best_block_total_difficulty: Option<U256>,
    /// To [`Request::GenesisHash`].
    pub genesis_hash: Option<H256>,
    /// To [`Request::BlockHash`].
    pub block_hash: Map<BlockNumber, Option<H256>>,
    /// To [`Request::BlockNumber`].
    pub block_number: Map<H256, Option<BlockNumber>>,
    /// To [`Request::IsKnown`].
    pub is_known: Map<H256, bool>,
    /// To [`Request::Block`].
    pub block: Map<H256, Option<Bytes>>,
    /// To [`Request::BlockDetails`].
    pub block_details: Map<H256, Option<BlockDetails>>,
    /// To [`Request::BlockHeader`].
    pub block_header: Map<H256, Option<T::Header>>,
    /// To [`Request::BlockReceipts`].
    pub block_receipts: Map<H256, Option<Vec<Receipt<T>>>>,
    /// To [`Request::TransactionHashes`].
    pub transaction_hashes: Map<H256, Vec<H256>>,
    /// To [`Request::TransactionAddress`].
    pub transaction_address: Map<H256, Option<TransactionAddress>>,
    /// To [`Request::Transaction`].
    pub transaction: Map<TransactionAddress, Option<T::LocalizedTransaction>>,
    /// To [`Request::TreeRoute`].
    pub tree_route: Map<RouteEnds, T::TreeRoute>,
    /// To [`Request::BlocksWithBloom`].
    pub blocks_with_bloom: Map<BloomSearch, Vec<BlockNumber>>,
    /// To [`Request::UncleHeaders`].
    pub uncle_headers: Map<UncleSearch, Vec<T::Header>>,
    /// To [`Request::QueueStatus`].
    pub queue_status: Map<H256, BlockStatus>,
    /// To [`Request::QueueTotalDifficulty`].
    pub queue_total_difficulty: Option<U256>,
    /// To [`Request::AccountStartNonce`].
    pub account_start_nonce: Option<U256>,
    /// To [`Request::Nonce`].
    pub nonce: Map<AccountSearch, U256>,
    /// To [`Request::Code`].
    pub code: Map<AccountSearch, Option<Bytes>>,
}

impl<T: Opaque> View for Answers<T> {
    type V = Known<T>;

    open spec fn view(&self) -> Known<T> {
        Known {
            best_block_hash: self.best_block_hash,
            best_block_number: self.best_block_number,
            best_block_total_difficulty: self.best_block_total_difficulty,
            genesis_hash: self.genesis_hash,
            block_hash: self.block_hash@,
            block_number: self.block_number@,
            is_known: self.is_known@,
            block: self.block@,
            block_details: self.block_details@,
            block_header: self.block_header@,
            block_receipts: self.block_receipts@,
            transaction_hashes: self.transaction_hashes@,
            transaction_address: self.transaction_address@,
            transaction: self.transaction@,
            tree_route: self.tree_route@,
            blocks_with_bloom: self.blocks_with_bloom@,
            uncle_headers: self.uncle_headers@,
            queue_status: self.queue_status@,
            queue_total_difficulty: self.queue_total_difficulty,
            account_start_nonce: self.account_start_nonce,
            nonce: self.nonce@,
            code: self.code@,
        }
    }
}

impl<T: Opaque> Known<T> {
    /// Nothing is known.
    pub open spec fn nothing() -> Known<T> {
        Known {
            best_block_hash: None,
            best_block_number: None,
            best_block_total_difficulty: None,
            genesis_hash: None,
            block_hash: Map::empty(),
            block_number: Map::empty(),
            is_known: Map::empty(),
            block: Map::empty(),
            block_details: Map::empty(),
            block_header: Map::empty(),
            block_receipts: Map::empty(),
            transaction_hashes: Map::empty(),
            transaction_address: Map::empty(),
            transaction: Map::empty(),
            tree_route: Map::empty(),
            blocks_with_bloom: Map::empty(),
            uncle_headers: Map::empty(),
            queue_status: Map::empty(),
            queue_total_difficulty: None,
            account_start_nonce: None,
            nonce: Map::empty(),
            code: Map::empty(),
        }
    }

    /// Whether the answer to `request` is at hand.
    pub open spec fn answers(self, request: Request) -> bool {
        match request {
            Request::BestBlockHash => self.best_block_hash is Some,
            Request::BestBlockNumber => self.best_block_number is Some,
            Request::BestBlockTotalDifficulty => self.best_block_total_difficulty is Some,
            Request::GenesisHash => self.genesis_hash is Some,
            Request::BlockHash(number) => self.block_hash.contains_key(number),
            Request::BlockNumber(hash) => self.block_number.contains_key(hash),
            Request::IsKnown(hash) => self.is_known.contains_key(hash),
            Request::Block(hash) => self.block.contains_key(hash),
            Request::BlockDetails(hash) => self.block_details.contains_key(hash),
            Request::BlockHeader(hash) => self.block_header.contains_key(hash),
            Request::BlockReceipts(hash) => self.block_receipts.contains_key(hash),
            Request::TransactionHashes(hash) => self.transaction_hashes.contains_key(hash),
            Request::TransactionAddress(hash) => self.transaction_address.contains_key(hash),
            Request::Transaction(address) => self.transaction.contains_key(address),
            Request::TreeRoute(ends) => self.tree_route.contains_key(ends),
            Request::BlocksWithBloom(search) => self.blocks_with_bloom.contains_key(search),
            Request::UncleHeaders(search) => self.uncle_headers.contains_key(search),
            Request::QueueStatus(hash) => self.queue_status.contains_key(hash),
            Request::QueueTotalDifficulty => self.queue_total_difficulty is Some,
            Request::AccountStartNonce => self.account_start_nonce is Some,
            Request::Nonce(search) => self.nonce.contains_key(search),
            Request::Code(search) => self.code.contains_key(search),
        }
    }

    /// Whether every question has an answer.
    pub open spec fn complete(self) -> bool {
        forall|request: Request| #[trigger] self.answers(request)
    }

    /// Whether `more` has every answer that `self` has.
    pub open spec fn within(self, more: Known<T>) -> bool {
        &&& self.best_block_hash is Some ==> self.best_block_hash == more.best_block_hash
        &&& self.best_block_number is Some ==> self.best_block_number == more.best_block_number
        &&& self.best_block_total_difficulty is Some ==> self.best_block_total_difficulty
            == more.best_block_total_difficulty
        &&& self.genesis_hash is Some ==> self.genesis_hash == more.genesis_hash
        &&& self.block_hash.submap_of(more.block_hash)
        &&& self.block_number.submap_of(more.block_number)
        &&& self.is_known.submap_of(more.is_known)
        &&& self.block.submap_of(more.block)
        &&& self.block_details.submap_of(more.block_details)
        &&& self.block_header.submap_of(more.block_header)
        &&& self.block_receipts.submap_of(more.block_receipts)
        &&& self.transaction_hashes.submap_of(more.transaction_hashes)
        &&& self.transaction_address.submap_of(more.transaction_address)
        &&& self.transaction.submap_of(more.transaction)
        &&& self.tree_route.submap_of(more.tree_route)
        &&& self.blocks_with_bloom.submap_of(more.blocks_with_bloom)
        &&& self.uncle_headers.submap_of(more.uncle_headers)
        &&& self.queue_status.submap_of(more.queue_status)
        &&& self.queue_total_difficulty is Some ==> self.queue_total_difficulty
            == more.queue_total_difficulty
        &&& self.account_start_nonce is Some ==> self.account_start_nonce
            == more.account_start_nonce
        &&& self.nonce.submap_of(more.nonce)
        &&& self.code.submap_of(more.code)
    }
}

impl<T: Opaque> Answers<T> {
    /// Returns an empty set of answers.
    pub fn new() -> (answers: Answers<T>)
        ensures
            answers@ == Known::<T>::nothing(),
    {
        Answers {
            best_block_hash: None,
            best_block_number: None,
            best_block_total_difficulty: None,
            genesis_hash: None,
            block_hash: Table::new(),
            block_number: Table::new(),
            is_known: Table::new(),
            block: Table::new(),
            block_details: Table::new(),
            block_header: Table::new(),
            block_receipts: Table::new(),
            transaction_hashes: Table::new(),
            transaction_address: Table::new(),
            transaction: Table::new(),
            tree_route: Table::new(),
            blocks_with_bloom: Table::new(),
            uncle_headers: Table::new(),
            queue_status: Table::new(),
            queue_total_difficulty: None,
            account_start_nonce: None,
            nonce: Table::new(),
            code: Table::new(),
        }
    }
}

} // verus!
