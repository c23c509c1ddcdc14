//! What holds of the reading operations.

use crate::answers::{AccountSearch, BloomSearch, Known, Lookup, Request, RouteEnds};
use crate::blocks;
use crate::import::{is_ancient, Check, Refusal, StageResults};
use crate::reads::LAST_HASHES;
use crate::rlp;
use crate::sealing::UncleRules;
use crate::types::{
    Address, BlockId, BlockNumber, BlockStatus, Header, ImportError, Opaque, TransactionId, H2048,
    H256, U256,
};
use vstd::prelude::*;

verus! {

/// Whether what is found with fewer answers is what is found with more of them.
pub open spec fn holds_on<V>(fewer: Lookup<V>, more: Lookup<V>) -> bool {
    fewer is Ready ==> more == fewer
}

impl<T: Opaque> Known<T> {
    /// Whether a lookup asks, if it does, what has no answer yet.
    pub open spec fn asks_openly<V>(self, lookup: Lookup<V>) -> bool {
        lookup matches Lookup::Ask(request) ==> !self.answers(request)
    }

    /// These answers together with the one that `chain` has to `request`.
    pub open spec fn learn(self, chain: Known<T>, request: Request) -> Known<T> {
        match request {
            Request::BestBlockHash => Known { best_block_hash: chain.best_block_hash, ..self },
            Request::BestBlockNumber => Known {
                best_block_number: chain.best_block_number,
                ..self
            },
            Request::BestBlockTotalDifficulty => Known {
                best_block_total_difficulty: chain.best_block_total_difficulty,
                ..self
            },
            Request::GenesisHash => Known { genesis_hash: chain.genesis_hash, ..self },
            Request::BlockHash(number) => Known {
                block_hash: self.block_hash.insert(number, chain.block_hash[number]),
                ..self
            },
            Request::BlockNumber(hash) => Known {
                block_number: self.block_number.insert(hash, chain.block_number[hash]),
                ..self
            },
            Request::IsKnown(hash) => Known {
                is_known: self.is_known.insert(hash, chain.is_known[hash]),
                ..self
            },
            Request::Block(hash) => Known {
                block: self.block.insert(hash, chain.block[hash]),
                ..self
            },
            Request::BlockDetails(hash) => Known {
                block_details: self.block_details.insert(hash, chain.block_details[hash]),
                ..self
            },
            Request::BlockHeader(hash) => Known {
                block_header: self.block_header.insert(hash, chain.block_header[hash]),
                ..self
            },
            Request::BlockReceipts(hash) => Known {
                block_receipts: self.block_receipts.insert(hash, chain.block_receipts[hash]),
                ..self
            },
            Request::TransactionHashes(hash) => Known {
                transaction_hashes: self.transaction_hashes.insert(
                    hash,
                    chain.transaction_hashes[hash],
                ),
                ..self
            },
            Request::TransactionAddress(hash) => Known {
                transaction_address: self.transaction_address.insert(
                    hash,
                    chain.transaction_address[hash],
                ),
                ..self
            },
            Request::Transaction(address) => Known {
                transaction: self.transaction.insert(address, chain.transaction[address]),
                ..self
            },
            Request::TreeRoute(ends) => Known {
                tree_route: self.tree_route.insert(ends, chain.tree_route[ends]),
                ..self
            },
            Request::BlocksWithBloom(search) => Known {
                blocks_with_bloom: self.blocks_with_bloom.insert(
                    search,
                    chain.blocks_with_bloom[search],
                ),
                ..self
            },
            Request::UncleHeaders(search) => Known {
                uncle_headers: self.uncle_headers.insert(search, chain.uncle_headers[search]),
                ..self
            },
            Request::QueueStatus(hash) => Known {
                queue_status: self.queue_status.insert(hash, chain.queue_status[hash]),
                ..self
            },
            Request::QueueTotalDifficulty => Known {
                queue_total_difficulty: chain.queue_total_difficulty,
                ..self
            },
            Request::AccountStartNonce => Known {
                account_start_nonce: chain.account_start_nonce,
                ..self
            },
            Request::Nonce(search) => Known {
                nonce: self.nonce.insert(search, chain.nonce[search]),
                ..self
            },
            Request::Code(search) => Known {
                code: self.code.insert(search, chain.code[search]),
                ..self
            },
        }
    }
}

/// What comes of `read` when up to `n` of its questions are answered from
/// `chain`, one after the other.
pub open spec fn answered<T: Opaque, V>(
    read: spec_fn(Known<T>) -> Lookup<V>,
    known: Known<T>,
    chain: Known<T>,
    n: nat,
) -> Lookup<V>
    decreases n,
{
    match read(known) {
        Lookup::Ready(value) => Lookup::Ready(value),
        Lookup::Ask(request) => if n == 0 {
            Lookup::Ask(request)
        } else {
            answered(read, known.learn(chain, request), chain, (n - 1) as nat)
        },
    }
}

/// Learning from a chain keeps within the chain.
pub proof fn law_learning_is_sound<T: Opaque>(known: Known<T>, chain: Known<T>, request: Request)
    requires
        known.within(chain),
        chain.complete(),
    ensures
        known.learn(chain, request).within(chain),
        known.within(known.learn(chain, request)),
        known.learn(chain, request).answers(request),
{
    assert(chain.answers(request));
    match request {
        Request::BlockHash(k) => lemma_insert_within(known.block_hash, chain.block_hash, k),
        Request::BlockNumber(k) => lemma_insert_within(known.block_number, chain.block_number, k),
        Request::IsKnown(k) => lemma_insert_within(known.is_known, chain.is_known, k),
        Request::Block(k) => lemma_insert_within(known.block, chain.block, k),
        Request::BlockDetails(k) => lemma_insert_within(
            known.block_details,
            chain.block_details,
            k,
        ),
        Request::BlockHeader(k) => lemma_insert_within(known.block_header, chain.block_header, k),
        Request::BlockReceipts(k) => lemma_insert_within(
            known.block_receipts,
            chain.block_receipts,
            k,
        ),
        Request::TransactionHashes(k) => lemma_insert_within(
            known.transaction_hashes,
            chain.transaction_hashes,
            k,
        ),
        Request::TransactionAddress(k) => lemma_insert_within(
            known.transaction_address,
            chain.transaction_address,
            k,
        ),
        Request::Transaction(k) => lemma_insert_within(known.transaction, chain.transaction, k),
        Request::TreeRoute(k) => lemma_insert_within(known.tree_route, chain.tree_route, k),
        Request::BlocksWithBloom(k) => lemma_insert_within(
            known.blocks_with_bloom,
            chain.blocks_with_bloom,
            k,
        ),
        Request::UncleHeaders(k) => lemma_insert_within(
            known.uncle_headers,
            chain.uncle_headers,
            k,
        ),
        Request::QueueStatus(k) => lemma_insert_within(known.queue_status, chain.queue_status, k),
        Request::Nonce(k) => lemma_insert_within(known.nonce, chain.nonce, k),
        Request::Code(k) => lemma_insert_within(known.code, chain.code, k),
        _ => {},
    }
}

/// A part of a map to which one more of its entries is added is a part of it.
proof fn lemma_insert_within<K, V>(part: Map<K, V>, whole: Map<K, V>, key: K)
    requires
        part.submap_of(whole),
        whole.contains_key(key),
    ensures
        part.insert(key, whole[key]).submap_of(whole),
{
}

/// Having every answer that another has carries over.
pub proof fn law_within_chains<T: Opaque>(few: Known<T>, some: Known<T>, many: Known<T>)
    requires
        few.within(some),
        some.within(many),
    ensures
        few.within(many),
{
    lemma_submap_chain(few.block_hash, some.block_hash, many.block_hash);
    lemma_submap_chain(few.block_number, some.block_number, many.block_number);
    lemma_submap_chain(few.is_known, some.is_known, many.is_known);
    lemma_submap_chain(few.block, some.block, many.block);
    lemma_submap_chain(few.block_details, some.block_details, many.block_details);
    lemma_submap_chain(few.block_header, some.block_header, many.block_header);
    lemma_submap_chain(few.block_receipts, some.block_receipts, many.block_receipts);
    lemma_submap_chain(few.transaction_hashes, some.transaction_hashes, many.transaction_hashes);
    lemma_submap_chain(few.transaction_address, some.transaction_address, many.transaction_address);
    lemma_submap_chain(few.transaction, some.transaction, many.transaction);
    lemma_submap_chain(few.tree_route, some.tree_route, many.tree_route);
    lemma_submap_chain(few.blocks_with_bloom, some.blocks_with_bloom, many.blocks_with_bloom);
    lemma_submap_chain(few.uncle_headers, some.uncle_headers, many.uncle_headers);
    lemma_submap_chain(few.queue_status, some.queue_status, many.queue_status);
    lemma_submap_chain(few.nonce, some.nonce, many.nonce);
    lemma_submap_chain(few.code, some.code, many.code);
}

/// A part of a part is a part.
proof fn lemma_submap_chain<K, V>(few: Map<K, V>, some: Map<K, V>, many: Map<K, V>)
    requires
        few.submap_of(some),
        some.submap_of(many),
    ensures
        few.submap_of(many),
{
    assert forall|k: K| #[trigger] few.dom().contains(k) implies #[trigger] many.dom().contains(k)
        && few[k] == many[k] by {
        assert(some.dom().contains(k));
        assert(many.dom().contains(k));
    }
}

/// No reading operation asks what it has been told.
pub proof fn law_reads_ask_openly<T: Opaque>(
    known: Known<T>,
    id: BlockId,
    transaction: TransactionId,
    a: H256,
    b: H256,
    bloom: H2048,
    to: BlockId,
)
    ensures
        known.asks_openly(known.hash_of(id)),
        known.asks_openly(known.number_of(id)),
        known.asks_openly(known.block_of(id)),
        known.asks_openly(known.header_of(id)),
        known.asks_openly(known.body_of(id)),
        known.asks_openly(known.current_state()),
        known.asks_openly(known.status_of(id)),
        known.asks_openly(known.total_difficulty_of(id)),
        known.asks_openly(known.transaction_of(transaction)),
        known.asks_openly(known.route_between(a, b)),
        known.asks_openly(known.bloom_hits(bloom, id, to)),
        known.asks_openly(known.info()),
        known.asks_openly(known.admission(a, b)),
{
}

/// More answers do not change what a reading operation has found.
pub proof fn law_reads_hold_on<T: Opaque>(
    known: Known<T>,
    more: Known<T>,
    id: BlockId,
    transaction: TransactionId,
    a: H256,
    b: H256,
    bloom: H2048,
    to: BlockId,
)
    requires
        known.within(more),
    ensures
        holds_on(known.hash_of(id), more.hash_of(id)),
        holds_on(known.number_of(id), more.number_of(id)),
        holds_on(known.block_of(id), more.block_of(id)),
        holds_on(known.header_of(id), more.header_of(id)),
        holds_on(known.body_of(id), more.body_of(id)),
        holds_on(known.current_state(), more.current_state()),
        holds_on(known.status_of(id), more.status_of(id)),
        holds_on(known.total_difficulty_of(id), more.total_difficulty_of(id)),
        holds_on(known.transaction_of(transaction), more.transaction_of(transaction)),
        holds_on(known.route_between(a, b), more.route_between(a, b)),
        holds_on(known.bloom_hits(bloom, id, to), more.bloom_hits(bloom, id, to)),
        holds_on(known.info(), more.info()),
        holds_on(known.admission(a, b), more.admission(a, b)),
{
}

/// With all answers every reading operation has its result.
pub proof fn law_reads_finish<T: Opaque>(
    chain: Known<T>,
    id: BlockId,
    transaction: TransactionId,
    a: H256,
    b: H256,
    bloom: H2048,
    to: BlockId,
)
    requires
        chain.complete(),
    ensures
        chain.hash_of(id) is Ready,
        chain.number_of(id) is Ready,
        chain.block_of(id) is Ready,
        chain.header_of(id) is Ready,
        chain.body_of(id) is Ready,
        chain.current_state() is Ready,
        chain.status_of(id) is Ready,
        chain.total_difficulty_of(id) is Ready,
        chain.transaction_of(transaction) is Ready,
        chain.route_between(a, b) is Ready,
        chain.bloom_hits(bloom, id, to) is Ready,
        chain.info() is Ready,
        chain.admission(a, b) is Ready,
{
    law_reads_ask_openly(chain, id, transaction, a, b, bloom, to);
}

/// A reading operation that names a block, answered from a chain, gives what
/// the chain holds, and asks three questions at most.
pub proof fn law_block_reads_are_answered<T: Opaque>(known: Known<T>, chain: Known<T>, id: BlockId)
    requires
        known.within(chain),
        chain.complete(),
    ensures
        answered(|k: Known<T>| k.hash_of(id), known, chain, 1) == chain.hash_of(id),
        answered(|k: Known<T>| k.number_of(id), known, chain, 1) == chain.number_of(id),
        answered(|k: Known<T>| k.block_of(id), known, chain, 2) == chain.block_of(id),
        answered(|k: Known<T>| k.header_of(id), known, chain, 2) == chain.header_of(id),
        answered(|k: Known<T>| k.body_of(id), known, chain, 2) == chain.body_of(id),
        answered(|k: Known<T>| k.status_of(id), known, chain, 3) == chain.status_of(id),
        answered(|k: Known<T>| k.total_difficulty_of(id), known, chain, 2)
            == chain.total_difficulty_of(id),
{
    reveal_with_fuel(answered, 4);
    assert(chain.answers(Request::BestBlockHash));
    assert(chain.answers(Request::BestBlockNumber));
    match id {
        BlockId::Number(n) => {
            assert(chain.answers(Request::BlockHash(n)));
        },
        BlockId::Hash(h) => {
            assert(chain.answers(Request::BlockNumber(h)));
        },
        BlockId::Earliest => {
            assert(chain.answers(Request::BlockHash(0)));
        },
        BlockId::Latest => {},
    }
    if let Lookup::Ready(Some(h)) = chain.hash_of(id) {
        assert(chain.answers(Request::Block(h)));
        assert(chain.answers(Request::IsKnown(h)));
        assert(chain.answers(Request::QueueStatus(h)));
        assert(chain.answers(Request::BlockDetails(h)));
    }
}

/// The search for a transaction, answered from a chain, gives what the chain
/// holds, and asks two questions at most.
pub proof fn law_transaction_reads_are_answered<T: Opaque>(
    known: Known<T>,
    chain: Known<T>,
    id: TransactionId,
)
    requires
        known.within(chain),
        chain.complete(),
    ensures
        answered(|k: Known<T>| k.transaction_of(id), known, chain, 2) == chain.transaction_of(id),
{
    reveal_with_fuel(answered, 3);
    match id {
        TransactionId::Hash(h) => {
            assert(chain.answers(Request::TransactionAddress(h)));
        },
        TransactionId::Location(block, index) => {
            assert(chain.answers(Request::BestBlockHash));
            assert(chain.answers(Request::BlockHash(0)));
            if let BlockId::Number(n) = block {
                assert(chain.answers(Request::BlockHash(n)));
            }
        },
    }
    if let Lookup::Ready(Some(address)) = chain.address_of(id) {
        assert(chain.answers(Request::Transaction(address)));
    }
}

/// The ways between blocks, the searches by bloom filter, the information on
/// the chain and the admission of blocks, answered from a chain, are what the
/// chain gives, and take five questions at most.
pub proof fn law_chain_reads_are_answered<T: Opaque>(
    known: Known<T>,
    chain: Known<T>,
    a: H256,
    b: H256,
    bloom: H2048,
    from: BlockId,
    to: BlockId,
)
    requires
        known.within(chain),
        chain.complete(),
    ensures
        answered(|k: Known<T>| k.route_between(a, b), known, chain, 3) == chain.route_between(a, b),
        answered(|k: Known<T>| k.bloom_hits(bloom, from, to), known, chain, 3) == chain.bloom_hits(
            bloom,
            from,
            to,
        ),
        answered(|k: Known<T>| k.info(), known, chain, 5) == chain.info(),
        answered(|k: Known<T>| k.admission(a, b), known, chain, 3) == chain.admission(a, b),
{
    reveal_with_fuel(answered, 6);
    assert(chain.answers(Request::IsKnown(a)));
    assert(chain.answers(Request::IsKnown(b)));
    assert(chain.answers(Request::QueueStatus(b)));
    assert(chain.answers(Request::TreeRoute(RouteEnds { from: a, to: b })));
    assert(chain.answers(Request::BestBlockHash));
    assert(chain.answers(Request::BestBlockNumber));
    assert(chain.answers(Request::BestBlockTotalDifficulty));
    assert(chain.answers(Request::QueueTotalDifficulty));
    assert(chain.answers(Request::GenesisHash));
    if let BlockId::Hash(h) = from {
        assert(chain.answers(Request::BlockNumber(h)));
    }
    if let BlockId::Hash(h) = to {
        assert(chain.answers(Request::BlockNumber(h)));
    }
    if let (Lookup::Ready(Some(first)), Lookup::Ready(Some(last))) = (
        chain.number_of(from),
        chain.number_of(to),
    ) {
        assert(chain.answers(
            Request::BlocksWithBloom(BloomSearch { bloom, from: first, to: last }),
        ));
    }
}

/// The reads of accounts ask openly, and more answers do not change what they
/// have found.
pub proof fn law_account_reads_hold_on<T: Opaque>(
    known: Known<T>,
    more: Known<T>,
    address: Address,
)
    requires
        known.within(more),
    ensures
        known.asks_openly(known.nonce_of(address)),
        known.asks_openly(known.code_of(address)),
        holds_on(known.nonce_of(address), more.nonce_of(address)),
        holds_on(known.code_of(address), more.code_of(address)),
{
}

/// The current state and the reads of accounts, answered from a chain, are what
/// the chain gives, and take four questions at most.
pub proof fn law_account_reads_are_answered<T: Opaque>(
    known: Known<T>,
    chain: Known<T>,
    address: Address,
)
    requires
        known.within(chain),
        chain.complete(),
    ensures
        answered(|k: Known<T>| k.current_state(), known, chain, 3) == chain.current_state(),
        answered(|k: Known<T>| k.nonce_of(address), known, chain, 4) == chain.nonce_of(address),
        answered(|k: Known<T>| k.code_of(address), known, chain, 4) == chain.code_of(address),
{
    reveal_with_fuel(answered, 5);
    assert(chain.answers(Request::BestBlockHash));
    assert(chain.answers(Request::AccountStartNonce));
    if let Lookup::Ready(Some(best)) = chain.hash_of(BlockId::Latest) {
        assert(chain.answers(Request::Block(best)));
    }
    if let Lookup::Ready(state) = chain.current_state() {
        assert(chain.answers(Request::Nonce(AccountSearch { state, address })));
        assert(chain.answers(Request::Code(AccountSearch { state, address })));
    }
}

/// The ancestors of a block are asked for openly, and more answers do not
/// change those that are found.
pub proof fn law_ancestors_hold_on<T: Opaque>(known: Known<T>, more: Known<T>, hash: H256, n: nat)
    requires
        known.within(more),
    ensures
        known.asks_openly(known.ancestor(hash, n)),
        holds_on(known.ancestor(hash, n), more.ancestor(hash, n)),
    decreases n,
{
    if n > 0 {
        law_ancestors_hold_on(known, more, hash, (n - 1) as nat);
    }
}

/// An ancestor, answered from a chain, is the one that the chain has, and
/// takes no more questions than there are generations in between.
pub proof fn law_ancestors_are_answered<T: Opaque>(
    known: Known<T>,
    chain: Known<T>,
    hash: H256,
    n: nat,
)
    requires
        known.within(chain),
        chain.complete(),
    ensures
        answered(|k: Known<T>| k.ancestor(hash, n), known, chain, n) == chain.ancestor(hash, n),
{
    lemma_ancestor_answered(known, chain, hash, n, 0, n);
}

/// An ancestor is answered in as many steps as are left above a generation
/// that is known.
proof fn lemma_ancestor_answered<T: Opaque>(
    known: Known<T>,
    chain: Known<T>,
    hash: H256,
    n: nat,
    reached: nat,
    budget: nat,
)
    requires
        known.within(chain),
        chain.complete(),
        reached <= n,
        known.ancestor(hash, reached) is Ready,
        n - reached <= budget,
    ensures
        answered(|k: Known<T>| k.ancestor(hash, n), known, chain, budget) == chain.ancestor(
            hash,
            n,
        ),
    decreases n - reached,
{
    law_ancestors_hold_on(known, chain, hash, n);
    if known.ancestor(hash, n) is Ask {
        let stop = lemma_last_reached(known, hash, reached, n);
        let request = known.ancestor(hash, n)->Ask_0;
        let next = known.learn(chain, request);
        law_learning_is_sound(known, chain, request);
        law_ancestors_hold_on(known, next, hash, stop);
        lemma_ancestor_answered(next, chain, hash, n, stop + 1, (budget - 1) as nat);
    }
}

/// Below an ancestor that is asked for there is a last one that is known.
proof fn lemma_last_reached<T: Opaque>(known: Known<T>, hash: H256, reached: nat, n: nat) -> (stop:
    nat)
    requires
        reached <= n,
        known.ancestor(hash, reached) is Ready,
        known.ancestor(hash, n) is Ask,
    ensures
        reached <= stop < n,
        known.ancestor(hash, stop) is Ready,
        known.ancestor(hash, stop + 1) == known.ancestor(hash, n),
    decreases n,
{
    if known.ancestor(hash, (n - 1) as nat) is Ready {
        (n - 1) as nat
    } else {
        lemma_last_reached(known, hash, reached, (n - 1) as nat)
    }
}

/// The names of blocks agree with each other and with the information on the
/// chain: the earliest block is number 0, a number names itself, a hash names
/// itself, and the latest block is the best one.
pub proof fn law_block_ids_agree<T: Opaque>(known: Known<T>, hash: H256, number: BlockNumber)
    ensures
        known.hash_of(BlockId::Earliest) == known.hash_of(BlockId::Number(0)),
        known.number_of(BlockId::Earliest) == known.number_of(BlockId::Number(0)),
        known.number_of(BlockId::Number(number)) == Lookup::Ready(Some(number)),
        known.hash_of(BlockId::Hash(hash)) == Lookup::Ready(Some(hash)),
        known.info() matches Lookup::Ready(info) ==> {
            &&& known.hash_of(BlockId::Latest) == Lookup::Ready(Some(info.best_block_hash))
            &&& known.number_of(BlockId::Latest) == Lookup::Ready(Some(info.best_block_number))
        },
{
}

/// A block that the chain has is in the chain, whatever the queue says; of any
/// other block the queue has the last word; and what names no block is unknown.
pub proof fn law_block_status<T: Opaque>(chain: Known<T>, id: BlockId)
    requires
        chain.complete(),
    ensures
        chain.hash_of(id) is Ready,
        chain.hash_of(id) == Lookup::Ready(None::<H256>) ==> chain.status_of(id) == Lookup::Ready(
            BlockStatus::Unknown,
        ),
        forall|hash: H256|
            chain.hash_of(id) == Lookup::Ready(Some(hash)) ==> #[trigger] chain.status_of(
                BlockId::Hash(hash),
            ) == chain.status_of(id),
        forall|hash: H256|
            chain.hash_of(id) == Lookup::Ready(Some(hash)) && #[trigger] chain.is_known[hash]
                ==> chain.status_of(id) == Lookup::Ready(BlockStatus::InChain),
        forall|hash: H256|
            chain.hash_of(id) == Lookup::Ready(Some(hash)) && !#[trigger] chain.is_known[hash]
                ==> chain.status_of(id) == Lookup::Ready(chain.queue_status[hash]),
{
    assert(chain.answers(Request::BestBlockHash));
    assert(chain.answers(Request::BlockHash(0)));
    if let BlockId::Number(n) = id {
        assert(chain.answers(Request::BlockHash(n)));
    }
    if let Lookup::Ready(Some(h)) = chain.hash_of(id) {
        assert(chain.answers(Request::IsKnown(h)));
        assert(chain.answers(Request::QueueStatus(h)));
    }
}

/// A block is refused as known exactly if the chain has it; else it is refused
/// for its parent exactly if neither the chain nor the queue knows that; else
/// it is queued.
pub proof fn law_admission<T: Opaque>(chain: Known<T>, hash: H256, parent: H256)
    requires
        chain.complete(),
    ensures
        chain.admission(hash, parent) == Lookup::Ready(
            if chain.is_known[hash] {
                Err(ImportError::AlreadyInChain)
            } else if !chain.is_known[parent] && chain.queue_status[parent]
                == BlockStatus::Unknown {
                Err(ImportError::UnknownParent(parent))
            } else {
                Ok(())
            },
        ),
{
    assert(chain.answers(Request::IsKnown(hash)));
    assert(chain.answers(Request::IsKnown(parent)));
    assert(chain.answers(Request::QueueStatus(parent)));
}

/// The body of a block is a list of its transactions and its uncles: its first
/// item is the second of the block, and its second item the third. The header
/// is an item of its own.
pub proof fn law_body_keeps_items<T: Opaque>(known: Known<T>, id: BlockId)
    requires
        known.names_list_of(id, 3),
    ensures
        known.block_of(id) matches Lookup::Ready(Some(bytes)) ==> {
            &&& known.header_of(id) matches Lookup::Ready(Some(header))
            &&& known.body_of(id) matches Lookup::Ready(Some(body))
            &&& rlp::is_item(header)
            &&& header == rlp::item(bytes@, 0)
            &&& rlp::is_item(body)
            &&& rlp::is_list_of(body, 2)
            &&& rlp::item(body, 0) == rlp::item(bytes@, 1)
            &&& rlp::item(body, 1) == rlp::item(bytes@, 2)
        },
{
    if let Lookup::Ready(Some(bytes)) = known.block_of(id) {
        reveal_with_fuel(rlp::has_items, 4);
        rlp::law_item_is_item(bytes@, 0);
        rlp::law_item_is_item(bytes@, 1);
        rlp::law_item_is_item(bytes@, 2);
        rlp::law_items_fit(bytes@, 1, 2);
        assert(bytes@.len() == bytes.len());
        rlp::law_list_payload(rlp::item(bytes@, 1) + rlp::item(bytes@, 2));
        rlp::law_list_of_two(rlp::item(bytes@, 1), rlp::item(bytes@, 2));
    }
}

/// A block that is an exact list of three items can be put together again from
/// its header and its body, byte for byte.
pub proof fn law_block_is_header_and_body<T: Opaque>(known: Known<T>, id: BlockId)
    requires
        known.block_of(id) matches Lookup::Ready(Some(bytes)) ==> rlp::is_exact_list_of(bytes@, 3),
    ensures
        known.block_of(id) matches Lookup::Ready(Some(bytes)) ==> {
            &&& known.header_of(id) matches Lookup::Ready(Some(header))
            &&& known.body_of(id) matches Lookup::Ready(Some(body))
            &&& rlp::list(header + rlp::payload(body)) == bytes@
        },
{
    if let Lookup::Ready(Some(bytes)) = known.block_of(id) {
        rlp::law_list_of_three(bytes@);
        rlp::law_items_fit(bytes@, 1, 2);
        assert(bytes@.len() == bytes.len());
        rlp::law_list_payload(rlp::item(bytes@, 1) + rlp::item(bytes@, 2));
    }
}

/// The information on the chain is what has been read: its best block is the
/// latest one, its difficulty is that of the best block, and the difficulty
/// that is pending is that of the queue. Its genesis block is the earliest one
/// exactly if the chain has it as number 0, and its difficulty is that of the
/// latest block exactly if the details of the best block say so.
pub proof fn law_info<T: Opaque>(known: Known<T>)
    ensures
        known.complete() ==> known.info() is Ready,
        known.info() matches Lookup::Ready(info) ==> {
            &&& known.hash_of(BlockId::Latest) == Lookup::Ready(Some(info.best_block_hash))
            &&& known.number_of(BlockId::Latest) == Lookup::Ready(Some(info.best_block_number))
            &&& known.best_block_total_difficulty == Some(info.total_difficulty)
            &&& known.queue_total_difficulty == Some(info.pending_total_difficulty)
            &&& known.genesis_hash == Some(info.genesis_hash)
            &&& known.hash_of(BlockId::Earliest) == Lookup::Ready(Some(info.genesis_hash))
                <==> known.block_hash.contains_pair(0, known.genesis_hash)
            &&& known.total_difficulty_of(BlockId::Latest) == Lookup::Ready(
                Some(info.total_difficulty),
            ) <==> known.details_carry_difficulty(info.best_block_hash, info.total_difficulty)
        },
{
    if let Lookup::Ask(request) = known.info() {
        if known.complete() {
            assert(known.answers(request));
        }
    }
}

impl<T: Opaque> Known<T> {
    /// Whether the details of a block have been read and carry this difficulty.
    pub open spec fn details_carry_difficulty(self, hash: H256, difficulty: U256) -> bool {
        &&& self.block_details.contains_key(hash)
        &&& self.block_details[hash] matches Some(details)
        &&& details.total_difficulty == difficulty
    }

    /// Whether a chain agrees with itself: its genesis block is number 0, and
    /// the details of its best block carry its difficulty.
    pub open spec fn coherent(self) -> bool {
        &&& self.block_hash.contains_pair(0, self.genesis_hash)
        &&& self.best_block_hash matches Some(best)
        &&& self.best_block_total_difficulty matches Some(difficulty)
        &&& self.details_carry_difficulty(best, difficulty)
    }
}

/// The information on a chain that agrees with itself agrees with the reads of
/// its blocks: the best block is the latest one, with its number and its total
/// difficulty, and the genesis block is the earliest one.
pub proof fn law_info_agrees<T: Opaque>(chain: Known<T>)
    requires
        chain.complete(),
        chain.coherent(),
    ensures
        chain.info() matches Lookup::Ready(info) && {
            &&& chain.hash_of(BlockId::Latest) == Lookup::Ready(Some(info.best_block_hash))
            &&& chain.number_of(BlockId::Latest) == Lookup::Ready(Some(info.best_block_number))
            &&& chain.hash_of(BlockId::Earliest) == Lookup::Ready(Some(info.genesis_hash))
            &&& chain.total_difficulty_of(BlockId::Latest) == Lookup::Ready(
                Some(info.total_difficulty),
            )
        },
{
    law_info(chain);
}

/// The current state is the one whose root the header of the latest block
/// names, with new accounts as the engine has them; and the nonce and the code
/// of an account are those that it has in the current state.
pub proof fn law_current_state<T: Opaque>(known: Known<T>, address: Address)
    ensures
        known.current_state() matches Lookup::Ready(state) ==> {
            &&& Some(state.account_start_nonce) == known.account_start_nonce
            &&& known.header_of(BlockId::Latest) matches Lookup::Ready(Some(header)) ==> state.root
                == blocks::hash_in(header, blocks::STATE_ROOT as nat)
            &&& known.nonce_of(address) matches Lookup::Ready(nonce) ==> known.nonce.contains_pair(
                AccountSearch { state, address },
                nonce,
            )
            &&& known.code_of(address) matches Lookup::Ready(code) ==> known.code.contains_pair(
                AccountSearch { state, address },
                code,
            )
        },
        known.nonce_of(address) is Ready ==> known.current_state() is Ready,
        known.code_of(address) is Ready ==> known.current_state() is Ready,
{
}

/// The hashes that a block can see start with its parent; each is followed by
/// the parent of its block; and behind a block that the chain has no details
/// of there are zeros only. There is one such list.
pub proof fn law_last_hashes<T: Opaque>(
    known: Known<T>,
    parent: H256,
    hashes: Seq<H256>,
    others: Seq<H256>,
)
    requires
        known.lineage(parent, hashes),
        known.lineage(parent, others),
    ensures
        hashes[0] == parent,
        others == hashes,
        forall|i: int|
            #![trigger hashes[i]]
            0 <= i < LAST_HASHES - 1 && known.ancestor(parent, i as nat) == Lookup::Ready(
                Some(hashes[i]),
            ) ==> {
                &&& known.block_details.contains_key(hashes[i])
                &&& match known.block_details[hashes[i]] {
                    Some(details) => hashes[i + 1] == details.parent,
                    None => forall|j: int|
                        i < j < LAST_HASHES ==> #[trigger] hashes[j] == H256::zero(),
                }
            },
{
    assert(known.shows_ancestor(parent, 0, hashes[0]));
    assert forall|i: int| 0 <= i < LAST_HASHES implies hashes[i] == others[i] by {
        assert(known.shows_ancestor(parent, i as nat, hashes[i]));
        assert(known.shows_ancestor(parent, i as nat, others[i]));
    }
    assert(hashes =~= others);
    assert forall|i: int|
        #![trigger hashes[i]]
        0 <= i < LAST_HASHES - 1 && known.ancestor(parent, i as nat) == Lookup::Ready(
            Some(hashes[i]),
        ) implies {
        &&& known.block_details.contains_key(hashes[i])
        &&& match known.block_details[hashes[i]] {
            Some(details) => hashes[i + 1] == details.parent,
            None => forall|j: int| i < j < LAST_HASHES ==> #[trigger] hashes[j] == H256::zero(),
        }
    } by {
        assert(known.shows_ancestor(parent, (i + 1) as nat, hashes[i + 1]));
        if known.block_details[hashes[i]] is None {
            assert forall|j: int| i < j < LAST_HASHES implies #[trigger] hashes[j]
                == H256::zero() by {
                lemma_no_older(known, parent, (i + 1) as nat, j as nat);
                assert(known.shows_ancestor(parent, j as nat, hashes[j]));
            }
        }
    }
}

/// Beyond a missing ancestor there are none.
proof fn lemma_no_older<T: Opaque>(known: Known<T>, hash: H256, younger: nat, older: nat)
    requires
        younger <= older,
        known.ancestor(hash, younger) == Lookup::Ready(None::<H256>),
    ensures
        known.ancestor(hash, older) == Lookup::Ready(None::<H256>),
    decreases older,
{
    if younger < older {
        lemma_no_older(known, hash, younger, (older - 1) as nat);
    }
}

/// A block is closed exactly if it is young enough, fits its family, has a
/// parent in the chain, could be enacted and turned out as announced.
pub proof fn law_block_closes<T: Opaque>(chain: Known<T>, header: Header, results: StageResults)
    requires
        chain.complete(),
    ensures
        chain.check(header, results) == Check::<T>::Close <==> {
            &&& chain.best_block_number matches Some(best)
            &&& !is_ancient(header.number, best)
            &&& results.family == Some(true)
            &&& chain.block_header[header.parent_hash] is Some
            &&& results.enacted == Some(true)
            &&& results.confirmed == Some(true)
        },
{
    assert(chain.answers(Request::BestBlockNumber));
    assert(chain.answers(Request::BlockHeader(header.parent_hash)));
    law_ancestors_hold_on(chain, chain, header.parent_hash, (LAST_HASHES - 1) as nat);
    if let Lookup::Ask(request) = chain.ancestor(header.parent_hash, (LAST_HASHES - 1) as nat) {
        assert(chain.answers(request));
    }
}

/// The stages of a check come in order: a block is enacted only if it is young
/// enough, fits its family and has a parent in the chain; the enacted block is
/// looked at only if it could be enacted; and the check asks openly, and not at
/// all once all answers are there.
pub proof fn law_check_order<T: Opaque>(known: Known<T>, header: Header, results: StageResults)
    ensures
        known.check(header, results) matches Check::Read(request) ==> !known.answers(request),
        known.complete() ==> !(known.check(header, results) is Read),
        known.check(header, results) is VerifyFamily ==> {
            &&& known.best_block_number matches Some(best)
            &&& !is_ancient(header.number, best)
            &&& results.family is None
        },
        known.check(header, results) matches Check::Enact { parent } ==> {
            &&& known.best_block_number matches Some(best)
            &&& !is_ancient(header.number, best)
            &&& results.family == Some(true)
            &&& known.block_header.contains_key(header.parent_hash)
            &&& known.block_header[header.parent_hash] == Some(parent)
            &&& results.enacted is None
        },
        known.check(header, results) is VerifyFinal ==> {
            &&& results.family == Some(true)
            &&& results.enacted == Some(true)
            &&& results.confirmed is None
        },
{
    law_ancestors_hold_on(known, known, header.parent_hash, (LAST_HASHES - 1) as nat);
    if let Check::Read(request) = known.check(header, results) {
        if known.complete() {
            assert(known.answers(request));
        }
    }
}

impl<T: Opaque> Known<T> {
    /// The next step of the check of a block that is not a question, or else
    /// the question.
    pub open spec fn check_step(self, header: Header, results: StageResults) -> Lookup<Check<T>> {
        match self.check(header, results) {
            Check::Read(request) => Lookup::Ask(request),
            step => Lookup::Ready(step),
        }
    }
}

/// More answers do not change the step of a check that is not a question, nor
/// the hashes that a block can see.
pub proof fn law_check_holds_on<T: Opaque>(
    known: Known<T>,
    more: Known<T>,
    header: Header,
    results: StageResults,
    hashes: Seq<H256>,
)
    requires
        known.within(more),
    ensures
        !(known.check(header, results) is Read) ==> more.check(header, results) == known.check(
            header,
            results,
        ),
        holds_on(known.check_step(header, results), more.check_step(header, results)),
        known.lineage(header.parent_hash, hashes) ==> more.lineage(header.parent_hash, hashes),
{
    law_ancestors_hold_on(known, more, header.parent_hash, (LAST_HASHES - 1) as nat);
    if known.lineage(header.parent_hash, hashes) {
        assert forall|i: int|
            #![trigger hashes[i]]
            0 <= i < LAST_HASHES implies more.shows_ancestor(
            header.parent_hash,
            i as nat,
            hashes[i],
        ) by {
            assert(known.shows_ancestor(header.parent_hash, i as nat, hashes[i]));
            law_ancestors_hold_on(known, more, header.parent_hash, i as nat);
        }
    }
}

/// The questions of a check, answered from a chain, come to an end: the check
/// takes the step that the chain calls for, after a question for each hash that
/// the block can see and one more.
pub proof fn law_check_is_answered<T: Opaque>(
    known: Known<T>,
    chain: Known<T>,
    header: Header,
    results: StageResults,
)
    requires
        known.within(chain),
        chain.complete(),
    ensures
        answered(
            |k: Known<T>| k.check_step(header, results),
            known,
            chain,
            (LAST_HASHES + 1) as nat,
        ) == Lookup::Ready(chain.check(header, results)),
        !(chain.check(header, results) is Read),
{
    let read = |k: Known<T>| k.check_step(header, results);
    let n = (LAST_HASHES - 1) as nat;
    let parent = header.parent_hash;
    law_check_order(chain, header, results);
    law_check_holds_on(known, chain, header, results, Seq::empty());
    assert(chain.answers(Request::BestBlockNumber));
    assert(chain.answers(Request::BlockHeader(parent)));
    law_learning_is_sound(known, chain, Request::BestBlockNumber);
    let with_best = if known.best_block_number is Some {
        known
    } else {
        known.learn(chain, Request::BestBlockNumber)
    };
    let left: nat = if known.best_block_number is Some {
        n + 2
    } else {
        n + 1
    };
    assert(answered(read, known, chain, n + 2) == answered(read, with_best, chain, left));
    law_check_holds_on(with_best, chain, header, results, Seq::empty());
    law_learning_is_sound(with_best, chain, Request::BlockHeader(parent));
    let with_parent = with_best.learn(chain, Request::BlockHeader(parent));
    if with_best.check(header, results) is Read {
        if with_best.block_header.contains_key(parent) {
            lemma_check_answered(with_best, chain, header, results, 0, left);
        } else {
            lemma_check_answered(with_parent, chain, header, results, 0, (left - 1) as nat);
        }
    }
}

/// The questions of a check are answered in as many steps as there are ancestors
/// left to be found.
proof fn lemma_check_answered<T: Opaque>(
    known: Known<T>,
    chain: Known<T>,
    header: Header,
    results: StageResults,
    reached: nat,
    budget: nat,
)
    requires
        known.within(chain),
        chain.complete(),
        known.best_block_number is Some,
        known.block_header.contains_key(header.parent_hash),
        known.ancestor(header.parent_hash, reached) is Ready,
        reached <= LAST_HASHES - 1,
        LAST_HASHES - 1 - reached <= budget,
    ensures
        answered(|k: Known<T>| k.check_step(header, results), known, chain, budget)
            == chain.check_step(header, results),
    decreases LAST_HASHES - reached,
{
    let parent = header.parent_hash;
    let n = (LAST_HASHES - 1) as nat;
    law_check_holds_on(known, chain, header, results, Seq::empty());
    if let Check::Read(request) = known.check(header, results) {
        assert(known.ancestor(parent, n) == Lookup::<Option<H256>>::Ask(request));
        let next = known.learn(chain, request);
        law_learning_is_sound(known, chain, request);
        let stop = lemma_last_reached(known, parent, reached, n);
        law_ancestors_hold_on(known, next, parent, stop);
        lemma_check_answered(next, chain, header, results, stop + 1, (budget - 1) as nat);
    }
}

/// A block that lies at least a whole history behind the best one is refused
/// whatever the stages say, and no other block is refused as ancient.
pub proof fn law_ancient_blocks<T: Opaque>(
    known: Known<T>,
    header: Header,
    results: StageResults,
    best: BlockNumber,
)
    requires
        known.best_block_number == Some(best),
    ensures
        known.check(header, results) == Check::<T>::Refuse(Refusal::Ancient) <==> header.number
            + 1000 <= best,
{
}

/// What a new block gets from the chain is asked for openly, is not changed by
/// more answers, and is there once all answers are; and it names no more uncles
/// than the rules allow.
pub proof fn law_groundwork<T: Opaque>(known: Known<T>, more: Known<T>, rules: UncleRules)
    requires
        known.within(more),
    ensures
        known.asks_openly(known.groundwork(rules)),
        holds_on(known.groundwork(rules), more.groundwork(rules)),
        known.complete() ==> known.groundwork(rules) is Ready,
        known.groundwork(rules) matches Lookup::Ready(Some(ground)) ==> {
            &&& ground.uncles.len() <= rules.maximum_count
            &&& known.best_block_hash == Some(ground.parent_hash)
            &&& known.block_header.contains_key(ground.parent_hash)
            &&& known.block_header[ground.parent_hash] == Some(ground.parent)
        },
{
    if let Some(best) = known.best_block_hash {
        law_ancestors_hold_on(known, more, best, (LAST_HASHES - 1) as nat);
    }
    if let Lookup::Ask(request) = known.groundwork(rules) {
        if known.complete() {
            assert(known.answers(request));
        }
    }
}

/// What a new block gets, answered from a chain, is what the chain gives, and
/// takes a question for each hash that the block can see and two more.
pub proof fn law_groundwork_is_answered<T: Opaque>(
    known: Known<T>,
    chain: Known<T>,
    rules: UncleRules,
)
    requires
        known.within(chain),
        chain.complete(),
    ensures
        answered(|k: Known<T>| k.groundwork(rules), known, chain, (LAST_HASHES + 2) as nat)
            == chain.groundwork(rules),
{
    let read = |k: Known<T>| k.groundwork(rules);
    let n = (LAST_HASHES - 1) as nat;
    assert(chain.answers(Request::BestBlockHash));
    let best = chain.best_block_hash->0;
    assert(chain.answers(Request::BlockHeader(best)));
    let one = known.learn(chain, Request::BestBlockHash);
    law_learning_is_sound(known, chain, Request::BestBlockHash);
    let with_best = if known.best_block_hash is Some {
        known
    } else {
        one
    };
    let left: nat = if known.best_block_hash is Some {
        n + 3
    } else {
        n + 2
    };
    assert(answered(read, known, chain, n + 3) == answered(read, with_best, chain, left));
    let two = with_best.learn(chain, Request::BlockHeader(best));
    law_learning_is_sound(with_best, chain, Request::BlockHeader(best));
    if with_best.block_header.contains_key(best) {
        lemma_groundwork_answered(with_best, chain, rules, 0, left);
    } else {
        lemma_groundwork_answered(two, chain, rules, 0, (left - 1) as nat);
    }
}

/// What a new block gets is answered in as many steps as there are ancestors
/// left to be found, and one more.
proof fn lemma_groundwork_answered<T: Opaque>(
    known: Known<T>,
    chain: Known<T>,
    rules: UncleRules,
    reached: nat,
    budget: nat,
)
    requires
        known.within(chain),
        chain.complete(),
        known.best_block_hash matches Some(best) && known.block_header.contains_key(best)
            && known.ancestor(best, reached) is Ready,
        reached <= LAST_HASHES - 1,
        LAST_HASHES - reached <= budget,
    ensures
        answered(|k: Known<T>| k.groundwork(rules), known, chain, budget) == chain.groundwork(
            rules,
        ),
    decreases LAST_HASHES - reached,
{
    let read = |k: Known<T>| k.groundwork(rules);
    let best = known.best_block_hash->0;
    let n = (LAST_HASHES - 1) as nat;
    law_ancestors_hold_on(known, chain, best, n);
    law_groundwork(known, chain, rules);
    if known.groundwork(rules) is Ask {
        let request = known.groundwork(rules)->Ask_0;
        let next = known.learn(chain, request);
        law_learning_is_sound(known, chain, request);
        assert(answered(read, known, chain, budget) == answered(
            read,
            next,
            chain,
            (budget - 1) as nat,
        ));
        if known.ancestor(best, n) is Ask {
            let stop = lemma_last_reached(known, best, reached, n);
            law_ancestors_hold_on(known, next, best, stop);
            lemma_groundwork_answered(next, chain, rules, stop + 1, (budget - 1) as nat);
        } else {
            law_ancestors_hold_on(known, next, best, n);
            law_groundwork(next, chain, rules);
            assert(read(next) is Ready);
        }
    }
}

} // verus!
