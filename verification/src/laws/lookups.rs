//! What each reading operation gives, in terms of what the chain has said.
//!
//! A law here names the answers that an operation rests on, and says what the
//! operation makes of them, whatever else is known.

use crate::answers::{
    gives_bytes, lends, lends_option, AccountSearch, Answers, BloomSearch, Known, Lookup, Request,
    RouteEnds, UncleSearch,
};
use crate::blocks;
use crate::laws::reads::{law_ancestors_hold_on, law_last_hashes};
use crate::sealing::{pointed_at, UncleRules};
use crate::types::{
    Address, BlockDetails, BlockId, BlockNumber, Bytes, Opaque, StateId, TransactionAddress,
    TransactionId, H2048, H256, U256,
};
use vstd::prelude::*;

verus! {

/// A hash names the block with that hash; a number the block that the best
/// chain has there; the earliest block is number 0, and the latest the best one.
/// What is asked for is what names the block.
pub proof fn law_hash_of_a_block<T: Opaque>(known: Known<T>, hash: H256, number: BlockNumber)
    ensures
        known.hash_of(BlockId::Hash(hash)) == Lookup::Ready(Some(hash)),
        known.block_hash.contains_key(number) ==> known.hash_of(BlockId::Number(number))
            == Lookup::Ready(known.block_hash[number]),
        !known.block_hash.contains_key(number) ==> known.hash_of(BlockId::Number(number))
            == Lookup::<Option<H256>>::Ask(Request::BlockHash(number)),
        known.block_hash.contains_key(0) ==> known.hash_of(BlockId::Earliest) == Lookup::Ready(
            known.block_hash[0],
        ),
        !known.block_hash.contains_key(0) ==> known.hash_of(BlockId::Earliest) == Lookup::<
            Option<H256>,
        >::Ask(Request::BlockHash(0)),
        known.best_block_hash is Some ==> known.hash_of(BlockId::Latest) == Lookup::Ready(
            known.best_block_hash,
        ),
        known.best_block_hash is None ==> known.hash_of(BlockId::Latest) == Lookup::<
            Option<H256>,
        >::Ask(Request::BestBlockHash),
{
}

/// A number is the number of the block that it names; a block that is named by
/// its hash has the number that the chain says; the earliest block has number 0,
/// and the latest that of the best one.
pub proof fn law_number_of_a_block<T: Opaque>(known: Known<T>, hash: H256, number: BlockNumber)
    ensures
        known.number_of(BlockId::Number(number)) == Lookup::Ready(Some(number)),
        known.block_number.contains_key(hash) ==> known.number_of(BlockId::Hash(hash))
            == Lookup::Ready(known.block_number[hash]),
        !known.block_number.contains_key(hash) ==> known.number_of(BlockId::Hash(hash))
            == Lookup::<Option<BlockNumber>>::Ask(Request::BlockNumber(hash)),
        known.number_of(BlockId::Earliest) == Lookup::Ready(Some(0u64)),
        known.best_block_number is Some ==> known.number_of(BlockId::Latest) == Lookup::Ready(
            known.best_block_number,
        ),
        known.best_block_number is None ==> known.number_of(BlockId::Latest) == Lookup::<
            Option<BlockNumber>,
        >::Ask(Request::BestBlockNumber),
{
}

/// Whatever names a block by this hash yields the block that the chain holds
/// under the hash, no matter how the block is named; and what names no block
/// yields none.
pub proof fn law_block_of_a_name<T: Opaque>(known: Known<T>, id: BlockId, hash: H256)
    ensures
        known.hash_of(id) == Lookup::Ready(Some(hash)) ==> {
            &&& known.block_of(id) == known.block_of(BlockId::Hash(hash))
            &&& known.header_of(id) == known.header_of(BlockId::Hash(hash))
            &&& known.body_of(id) == known.body_of(BlockId::Hash(hash))
            &&& known.block.contains_key(hash) ==> known.block_of(id) == Lookup::Ready(
                known.block[hash],
            )
            &&& !known.block.contains_key(hash) ==> known.block_of(id) == Lookup::<
                Option<Bytes>,
            >::Ask(Request::Block(hash))
        },
        known.hash_of(id) == Lookup::Ready(None::<H256>) ==> known.block_of(id) == Lookup::Ready(
            None::<Bytes>,
        ),
        known.hash_of(id) matches Lookup::Ask(request) ==> known.block_of(id) == Lookup::<
            Option<Bytes>,
        >::Ask(request),
{
}

/// A header and a body are found exactly where the block is, and stand in the
/// way of the same questions.
pub proof fn law_parts_are_found_with_the_block<T: Opaque>(known: Known<T>, id: BlockId)
    ensures
        match known.block_of(id) {
            Lookup::Ready(Some(_)) => {
                &&& known.header_of(id) matches Lookup::Ready(header) && header is Some
                &&& known.body_of(id) matches Lookup::Ready(body) && body is Some
            },
            Lookup::Ready(None) => {
                &&& known.header_of(id) == Lookup::Ready(None::<Seq<u8>>)
                &&& known.body_of(id) == Lookup::Ready(None::<Seq<u8>>)
            },
            Lookup::Ask(request) => {
                &&& known.header_of(id) == Lookup::<Option<Seq<u8>>>::Ask(request)
                &&& known.body_of(id) == Lookup::<Option<Seq<u8>>>::Ask(request)
            },
        },
{
}

/// The total difficulty of a block is the one in the details that the chain
/// holds under its hash.
pub proof fn law_total_difficulty_of_a_name<T: Opaque>(known: Known<T>, id: BlockId, hash: H256)
    ensures
        known.hash_of(id) == Lookup::Ready(Some(hash)) ==> {
            &&& !known.block_details.contains_key(hash) ==> known.total_difficulty_of(id)
                == Lookup::<Option<U256>>::Ask(Request::BlockDetails(hash))
            &&& known.block_details.contains_key(hash) ==> match known.block_details[hash] {
                Some(details) => known.total_difficulty_of(id) == Lookup::Ready(
                    Some(details.total_difficulty),
                ),
                None => known.total_difficulty_of(id) == Lookup::Ready(None::<U256>),
            }
        },
        known.hash_of(id) == Lookup::Ready(None::<H256>) ==> known.total_difficulty_of(id)
            == Lookup::Ready(None::<U256>),
        known.hash_of(id) matches Lookup::Ask(request) ==> known.total_difficulty_of(id)
            == Lookup::<Option<U256>>::Ask(request),
{
}

/// The transaction at an index of a block is the one that the chain holds at
/// that index of the block with that hash, no matter how the block is named; a
/// name of no block yields no transaction.
pub proof fn law_transaction_at_a_place<T: Opaque>(
    known: Known<T>,
    id: BlockId,
    hash: H256,
    index: usize,
)
    ensures
        known.hash_of(id) == Lookup::Ready(Some(hash)) ==> {
            let there = TransactionAddress { block_hash: hash, index };
            &&& known.transaction.contains_key(there) ==> known.transaction_of(
                TransactionId::Location(id, index),
            ) == Lookup::Ready(known.transaction[there])
            &&& !known.transaction.contains_key(there) ==> known.transaction_of(
                TransactionId::Location(id, index),
            ) == Lookup::<Option<T::LocalizedTransaction>>::Ask(Request::Transaction(there))
        },
        known.hash_of(id) == Lookup::Ready(None::<H256>) ==> known.transaction_of(
            TransactionId::Location(id, index),
        ) == Lookup::Ready(None::<T::LocalizedTransaction>),
        known.hash_of(id) matches Lookup::Ask(request) ==> known.transaction_of(
            TransactionId::Location(id, index),
        ) == Lookup::<Option<T::LocalizedTransaction>>::Ask(request),
{
}

/// The transaction with a hash is the one that stands where the chain says that
/// the hash stands, or none where it says so; and it is the one that is found by
/// that place.
pub proof fn law_transaction_with_a_hash<T: Opaque>(known: Known<T>, hash: H256)
    ensures
        !known.transaction_address.contains_key(hash) ==> known.transaction_of(
            TransactionId::Hash(hash),
        ) == Lookup::<Option<T::LocalizedTransaction>>::Ask(Request::TransactionAddress(hash)),
        known.transaction_address.contains_key(hash) ==> match known.transaction_address[hash] {
            Some(there) => {
                &&& known.transaction_of(TransactionId::Hash(hash)) == known.transaction_of(
                    TransactionId::Location(BlockId::Hash(there.block_hash), there.index),
                )
                &&& known.transaction.contains_key(there) ==> known.transaction_of(
                    TransactionId::Hash(hash),
                ) == Lookup::Ready(known.transaction[there])
                &&& !known.transaction.contains_key(there) ==> known.transaction_of(
                    TransactionId::Hash(hash),
                ) == Lookup::<Option<T::LocalizedTransaction>>::Ask(Request::Transaction(there))
            },
            None => known.transaction_of(TransactionId::Hash(hash)) == Lookup::Ready(
                None::<T::LocalizedTransaction>,
            ),
        },
{
}

/// There is a way between two blocks exactly if the chain has both, and it is
/// the one that the chain gives from the first to the second.
pub proof fn law_route<T: Opaque>(known: Known<T>, from: H256, to: H256)
    requires
        known.is_known.contains_key(from),
        known.is_known.contains_key(to),
        known.tree_route.contains_key(RouteEnds { from, to }),
    ensures
        known.route_between(from, to) == Lookup::Ready(
            if known.is_known[from] && known.is_known[to] {
                Some(known.tree_route[RouteEnds { from, to }])
            } else {
                None
            },
        ),
{
}

/// A search by bloom filter between two blocks that have a number is the search
/// of the chain between these numbers; without two numbers there is none.
pub proof fn law_bloom_search<T: Opaque>(
    known: Known<T>,
    bloom: H2048,
    from: BlockId,
    to: BlockId,
    first: Option<BlockNumber>,
    last: Option<BlockNumber>,
)
    requires
        known.number_of(from) == Lookup::Ready(first),
        known.number_of(to) == Lookup::Ready(last),
    ensures
        first is None || last is None ==> known.bloom_hits(bloom, from, to) == Lookup::Ready(
            None::<Vec<BlockNumber>>,
        ),
        first is Some && last is Some ==> {
            let search = BloomSearch { bloom, from: first->0, to: last->0 };
            &&& known.blocks_with_bloom.contains_key(search) ==> known.bloom_hits(bloom, from, to)
                == Lookup::Ready(Some(known.blocks_with_bloom[search]))
            &&& !known.blocks_with_bloom.contains_key(search) ==> known.bloom_hits(bloom, from, to)
                == Lookup::<Option<Vec<BlockNumber>>>::Ask(Request::BlocksWithBloom(search))
        },
{
}

/// The questions of a search by bloom filter are those for the numbers of its
/// ends, the first end first; and a way from a block, or to one, that the chain
/// does not have is none.
pub proof fn law_searches_and_routes_wait<T: Opaque>(
    known: Known<T>,
    bloom: H2048,
    from: BlockId,
    to: BlockId,
    start: H256,
    end: H256,
)
    ensures
        known.number_of(from) matches Lookup::Ask(request) ==> known.bloom_hits(bloom, from, to)
            == Lookup::<Option<Vec<BlockNumber>>>::Ask(request),
        known.number_of(from) is Ready ==> {
            known.number_of(to) matches Lookup::Ask(request) ==> known.bloom_hits(bloom, from, to)
                == Lookup::<Option<Vec<BlockNumber>>>::Ask(request)
        },
        known.lacks(start) ==> known.route_between(start, end) == Lookup::Ready(
            None::<T::TreeRoute>,
        ),
        known.is_known.contains_key(start) && known.lacks(end) ==> known.route_between(start, end)
            == Lookup::Ready(None::<T::TreeRoute>),
        known.lacks(start) <==> known.is_known.contains_pair(start, false),
{
}

/// Reads of parts of blocks, and of accounts, may be made while the block has
/// not been read; and parts may be read of a block that is not there.
pub proof fn law_reads_may_be_begun<T: Opaque>(known: Known<T>, id: BlockId, n: nat)
    ensures
        known.block_of(id) is Ask ==> known.names_list_of(id, n),
        known.block_of(id) == Lookup::Ready(None::<Bytes>) ==> known.names_list_of(id, n),
        known.block_of(BlockId::Latest) is Ask ==> known.best_names_state(),
        known.block_of(BlockId::Latest) matches Lookup::Ready(Some(bytes)) ==> (
        known.best_names_state() <==> blocks::names_state(bytes@)),
{
}

/// The current state is that of the best block: its root is the hash that stands
/// as the fourth item of the first item of the block, and new accounts start as
/// the engine says. The nonce and the code of an account are those that the
/// account has there.
pub proof fn law_accounts_are_read_at_the_best_block<T: Opaque>(
    known: Known<T>,
    best: H256,
    bytes: Bytes,
    start: U256,
    address: Address,
)
    requires
        known.best_block_hash == Some(best),
        known.block.contains_key(best),
        known.block[best] == Some(bytes),
        known.account_start_nonce == Some(start),
    ensures
        ({
            let root = blocks::hash_from(
                crate::rlp::payload(crate::rlp::item(crate::rlp::item(bytes@, 0), 3)),
            );
            let state = StateId { root, account_start_nonce: start };
            let account = AccountSearch { state, address };
            &&& known.current_state() == Lookup::Ready(state)
            &&& known.nonce.contains_key(account) ==> known.nonce_of(address) == Lookup::Ready(
                known.nonce[account],
            )
            &&& !known.nonce.contains_key(account) ==> known.nonce_of(address) == Lookup::<
                U256,
            >::Ask(Request::Nonce(account))
            &&& known.code.contains_key(account) ==> known.code_of(address) == Lookup::Ready(
                known.code[account],
            )
            &&& !known.code.contains_key(account) ==> known.code_of(address) == Lookup::<
                Option<Bytes>,
            >::Ask(Request::Code(account))
        }),
{
}

/// The reads of accounts ask for the best block and for the start of accounts
/// before anything else.
pub proof fn law_accounts_wait_for_the_best_block<T: Opaque>(known: Known<T>, address: Address)
    ensures
        known.block_of(BlockId::Latest) matches Lookup::Ask(request) ==> {
            &&& known.current_state() == Lookup::<StateId>::Ask(request)
            &&& known.nonce_of(address) == Lookup::<U256>::Ask(request)
            &&& known.code_of(address) == Lookup::<Option<Bytes>>::Ask(request)
        },
        known.block_of(BlockId::Latest) is Ready && known.account_start_nonce is None ==> {
            &&& known.current_state() == Lookup::<StateId>::Ask(Request::AccountStartNonce)
            &&& known.nonce_of(address) == Lookup::<U256>::Ask(Request::AccountStartNonce)
            &&& known.code_of(address) == Lookup::<Option<Bytes>>::Ask(Request::AccountStartNonce)
        },
{
}

/// Whether the details of the first `n` of `hashes` have been read, and the
/// chain has them.
pub open spec fn all_have_details(
    details: Map<H256, Option<BlockDetails>>,
    hashes: Seq<H256>,
    n: int,
) -> bool {
    forall|j: int|
        #![trigger hashes[j]]
        0 <= j < n ==> details.contains_key(hashes[j]) && details[hashes[j]] is Some
}

/// The hashes that a block can see are 256. The first is that of its parent, and
/// each further one is the parent of the one before, as long as the chain has
/// details of all that came before; from the first gap on they are zero.
pub proof fn law_seen_hashes<T: Opaque>(known: Known<T>, parent: H256, hashes: Seq<H256>)
    requires
        known.lineage(parent, hashes),
    ensures
        hashes.len() == 256,
        hashes[0] == parent,
        forall|i: int|
            #![trigger hashes[i]]
            0 < i < 256 && all_have_details(known.block_details, hashes, i) ==> hashes[i]
                == known.block_details[hashes[i - 1]]->0.parent,
        forall|i: int|
            #![trigger hashes[i]]
            0 < i < 256 && !all_have_details(known.block_details, hashes, i) ==> hashes[i] == (
            H256 { hi: 0, lo: 0 }),
{
    law_last_hashes(known, parent, hashes, hashes);
    assert forall|i: int|
        #![trigger hashes[i]]
        0 < i < 256 && all_have_details(known.block_details, hashes, i) implies hashes[i]
        == known.block_details[hashes[i - 1]]->0.parent by {
        lemma_details_lead_up(known, parent, hashes, i);
        assert(known.shows_ancestor(parent, i as nat, hashes[i]));
    }
    assert forall|i: int|
        #![trigger hashes[i]]
        0 < i < 256 && !all_have_details(known.block_details, hashes, i) implies hashes[i] == (
    H256 { hi: 0, lo: 0 }) by {
        lemma_gap_ends(known, parent, hashes, i);
        assert(known.shows_ancestor(parent, i as nat, hashes[i]));
    }
}

/// As long as there are details, there are ancestors.
proof fn lemma_details_lead_up<T: Opaque>(
    known: Known<T>,
    parent: H256,
    hashes: Seq<H256>,
    i: int,
)
    requires
        known.lineage(parent, hashes),
        0 <= i < 256,
        all_have_details(known.block_details, hashes, i),
    ensures
        known.ancestor(parent, i as nat) == Lookup::Ready(Some(hashes[i])),
        i > 0 ==> hashes[i] == known.block_details[hashes[i - 1]]->0.parent,
    decreases i,
{
    assert(known.shows_ancestor(parent, i as nat, hashes[i]));
    if i > 0 {
        assert(all_have_details(known.block_details, hashes, i - 1));
        lemma_details_lead_up(known, parent, hashes, i - 1);
        assert(known.block_details[hashes[i - 1]] is Some);
    }
}

/// Behind a gap in the details there are no ancestors.
proof fn lemma_gap_ends<T: Opaque>(known: Known<T>, parent: H256, hashes: Seq<H256>, i: int)
    requires
        known.lineage(parent, hashes),
        0 <= i < 256,
        !all_have_details(known.block_details, hashes, i),
    ensures
        known.ancestor(parent, i as nat) == Lookup::Ready(None::<H256>),
    decreases i,
{
    assert(known.shows_ancestor(parent, i as nat, hashes[i]));
    if i > 0 {
        if all_have_details(known.block_details, hashes, i - 1) {
            lemma_details_lead_up(known, parent, hashes, i - 1);
            assert(!(known.block_details.contains_key(hashes[i - 1])
                && known.block_details[hashes[i - 1]] is Some)) by {
                assert(exists|j: int|
                    #![trigger hashes[j]]
                    0 <= j < i && !(known.block_details.contains_key(hashes[j])
                        && known.block_details[hashes[j]] is Some));
            }
        } else {
            lemma_gap_ends(known, parent, hashes, i - 1);
        }
    }
}

/// A new block is put on top of the best one. It names the uncles that the chain
/// finds for the best block within the allowed age, in their order, as many as
/// there are and as are allowed. Without the header of the best block there is
/// no new block.
pub proof fn law_new_block<T: Opaque>(known: Known<T>, rules: UncleRules, best: H256)
    requires
        known.complete(),
        known.best_block_hash == Some(best),
    ensures
        match known.block_header[best] {
            None => known.groundwork(rules) matches Lookup::Ready(ground) && ground is None,
            Some(parent) => {
                let candidates = known.uncle_headers[
                    UncleSearch { parent: best, age: rules.maximum_age }
                ]@;
                &&& known.groundwork(rules) matches Lookup::Ready(Some(ground))
                &&& ground.parent_hash == best
                &&& ground.parent == parent
                &&& ground.uncles.len() <= candidates.len()
                &&& ground.uncles.len() <= rules.maximum_count
                &&& ground.uncles.len() == candidates.len() || ground.uncles.len()
                    == rules.maximum_count
                &&& forall|i: int|
                    0 <= i < ground.uncles.len() ==> #[trigger] ground.uncles[i] == candidates[i]
            },
        },
{
    assert(known.answers(Request::BlockHeader(best)));
    assert(known.answers(
        Request::UncleHeaders(UncleSearch { parent: best, age: rules.maximum_age }),
    ));
    law_ancestors_hold_on(known, known, best, 255);
    if let Lookup::Ask(request) = known.ancestor(best, 255) {
        assert(known.answers(request));
    }
}

/// The questions for a new block are those for the best block, its header, the
/// details of its ancestors and its uncles.
pub proof fn law_new_block_questions<T: Opaque>(known: Known<T>, rules: UncleRules)
    ensures
        known.best_block_hash is None ==> {
            known.groundwork(rules) matches Lookup::Ask(request) && request
                == Request::BestBlockHash
        },
        known.best_block_hash matches Some(best) ==> {
            &&& !known.block_header.contains_key(best) ==> {
                known.groundwork(rules) matches Lookup::Ask(request) && request
                    == Request::BlockHeader(best)
            }
            &&& known.block_header.contains_key(best) ==> {
                known.groundwork(rules) matches Lookup::Ask(request) ==> request is BlockDetails
                    || request == Request::UncleHeaders(
                    UncleSearch { parent: best, age: rules.maximum_age },
                )
            }
        },
{
    if let Some(best) = known.best_block_hash {
        lemma_ancestors_ask_for_details(known, best, 255);
    }
}

/// What stands in the way of an ancestor are details.
pub proof fn lemma_ancestors_ask_for_details<T: Opaque>(known: Known<T>, hash: H256, n: nat)
    ensures
        known.ancestor(hash, n) matches Lookup::Ask(request) ==> request is BlockDetails,
    decreases n,
{
    if n > 0 {
        lemma_ancestors_ask_for_details(known, hash, (n - 1) as nat);
    }
}

/// Borrowed headers are the headers that they point at, one for one.
pub proof fn law_borrowed_headers<'a, H>(headers: Seq<&'a H>)
    ensures
        pointed_at(headers).len() == headers.len(),
        forall|i: int|
            0 <= i < headers.len() ==> #[trigger] pointed_at(headers)[i] == *headers[i],
{
}

/// A value that is lent is the value that is wanted: it is there exactly if the
/// other is, and is the same; and the questions are the same.
pub proof fn law_lending_is_faithful<V>(
    got: Lookup<&V>,
    want: Lookup<V>,
    got_option: Lookup<Option<&V>>,
    want_option: Lookup<Option<V>>,
    got_bytes: Lookup<Option<Bytes>>,
    want_bytes: Lookup<Option<Seq<u8>>>,
)
    ensures
        lends(got, want) <==> match (got, want) {
            (Lookup::Ready(a), Lookup::Ready(b)) => *a == b,
            (Lookup::Ask(a), Lookup::Ask(b)) => a == b,
            _ => false,
        },
        lends_option(got_option, want_option) <==> match (got_option, want_option) {
            (Lookup::Ready(Some(a)), Lookup::Ready(Some(b))) => *a == b,
            (Lookup::Ready(None), Lookup::Ready(None)) => true,
            (Lookup::Ask(a), Lookup::Ask(b)) => a == b,
            _ => false,
        },
        gives_bytes(got_bytes, want_bytes) <==> match (got_bytes, want_bytes) {
            (Lookup::Ready(Some(a)), Lookup::Ready(Some(b))) => a@ == b,
            (Lookup::Ready(None), Lookup::Ready(None)) => true,
            (Lookup::Ask(a), Lookup::Ask(b)) => a == b,
            _ => false,
        },
{
}

/// What is known is what has been recorded, question for question.
pub proof fn law_recorded_answers_are_known<T: Opaque>(answers: Answers<T>)
    ensures
        answers@.best_block_hash == answers.best_block_hash,
        answers@.best_block_number == answers.best_block_number,
        answers@.best_block_total_difficulty == answers.best_block_total_difficulty,
        answers@.genesis_hash == answers.genesis_hash,
        answers@.block_hash == answers.block_hash@,
        answers@.block_number == answers.block_number@,
        answers@.is_known == answers.is_known@,
        answers@.block == answers.block@,
        answers@.block_details == answers.block_details@,
        answers@.block_header == answers.block_header@,
        answers@.block_receipts == answers.block_receipts@,
        answers@.transaction_hashes == answers.transaction_hashes@,
        answers@.transaction_address == answers.transaction_address@,
        answers@.transaction == answers.transaction@,
        answers@.tree_route == answers.tree_route@,
        answers@.blocks_with_bloom == answers.blocks_with_bloom@,
        answers@.uncle_headers == answers.uncle_headers@,
        answers@.queue_status == answers.queue_status@,
        answers@.queue_total_difficulty == answers.queue_total_difficulty,
        answers@.account_start_nonce == answers.account_start_nonce,
        answers@.nonce == answers.nonce@,
        answers@.code == answers.code@,
{
}

} // verus!
