use ethcore_client::answers::{
    AccountSearch, Answers, BloomSearch, Lookup, Request, RouteEnds,
};
use ethcore_client::client::Client;
use ethcore_client::reads::LAST_HASHES;
use ethcore_client::report::BlockChainInfo;
use ethcore_client::rlp::copy_item;
use ethcore_client::types::{
    Address, BlockDetails, BlockId, BlockStatus, ImportError, Opaque, StateId, TransactionAddress,
    TransactionId, H2048, H256, U256,
};

struct Plain;

impl Opaque for Plain {
    type Header = &'static str;
    type LocalizedTransaction = &'static str;
    type TreeRoute = &'static str;
    type LogEntry = &'static str;
    type ClosedBlock = &'static str;
    type Error = &'static str;
}

fn hash(n: u128) -> H256 {
    H256 { hi: 7, lo: n }
}

fn number(n: u128) -> U256 {
    U256 { hi: 0, lo: n }
}

fn details(parent: H256, total: u128) -> BlockDetails {
    BlockDetails { parent, total_difficulty: number(total) }
}

/// A block: a list of a header of two bytes, of no transactions and of one uncle.
fn block() -> Vec<u8> {
    vec![0xc6, 0x82, 0xaa, 0xbb, 0xc0, 0xc1, 0x05]
}

fn encoded_hash(hash: H256) -> Vec<u8> {
    let mut item = vec![0xa0];
    item.extend_from_slice(&hash.hi.to_be_bytes());
    item.extend_from_slice(&hash.lo.to_be_bytes());
    item
}

/// A block with a header that names its parent and its state.
fn full_block(parent: H256, state_root: H256) -> Vec<u8> {
    let mut fields = encoded_hash(parent);
    fields.extend(encoded_hash(hash(0xffff)));
    fields.push(0x94);
    fields.extend([0x11; 20]);
    fields.extend(encoded_hash(state_root));
    fields.push(0x05);
    let mut block = vec![0xf8, (fields.len() + 4) as u8, 0xf8, fields.len() as u8];
    block.extend(fields);
    block.extend([0xc0, 0xc0]);
    block
}

#[test]
fn hash_names_itself() {
    let answers: Answers<Plain> = Answers::new();
    assert_eq!(Client::block_hash(&answers, BlockId::Hash(hash(1))), Lookup::Ready(Some(hash(1))));
}

#[test]
fn number_is_looked_up_in_the_best_chain() {
    let mut answers: Answers<Plain> = Answers::new();
    let id = BlockId::Number(12);
    assert_eq!(Client::block_hash(&answers, id), Lookup::Ask(Request::BlockHash(12)));
    answers.block_hash.record(12, Some(hash(3)));
    assert_eq!(Client::block_hash(&answers, id), Lookup::Ready(Some(hash(3))));
    answers.block_hash.record(13, None);
    assert_eq!(Client::block_hash(&answers, BlockId::Number(13)), Lookup::Ready(None));
}

#[test]
fn earliest_block_is_number_zero() {
    let mut answers: Answers<Plain> = Answers::new();
    assert_eq!(Client::block_hash(&answers, BlockId::Earliest), Lookup::Ask(Request::BlockHash(0)));
    answers.block_hash.record(0, Some(hash(9)));
    assert_eq!(Client::block_hash(&answers, BlockId::Earliest), Lookup::Ready(Some(hash(9))));
    assert_eq!(Client::block_number(&answers, BlockId::Earliest), Lookup::Ready(Some(0)));
}

#[test]
fn latest_block_is_the_best_one() {
    let mut answers: Answers<Plain> = Answers::new();
    assert_eq!(Client::block_hash(&answers, BlockId::Latest), Lookup::Ask(Request::BestBlockHash));
    assert_eq!(
        Client::block_number(&answers, BlockId::Latest),
        Lookup::Ask(Request::BestBlockNumber)
    );
    answers.best_block_hash = Some(hash(4));
    answers.best_block_number = Some(77);
    assert_eq!(Client::block_hash(&answers, BlockId::Latest), Lookup::Ready(Some(hash(4))));
    assert_eq!(Client::block_number(&answers, BlockId::Latest), Lookup::Ready(Some(77)));
}

#[test]
fn number_of_a_hash_is_looked_up() {
    let mut answers: Answers<Plain> = Answers::new();
    let id = BlockId::Hash(hash(5));
    assert_eq!(Client::block_number(&answers, id), Lookup::Ask(Request::BlockNumber(hash(5))));
    answers.block_number.record(hash(5), Some(21));
    assert_eq!(Client::block_number(&answers, id), Lookup::Ready(Some(21)));
    assert_eq!(Client::block_number(&answers, BlockId::Number(8)), Lookup::Ready(Some(8)));
}

#[test]
fn later_answer_replaces_an_earlier_one() {
    let mut answers: Answers<Plain> = Answers::new();
    answers.block_hash.record(1, None);
    answers.block_hash.record(1, Some(hash(2)));
    assert_eq!(Client::block_hash(&answers, BlockId::Number(1)), Lookup::Ready(Some(hash(2))));
}

#[test]
fn block_parts_are_cut_out() {
    let mut answers: Answers<Plain> = Answers::new();
    let id = BlockId::Hash(hash(1));
    assert_eq!(Client::block(&answers, id), Lookup::Ask(Request::Block(hash(1))));
    assert_eq!(Client::block_header(&answers, id), Lookup::Ask(Request::Block(hash(1))));
    assert_eq!(Client::block_body(&answers, id), Lookup::Ask(Request::Block(hash(1))));
    answers.block.record(hash(1), Some(block()));
    assert_eq!(Client::block(&answers, id), Lookup::Ready(Some(&block())));
    assert_eq!(Client::block_header(&answers, id), Lookup::Ready(Some(vec![0x82, 0xaa, 0xbb])));
    assert_eq!(Client::block_body(&answers, id), Lookup::Ready(Some(vec![0xc3, 0xc0, 0xc1, 0x05])));
}

#[test]
fn missing_block_has_no_parts() {
    let mut answers: Answers<Plain> = Answers::new();
    answers.block.record(hash(1), None);
    answers.block_hash.record(3, None);
    for id in [BlockId::Hash(hash(1)), BlockId::Number(3)] {
        assert_eq!(Client::block(&answers, id), Lookup::Ready(None));
        assert_eq!(Client::block_header(&answers, id), Lookup::Ready(None));
        assert_eq!(Client::block_body(&answers, id), Lookup::Ready(None));
    }
}

#[test]
fn current_state_is_that_of_the_best_block() {
    let mut answers: Answers<Plain> = Answers::new();
    assert_eq!(Client::state(&answers), Lookup::Ask(Request::BestBlockHash));
    answers.best_block_hash = Some(hash(1));
    assert_eq!(Client::state(&answers), Lookup::Ask(Request::Block(hash(1))));
    let root = H256 { hi: 0x0102_0304 << 96, lo: 0x99 };
    answers.block.record(hash(1), Some(full_block(hash(2), root)));
    assert_eq!(Client::state(&answers), Lookup::Ask(Request::AccountStartNonce));
    answers.account_start_nonce = Some(number(5));
    assert_eq!(
        Client::state(&answers),
        Lookup::Ready(StateId { root, account_start_nonce: number(5) })
    );
}

#[test]
fn accounts_are_read_in_the_current_state() {
    let mut answers: Answers<Plain> = Answers::new();
    let address = Address { bytes: [9; 20] };
    let other = Address { bytes: [8; 20] };
    assert_eq!(Client::nonce(&answers, &address), Lookup::Ask(Request::BestBlockHash));
    answers.best_block_hash = Some(hash(1));
    answers.block.record(hash(1), Some(full_block(hash(2), hash(3))));
    assert_eq!(Client::code(&answers, &address), Lookup::Ask(Request::AccountStartNonce));
    answers.account_start_nonce = Some(number(0));
    let state = StateId { root: hash(3), account_start_nonce: number(0) };
    let search = AccountSearch { state, address };
    assert_eq!(Client::nonce(&answers, &address), Lookup::Ask(Request::Nonce(search)));
    assert_eq!(Client::code(&answers, &address), Lookup::Ask(Request::Code(search)));
    answers.nonce.record(search, number(7));
    answers.code.record(search, Some(vec![0x60]));
    assert_eq!(Client::nonce(&answers, &address), Lookup::Ready(number(7)));
    assert_eq!(Client::code(&answers, &address), Lookup::Ready(Some(&vec![0x60])));
    let search = AccountSearch { state, address: other };
    assert_eq!(Client::nonce(&answers, &other), Lookup::Ask(Request::Nonce(search)));
    answers.code.record(search, None);
    assert_eq!(Client::code(&answers, &other), Lookup::Ready(None));
}

#[test]
fn information_agrees_with_the_blocks() {
    let mut answers: Answers<Plain> = Answers::new();
    answers.best_block_hash = Some(hash(2));
    answers.best_block_number = Some(1);
    answers.best_block_total_difficulty = Some(number(30));
    answers.queue_total_difficulty = Some(number(12));
    answers.genesis_hash = Some(hash(1));
    answers.block_hash.record(0, Some(hash(1)));
    answers.block_details.record(hash(2), Some(details(hash(1), 30)));
    let info = match Client::chain_info(&answers) {
        Lookup::Ready(info) => info,
        Lookup::Ask(_) => panic!("all is known"),
    };
    assert_eq!(
        Client::block_hash(&answers, BlockId::Earliest),
        Lookup::Ready(Some(info.genesis_hash))
    );
    assert_eq!(
        Client::block_total_difficulty(&answers, BlockId::Latest),
        Lookup::Ready(Some(info.total_difficulty))
    );
    assert_eq!(info.pending_total_difficulty, number(12));
}

#[test]
fn block_is_put_together_from_its_parts() {
    let mut answers: Answers<Plain> = Answers::new();
    let id = BlockId::Hash(hash(1));
    answers.block.record(hash(1), Some(block()));
    match (Client::block_header(&answers, id), Client::block_body(&answers, id)) {
        (Lookup::Ready(Some(header)), Lookup::Ready(Some(body))) => {
            let mut whole = vec![0xc0 + (header.len() + body.len() - 1) as u8];
            whole.extend(header);
            whole.extend(&body[1..]);
            assert_eq!(whole, block());
        }
        _ => panic!("the block is known"),
    }
}

#[test]
fn chain_comes_before_queue_in_status() {
    let mut answers: Answers<Plain> = Answers::new();
    let id = BlockId::Hash(hash(1));
    assert_eq!(Client::block_status(&answers, id), Lookup::Ask(Request::IsKnown(hash(1))));
    answers.is_known.record(hash(1), false);
    assert_eq!(Client::block_status(&answers, id), Lookup::Ask(Request::QueueStatus(hash(1))));
    for status in [BlockStatus::Queued, BlockStatus::Bad, BlockStatus::Unknown] {
        answers.queue_status.record(hash(1), status);
        assert_eq!(Client::block_status(&answers, id), Lookup::Ready(status));
    }
    answers.is_known.record(hash(1), true);
    assert_eq!(Client::block_status(&answers, id), Lookup::Ready(BlockStatus::InChain));
}

#[test]
fn status_of_a_number_without_a_block_is_unknown() {
    let mut answers: Answers<Plain> = Answers::new();
    answers.block_hash.record(50, None);
    assert_eq!(
        Client::block_status(&answers, BlockId::Number(50)),
        Lookup::Ready(BlockStatus::Unknown)
    );
}

#[test]
fn total_difficulty_comes_from_the_details() {
    let mut answers: Answers<Plain> = Answers::new();
    let id = BlockId::Number(2);
    answers.block_hash.record(2, Some(hash(8)));
    assert_eq!(
        Client::block_total_difficulty(&answers, id),
        Lookup::Ask(Request::BlockDetails(hash(8)))
    );
    answers.block_details.record(hash(8), Some(details(hash(7), 400)));
    assert_eq!(Client::block_total_difficulty(&answers, id), Lookup::Ready(Some(number(400))));
    answers.block_details.record(hash(8), None);
    assert_eq!(Client::block_total_difficulty(&answers, id), Lookup::Ready(None));
    answers.block_hash.record(2, None);
    assert_eq!(Client::block_total_difficulty(&answers, id), Lookup::Ready(None));
}

#[test]
fn transaction_is_found_by_hash() {
    let mut answers: Answers<Plain> = Answers::new();
    let id = TransactionId::Hash(hash(1));
    let address = TransactionAddress { block_hash: hash(2), index: 3 };
    assert_eq!(Client::transaction(&answers, id), Lookup::Ask(Request::TransactionAddress(hash(1))));
    answers.transaction_address.record(hash(1), Some(address));
    assert_eq!(Client::transaction(&answers, id), Lookup::Ask(Request::Transaction(address)));
    answers.transaction.record(address, Some("transaction"));
    assert_eq!(Client::transaction(&answers, id), Lookup::Ready(Some(&"transaction")));
    answers.transaction_address.record(hash(1), None);
    assert_eq!(Client::transaction(&answers, id), Lookup::Ready(None));
}

#[test]
fn transaction_is_found_by_location() {
    let mut answers: Answers<Plain> = Answers::new();
    let id = TransactionId::Location(BlockId::Latest, 5);
    let address = TransactionAddress { block_hash: hash(2), index: 5 };
    assert_eq!(Client::transaction(&answers, id), Lookup::Ask(Request::BestBlockHash));
    answers.best_block_hash = Some(hash(2));
    assert_eq!(Client::transaction(&answers, id), Lookup::Ask(Request::Transaction(address)));
    answers.transaction.record(address, None);
    assert_eq!(Client::transaction(&answers, id), Lookup::Ready(None));
}

#[test]
fn route_needs_both_ends() {
    let mut answers: Answers<Plain> = Answers::new();
    let (from, to) = (hash(1), hash(2));
    assert_eq!(Client::tree_route(&answers, &from, &to), Lookup::Ask(Request::IsKnown(from)));
    answers.is_known.record(from, true);
    assert_eq!(Client::tree_route(&answers, &from, &to), Lookup::Ask(Request::IsKnown(to)));
    answers.is_known.record(to, true);
    let ends = RouteEnds { from, to };
    assert_eq!(Client::tree_route(&answers, &from, &to), Lookup::Ask(Request::TreeRoute(ends)));
    answers.tree_route.record(ends, "route");
    assert_eq!(Client::tree_route(&answers, &from, &to), Lookup::Ready(Some(&"route")));
    answers.is_known.record(to, false);
    assert_eq!(Client::tree_route(&answers, &from, &to), Lookup::Ready(None));
    answers.is_known.record(from, false);
    assert_eq!(Client::tree_route(&answers, &from, &hash(3)), Lookup::Ready(None));
}

#[test]
fn neither_state_data_nor_receipts_are_kept() {
    assert_eq!(Client::<Plain>::state_data(&hash(1)), None);
    assert_eq!(Client::<Plain>::block_receipts(&hash(1)), None);
}

#[test]
fn chain_info_is_gathered() {
    let mut answers: Answers<Plain> = Answers::new();
    assert_eq!(Client::chain_info(&answers), Lookup::Ask(Request::BestBlockTotalDifficulty));
    answers.best_block_total_difficulty = Some(number(1000));
    assert_eq!(Client::chain_info(&answers), Lookup::Ask(Request::QueueTotalDifficulty));
    answers.queue_total_difficulty = Some(number(1234));
    assert_eq!(Client::chain_info(&answers), Lookup::Ask(Request::GenesisHash));
    answers.genesis_hash = Some(hash(1));
    assert_eq!(Client::chain_info(&answers), Lookup::Ask(Request::BestBlockHash));
    answers.best_block_hash = Some(hash(2));
    assert_eq!(Client::chain_info(&answers), Lookup::Ask(Request::BestBlockNumber));
    answers.best_block_number = Some(3);
    assert_eq!(
        Client::chain_info(&answers),
        Lookup::Ready(BlockChainInfo {
            total_difficulty: number(1000),
            pending_total_difficulty: number(1234),
            genesis_hash: hash(1),
            best_block_hash: hash(2),
            best_block_number: 3,
        })
    );
}

#[test]
fn bloom_search_needs_two_numbers() {
    let mut answers: Answers<Plain> = Answers::new();
    let mut words = [0u64; 32];
    words[31] = 5;
    let bloom = H2048 { words };
    let other = H2048 { words: [0u64; 32] };
    let from = BlockId::Number(3);
    let to = BlockId::Latest;
    assert_eq!(
        Client::blocks_with_bloom(&answers, &bloom, from, to),
        Lookup::Ask(Request::BestBlockNumber)
    );
    answers.best_block_number = Some(9);
    let search = BloomSearch { bloom, from: 3, to: 9 };
    assert_eq!(
        Client::blocks_with_bloom(&answers, &bloom, from, to),
        Lookup::Ask(Request::BlocksWithBloom(search))
    );
    answers.blocks_with_bloom.record(search, vec![4, 8]);
    assert_eq!(
        Client::blocks_with_bloom(&answers, &bloom, from, to),
        Lookup::Ready(Some(&vec![4, 8]))
    );
    let unseen = BloomSearch { bloom: other, from: 3, to: 9 };
    assert_eq!(
        Client::blocks_with_bloom(&answers, &other, from, to),
        Lookup::Ask(Request::BlocksWithBloom(unseen))
    );
    answers.block_number.record(hash(1), None);
    assert_eq!(
        Client::blocks_with_bloom(&answers, &bloom, BlockId::Hash(hash(1)), to),
        Lookup::Ready(None)
    );
    assert_eq!(
        Client::blocks_with_bloom(&answers, &bloom, from, BlockId::Hash(hash(1))),
        Lookup::Ready(None)
    );
}

#[test]
fn known_block_is_not_imported_again() {
    let mut answers: Answers<Plain> = Answers::new();
    let (block, parent) = (hash(1), hash(2));
    let bytes = full_block(parent, hash(3));
    assert_eq!(
        Client::import_block(&answers, &bytes, &block),
        Lookup::Ask(Request::IsKnown(block))
    );
    answers.is_known.record(block, true);
    assert_eq!(
        Client::import_block(&answers, &bytes, &block),
        Lookup::Ready(Err(ImportError::AlreadyInChain))
    );
}

#[test]
fn parent_of_a_known_block_is_not_looked_at() {
    let mut answers: Answers<Plain> = Answers::new();
    answers.is_known.record(hash(1), true);
    assert_eq!(
        Client::import_block(&answers, &block(), &hash(1)),
        Lookup::Ready(Err(ImportError::AlreadyInChain))
    );
}

#[test]
fn block_with_unknown_parent_is_not_imported() {
    let mut answers: Answers<Plain> = Answers::new();
    let (block, parent) = (hash(1), hash(2));
    let bytes = full_block(parent, hash(3));
    answers.is_known.record(block, false);
    assert_eq!(
        Client::import_block(&answers, &bytes, &block),
        Lookup::Ask(Request::IsKnown(parent))
    );
    answers.is_known.record(parent, false);
    assert_eq!(
        Client::import_block(&answers, &bytes, &block),
        Lookup::Ask(Request::QueueStatus(parent))
    );
    answers.queue_status.record(parent, BlockStatus::Unknown);
    assert_eq!(
        Client::import_block(&answers, &bytes, &block),
        Lookup::Ready(Err(ImportError::UnknownParent(parent)))
    );
}

#[test]
fn block_with_known_or_queued_parent_is_imported() {
    let mut answers: Answers<Plain> = Answers::new();
    let (block, parent) = (hash(1), hash(2));
    let bytes = full_block(parent, hash(3));
    answers.is_known.record(block, false);
    answers.is_known.record(parent, true);
    assert_eq!(Client::import_block(&answers, &bytes, &block), Lookup::Ready(Ok(())));
    answers.is_known.record(parent, false);
    for status in [BlockStatus::Queued, BlockStatus::Bad, BlockStatus::InChain] {
        answers.queue_status.record(parent, status);
        assert_eq!(Client::import_block(&answers, &bytes, &block), Lookup::Ready(Ok(())));
    }
}

#[test]
fn last_hashes_are_filled_up_with_zeros() {
    let mut answers: Answers<Plain> = Answers::new();
    assert_eq!(
        Client::build_last_hashes(&answers, hash(3)),
        Lookup::Ask(Request::BlockDetails(hash(3)))
    );
    answers.block_details.record(hash(3), Some(details(hash(2), 1)));
    answers.block_details.record(hash(2), Some(details(hash(1), 1)));
    assert_eq!(
        Client::build_last_hashes(&answers, hash(3)),
        Lookup::Ask(Request::BlockDetails(hash(1)))
    );
    answers.block_details.record(hash(1), None);
    let mut expected = vec![H256::new(); 256];
    expected[0] = hash(3);
    expected[1] = hash(2);
    expected[2] = hash(1);
    assert_eq!(Client::build_last_hashes(&answers, hash(3)), Lookup::Ready(expected));
}

#[test]
fn last_hashes_go_back_far_enough_and_no_further() {
    let mut answers: Answers<Plain> = Answers::new();
    for n in 1..1000u128 {
        answers.block_details.record(hash(n), Some(details(hash(n - 1), 1)));
    }
    let expected: Vec<H256> = (0..256u128).map(|i| hash(999 - i)).collect();
    assert_eq!(LAST_HASHES, 256);
    assert_eq!(Client::build_last_hashes(&answers, hash(999)), Lookup::Ready(expected));
}

#[test]
fn answers_from_a_chain_lead_to_what_the_chain_holds() {
    let mut answers: Answers<Plain> = Answers::new();
    let mut questions = 0;
    let status = loop {
        match Client::block_status(&answers, BlockId::Number(6)) {
            Lookup::Ready(status) => break status,
            Lookup::Ask(Request::BlockHash(n)) => answers.block_hash.record(n, Some(hash(n as u128))),
            Lookup::Ask(Request::IsKnown(h)) => answers.is_known.record(h, false),
            Lookup::Ask(Request::QueueStatus(h)) => answers.queue_status.record(h, BlockStatus::Queued),
            Lookup::Ask(_) => panic!("unexpected question"),
        }
        questions += 1;
    };
    assert_eq!(status, BlockStatus::Queued);
    assert_eq!(questions, 3);
}

#[test]
fn more_answers_do_not_change_a_result() {
    let mut answers: Answers<Plain> = Answers::new();
    answers.block_hash.record(2, Some(hash(2)));
    answers.is_known.record(hash(2), true);
    let id = BlockId::Number(2);
    assert_eq!(Client::block_status(&answers, id), Lookup::Ready(BlockStatus::InChain));
    answers.queue_status.record(hash(2), BlockStatus::Bad);
    answers.block_hash.record(3, None);
    answers.best_block_hash = Some(hash(9));
    assert_eq!(Client::block_status(&answers, id), Lookup::Ready(BlockStatus::InChain));
}

#[test]
fn body_holds_the_items_of_the_block() {
    let mut answers: Answers<Plain> = Answers::new();
    answers.block.record(hash(1), Some(block()));
    match Client::block_body(&answers, BlockId::Hash(hash(1))) {
        Lookup::Ready(Some(body)) => {
            assert_eq!(copy_item(&body, 0), copy_item(&block(), 1));
            assert_eq!(copy_item(&body, 1), copy_item(&block(), 2));
        }
        _ => panic!("the body is to be found"),
    }
}

#[test]
fn questions_are_not_repeated() {
    let mut answers: Answers<Plain> = Answers::new();
    let mut asked: Vec<Request> = vec![];
    let route = loop {
        let request = match Client::tree_route(&answers, &hash(1), &hash(2)) {
            Lookup::Ready(route) => break route.cloned(),
            Lookup::Ask(request) => request,
        };
        assert!(!asked.contains(&request));
        asked.push(request);
        match request {
            Request::IsKnown(h) => answers.is_known.record(h, true),
            Request::TreeRoute(ends) => answers.tree_route.record(ends, "route"),
            _ => panic!("unexpected question"),
        }
    };
    assert_eq!(route, Some("route"));
    assert_eq!(asked.len(), 3);
}
