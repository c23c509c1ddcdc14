use ethcore_client::answers::{Answers, BloomSearch, Request};
use ethcore_client::client::Client;
use ethcore_client::logs::{check_indices, Filter, LogLookup};
use ethcore_client::types::{BlockId, CandidateLog, Opaque, Receipt, H2048, H256};

struct Plain;

impl Opaque for Plain {
    type Header = u8;
    type LocalizedTransaction = u8;
    type TreeRoute = u8;
    type LogEntry = &'static str;
    type ClosedBlock = u8;
    type Error = u8;
}

fn hash(n: u128) -> H256 {
    H256 { hi: 0, lo: n }
}

fn bloom(word: u64) -> H2048 {
    H2048 { words: [word; 32] }
}

fn receipt(logs: &[(&'static str, bool)]) -> Receipt<Plain> {
    Receipt {
        logs: logs
            .iter()
            .map(|(entry, selected)| CandidateLog { entry: *entry, selected: *selected })
            .collect(),
    }
}

fn filter(blooms: Vec<H2048>) -> Filter {
    Filter { from_block: BlockId::Earliest, to_block: BlockId::Number(9), bloom_possibilities: blooms }
}

fn search(word: u64) -> BloomSearch {
    BloomSearch { bloom: bloom(word), from: 0, to: 9 }
}

fn questions(answers: &Answers<Plain>, filter: &Filter) -> Vec<Request> {
    match Client::logs(answers, filter) {
        LogLookup::Ready(_) => vec![],
        LogLookup::Ask(requests) => requests,
    }
}

/// What is found, as (entry, block hash, block number, transaction hash,
/// transaction index, log index).
fn found(
    answers: &Answers<Plain>,
    filter: &Filter,
) -> Option<Vec<(&'static str, H256, usize, H256, usize, usize)>> {
    match Client::logs(answers, filter) {
        LogLookup::Ready(entries) => Some(
            entries
                .iter()
                .map(|e| {
                    (
                        *e.entry,
                        e.block_hash,
                        e.block_number,
                        e.transaction_hash,
                        e.transaction_index,
                        e.log_index,
                    )
                })
                .collect(),
        ),
        LogLookup::Ask(_) => None,
    }
}

#[test]
fn no_bloom_possibility_finds_nothing() {
    assert_eq!(found(&Answers::new(), &filter(vec![])), Some(vec![]));
}

#[test]
fn searches_are_made_one_after_the_other() {
    let mut answers = Answers::new();
    let filter = filter(vec![bloom(1), bloom(2)]);
    assert_eq!(questions(&answers, &filter), vec![Request::BlocksWithBloom(search(1))]);
    answers.blocks_with_bloom.record(search(1), vec![]);
    assert_eq!(questions(&answers, &filter), vec![Request::BlocksWithBloom(search(2))]);
    answers.blocks_with_bloom.record(search(2), vec![]);
    assert_eq!(found(&answers, &filter), Some(vec![]));
}

#[test]
fn range_without_an_end_finds_nothing() {
    let mut answers = Answers::new();
    answers.block_number.record(hash(1), None);
    let filter = Filter {
        from_block: BlockId::Hash(hash(1)),
        to_block: BlockId::Number(9),
        bloom_possibilities: vec![bloom(1)],
    };
    assert_eq!(found(&answers, &filter), Some(vec![]));
}

#[test]
fn blocks_are_searched_once_and_in_order() {
    let mut answers = Answers::new();
    let filter = filter(vec![bloom(1), bloom(2)]);
    answers.blocks_with_bloom.record(search(1), vec![7, 3, 7]);
    answers.blocks_with_bloom.record(search(2), vec![5, 3]);
    assert_eq!(
        questions(&answers, &filter),
        vec![Request::BlockHash(3), Request::BlockHash(5), Request::BlockHash(7)]
    );
    for n in [3, 5, 7] {
        answers.block_hash.record(n, Some(hash(n as u128)));
    }
    assert_eq!(
        questions(&answers, &filter),
        vec![
            Request::BlockReceipts(hash(3)),
            Request::BlockReceipts(hash(5)),
            Request::BlockReceipts(hash(7)),
        ]
    );
    for n in [7, 5, 3] {
        answers.block_receipts.record(hash(n), Some(vec![receipt(&[("log", true)])]));
    }
    assert_eq!(
        questions(&answers, &filter),
        vec![Request::Block(hash(3)), Request::Block(hash(5)), Request::Block(hash(7))]
    );
    for n in [3, 7, 5] {
        answers.block.record(hash(n), Some(vec![0xc0]));
    }
    assert_eq!(
        questions(&answers, &filter),
        vec![
            Request::TransactionHashes(hash(3)),
            Request::TransactionHashes(hash(5)),
            Request::TransactionHashes(hash(7)),
        ]
    );
    for n in [5, 7, 3] {
        answers.transaction_hashes.record(hash(n), vec![hash(100 + n)]);
    }
    assert_eq!(
        found(&answers, &filter),
        Some(vec![
            ("log", hash(3), 3, hash(103), 0, 1),
            ("log", hash(5), 5, hash(105), 0, 1),
            ("log", hash(7), 7, hash(107), 0, 1),
        ])
    );
}

#[test]
fn entries_are_localized() {
    let mut answers = Answers::new();
    let filter = filter(vec![bloom(1)]);
    answers.blocks_with_bloom.record(search(1), vec![4]);
    answers.block_hash.record(4, Some(hash(40)));
    answers.block_receipts.record(
        hash(40),
        Some(vec![
            receipt(&[("a", true), ("b", false), ("c", true)]),
            receipt(&[]),
            receipt(&[("d", false), ("e", true)]),
        ]),
    );
    answers.block.record(hash(40), Some(vec![0xc0]));
    answers.transaction_hashes.record(hash(40), vec![hash(1), hash(2)]);
    assert_eq!(
        found(&answers, &filter),
        Some(vec![
            ("a", hash(40), 4, hash(1), 0, 3),
            ("c", hash(40), 4, hash(1), 0, 5),
            ("e", hash(40), 4, H256::new(), 2, 6),
        ])
    );
}

#[test]
fn incomplete_blocks_have_no_entries() {
    let mut answers = Answers::new();
    let filter = filter(vec![bloom(1)]);
    answers.blocks_with_bloom.record(search(1), vec![1, 2, 3, 4]);
    answers.block_hash.record(1, None);
    answers.block_hash.record(2, Some(hash(2)));
    answers.block_receipts.record(hash(2), None);
    answers.block_hash.record(3, Some(hash(3)));
    answers.block_receipts.record(hash(3), Some(vec![receipt(&[("lost", true)])]));
    answers.block.record(hash(3), None);
    answers.block_hash.record(4, Some(hash(4)));
    answers.block_receipts.record(hash(4), Some(vec![receipt(&[("kept", true)])]));
    answers.block.record(hash(4), Some(vec![0xc0]));
    answers.transaction_hashes.record(hash(4), vec![]);
    assert_eq!(
        found(&answers, &filter),
        Some(vec![("kept", hash(4), 4, H256::new(), 0, 1)])
    );
}

#[test]
fn indices_of_ordinary_receipts_fit() {
    assert!(check_indices::<Plain>(&vec![]));
    assert!(check_indices(&vec![receipt(&[("a", true)]), receipt(&[]), receipt(&[("b", false)])]));
}

#[test]
fn search_ends_after_a_round_for_each_filter_and_six_more() {
    let mut answers = Answers::new();
    let filter = Filter {
        from_block: BlockId::Hash(hash(90)),
        to_block: BlockId::Latest,
        bloom_possibilities: vec![bloom(1), bloom(2)],
    };
    let mut rounds = 0;
    loop {
        let requests = questions(&answers, &filter);
        if requests.is_empty() {
            break;
        }
        rounds += 1;
        for request in requests {
            match request {
                Request::BlockNumber(h) => answers.block_number.record(h, Some(0)),
                Request::BestBlockNumber => answers.best_block_number = Some(9),
                Request::BlocksWithBloom(s) => answers.blocks_with_bloom.record(s, vec![2, 4]),
                Request::BlockHash(n) => answers.block_hash.record(n, Some(hash(n as u128))),
                Request::BlockReceipts(h) => {
                    answers.block_receipts.record(h, Some(vec![receipt(&[("log", true)])]))
                }
                Request::Block(h) => answers.block.record(h, Some(vec![0xc0])),
                Request::TransactionHashes(h) => answers.transaction_hashes.record(h, vec![]),
                _ => panic!("unexpected question"),
            }
        }
    }
    assert_eq!(rounds, 8);
    assert_eq!(
        found(&answers, &filter),
        Some(vec![
            ("log", hash(2), 2, H256::new(), 0, 1),
            ("log", hash(4), 4, H256::new(), 0, 1),
        ])
    );
}

#[test]
fn entries_come_in_order_and_none_is_lost() {
    let mut answers = Answers::new();
    let filter = filter(vec![bloom(1), bloom(2)]);
    answers.blocks_with_bloom.record(search(1), vec![8, 2]);
    answers.blocks_with_bloom.record(search(2), vec![2]);
    for n in [2, 8] {
        answers.block_hash.record(n, Some(hash(n as u128)));
        answers.block.record(hash(n as u128), Some(vec![0xc0]));
        answers.transaction_hashes.record(hash(n as u128), vec![]);
        answers.block_receipts.record(
            hash(n as u128),
            Some(vec![
                receipt(&[("a", true), ("b", true)]),
                receipt(&[("c", true)]),
                receipt(&[("d", false), ("e", true)]),
            ]),
        );
    }
    let places: Vec<_> = found(&answers, &filter)
        .unwrap()
        .into_iter()
        .map(|(entry, _, block, _, transaction, index)| (block, transaction, index, entry))
        .collect();
    assert_eq!(
        places,
        vec![
            (2, 0, 2, "a"),
            (2, 0, 3, "b"),
            (2, 1, 3, "c"),
            (2, 2, 6, "e"),
            (8, 0, 2, "a"),
            (8, 0, 3, "b"),
            (8, 1, 3, "c"),
            (8, 2, 6, "e"),
        ]
    );
    for pair in places.windows(2) {
        assert!(pair[0] < pair[1]);
    }
}
