use ethcore_client::answers::{Answers, Lookup, Request, UncleSearch};
use ethcore_client::client::{Client, ClosedBlock, SealAction, SealError, SealEvent};
use ethcore_client::sealing::UncleRules;
use ethcore_client::startup::{StartupAction, StartupEvent};
use ethcore_client::types::{Address, Opaque, H256};

struct Plain;

impl Opaque for Plain {
    type Header = &'static str;
    type LocalizedTransaction = u8;
    type TreeRoute = u8;
    type LogEntry = u8;
    type ClosedBlock = &'static str;
    type Error = &'static str;
}

fn hash(n: u128) -> H256 {
    H256 { hi: 0, lo: n }
}

fn client() -> Client<Plain> {
    let (mut startup, _) = Client::<Plain>::new_with_verifier(hash(0), "prefix", "archive");
    for event in [
        StartupEvent::ChainOpened,
        StartupEvent::EngineMade(Ok(())),
        StartupEvent::StateOpened(false),
    ] {
        let _: StartupAction<Plain> = startup.advance(event);
    }
    match startup.advance(StartupEvent::QueueStarted) {
        StartupAction::Done(client) => client,
        _ => panic!("the start did not come to its end"),
    }
}

fn submit(client: &mut Client<Plain>, n: u128) -> SealAction<Plain> {
    client.submit_seal(SealEvent::Submitted { pow_hash: hash(n), seal: vec![vec![1], vec![2]] })
}

#[test]
fn author_and_extra_data_are_kept() {
    let mut client = client();
    assert_eq!(client.author(), Address { bytes: [0u8; 20] });
    assert_eq!(client.extra_data(), Vec::<u8>::new());
    client.set_author(Address { bytes: [7u8; 20] });
    client.set_extra_data(vec![1, 2, 3]);
    assert_eq!(client.author(), Address { bytes: [7u8; 20] });
    assert_eq!(client.extra_data(), vec![1, 2, 3]);
}

#[test]
fn block_to_seal_is_prepared_once() {
    let mut client = client();
    assert!(client.block_to_seal().is_none());
    assert!(client.sealing_block());
    client.set_block_to_seal(ClosedBlock { hash: hash(1), block: "one" });
    assert!(!client.sealing_block());
    assert_eq!(client.block_to_seal().unwrap().block, "one");
    client.set_block_to_seal(ClosedBlock { hash: hash(2), block: "two" });
    assert_eq!(client.block_to_seal().unwrap().hash, hash(2));
}

#[test]
fn seal_without_a_block_is_refused() {
    let mut client = client();
    assert!(matches!(submit(&mut client, 1), SealAction::Done(Err(SealError::PowHashInvalid))));
}

#[test]
fn seal_for_another_block_is_refused() {
    let mut client = client();
    client.set_block_to_seal(ClosedBlock { hash: hash(1), block: "one" });
    assert!(matches!(submit(&mut client, 2), SealAction::Done(Err(SealError::PowHashInvalid))));
    assert_eq!(client.block_to_seal().unwrap().block, "one");
}

#[test]
fn seal_that_does_not_fit_puts_the_block_back() {
    let mut client = client();
    client.set_block_to_seal(ClosedBlock { hash: hash(1), block: "one" });
    let block = match submit(&mut client, 1) {
        SealAction::TrySeal { block, seal } => {
            assert_eq!(seal, vec![vec![1], vec![2]]);
            block
        }
        _ => panic!("the seal is to be tried"),
    };
    assert_eq!(block.block, "one");
    assert!(client.block_to_seal().is_none());
    assert!(matches!(
        client.submit_seal(SealEvent::Refused(block)),
        SealAction::Done(Err(SealError::PowInvalid))
    ));
    assert_eq!(client.block_to_seal().unwrap().block, "one");
}

#[test]
fn sealed_block_is_imported_and_gone() {
    let mut client = client();
    client.set_block_to_seal(ClosedBlock { hash: hash(1), block: "one" });
    assert!(matches!(submit(&mut client, 1), SealAction::TrySeal { .. }));
    match client.submit_seal(SealEvent::Sealed(vec![9, 9])) {
        SealAction::Import(bytes) => assert_eq!(bytes, vec![9, 9]),
        _ => panic!("the block is to be imported"),
    }
    assert!(matches!(client.submit_seal(SealEvent::Imported(Ok(()))), SealAction::Done(Ok(()))));
    assert!(matches!(submit(&mut client, 1), SealAction::Done(Err(SealError::PowHashInvalid))));
}

#[test]
fn failed_import_of_a_sealed_block_is_reported() {
    let mut client = client();
    client.set_block_to_seal(ClosedBlock { hash: hash(1), block: "one" });
    assert!(matches!(submit(&mut client, 1), SealAction::TrySeal { .. }));
    assert!(matches!(client.submit_seal(SealEvent::Sealed(vec![])), SealAction::Import(_)));
    assert!(matches!(
        client.submit_seal(SealEvent::Imported(Err("full"))),
        SealAction::Done(Err(SealError::Import("full")))
    ));
    assert!(client.block_to_seal().is_none());
}

#[test]
fn new_block_is_planned_on_the_best_one() {
    let mut client = client();
    client.set_author(Address { bytes: [5u8; 20] });
    client.set_extra_data(vec![4, 2]);
    let rules = UncleRules { maximum_age: 6, maximum_count: 2 };
    let mut answers = Answers::new();
    assert!(matches!(
        client.prepare_sealing(&answers, &rules),
        Lookup::Ask(Request::BestBlockHash)
    ));
    answers.best_block_hash = Some(hash(8));
    assert!(matches!(
        client.prepare_sealing(&answers, &rules),
        Lookup::Ask(Request::BlockHeader(h)) if h == hash(8)
    ));
    answers.block_header.record(hash(8), Some("best"));
    assert!(matches!(
        client.prepare_sealing(&answers, &rules),
        Lookup::Ask(Request::BlockDetails(h)) if h == hash(8)
    ));
    answers.block_details.record(hash(8), None);
    let search = UncleSearch { parent: hash(8), age: 6 };
    assert!(matches!(
        client.prepare_sealing(&answers, &rules),
        Lookup::Ask(Request::UncleHeaders(s)) if s == search
    ));
    answers.uncle_headers.record(search, vec!["a", "b", "c"]);
    match client.prepare_sealing(&answers, &rules) {
        Lookup::Ready(Some(plan)) => {
            assert_eq!(*plan.parent, "best");
            assert_eq!(plan.last_hashes.len(), 256);
            assert_eq!(plan.last_hashes[0..2], [hash(8), H256::new()]);
            assert_eq!(plan.author, Address { bytes: [5u8; 20] });
            assert_eq!(plan.extra_data, vec![4, 2]);
            assert_eq!(plan.uncles, vec![&"a", &"b"]);
        }
        _ => panic!("the plan is to be ready"),
    }
    let rules = UncleRules { maximum_age: 6, maximum_count: 9 };
    match client.prepare_sealing(&answers, &rules) {
        Lookup::Ready(Some(plan)) => assert_eq!(plan.uncles.len(), 3),
        _ => panic!("the plan is to be ready"),
    }
}

#[test]
fn no_block_is_planned_without_a_header() {
    let client = client();
    let rules = UncleRules { maximum_age: 6, maximum_count: 2 };
    let mut answers = Answers::new();
    answers.best_block_hash = Some(hash(8));
    answers.block_header.record(hash(8), None);
    assert!(matches!(client.prepare_sealing(&answers, &rules), Lookup::Ready(None)));
}
