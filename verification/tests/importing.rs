use ethcore_client::answers::{Answers, Request};
use ethcore_client::client::Client;
use ethcore_client::import::{
    CheckStep, ImportAction, ImportEvent, ImportRun, Refusal, StageResults, HISTORY,
    MAX_BLOCKS_TO_IMPORT,
};
use ethcore_client::report::ClientReport;
use ethcore_client::startup::{StartupAction, StartupEvent};
use ethcore_client::types::{BlockDetails, Header, Opaque, PreverifiedBlock, H256, U256};

struct Plain;

impl Opaque for Plain {
    type Header = &'static str;
    type LocalizedTransaction = u8;
    type TreeRoute = u8;
    type LogEntry = u8;
    type ClosedBlock = u8;
    type Error = u8;
}

fn hash(n: u128) -> H256 {
    H256 { hi: 3, lo: n }
}

fn header(number: u64) -> Header {
    Header {
        hash: hash(number as u128),
        number,
        parent_hash: hash(number as u128 - 1),
        gas_used: U256 { hi: 0, lo: 10 },
    }
}

fn block(number: u64) -> PreverifiedBlock {
    PreverifiedBlock { header: header(number), transaction_count: 2 }
}

fn client() -> Client<Plain> {
    let (mut startup, _) = Client::<Plain>::new(hash(0), "prefix", "archive");
    for event in [
        StartupEvent::ChainOpened,
        StartupEvent::EngineMade(Ok(())),
        StartupEvent::StateOpened(false),
    ] {
        let _: StartupAction<Plain> = startup.advance(event);
    }
    match startup.advance(StartupEvent::QueueStarted) {
        StartupAction::Done(client) => client,
        _ => panic!("the start did not come to its end"),
    }
}

/// Runs an import in which the blocks up to `failing` pass the check, and
/// returns all its actions.
fn run(
    client: &mut Client<Plain>,
    blocks: Vec<PreverifiedBlock>,
    failing: usize,
    queue_empty: bool,
    best_after: H256,
) -> Vec<ImportAction<Vec<H256>>> {
    let mut run = ImportRun::new();
    let mut actions = vec![];
    let mut event = ImportEvent::Start;
    let mut reads = 0;
    loop {
        let action = client.import_verified_blocks(&mut run, event);
        event = match &action {
            ImportAction::Drain(_) => ImportEvent::Drained(blocks.clone()),
            ImportAction::ReadBestHash => {
                reads += 1;
                ImportEvent::BestHash(if reads == 1 { hash(0) } else { best_after })
            }
            ImportAction::Check(index) => ImportEvent::Checked(*index < failing),
            ImportAction::FindEra(number) => ImportEvent::EraHash(hash(*number as u128)),
            ImportAction::Commit { .. } => ImportEvent::Committed,
            ImportAction::Insert(_) => ImportEvent::Inserted,
            ImportAction::MarkBad(_) => ImportEvent::MarkedBad,
            ImportAction::MarkGood(_) => ImportEvent::MarkedGood,
            ImportAction::QueryQueue => ImportEvent::QueueEmpty(queue_empty),
            ImportAction::Notify { .. } => ImportEvent::Notified,
            ImportAction::PrepareSealing => ImportEvent::SealingPrepared,
            ImportAction::Done(_) => {
                actions.push(action);
                return actions;
            }
        };
        actions.push(action);
    }
}

#[test]
fn empty_import_does_nothing() {
    let mut client = client();
    assert_eq!(MAX_BLOCKS_TO_IMPORT, 128);
    assert_eq!(
        run(&mut client, vec![], 0, true, hash(0)),
        vec![
            ImportAction::Drain(128),
            ImportAction::ReadBestHash,
            ImportAction::ReadBestHash,
            ImportAction::Done(0),
        ]
    );
    assert_eq!(client.report(0), ClientReport::default());
}

#[test]
fn good_blocks_are_committed_and_inserted() {
    let mut client = client();
    assert_eq!(
        run(&mut client, vec![block(999), block(1000)], 2, true, hash(1000)),
        vec![
            ImportAction::Drain(128),
            ImportAction::ReadBestHash,
            ImportAction::Check(0),
            ImportAction::Commit { number: 999, hash: hash(999), ancient: None },
            ImportAction::Insert(0),
            ImportAction::Check(1),
            ImportAction::FindEra(0),
            ImportAction::Commit { number: 1000, hash: hash(1000), ancient: Some((0, hash(0))) },
            ImportAction::Insert(1),
            ImportAction::MarkGood(vec![hash(999), hash(1000)]),
            ImportAction::QueryQueue,
            ImportAction::Notify {
                good: vec![hash(999), hash(1000)],
                bad: vec![],
                retracted: vec![],
            },
            ImportAction::ReadBestHash,
            ImportAction::Done(2),
        ]
    );
    assert_eq!(
        client.report(9),
        ClientReport {
            blocks_imported: 2,
            transactions_applied: 4,
            gas_processed: U256 { hi: 0, lo: 20 },
            state_db_mem: 9,
        }
    );
}

#[test]
fn import_stops_at_the_first_bad_block() {
    let mut client = client();
    assert_eq!(
        run(&mut client, vec![block(1), block(2), block(3)], 1, true, hash(1)),
        vec![
            ImportAction::Drain(128),
            ImportAction::ReadBestHash,
            ImportAction::Check(0),
            ImportAction::Commit { number: 1, hash: hash(1), ancient: None },
            ImportAction::Insert(0),
            ImportAction::Check(1),
            ImportAction::MarkBad(vec![hash(2)]),
            ImportAction::MarkGood(vec![hash(1)]),
            ImportAction::QueryQueue,
            ImportAction::Notify { good: vec![hash(1)], bad: vec![hash(2)], retracted: vec![] },
            ImportAction::ReadBestHash,
            ImportAction::Done(1),
        ]
    );
    assert_eq!(client.report(0).blocks_imported, 1);
}

#[test]
fn nothing_is_announced_without_good_blocks() {
    let mut client = client();
    assert_eq!(
        run(&mut client, vec![block(1), block(2)], 0, true, hash(0)),
        vec![
            ImportAction::Drain(128),
            ImportAction::ReadBestHash,
            ImportAction::Check(0),
            ImportAction::MarkBad(vec![hash(1)]),
            ImportAction::ReadBestHash,
            ImportAction::Done(0),
        ]
    );
}

#[test]
fn nothing_is_announced_while_the_queue_is_busy() {
    let mut client = client();
    let actions = run(&mut client, vec![block(1)], 1, false, hash(1));
    assert!(actions.contains(&ImportAction::QueryQueue));
    assert!(!actions.iter().any(|a| matches!(a, ImportAction::Notify { .. })));
}

#[test]
fn sealing_is_prepared_for_a_new_best_block_if_wanted() {
    let mut client = client();
    let unwanted = run(&mut client, vec![block(1)], 1, true, hash(1));
    assert!(!unwanted.contains(&ImportAction::PrepareSealing));
    assert!(client.sealing_block());
    let unchanged = run(&mut client, vec![block(1)], 1, true, hash(0));
    assert!(!unchanged.contains(&ImportAction::PrepareSealing));
    let wanted = run(&mut client, vec![block(1)], 1, true, hash(1));
    assert_eq!(
        wanted[wanted.len() - 3..],
        [ImportAction::ReadBestHash, ImportAction::PrepareSealing, ImportAction::Done(1)]
    );
}

/// Answers that let the parent of block 2000 be found.
fn answers(best: u64) -> Answers<Plain> {
    let mut answers = Answers::new();
    answers.best_block_number = Some(best);
    answers.block_header.record(hash(1999), Some("parent"));
    answers.block_details.record(
        hash(1999),
        Some(BlockDetails { parent: hash(1998), total_difficulty: U256::zero() }),
    );
    answers.block_details.record(hash(1998), None);
    answers
}

#[test]
fn check_goes_through_its_stages() {
    let mut results = StageResults::new();
    let header = header(2000);
    let nothing: Answers<Plain> = Answers::new();
    assert!(matches!(
        Client::check_and_close_block(&nothing, &header, &results),
        CheckStep::Read(Request::BestBlockNumber)
    ));
    let answers = answers(2000);
    assert!(matches!(
        Client::check_and_close_block(&answers, &header, &results),
        CheckStep::VerifyFamily
    ));
    results.family = Some(true);
    match Client::check_and_close_block(&answers, &header, &results) {
        CheckStep::Enact { parent, last_hashes } => {
            assert_eq!(*parent, "parent");
            assert_eq!(last_hashes.len(), 256);
            assert_eq!(last_hashes[0..3], [hash(1999), hash(1998), H256::new()]);
        }
        _ => panic!("the block is to be enacted"),
    }
    results.enacted = Some(true);
    assert!(matches!(
        Client::check_and_close_block(&answers, &header, &results),
        CheckStep::VerifyFinal
    ));
    results.confirmed = Some(true);
    assert!(matches!(
        Client::check_and_close_block(&answers, &header, &results),
        CheckStep::Close
    ));
}

#[test]
fn check_reads_the_parent_after_the_family() {
    let mut answers: Answers<Plain> = Answers::new();
    answers.best_block_number = Some(0);
    let results = StageResults { family: Some(true), ..StageResults::new() };
    assert!(matches!(
        Client::check_and_close_block(&answers, &header(5), &results),
        CheckStep::Read(Request::BlockHeader(h)) if h == hash(4)
    ));
    answers.block_header.record(hash(4), Some("parent"));
    assert!(matches!(
        Client::check_and_close_block(&answers, &header(5), &results),
        CheckStep::Read(Request::BlockDetails(h)) if h == hash(4)
    ));
}

#[test]
fn ancient_block_is_refused() {
    assert_eq!(HISTORY, 1000);
    let results = StageResults { family: Some(true), enacted: Some(true), confirmed: Some(true) };
    assert!(matches!(
        Client::check_and_close_block(&answers(3000), &header(2000), &results),
        CheckStep::Refuse(Refusal::Ancient)
    ));
    assert!(matches!(
        Client::check_and_close_block(&answers(2999), &header(2000), &results),
        CheckStep::Close
    ));
    let mut young: Answers<Plain> = Answers::new();
    young.best_block_number = Some(999);
    assert!(matches!(
        Client::check_and_close_block(&young, &header(1), &StageResults::new()),
        CheckStep::VerifyFamily
    ));
    let mut old: Answers<Plain> = Answers::new();
    old.best_block_number = Some(1000);
    let genesis = Header { number: 0, ..header(1) };
    assert!(matches!(
        Client::check_and_close_block(&old, &genesis, &StageResults::new()),
        CheckStep::Refuse(Refusal::Ancient)
    ));
}

#[test]
fn each_stage_can_refuse() {
    let header = header(2000);
    let good = StageResults { family: Some(true), enacted: Some(true), confirmed: Some(true) };
    let mut answers = answers(2000);
    assert!(matches!(
        Client::check_and_close_block(&answers, &header, &StageResults { family: Some(false), ..good }),
        CheckStep::Refuse(Refusal::Family)
    ));
    assert!(matches!(
        Client::check_and_close_block(&answers, &header, &StageResults { enacted: Some(false), ..good }),
        CheckStep::Refuse(Refusal::Enactment)
    ));
    assert!(matches!(
        Client::check_and_close_block(&answers, &header, &StageResults { confirmed: Some(false), ..good }),
        CheckStep::Refuse(Refusal::Final)
    ));
    answers.block_header.record(hash(1999), None);
    assert!(matches!(
        Client::check_and_close_block(&answers, &header, &good),
        CheckStep::Refuse(Refusal::ParentNotFound)
    ));
}

#[test]
fn import_knows_what_it_waits_for() {
    let mut client = client();
    let mut run = ImportRun::new();
    assert!(run.awaits(&ImportEvent::Start));
    assert!(!run.awaits(&ImportEvent::Drained(vec![])));
    client.import_verified_blocks(&mut run, ImportEvent::Start);
    assert!(!run.awaits(&ImportEvent::Start));
    assert!(run.awaits(&ImportEvent::Drained(vec![])));
    client.import_verified_blocks(&mut run, ImportEvent::Drained(vec![block(1)]));
    assert!(run.awaits(&ImportEvent::BestHash(hash(0))));
    assert!(!run.awaits(&ImportEvent::Checked(true)));
    client.import_verified_blocks(&mut run, ImportEvent::BestHash(hash(0)));
    assert!(run.awaits(&ImportEvent::Checked(false)));
    assert!(!run.awaits(&ImportEvent::Inserted));
}

#[test]
fn step_of_a_check_is_not_changed_by_more_answers() {
    let header = header(2000);
    let results = StageResults { family: Some(true), enacted: None, confirmed: None };
    let mut answers = answers(2000);
    let before = match Client::check_and_close_block(&answers, &header, &results) {
        CheckStep::Enact { last_hashes, .. } => last_hashes,
        _ => panic!("the block is to be enacted"),
    };
    answers.is_known.record(hash(5), true);
    answers.genesis_hash = Some(hash(6));
    match Client::check_and_close_block(&answers, &header, &results) {
        CheckStep::Enact { last_hashes, .. } => assert_eq!(last_hashes, before),
        _ => panic!("the block is to be enacted"),
    }
}
