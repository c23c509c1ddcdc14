use ethcore_client::client::Client;
use ethcore_client::report::ClientReport;
use ethcore_client::startup::{Startup, StartupAction, StartupEvent};
use ethcore_client::types::{Address, Opaque, H256};

struct Plain;

impl Opaque for Plain {
    type Header = u8;
    type LocalizedTransaction = u8;
    type TreeRoute = u8;
    type LogEntry = u8;
    type ClosedBlock = u8;
    type Error = u8;
}

const GENESIS: H256 = H256 { hi: 1, lo: 2 };

fn begin() -> Startup {
    let (startup, action) = Client::<Plain>::new(GENESIS, "0123456789abcdef", "fast");
    match action {
        StartupAction::OpenChain(dirs) => {
            assert_eq!(dirs, vec!["0123456789abcdef".to_string(), "v5.2-sec-fast".to_string()])
        }
        _ => panic!("the chain is to be opened first"),
    }
    startup
}

fn next(startup: &mut Startup, event: StartupEvent<Plain>) -> StartupAction<Plain> {
    startup.advance(event)
}

fn begin_with_state(empty: bool) -> (Startup, StartupAction<Plain>) {
    let mut startup = begin();
    assert!(matches!(next(&mut startup, StartupEvent::ChainOpened), StartupAction::MakeEngine));
    match next(&mut startup, StartupEvent::EngineMade(Ok(()))) {
        StartupAction::OpenState(dirs) => {
            assert_eq!(dirs, vec!["0123456789abcdef", "v5.2-sec-fast", "state"])
        }
        _ => panic!("the state database is to be opened"),
    }
    let action = next(&mut startup, StartupEvent::StateOpened(empty));
    (startup, action)
}

fn finish(mut startup: Startup) -> Client<Plain> {
    match next(&mut startup, StartupEvent::QueueStarted) {
        StartupAction::Done(client) => client,
        _ => panic!("the start is to be done"),
    }
}

#[test]
fn start_without_an_engine_fails() {
    let mut startup = begin();
    assert!(matches!(next(&mut startup, StartupEvent::ChainOpened), StartupAction::MakeEngine));
    assert!(matches!(
        next(&mut startup, StartupEvent::EngineMade(Err(77))),
        StartupAction::Fail(77)
    ));
}

#[test]
fn full_state_is_left_alone() {
    let (startup, action) = begin_with_state(false);
    assert!(matches!(action, StartupAction::StartQueue));
    let client = finish(startup);
    assert_eq!(client.report(0), ClientReport::default());
    assert_eq!(client.author(), Address::new());
    assert!(client.extra_data().is_empty());
    assert!(client.block_to_seal().is_none());
}

#[test]
fn empty_state_gets_the_genesis_state() {
    let (mut startup, action) = begin_with_state(true);
    assert!(matches!(action, StartupAction::EnsureGenesis));
    match next(&mut startup, StartupEvent::GenesisEnsured(true)) {
        StartupAction::Commit { number, hash, ancient } => {
            assert_eq!((number, hash, ancient), (0, GENESIS, None))
        }
        _ => panic!("the genesis state is to be committed"),
    }
    assert!(matches!(
        next(&mut startup, StartupEvent::GenesisCommitted),
        StartupAction::StartQueue
    ));
    finish(startup);
}

#[test]
fn genesis_state_that_is_there_is_not_committed() {
    let (mut startup, action) = begin_with_state(true);
    assert!(matches!(action, StartupAction::EnsureGenesis));
    assert!(matches!(
        next(&mut startup, StartupEvent::GenesisEnsured(false)),
        StartupAction::StartQueue
    ));
    finish(startup);
}

#[test]
fn start_knows_what_it_waits_for() {
    let mut startup = begin();
    assert!(startup.awaits::<Plain>(&StartupEvent::ChainOpened));
    assert!(!startup.awaits::<Plain>(&StartupEvent::EngineMade(Ok(()))));
    assert!(!startup.awaits::<Plain>(&StartupEvent::QueueStarted));
    next(&mut startup, StartupEvent::ChainOpened);
    assert!(!startup.awaits::<Plain>(&StartupEvent::ChainOpened));
    assert!(startup.awaits::<Plain>(&StartupEvent::EngineMade(Err(1))));
    next(&mut startup, StartupEvent::EngineMade(Ok(())));
    assert!(startup.awaits::<Plain>(&StartupEvent::StateOpened(true)));
    next(&mut startup, StartupEvent::StateOpened(true));
    assert!(startup.awaits::<Plain>(&StartupEvent::GenesisEnsured(true)));
    next(&mut startup, StartupEvent::GenesisEnsured(true));
    assert!(startup.awaits::<Plain>(&StartupEvent::GenesisCommitted));
    next(&mut startup, StartupEvent::GenesisCommitted);
    assert!(startup.awaits::<Plain>(&StartupEvent::QueueStarted));
    next(&mut startup, StartupEvent::QueueStarted);
    assert!(!startup.awaits::<Plain>(&StartupEvent::QueueStarted));
}
