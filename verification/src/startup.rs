//! The start of a client.

use crate::client::Client;
use crate::types::{BlockNumber, Opaque, H256};
use vstd::prelude::*;

verus! {

/// The version of the database layout.
pub const CLIENT_DB_VER_STR: &'static str = "5.2";

/// What a start waits for.
#[derive(Debug, Clone, Copy, PartialEq, Eq, Structural)]
pub enum StartupStage {
    /// The chain to be opened.
    OpeningChain,
    /// The engine to be made.
    MakingEngine,
    /// The state database to be opened.
    OpeningState,
    /// The genesis state to be put into the state database.
    EnsuringGenesis,
    /// The genesis state to be committed.
    CommittingGenesis,
    /// The block queue to be started.
    StartingQueue,
    /// Nothing more.
    Finished,
}

/// What has come of the last action of a start.
pub enum StartupEvent<T: Opaque> {
    /// The chain has been opened.
    ChainOpened,
    /// The engine has been made, or has failed to be for this reason.
    EngineMade(Result<(), T::Error>),
    /// The state database has been opened; it is empty or not.
    StateOpened(bool),
    /// The state database has been looked at; the genesis state has been put
    /// into it or not.
    GenesisEnsured(bool),
    /// The genesis state has been committed.
    GenesisCommitted,
    /// The block queue has been started.
    QueueStarted,
}

/// What a start has to do next.
pub enum StartupAction<T: Opaque> {
    /// Open the chain below this directory.
    OpenChain(Vec<String>),
    /// Make the engine.
    MakeEngine,
    /// Open the state database in this directory.
    OpenState(Vec<String>),
    /// Put the genesis state into the state database, if it is not there.
    EnsureGenesis,
    /// Commit the state.
    Commit {
        /// The number of the block.
        number: BlockNumber,
        /// The hash of the block.
        hash: H256,
        /// The number and the hash of the block that leaves the history.
        ancient: Option<(BlockNumber, H256)>,
    },
    /// Start the block queue.
    StartQueue,
    /// All is done.
    Done(Client<T>),
    /// The engine could not be made, for this reason.
    Fail(T::Error),
}

/// The name of the directory for this way of pruning.
pub open spec fn version_dir(pruning: Seq<char>) -> Seq<char> {
    "v"@ + CLIENT_DB_VER_STR@ + "-sec-"@ + pruning
}

/// Whether `dirs` are the directory of a database, outermost first.
pub open spec fn is_db_path(dirs: Seq<String>, prefix: Seq<char>, pruning: Seq<char>) -> bool {
    &&& dirs.len() == 2
    &&& dirs[0]@ == prefix
    &&& dirs[1]@ == version_dir(pruning)
}

/// Whether `dirs` are the directory of a state database, outermost first.
pub open spec fn is_state_path(dirs: Seq<String>, prefix: Seq<char>, pruning: Seq<char>) -> bool {
    &&& dirs.len() == 3
    &&& is_db_path(dirs.take(2), prefix, pruning)
    &&& dirs[2]@ == "state"@
}

/// A start under way.
pub struct Startup {
    stage: StartupStage,
    genesis_hash: H256,
    prefix: String,
    pruning: String,
}

/// A start under way, as a mathematical value.
pub struct StartupState {
    /// What the start waits for.
    pub stage: StartupStage,
    /// The hash of the genesis block.
    pub genesis_hash: H256,
    /// The name of the directory for this genesis block.
    pub prefix: Seq<char>,
    /// The name of the way of pruning.
    pub pruning: Seq<char>,
}

impl View for Startup {
    type V = StartupState;

    closed spec fn view(&self) -> StartupState {
        StartupState {
            stage: self.stage,
            genesis_hash: self.genesis_hash,
            prefix: self.prefix@,
            pruning: self.pruning@,
        }
    }
}

impl StartupState {
    /// Whether the start waits for an event of this kind.
    pub open spec fn awaits<T: Opaque>(self, event: StartupEvent<T>) -> bool {
        match event {
            StartupEvent::ChainOpened => self.stage == StartupStage::OpeningChain,
            StartupEvent::EngineMade(_) => self.stage == StartupStage::MakingEngine,
            StartupEvent::StateOpened(_) => self.stage == StartupStage::OpeningState,
            StartupEvent::GenesisEnsured(_) => self.stage == StartupStage::EnsuringGenesis,
            StartupEvent::GenesisCommitted => self.stage == StartupStage::CommittingGenesis,
            StartupEvent::QueueStarted => self.stage == StartupStage::StartingQueue,
        }
    }

    /// What the start waits for after `event`.
    ///
    /// The genesis state is put into a state database that is empty, and is
    /// committed if it was not there.
    pub open spec fn stage_after<T: Opaque>(self, event: StartupEvent<T>) -> StartupStage {
        match event {
            StartupEvent::ChainOpened => StartupStage::MakingEngine,
            StartupEvent::EngineMade(Ok(_)) => StartupStage::OpeningState,
            StartupEvent::EngineMade(Err(_)) => StartupStage::Finished,
            StartupEvent::StateOpened(empty) => if empty {
                StartupStage::EnsuringGenesis
            } else {
                StartupStage::StartingQueue
            },
            StartupEvent::GenesisEnsured(put) => if put {
                StartupStage::CommittingGenesis
            } else {
                StartupStage::StartingQueue
            },
            StartupEvent::GenesisCommitted => StartupStage::StartingQueue,
            StartupEvent::QueueStarted => StartupStage::Finished,
        }
    }

    /// Whether `action` is what a start has to do that waits for this.
    pub open spec fn calls_for<T: Opaque>(self, action: StartupAction<T>) -> bool {
        match action {
            StartupAction::OpenChain(dirs) => self.stage == StartupStage::OpeningChain
                && is_db_path(dirs@, self.prefix, self.pruning),
            StartupAction::MakeEngine => self.stage == StartupStage::MakingEngine,
            StartupAction::OpenState(dirs) => self.stage == StartupStage::OpeningState
                && is_state_path(dirs@, self.prefix, self.pruning),
            StartupAction::EnsureGenesis => self.stage == StartupStage::EnsuringGenesis,
            StartupAction::Commit { number, hash, ancient } => self.stage
                == StartupStage::CommittingGenesis && number == 0 && hash == self.genesis_hash
                && ancient is None,
            StartupAction::StartQueue => self.stage == StartupStage::StartingQueue,
            StartupAction::Done(client) => self.stage == StartupStage::Finished && client@.fresh(),
            StartupAction::Fail(_) => self.stage == StartupStage::Finished,
        }
    }

    /// The start after `event`.
    pub open spec fn after<T: Opaque>(self, event: StartupEvent<T>) -> StartupState {
        StartupState { stage: self.stage_after(event), ..self }
    }

    /// Whether `action` is what a start has to do next when `event` has come
    /// about. It is done when the queue has been started, and it fails when the
    /// engine could not be made, for the same reason.
    pub open spec fn leads_to<T: Opaque>(
        self,
        event: StartupEvent<T>,
        action: StartupAction<T>,
    ) -> bool {
        &&& self.after(event).calls_for(action)
        &&& action is Done <==> event is QueueStarted
        &&& match event {
            StartupEvent::EngineMade(Err(error)) => action == StartupAction::<T>::Fail(error),
            _ => !(action is Fail),
        }
    }
}

impl Startup {
    /// Returns the directory of the database, outermost first.
    fn db_path(&self) -> (dirs: Vec<String>)
        ensures
            is_db_path(dirs@, self@.prefix, self@.pruning),
    {
        let mut version = String::new();
        version.append("v");
        version.append(CLIENT_DB_VER_STR);
        version.append("-sec-");
        version.append(self.pruning.as_str());
        assert(version@ =~= version_dir(self.pruning@));
        let mut dirs: Vec<String> = Vec::new();
        dirs.push(self.prefix.clone());
        dirs.push(version);
        dirs
    }

    /// Returns the directory of the state database, outermost first.
    fn state_path(&self) -> (dirs: Vec<String>)
        ensures
            is_state_path(dirs@, self@.prefix, self@.pruning),
    {
        let mut dirs = self.db_path();
        let ghost db = dirs@;
        dirs.push("state".to_string());
        assert(dirs@.take(2) =~= db);
        dirs
    }

    /// Tells whether the start waits for an event of this kind.
    pub fn awaits<T: Opaque>(&self, event: &StartupEvent<T>) -> (awaited: bool)
        ensures
            awaited == self@.awaits(*event),
    {
        match event {
            StartupEvent::ChainOpened => self.stage == StartupStage::OpeningChain,
            StartupEvent::EngineMade(_) => self.stage == StartupStage::MakingEngine,
            StartupEvent::StateOpened(_) => self.stage == StartupStage::OpeningState,
            StartupEvent::GenesisEnsured(_) => self.stage == StartupStage::EnsuringGenesis,
            StartupEvent::GenesisCommitted => self.stage == StartupStage::CommittingGenesis,
            StartupEvent::QueueStarted => self.stage == StartupStage::StartingQueue,
        }
    }

    /// Takes note of `event` and returns what to do next.
    pub fn advance<T: Opaque>(&mut self, event: StartupEvent<T>) -> (action: StartupAction<T>)
        requires
            old(self)@.awaits(event),
        ensures
            final(self)@ == old(self)@.after(event),
            old(self)@.leads_to(event, action),
    {
        match event {
            StartupEvent::ChainOpened => {
                self.stage = StartupStage::MakingEngine;
                StartupAction::MakeEngine
            },
            StartupEvent::EngineMade(Ok(_)) => {
                self.stage = StartupStage::OpeningState;
                StartupAction::OpenState(self.state_path())
            },
            StartupEvent::EngineMade(Err(error)) => {
                self.stage = StartupStage::Finished;
                StartupAction::Fail(error)
            },
            StartupEvent::StateOpened(empty) => if empty {
                self.stage = StartupStage::EnsuringGenesis;
                StartupAction::EnsureGenesis
            } else {
                self.stage = StartupStage::StartingQueue;
                StartupAction::StartQueue
            },
            StartupEvent::GenesisEnsured(put) => if put {
                self.stage = StartupStage::CommittingGenesis;
                StartupAction::Commit { number: 0, hash: self.genesis_hash, ancient: None }
            } else {
                self.stage = StartupStage::StartingQueue;
                StartupAction::StartQueue
            },
            StartupEvent::GenesisCommitted => {
                self.stage = StartupStage::StartingQueue;
                StartupAction::StartQueue
            },
            StartupEvent::QueueStarted => {
                self.stage = StartupStage::Finished;
                StartupAction::Done(Client::fresh())
            },
        }
    }
}

impl<T: Opaque> Client<T> {
    /// Starts a client. `prefix` is the name of the directory for the genesis
    /// block, and `pruning` the name of the way of pruning.
    pub fn new(genesis_hash: H256, prefix: &str, pruning: &str) -> (started: (
        Startup,
        StartupAction<T>,
    ))
        ensures
            started.0@ == (StartupState {
                stage: StartupStage::OpeningChain,
                genesis_hash,
                prefix: prefix@,
                pruning: pruning@,
            }),
            started.1 is OpenChain,
            started.0@.calls_for(started.1),
    {
        Self::new_with_verifier(genesis_hash, prefix, pruning)
    }

    /// Starts a client, whatever it verifies blocks with. `prefix` is the name
    /// of the directory for the genesis block, and `pruning` the name of the
    /// way of pruning.
    pub fn new_with_verifier(genesis_hash: H256, prefix: &str, pruning: &str) -> (started: (
        Startup,
        StartupAction<T>,
    ))
        ensures
            started.0@ == (StartupState {
                stage: StartupStage::OpeningChain,
                genesis_hash,
                prefix: prefix@,
                pruning: pruning@,
            }),
            started.1 is OpenChain,
            started.0@.calls_for(started.1),
    {
        let startup = Startup {
            stage: StartupStage::OpeningChain,
            genesis_hash,
            prefix: prefix.to_string(),
            pruning: pruning.to_string(),
        };
        let action = StartupAction::OpenChain(startup.db_path());
        (startup, action)
    }
}

} // verus!
