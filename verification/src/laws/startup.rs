//! What holds of a start as a whole.

use crate::startup::{
    is_db_path, is_state_path, version_dir, StartupAction, StartupEvent, StartupStage, StartupState,
    CLIENT_DB_VER_STR,
};
use crate::laws::values::law_fresh_clients;
use crate::types::Opaque;
use vstd::prelude::*;

verus! {

/// The surroundings of a start.
pub struct Surroundings<T: Opaque> {
    /// Whether the engine can be made, and if not, why.
    pub engine: Result<(), T::Error>,
    /// Whether the state database is empty.
    pub state_is_empty: bool,
    /// Whether the genesis state has to be put into the state database.
    pub genesis_is_missing: bool,
}

impl<T: Opaque> Surroundings<T> {
    /// What comes of the action that a start in this stage calls for.
    pub open spec fn reply(self, stage: StartupStage) -> StartupEvent<T> {
        match stage {
            StartupStage::OpeningChain => StartupEvent::ChainOpened,
            StartupStage::MakingEngine => StartupEvent::EngineMade(self.engine),
            StartupStage::OpeningState => StartupEvent::StateOpened(self.state_is_empty),
            StartupStage::EnsuringGenesis => StartupEvent::GenesisEnsured(self.genesis_is_missing),
            StartupStage::CommittingGenesis => StartupEvent::GenesisCommitted,
            StartupStage::StartingQueue | StartupStage::Finished => StartupEvent::QueueStarted,
        }
    }

    /// The stages of a start from `state` on, up to its end or as many as
    /// `fuel` allows.
    pub open spec fn stages(self, state: StartupState, fuel: nat) -> Seq<StartupStage>
        decreases fuel,
    {
        if state.stage == StartupStage::Finished || fuel == 0 {
            seq![state.stage]
        } else {
            seq![state.stage] + self.stages(
                state.after(self.reply(state.stage)),
                (fuel - 1) as nat,
            )
        }
    }
}

/// A start opens the chain and makes the engine; without an engine it ends
/// there. Else it opens the state database, puts the genesis state into it if
/// it is empty, commits that if it was missing, starts the queue and ends.
pub proof fn law_startup<T: Opaque>(around: Surroundings<T>, state: StartupState, fuel: nat)
    requires
        state.stage == StartupStage::OpeningChain,
        fuel >= 6,
    ensures
        around.stages(state, fuel) == (if around.engine is Err {
            seq![StartupStage::OpeningChain, StartupStage::MakingEngine, StartupStage::Finished]
        } else if !around.state_is_empty {
            seq![
                StartupStage::OpeningChain,
                StartupStage::MakingEngine,
                StartupStage::OpeningState,
                StartupStage::StartingQueue,
                StartupStage::Finished,
            ]
        } else if !around.genesis_is_missing {
            seq![
                StartupStage::OpeningChain,
                StartupStage::MakingEngine,
                StartupStage::OpeningState,
                StartupStage::EnsuringGenesis,
                StartupStage::StartingQueue,
                StartupStage::Finished,
            ]
        } else {
            seq![
                StartupStage::OpeningChain,
                StartupStage::MakingEngine,
                StartupStage::OpeningState,
                StartupStage::EnsuringGenesis,
                StartupStage::CommittingGenesis,
                StartupStage::StartingQueue,
                StartupStage::Finished,
            ]
        }),
{
    reveal_with_fuel(Surroundings::stages, 8);
}

/// Every reply is one that the start waits for, until it is finished.
pub proof fn law_startup_replies<T: Opaque>(around: Surroundings<T>, state: StartupState)
    requires
        state.stage != StartupStage::Finished,
    ensures
        state.awaits(around.reply(state.stage)),
{
}

/// A start fails exactly if the engine cannot be made, with the very error of
/// the engine, and before the state database has been opened.
pub proof fn law_start_fails_with_the_engine<T: Opaque>(
    state: StartupState,
    event: StartupEvent<T>,
    action: StartupAction<T>,
)
    requires
        state.awaits(event),
        state.leads_to(event, action),
    ensures
        forall|error: T::Error|
            action == StartupAction::<T>::Fail(error) <==> event == StartupEvent::<T>::EngineMade(
                Err(error),
            ),
        action is Fail ==> state.stage == StartupStage::MakingEngine && state.after(event).stage
            == StartupStage::Finished,
{
}

/// The database of a client lies in the directory of its genesis block, in one
/// named after the version of the layout and the way of pruning; and the state
/// lies in a directory of its own below that.
pub proof fn law_directories(dirs: Seq<String>, prefix: Seq<char>, pruning: Seq<char>)
    ensures
        is_db_path(dirs, prefix, pruning) <==> {
            &&& dirs.len() == 2
            &&& dirs[0]@ == prefix
            &&& dirs[1]@ == "v5.2-sec-"@ + pruning
        },
        is_state_path(dirs, prefix, pruning) <==> {
            &&& dirs.len() == 3
            &&& dirs[0]@ == prefix
            &&& dirs[1]@ == "v5.2-sec-"@ + pruning
            &&& dirs[2]@ == "state"@
        },
{
    reveal_strlit("v");
    reveal_strlit("5.2");
    reveal_strlit("-sec-");
    reveal_strlit("v5.2-sec-");
    assert(CLIENT_DB_VER_STR@ == "5.2"@);
    assert(version_dir(pruning) =~= "v5.2-sec-"@ + pruning);
}

/// What a start does next follows from what has come about: when the chain has
/// been opened, the engine is made; with an engine the state database is opened,
/// and without one the start fails for that reason; into an empty state database
/// the genesis state is put, and it is committed as block 0 with the hash of the
/// genesis block, with nothing leaving the history, if it was missing; the queue
/// is started last, and then there is a client that has done nothing yet.
pub proof fn law_startup_actions<T: Opaque>(
    state: StartupState,
    event: StartupEvent<T>,
    action: StartupAction<T>,
)
    requires
        state.awaits(event),
        state.leads_to(event, action),
    ensures
        match event {
            StartupEvent::ChainOpened => action is MakeEngine,
            StartupEvent::EngineMade(Ok(_)) => {
                &&& action matches StartupAction::OpenState(dirs)
                &&& dirs@.len() == 3
                &&& dirs@[0]@ == state.prefix
                &&& dirs@[1]@ == "v5.2-sec-"@ + state.pruning
                &&& dirs@[2]@ == "state"@
            },
            StartupEvent::EngineMade(Err(error)) => action == StartupAction::<T>::Fail(error),
            StartupEvent::StateOpened(empty) => if empty {
                action is EnsureGenesis
            } else {
                action is StartQueue
            },
            StartupEvent::GenesisEnsured(put) => if put {
                action == (StartupAction::<T>::Commit {
                    number: 0,
                    hash: state.genesis_hash,
                    ancient: None,
                })
            } else {
                action is StartQueue
            },
            StartupEvent::GenesisCommitted => action is StartQueue,
            StartupEvent::QueueStarted => {
                &&& action matches StartupAction::Done(client)
                &&& client@.report.blocks_imported == 0
                &&& client@.report.transactions_applied == 0
                &&& client@.report.gas_processed.value() == 0
                &&& client@.report.state_db_mem == 0
                &&& !client@.sealing_enabled
                &&& client@.sealing_block is None
                &&& forall|i: int| 0 <= i < 20 ==> #[trigger] client@.author.bytes@[i] == 0
                &&& client@.extra_data.len() == 0
            },
        },
        state.after(event).genesis_hash == state.genesis_hash,
        state.after(event).prefix == state.prefix,
        state.after(event).pruning == state.pruning,
{
    if let StartupAction::OpenState(dirs) = action {
        law_directories(dirs@, state.prefix, state.pruning);
    }
    if let StartupAction::Done(client) = action {
        law_fresh_clients(client@);
    }
}

/// A start begins with the chain, in the directory of the database.
pub proof fn law_startup_begins<T: Opaque>(state: StartupState, action: StartupAction<T>)
    requires
        state.stage == StartupStage::OpeningChain,
        state.calls_for(action),
    ensures
        action matches StartupAction::OpenChain(dirs) && {
            &&& dirs@.len() == 2
            &&& dirs@[0]@ == state.prefix
            &&& dirs@[1]@ == "v5.2-sec-"@ + state.pruning
        },
{
    if let StartupAction::OpenChain(dirs) = action {
        law_directories(dirs@, state.prefix, state.pruning);
    }
}

/// A start waits for one kind of event at a time, the reply to what it has to
/// do, and for none when it is finished.
pub proof fn law_startup_waits_for_replies<T: Opaque>(
    state: StartupState,
    action: StartupAction<T>,
    event: StartupEvent<T>,
)
    requires
        state.calls_for(action),
    ensures
        state.awaits(event) <==> match action {
            StartupAction::OpenChain(_) => event is ChainOpened,
            StartupAction::MakeEngine => event is EngineMade,
            StartupAction::OpenState(_) => event is StateOpened,
            StartupAction::EnsureGenesis => event is GenesisEnsured,
            StartupAction::Commit { .. } => event is GenesisCommitted,
            StartupAction::StartQueue => event is QueueStarted,
            StartupAction::Done(_) | StartupAction::Fail(_) => false,
        },
{
}

} // verus!
