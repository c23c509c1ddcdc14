//! What holds of an import as a whole.

use crate::import::{
    hashes_of, lemma_consistent_after, with_hash, ImportAction, ImportEvent, ImportStage,
    ImportState, HISTORY,
};
use crate::report::ClientReport;
use crate::types::{BlockNumber, PreverifiedBlock, H256};
use vstd::prelude::*;

verus! {

/// The surroundings of an import.
pub struct Surroundings {
    /// The blocks that the queue has verified.
    pub blocks: Seq<PreverifiedBlock>,
    /// Whether the block with this index passes the check.
    pub passes: spec_fn(int) -> bool,
    /// The hash of the block with this number.
    pub hash_at: spec_fn(BlockNumber) -> H256,
    /// The hash of the best block before the import.
    pub best_before: H256,
    /// The hash of the best block after the import.
    pub best_after: H256,
    /// Whether the queue is empty after the import.
    pub queue_empty: bool,
    /// Whether somebody wants blocks to seal.
    pub sealing_enabled: bool,
}

impl Surroundings {
    /// What comes of `action`.
    pub open spec fn reply(self, state: ImportState, action: ImportAction<Seq<H256>>) -> ImportEvent<
        Seq<PreverifiedBlock>,
    > {
        match action {
            ImportAction::Drain(_) => ImportEvent::Drained(self.blocks),
            ImportAction::ReadBestHash => ImportEvent::BestHash(
                if state.stage == ImportStage::ReadingBest {
                    self.best_before
                } else {
                    self.best_after
                },
            ),
            ImportAction::Check(index) => ImportEvent::Checked((self.passes)(index as int)),
            ImportAction::FindEra(number) => ImportEvent::EraHash((self.hash_at)(number)),
            ImportAction::Commit { .. } => ImportEvent::Committed,
            ImportAction::Insert(_) => ImportEvent::Inserted,
            ImportAction::MarkBad(_) => ImportEvent::MarkedBad,
            ImportAction::MarkGood(_) => ImportEvent::MarkedGood,
            ImportAction::QueryQueue => ImportEvent::QueueEmpty(self.queue_empty),
            ImportAction::Notify { .. } => ImportEvent::Notified,
            ImportAction::PrepareSealing => ImportEvent::SealingPrepared,
            ImportAction::Done(_) => ImportEvent::Start,
        }
    }

    /// The actions of an import from `action` on, up to its end or as many as
    /// `fuel` allows.
    pub open spec fn actions(
        self,
        step: (ImportState, ImportAction<Seq<H256>>),
        fuel: nat,
    ) -> Seq<ImportAction<Seq<H256>>>
        decreases fuel,
    {
        let (state, action) = step;
        if action is Done || fuel == 0 {
            seq![action]
        } else {
            seq![action] + self.actions(
                state.after(self.reply(state, action), self.sealing_enabled),
                (fuel - 1) as nat,
            )
        }
    }

    /// The report after the same actions.
    pub open spec fn report_after(
        self,
        step: (ImportState, ImportAction<Seq<H256>>),
        report: ClientReport,
        fuel: nat,
    ) -> ClientReport
        decreases fuel,
    {
        let (state, action) = step;
        if action is Done || fuel == 0 {
            report
        } else {
            self.report_after(
                state.after(self.reply(state, action), self.sealing_enabled),
                if action is Insert {
                    report.accrued(state.current())
                } else {
                    report
                },
                (fuel - 1) as nat,
            )
        }
    }

    /// The index of the first block from `index` on that does not pass the
    /// check, or the number of the blocks.
    pub open spec fn first_failure(self, index: int) -> int
        decreases self.blocks.len() - index,
    {
        if index >= self.blocks.len() || !(self.passes)(index) {
            index
        } else {
            self.first_failure(index + 1)
        }
    }

    /// What is done with a block that passes the check: it is committed, and
    /// with it the block that leaves the history, before it is inserted.
    pub open spec fn import_one(self, index: int) -> Seq<ImportAction<Seq<H256>>> {
        let header = self.blocks[index].header;
        if header.number >= 1000 {
            let era = (header.number - 1000) as u64;
            seq![
                ImportAction::Check(index as usize),
                ImportAction::FindEra(era),
                ImportAction::Commit {
                    number: header.number,
                    hash: header.hash,
                    ancient: Some((era, (self.hash_at)(era))),
                },
                ImportAction::Insert(index as usize),
            ]
        } else {
            seq![
                ImportAction::Check(index as usize),
                ImportAction::Commit { number: header.number, hash: header.hash, ancient: None },
                ImportAction::Insert(index as usize),
            ]
        }
    }

    /// What is done with the blocks from `index` on, up to the first that does
    /// not pass the check.
    pub open spec fn import_from(self, index: int) -> Seq<ImportAction<Seq<H256>>>
        decreases self.blocks.len() - index,
    {
        if index >= self.blocks.len() {
            Seq::empty()
        } else if !(self.passes)(index) {
            seq![ImportAction::Check(index as usize)]
        } else {
            self.import_one(index) + self.import_from(index + 1)
        }
    }

    /// What is done at the end: the best block is looked at again, and a block
    /// to seal is prepared if it is wanted.
    pub open spec fn end(self, count: int) -> Seq<ImportAction<Seq<H256>>> {
        if self.best_after != self.best_before && self.sealing_enabled {
            seq![
                ImportAction::ReadBestHash,
                ImportAction::PrepareSealing,
                ImportAction::Done(count as usize),
            ]
        } else {
            seq![ImportAction::ReadBestHash, ImportAction::Done(count as usize)]
        }
    }

    /// What is done with the imported blocks: they are marked, and announced
    /// together with the bad ones if the queue has run empty.
    pub open spec fn settle(self, good: Seq<H256>, bad: Seq<H256>) -> Seq<
        ImportAction<Seq<H256>>,
    > {
        if good.len() == 0 {
            Seq::empty()
        } else if self.queue_empty {
            seq![
                ImportAction::MarkGood(good),
                ImportAction::QueryQueue,
                ImportAction::Notify { good, bad, retracted: Seq::empty() },
            ]
        } else {
            seq![ImportAction::MarkGood(good), ImportAction::QueryQueue]
        }
    }

    /// What is done once `count` blocks have been imported and the next one,
    /// if there is one, has failed.
    pub open spec fn conclude(self, count: int) -> Seq<ImportAction<Seq<H256>>> {
        let good = hashes_of(self.blocks.take(count));
        if count < self.blocks.len() {
            let bad = seq![self.blocks[count].header.hash];
            seq![ImportAction::MarkBad(bad)] + self.settle(good, bad) + self.end(count)
        } else {
            self.settle(good, Seq::empty()) + self.end(count)
        }
    }

    /// The step after `step`.
    spec fn next(self, step: (ImportState, ImportAction<Seq<H256>>)) -> (
        ImportState,
        ImportAction<Seq<H256>>,
    ) {
        step.0.after(self.reply(step.0, step.1), self.sealing_enabled)
    }

    /// One step is the first of those that follow.
    proof fn lemma_step(
        self,
        step: (ImportState, ImportAction<Seq<H256>>),
        report: ClientReport,
        fuel: nat,
    )
        requires
            fuel > 0,
            !(step.1 is Done),
        ensures
            self.actions(step, fuel) == seq![step.1] + self.actions(
                self.next(step),
                (fuel - 1) as nat,
            ),
            self.report_after(step, report, fuel) == self.report_after(
                self.next(step),
                if step.1 is Insert {
                    report.accrued(step.0.current())
                } else {
                    report
                },
                (fuel - 1) as nat,
            ),
    {
    }

    /// The end of an import is what it should be.
    proof fn lemma_end(self, state: ImportState, report: ClientReport, fuel: nat)
        requires
            state.best_before == self.best_before,
            fuel >= 2,
        ensures
            self.actions(state.reread(), fuel) == self.end(state.good.len() as int),
            self.report_after(state.reread(), report, fuel) == report,
    {
        let reading = state.reread();
        let after = self.next(reading);
        self.lemma_step(reading, report, fuel);
        if self.best_after != self.best_before && self.sealing_enabled {
            self.lemma_step(after, report, (fuel - 1) as nat);
        }
        assert(self.actions(reading, fuel) =~= self.end(state.good.len() as int));
    }

    /// The imported blocks are settled as they should be.
    proof fn lemma_settle(self, state: ImportState, report: ClientReport, fuel: nat)
        requires
            state.best_before == self.best_before,
            fuel >= 5,
        ensures
            self.actions(state.mark_good(), fuel) == self.settle(state.good, state.bad) + self.end(
                state.good.len() as int,
            ),
            self.report_after(state.mark_good(), report, fuel) == report,
    {
        let marking = state.mark_good();
        if state.good.len() == 0 {
            self.lemma_end(state, report, fuel);
        } else {
            let querying = self.next(marking);
            self.lemma_step(marking, report, fuel);
            self.lemma_step(querying, report, (fuel - 1) as nat);
            let after = self.next(querying);
            if self.queue_empty {
                self.lemma_step(after, report, (fuel - 2) as nat);
                self.lemma_end(after.0, report, (fuel - 3) as nat);
            } else {
                self.lemma_end(querying.0, report, (fuel - 2) as nat);
            }
        }
        assert(self.actions(marking, fuel) =~= self.settle(state.good, state.bad) + self.end(
            state.good.len() as int,
        ));
    }

    /// The conclusion of an import does what it should.
    proof fn lemma_conclude(self, state: ImportState, report: ClientReport, fuel: nat)
        requires
            self.blocks.len() <= usize::MAX,
            state.blocks == self.blocks,
            state.best_before == self.best_before,
            0 <= state.next <= self.blocks.len(),
            state.good == hashes_of(self.blocks.take(state.next)),
            state.bad == (if state.next < self.blocks.len() {
                seq![self.blocks[state.next].header.hash]
            } else {
                Seq::empty()
            }),
            fuel >= 6,
        ensures
            self.actions(state.wind_up(), fuel) == self.conclude(state.next),
            self.report_after(state.wind_up(), report, fuel) == report,
    {
        let winding = state.wind_up();
        if state.next < self.blocks.len() {
            self.lemma_step(winding, report, fuel);
            self.lemma_settle(winding.0, report, (fuel - 1) as nat);
        } else {
            self.lemma_settle(state, report, fuel);
        }
        assert(self.actions(winding, fuel) =~= self.conclude(state.next));
    }

    /// One block that passes the check is imported as it should be.
    proof fn lemma_import_one(self, state: ImportState, report: ClientReport, fuel: nat)
        requires
            self.blocks.len() <= usize::MAX,
            state.blocks == self.blocks,
            state.stage == ImportStage::Checking,
            0 <= state.next < self.blocks.len(),
            (self.passes)(state.next),
            fuel >= 4,
        ensures
            ({
                let spent: nat = if state.current().header.number >= HISTORY {
                    4
                } else {
                    3
                };
                let inserted = ImportState {
                    next: state.next + 1,
                    good: state.good.push(state.current().header.hash),
                    stage: ImportStage::Inserting,
                    ..state
                };
                let step = (state, ImportAction::<Seq<H256>>::Check(state.next as usize));
                let rest = (fuel - spent) as nat;
                &&& self.actions(step, fuel) == self.import_one(state.next) + self.actions(
                    inserted.scan(),
                    rest,
                )
                &&& self.report_after(step, report, fuel) == self.report_after(
                    inserted.scan(),
                    report.accrued(state.current()),
                    rest,
                )
            }),
    {
        let step = (state, ImportAction::<Seq<H256>>::Check(state.next as usize));
        self.lemma_step(step, report, fuel);
        let one = self.next(step);
        self.lemma_step(one, report, (fuel - 1) as nat);
        let two = self.next(one);
        self.lemma_step(two, report, (fuel - 2) as nat);
        let three = self.next(two);
        let inserted = ImportState {
            next: state.next + 1,
            good: state.good.push(state.current().header.hash),
            stage: ImportStage::Inserting,
            ..state
        };
        if state.current().header.number >= HISTORY {
            self.lemma_step(three, report, (fuel - 3) as nat);
            assert(self.actions(step, fuel) =~= self.import_one(state.next) + self.actions(
                inserted.scan(),
                (fuel - 4) as nat,
            ));
        } else {
            assert(self.actions(step, fuel) =~= self.import_one(state.next) + self.actions(
                inserted.scan(),
                (fuel - 3) as nat,
            ));
        }
    }

    /// The blocks of an import are gone through as they should be.
    proof fn lemma_import_from(self, state: ImportState, report: ClientReport, fuel: nat)
        requires
            self.blocks.len() <= usize::MAX,
            state.blocks == self.blocks,
            state.best_before == self.best_before,
            0 <= state.next <= self.blocks.len(),
            state.good == hashes_of(self.blocks.take(state.next)),
            state.bad == Seq::<H256>::empty(),
            fuel >= 4 * (self.blocks.len() - state.next) + 7,
        ensures
            self.actions(state.scan(), fuel) == self.import_from(state.next) + self.conclude(
                self.first_failure(state.next),
            ),
            self.report_after(state.scan(), report.accrued_all(self.blocks.take(state.next)), fuel)
                == report.accrued_all(self.blocks.take(self.first_failure(state.next))),
        decreases self.blocks.len() - state.next,
    {
        let so_far = report.accrued_all(self.blocks.take(state.next));
        let checking = ImportState { stage: ImportStage::Checking, ..state };
        let hash = state.current().header.hash;
        let step = (checking, ImportAction::<Seq<H256>>::Check(state.next as usize));
        if state.next >= self.blocks.len() {
            self.lemma_conclude(state, so_far, fuel);
            assert(self.import_from(state.next) + self.conclude(state.next) =~= self.conclude(
                state.next,
            ));
        } else if !(self.passes)(state.next) {
            let failed = ImportState { bad: seq![hash], ..checking };
            assert(with_hash(state.bad, hash) =~= seq![hash]);
            assert(state.scan() == step);
            self.lemma_step(step, so_far, fuel);
            self.lemma_conclude(failed, so_far, (fuel - 1) as nat);
        } else {
            let next = ImportState {
                next: state.next + 1,
                good: state.good.push(hash),
                stage: ImportStage::Inserting,
                ..state
            };
            let spent: nat = if state.current().header.number >= HISTORY {
                4
            } else {
                3
            };
            assert(next.good =~= hashes_of(self.blocks.take(next.next)));
            assert(self.blocks.take(next.next).drop_last() =~= self.blocks.take(state.next));
            assert(state.scan() == step);
            self.lemma_import_one(checking, so_far, fuel);
            self.lemma_import_from(next, report, (fuel - spent) as nat);
            assert(self.import_one(state.next) + (self.import_from(next.next) + self.conclude(
                self.first_failure(next.next),
            )) =~= (self.import_one(state.next) + self.import_from(next.next)) + self.conclude(
                self.first_failure(next.next),
            ));
        }
    }
}

/// An import drains the queue, imports the blocks in order up to the first
/// that does not pass the check, marks that one as bad and the others as good,
/// announces them if the queue has run empty, prepares a block to seal if the
/// best block has changed and somebody wants one, and ends. Each imported
/// block, and no other, is added to the report.
pub proof fn law_import(around: Surroundings, report: ClientReport, fuel: nat)
    requires
        around.blocks.len() <= usize::MAX,
        fuel >= 4 * around.blocks.len() + 10,
    ensures
        ({
            let start = ImportState::idle().after(ImportEvent::Start, around.sealing_enabled);
            let imported = around.first_failure(0);
            &&& around.actions(start, fuel) == seq![
                ImportAction::Drain(128),
                ImportAction::ReadBestHash,
            ] + around.import_from(0) + around.conclude(imported)
            &&& around.report_after(start, report, fuel) == report.accrued_all(
                around.blocks.take(imported),
            )
        }),
{
    let start = ImportState::idle().after(ImportEvent::Start, around.sealing_enabled);
    let first = ImportState {
        blocks: around.blocks,
        best_before: around.best_before,
        stage: ImportStage::ReadingBest,
        ..ImportState::idle()
    };
    assert(first.good =~= hashes_of(around.blocks.take(0)));
    assert(around.blocks.take(0) =~= Seq::empty());
    around.lemma_step(start, report, fuel);
    around.lemma_step(around.next(start), report, (fuel - 1) as nat);
    around.lemma_import_from(first, report, (fuel - 2) as nat);
    assert(around.actions(start, fuel) =~= seq![
        ImportAction::Drain(128),
        ImportAction::ReadBestHash,
    ] + around.import_from(0) + around.conclude(around.first_failure(0)));
}

/// What an import that waits in `stage` has to do.
pub open spec fn is_called_for(stage: ImportStage, action: ImportAction<Seq<H256>>) -> bool {
    match stage {
        ImportStage::Idle => false,
        ImportStage::Draining => action is Drain,
        ImportStage::ReadingBest | ImportStage::RereadingBest => action is ReadBestHash,
        ImportStage::Checking => action is Check,
        ImportStage::FindingEra => action is FindEra,
        ImportStage::Committing => action is Commit,
        ImportStage::Inserting => action is Insert,
        ImportStage::MarkingBad => action is MarkBad,
        ImportStage::MarkingGood => action is MarkGood,
        ImportStage::QueryingQueue => action is QueryQueue,
        ImportStage::Notifying => action is Notify,
        ImportStage::PreparingSealing => action is PrepareSealing,
        ImportStage::Finished => action is Done,
    }
}

impl Surroundings {
    /// The step that an import has come to after its start and `n` replies, or
    /// at which it has ended.
    pub open spec fn step(self, n: nat) -> (ImportState, ImportAction<Seq<H256>>)
        decreases n,
    {
        if n == 0 {
            ImportState::idle().after(ImportEvent::Start, self.sealing_enabled)
        } else {
            let (state, action) = self.step((n - 1) as nat);
            if action is Done {
                (state, action)
            } else {
                state.after(self.reply(state, action), self.sealing_enabled)
            }
        }
    }
}

/// Throughout an import its state is consistent, and until it is done every
/// reply is one that it waits for. When it is done it is finished.
pub proof fn law_import_replies(around: Surroundings, n: nat)
    requires
        around.blocks.len() <= usize::MAX,
    ensures
        ({
            let (state, action) = around.step(n);
            &&& state.consistent()
            &&& is_called_for(state.stage, action)
            &&& !(action is Done) ==> state.awaits(around.reply(state, action))
            &&& action is Done ==> state.stage == ImportStage::Finished
        }),
    decreases n,
{
    if n == 0 {
        lemma_consistent_after(ImportState::idle(), ImportEvent::Start, around.sealing_enabled);
    } else {
        law_import_replies(around, (n - 1) as nat);
        let (state, action) = around.step((n - 1) as nat);
        if !(action is Done) {
            lemma_consistent_after(state, around.reply(state, action), around.sealing_enabled);
        }
    }
}

/// The actions of an import are those of its steps.
pub proof fn law_actions_are_the_steps(around: Surroundings, start: nat, fuel: nat)
    ensures
        forall|i: int|
            0 <= i < around.actions(around.step(start), fuel).len() ==> #[trigger] around.actions(
                around.step(start),
                fuel,
            )[i] == around.step((start + i) as nat).1,
    decreases fuel,
{
    let (state, action) = around.step(start);
    if !(action is Done) && fuel > 0 {
        let rest = around.actions(around.step(start + 1), (fuel - 1) as nat);
        law_actions_are_the_steps(around, start + 1, (fuel - 1) as nat);
        assert forall|i: int|
            0 <= i < around.actions(around.step(start), fuel).len() implies #[trigger] around.actions(
            around.step(start),
            fuel,
        )[i] == around.step((start + i) as nat).1 by {
            if i > 0 {
                assert(around.actions(around.step(start), fuel)[i] == rest[i - 1]);
            }
        }
    }
}

/// The hashes of blocks are theirs, one for one; and a hash joins others exactly
/// once.
pub proof fn law_hashes_of_blocks(
    blocks: Seq<PreverifiedBlock>,
    i: int,
    hashes: Seq<H256>,
    hash: H256,
    other: H256,
)
    requires
        0 <= i < blocks.len(),
    ensures
        hashes_of(blocks).len() == blocks.len(),
        hashes_of(blocks)[i] == blocks[i].header.hash,
        with_hash(hashes, hash).contains(other) <==> hashes.contains(other) || other == hash,
        hashes.no_duplicates() ==> with_hash(hashes, hash).no_duplicates(),
{
    let more = hashes.push(hash);
    if hashes.contains(other) {
        let k = choose|k: int| 0 <= k < hashes.len() && hashes[k] == other;
        assert(more[k] == other);
    }
    assert(more[hashes.len() as int] == hash);
    if more.contains(other) && other != hash {
        let k = choose|k: int| 0 <= k < more.len() && more[k] == other;
        assert(hashes[k] == other);
    }
}

/// A block whose parent is bad is bad itself and passed over, and the first
/// whose parent is not is checked: all that are passed over are bad and have a
/// bad parent, and nothing that was bad is so no more. Where none is left, the
/// import winds up.
pub proof fn law_bad_parents(state: ImportState)
    requires
        0 <= state.next <= state.blocks.len() <= usize::MAX,
    ensures
        ({
            let (after, action) = state.scan();
            &&& state.next <= after.next <= state.blocks.len()
            &&& after.blocks == state.blocks
            &&& after.good == state.good
            &&& forall|hash: H256| #[trigger]
                state.bad.contains(hash) ==> after.bad.contains(hash)
            &&& forall|j: int|
                #![trigger state.blocks[j]]
                state.next <= j < after.next ==> after.bad.contains(state.blocks[j].header.hash)
                    && after.bad.contains(state.blocks[j].header.parent_hash)
            &&& after.next < state.blocks.len() ==> {
                &&& action == ImportAction::<Seq<H256>>::Check(after.next as usize)
                &&& after.stage == ImportStage::Checking
                &&& !after.bad.contains(state.blocks[after.next].header.parent_hash)
            }
            &&& after.next == state.blocks.len() ==> (after, action) == after.wind_up()
        }),
    decreases state.blocks.len() - state.next,
{
    if state.next < state.blocks.len() && state.bad.contains(
        state.current().header.parent_hash,
    ) {
        let hash = state.current().header.hash;
        let more = with_hash(state.bad, hash);
        let next = ImportState { next: state.next + 1, bad: more, ..state };
        law_bad_parents(next);
        assert forall|other: H256| #[trigger] state.bad.contains(other) implies more.contains(
            other,
        ) by {
            law_hashes_of_blocks(state.blocks, state.next, state.bad, hash, other);
        }
        law_hashes_of_blocks(state.blocks, state.next, state.bad, hash, hash);
        assert(more.contains(hash));
    }
}

/// An import begins with nothing: no blocks, none of them good or bad.
pub proof fn law_idle_imports()
    ensures
        ImportState::idle().blocks.len() == 0,
        ImportState::idle().next == 0,
        ImportState::idle().good.len() == 0,
        ImportState::idle().bad.len() == 0,
        ImportState::idle().stage == ImportStage::Idle,
{
}

/// An import waits for one kind of event at a time, the reply to what it has to
/// do, and for none when it is finished.
pub proof fn law_import_waits_for_replies(
    state: ImportState,
    action: ImportAction<Seq<H256>>,
    event: ImportEvent<Seq<PreverifiedBlock>>,
)
    requires
        is_called_for(state.stage, action),
    ensures
        state.awaits(event) <==> match action {
            ImportAction::Drain(_) => event is Drained,
            ImportAction::ReadBestHash => event is BestHash,
            ImportAction::Check(_) => event is Checked,
            ImportAction::FindEra(_) => event is EraHash,
            ImportAction::Commit { .. } => event is Committed,
            ImportAction::Insert(_) => event is Inserted,
            ImportAction::MarkBad(_) => event is MarkedBad,
            ImportAction::MarkGood(_) => event is MarkedGood,
            ImportAction::QueryQueue => event is QueueEmpty,
            ImportAction::Notify { .. } => event is Notified,
            ImportAction::PrepareSealing => event is SealingPrepared,
            ImportAction::Done(_) => false,
        },
{
}

/// Events and actions stand for what they carry.
pub proof fn law_events_and_actions_stand_for_themselves(
    event: ImportEvent<Vec<PreverifiedBlock>>,
    action: ImportAction<Vec<H256>>,
)
    ensures
        match (event, event@) {
            (ImportEvent::Start, ImportEvent::Start) => true,
            (ImportEvent::Drained(a), ImportEvent::Drained(b)) => a@ == b,
            (ImportEvent::BestHash(a), ImportEvent::BestHash(b)) => a == b,
            (ImportEvent::Checked(a), ImportEvent::Checked(b)) => a == b,
            (ImportEvent::EraHash(a), ImportEvent::EraHash(b)) => a == b,
            (ImportEvent::Committed, ImportEvent::Committed) => true,
            (ImportEvent::Inserted, ImportEvent::Inserted) => true,
            (ImportEvent::MarkedBad, ImportEvent::MarkedBad) => true,
            (ImportEvent::MarkedGood, ImportEvent::MarkedGood) => true,
            (ImportEvent::QueueEmpty(a), ImportEvent::QueueEmpty(b)) => a == b,
            (ImportEvent::Notified, ImportEvent::Notified) => true,
            (ImportEvent::SealingPrepared, ImportEvent::SealingPrepared) => true,
            _ => false,
        },
        match (action, action@) {
            (ImportAction::Drain(a), ImportAction::Drain(b)) => a == b,
            (ImportAction::ReadBestHash, ImportAction::ReadBestHash) => true,
            (ImportAction::Check(a), ImportAction::Check(b)) => a == b,
            (ImportAction::FindEra(a), ImportAction::FindEra(b)) => a == b,
            (
                ImportAction::Commit { number: n, hash: h, ancient: a },
                ImportAction::Commit { number, hash, ancient },
            ) => n == number && h == hash && a == ancient,
            (ImportAction::Insert(a), ImportAction::Insert(b)) => a == b,
            (ImportAction::MarkBad(a), ImportAction::MarkBad(b)) => a@ == b,
            (ImportAction::MarkGood(a), ImportAction::MarkGood(b)) => a@ == b,
            (ImportAction::QueryQueue, ImportAction::QueryQueue) => true,
            (
                ImportAction::Notify { good: g, bad: b, retracted: r },
                ImportAction::Notify { good, bad, retracted },
            ) => g@ == good && b@ == bad && r@ == retracted,
            (ImportAction::PrepareSealing, ImportAction::PrepareSealing) => true,
            (ImportAction::Done(a), ImportAction::Done(b)) => a == b,
            _ => false,
        },
{
}

/// Every block before the first failure passes the check, and the first
/// failure, unless it is the end, does not.
pub proof fn law_first_failure(around: Surroundings, index: int)
    requires
        0 <= index <= around.blocks.len(),
    ensures
        index <= around.first_failure(index) <= around.blocks.len(),
        forall|i: int|
            index <= i < around.first_failure(index) ==> #[trigger] (around.passes)(i),
        around.first_failure(index) < around.blocks.len() ==> !(around.passes)(
            around.first_failure(index),
        ),
    decreases around.blocks.len() - index,
{
    if index < around.blocks.len() && (around.passes)(index) {
        law_first_failure(around, index + 1);
    }
}

/// Throughout an import there is no bad block while blocks are still being gone
/// through, so that no block is passed over for its parent; there is one bad
/// block at most; and the blocks that are marked good or bad are among the
/// drained ones, in their order.
pub proof fn law_one_bad_block(state: ImportState)
    requires
        state.consistent(),
    ensures
        state.scanning() ==> state.bad.len() == 0,
        state.bad.len() <= 1,
        state.good.len() + state.bad.len() <= state.blocks.len(),
        state.good + state.bad == hashes_of(
            state.blocks.take((state.good.len() + state.bad.len()) as int),
        ),
{
    assert(state.good + state.bad =~= hashes_of(
        state.blocks.take((state.good.len() + state.bad.len()) as int),
    ));
}

/// An import that is finished has imported as many blocks as passed the check,
/// and its last action says so.
pub proof fn law_done_counts_good(
    state: ImportState,
    event: ImportEvent<Seq<PreverifiedBlock>>,
    sealing_enabled: bool,
)
    requires
        state.consistent(),
        state.awaits(event),
    ensures
        state.after(event, sealing_enabled).1 matches ImportAction::Done(imported) ==> {
            &&& imported == state.good.len()
            &&& state.after(event, sealing_enabled).0.good == state.good
            &&& state.after(event, sealing_enabled).0.stage == ImportStage::Finished
        },
{
}

} // verus!
