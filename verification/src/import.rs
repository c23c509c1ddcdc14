//! The import of verified blocks.

use crate::answers::{ask, ask_once, Answers, Known, Lookup, Request};
use crate::client::Client;
use crate::reads::LAST_HASHES;
use crate::types::{BlockNumber, Header, Opaque, PreverifiedBlock, H256};
use vstd::prelude::*;

verus! {

/// How many blocks of state history are kept.
pub const HISTORY: u64 = 1000;

/// How many blocks are imported at most in one go.
pub const MAX_BLOCKS_TO_IMPORT: usize = 128;

/// Why a block cannot be closed.
#[derive(Debug, Clone, Copy, PartialEq, Eq, Structural)]
pub enum Refusal {
    /// The block is so old that it cannot be enacted any more.
    Ancient,
    /// The block does not fit its family.
    Family,
    /// The chain does not have its parent.
    ParentNotFound,
    /// The block could not be enacted.
    Enactment,
    /// The enacted block is not the one that was announced.
    Final,
}

/// How the outside stages of a check have turned out so far.
#[derive(Debug, Clone, Copy, PartialEq, Eq, Structural)]
pub struct StageResults {
    /// Whether the block fits its family.
    pub family: Option<bool>,
    /// Whether the block could be enacted.
    pub enacted: Option<bool>,
    /// Whether the enacted block is the one that was announced.
    pub confirmed: Option<bool>,
}

impl StageResults {
    /// Returns the results before any stage.
    pub fn new() -> (results: StageResults)
        ensures
            results == (StageResults { family: None, enacted: None, confirmed: None }),
    {
        StageResults { family: None, enacted: None, confirmed: None }
    }
}

/// The next step of a check.
pub enum CheckStep<'a, T: Opaque> {
    /// Read the answer to this question.
    Read(Request),
    /// Verify that the block fits its family.
    VerifyFamily,
    /// Enact the block on top of its parent.
    Enact {
        /// The header of the parent.
        parent: &'a T::Header,
        /// The hashes of the parent and of its ancestors.
        last_hashes: Vec<H256>,
    },
    /// Verify that the enacted block is the one that was announced.
    VerifyFinal,
    /// The enacted block is good.
    Close,
    /// The block is bad.
    Refuse(Refusal),
}

/// The next step of a check, as a mathematical value.
pub enum Check<T: Opaque> {
    /// Read the answer to this question.
    Read(Request),
    /// Verify that the block fits its family.
    VerifyFamily,
    /// Enact the block on top of its parent.
    Enact {
        /// The header of the parent.
        parent: T::Header,
    },
    /// Verify that the enacted block is the one that was announced.
    VerifyFinal,
    /// The enacted block is good.
    Close,
    /// The block is bad.
    Refuse(Refusal),
}

/// Whether a block is too old to be enacted on a chain with this best block.
pub open spec fn is_ancient(number: BlockNumber, best: BlockNumber) -> bool {
    best >= HISTORY && number <= best - HISTORY
}

impl<T: Opaque> Known<T> {
    /// The next step of the check of a block.
    pub open spec fn check(self, header: Header, results: StageResults) -> Check<T> {
        match ask_once(self.best_block_number, Request::BestBlockNumber) {
            Lookup::Ask(request) => Check::Read(request),
            Lookup::Ready(best) => if is_ancient(header.number, best) {
                Check::Refuse(Refusal::Ancient)
            } else {
                match results.family {
                    None => Check::VerifyFamily,
                    Some(false) => Check::Refuse(Refusal::Family),
                    Some(true) => self.check_with_family(header, results),
                }
            },
        }
    }

    /// The next step of the check of a block that fits its family.
    pub open spec fn check_with_family(self, header: Header, results: StageResults) -> Check<T> {
        let parent = header.parent_hash;
        match ask(self.block_header, parent, Request::BlockHeader(parent)) {
            Lookup::Ask(request) => Check::Read(request),
            Lookup::Ready(None) => Check::Refuse(Refusal::ParentNotFound),
            Lookup::Ready(Some(parent_header)) => match self.ancestor(
                parent,
                (LAST_HASHES - 1) as nat,
            ) {
                Lookup::Ask(request) => Check::Read(request),
                Lookup::Ready(_) => match results.enacted {
                    None => Check::Enact { parent: parent_header },
                    Some(false) => Check::Refuse(Refusal::Enactment),
                    Some(true) => match results.confirmed {
                        None => Check::VerifyFinal,
                        Some(false) => Check::Refuse(Refusal::Final),
                        Some(true) => Check::Close,
                    },
                },
            },
        }
    }
}

impl<T: Opaque> Client<T> {
    /// Decides the next step of the check of a block.
    pub fn check_and_close_block<'a>(
        answers: &'a Answers<T>,
        header: &Header,
        results: &StageResults,
    ) -> (step: CheckStep<'a, T>)
        ensures
            match step {
                CheckStep::Read(request) => answers@.check(*header, *results) == Check::<T>::Read(
                    request,
                ),
                CheckStep::VerifyFamily => answers@.check(*header, *results) == Check::<
                    T,
                >::VerifyFamily,
                CheckStep::Enact { parent, last_hashes } => answers@.check(*header, *results)
                    == (Check::<T>::Enact { parent: *parent }) && answers@.lineage(
                    header.parent_hash,
                    last_hashes@,
                ),
                CheckStep::VerifyFinal => answers@.check(*header, *results) == Check::<
                    T,
                >::VerifyFinal,
                CheckStep::Close => answers@.check(*header, *results) == Check::<T>::Close,
                CheckStep::Refuse(refusal) => answers@.check(*header, *results) == Check::<
                    T,
                >::Refuse(refusal),
            },
    {
        let best: BlockNumber = match answers.best_block_number {
            Some(best) => best,
            None => {
                return CheckStep::Read(Request::BestBlockNumber);
            },
        };
        if best >= HISTORY && header.number <= best - HISTORY {
            return CheckStep::Refuse(Refusal::Ancient);
        }
        match results.family {
            None => {
                return CheckStep::VerifyFamily;
            },
            Some(fits) => if !fits {
                return CheckStep::Refuse(Refusal::Family);
            },
        }
        let parent = match answers.block_header.ask(
            &header.parent_hash,
            Request::BlockHeader(header.parent_hash),
        ) {
            Lookup::Ready(Some(parent)) => parent,
            Lookup::Ready(None) => {
                return CheckStep::Refuse(Refusal::ParentNotFound);
            },
            Lookup::Ask(request) => {
                return CheckStep::Read(request);
            },
        };
        let last_hashes = match Self::build_last_hashes(answers, header.parent_hash) {
            Lookup::Ready(last_hashes) => last_hashes,
            Lookup::Ask(request) => {
                return CheckStep::Read(request);
            },
        };
        assert(answers@.shows_ancestor(
            header.parent_hash,
            (LAST_HASHES - 1) as nat,
            last_hashes@[LAST_HASHES - 1],
        ));
        match results.enacted {
            None => {
                return CheckStep::Enact { parent, last_hashes };
            },
            Some(enacted) => if !enacted {
                return CheckStep::Refuse(Refusal::Enactment);
            },
        }
        match results.confirmed {
            None => CheckStep::VerifyFinal,
            Some(confirmed) => if confirmed {
                CheckStep::Close
            } else {
                CheckStep::Refuse(Refusal::Final)
            },
        }
    }
}

/// What an import waits for.
#[derive(Debug, Clone, Copy, PartialEq, Eq, Structural)]
pub enum ImportStage {
    /// To be started.
    Idle,
    /// The verified blocks of the queue.
    Draining,
    /// The best block before the import.
    ReadingBest,
    /// The check of the current block.
    Checking,
    /// The hash of the block that leaves the history with the current one.
    FindingEra,
    /// The state of the current block to be committed.
    Committing,
    /// The current block to be inserted into the chain.
    Inserting,
    /// The bad blocks to be marked.
    MarkingBad,
    /// The good blocks to be marked.
    MarkingGood,
    /// Whether the queue is empty.
    QueryingQueue,
    /// The new blocks to be announced.
    Notifying,
    /// The best block after the import.
    RereadingBest,
    /// The sealing to be prepared.
    PreparingSealing,
    /// Nothing more.
    Finished,
}

/// What has come of the last action of an import.
#[derive(Debug, PartialEq, Eq)]
pub enum ImportEvent<B> {
    /// The import is to start.
    Start,
    /// These blocks have been drained from the queue.
    Drained(B),
    /// The best block has this hash.
    BestHash(H256),
    /// The current block has been checked; it is good or not.
    Checked(bool),
    /// The block that leaves the history has this hash.
    EraHash(H256),
    /// The state has been committed.
    Committed,
    /// The block has been inserted.
    Inserted,
    /// The bad blocks have been marked.
    MarkedBad,
    /// The good blocks have been marked.
    MarkedGood,
    /// The queue is empty or not.
    QueueEmpty(bool),
    /// The new blocks have been announced.
    Notified,
    /// The sealing has been prepared.
    SealingPrepared,
}

/// What an import has to do next.
#[derive(Debug, PartialEq, Eq)]
pub enum ImportAction<L> {
    /// Drain at most so many verified blocks from the queue.
    Drain(usize),
    /// Read the hash of the best block.
    ReadBestHash,
    /// Check the block with this index.
    Check(usize),
    /// Read the hash of the block with this number.
    FindEra(BlockNumber),
    /// Commit the state of the block.
    Commit {
        /// The number of the block.
        number: BlockNumber,
        /// The hash of the block.
        hash: H256,
        /// The number and the hash of the block that leaves the history.
        ancient: Option<(BlockNumber, H256)>,
    },
    /// Insert the block with this index into the chain.
    Insert(usize),
    /// Mark these blocks as bad.
    MarkBad(L),
    /// Mark these blocks as good.
    MarkGood(L),
    /// Find out whether the queue is empty.
    QueryQueue,
    /// Announce the new blocks.
    Notify {
        /// The blocks that have been imported.
        good: L,
        /// The blocks that are bad.
        bad: L,
        /// The blocks that are no longer part of the best chain.
        retracted: L,
    },
    /// Prepare the sealing of a new block.
    PrepareSealing,
    /// All is done, and so many blocks have been imported.
    Done(usize),
}

impl ImportEvent<Vec<PreverifiedBlock>> {
    /// The event as a mathematical value.
    pub open spec fn view(self) -> ImportEvent<Seq<PreverifiedBlock>> {
        match self {
            ImportEvent::Start => ImportEvent::Start,
            ImportEvent::Drained(blocks) => ImportEvent::Drained(blocks@),
            ImportEvent::BestHash(hash) => ImportEvent::BestHash(hash),
            ImportEvent::Checked(good) => ImportEvent::Checked(good),
            ImportEvent::EraHash(hash) => ImportEvent::EraHash(hash),
            ImportEvent::Committed => ImportEvent::Committed,
            ImportEvent::Inserted => ImportEvent::Inserted,
            ImportEvent::MarkedBad => ImportEvent::MarkedBad,
            ImportEvent::MarkedGood => ImportEvent::MarkedGood,
            ImportEvent::QueueEmpty(empty) => ImportEvent::QueueEmpty(empty),
            ImportEvent::Notified => ImportEvent::Notified,
            ImportEvent::SealingPrepared => ImportEvent::SealingPrepared,
        }
    }
}

impl ImportAction<Vec<H256>> {
    /// The action as a mathematical value.
    pub open spec fn view(self) -> ImportAction<Seq<H256>> {
        match self {
            ImportAction::Drain(max) => ImportAction::Drain(max),
            ImportAction::ReadBestHash => ImportAction::ReadBestHash,
            ImportAction::Check(index) => ImportAction::Check(index),
            ImportAction::FindEra(number) => ImportAction::FindEra(number),
            ImportAction::Commit { number, hash, ancient } => ImportAction::Commit {
                number,
                hash,
                ancient,
            },
            ImportAction::Insert(index) => ImportAction::Insert(index),
            ImportAction::MarkBad(hashes) => ImportAction::MarkBad(hashes@),
            ImportAction::MarkGood(hashes) => ImportAction::MarkGood(hashes@),
            ImportAction::QueryQueue => ImportAction::QueryQueue,
            ImportAction::Notify { good, bad, retracted } => ImportAction::Notify {
                good: good@,
                bad: bad@,
                retracted: retracted@,
            },
            ImportAction::PrepareSealing => ImportAction::PrepareSealing,
            ImportAction::Done(imported) => ImportAction::Done(imported),
        }
    }
}

/// The hashes of `blocks`.
pub open spec fn hashes_of(blocks: Seq<PreverifiedBlock>) -> Seq<H256> {
    Seq::new(blocks.len(), |i: int| blocks[i].header.hash)
}

/// An import under way, as a mathematical value.
pub struct ImportState {
    /// The blocks to be imported, parents first.
    pub blocks: Seq<PreverifiedBlock>,
    /// The index of the current block.
    pub next: int,
    /// The hashes of the blocks that have passed the check.
    pub good: Seq<H256>,
    /// The hashes of the blocks that are bad.
    pub bad: Seq<H256>,
    /// The hash of the best block before the import.
    pub best_before: H256,
    /// What the import waits for.
    pub stage: ImportStage,
}

impl ImportState {
    /// An import that has not started.
    pub open spec fn idle() -> ImportState {
        ImportState {
            blocks: Seq::empty(),
            next: 0,
            good: Seq::empty(),
            bad: Seq::empty(),
            best_before: H256::zero(),
            stage: ImportStage::Idle,
        }
    }

    /// Whether the import waits for an event of this kind.
    pub open spec fn awaits(self, event: ImportEvent<Seq<PreverifiedBlock>>) -> bool {
        match event {
            ImportEvent::Start => self.stage == ImportStage::Idle,
            ImportEvent::Drained(_) => self.stage == ImportStage::Draining,
            ImportEvent::BestHash(_) => self.stage == ImportStage::ReadingBest || self.stage
                == ImportStage::RereadingBest,
            ImportEvent::Checked(_) => self.stage == ImportStage::Checking,
            ImportEvent::EraHash(_) => self.stage == ImportStage::FindingEra,
            ImportEvent::Committed => self.stage == ImportStage::Committing,
            ImportEvent::Inserted => self.stage == ImportStage::Inserting,
            ImportEvent::MarkedBad => self.stage == ImportStage::MarkingBad,
            ImportEvent::MarkedGood => self.stage == ImportStage::MarkingGood,
            ImportEvent::QueueEmpty(_) => self.stage == ImportStage::QueryingQueue,
            ImportEvent::Notified => self.stage == ImportStage::Notifying,
            ImportEvent::SealingPrepared => self.stage == ImportStage::PreparingSealing,
        }
    }

    /// The current block.
    pub open spec fn current(self) -> PreverifiedBlock {
        self.blocks[self.next]
    }

    /// Whether the blocks are still being gone through.
    pub open spec fn scanning(self) -> bool {
        match self.stage {
            ImportStage::ReadingBest | ImportStage::Checking | ImportStage::FindingEra
            | ImportStage::Committing | ImportStage::Inserting => true,
            _ => false,
        }
    }

    /// What holds throughout an import: the good blocks are those before the
    /// current one, the current one among them once it has passed the check;
    /// and the only bad block is the current one, once it has failed it.
    pub open spec fn consistent(self) -> bool {
        match self.stage {
            ImportStage::Idle | ImportStage::Draining => self == (ImportState {
                stage: self.stage,
                ..ImportState::idle()
            }),
            ImportStage::ReadingBest => {
                &&& self.next == 0
                &&& self.good.len() == 0
                &&& self.bad.len() == 0
                &&& self.blocks.len() <= usize::MAX
            },
            ImportStage::Checking => {
                &&& 0 <= self.next < self.blocks.len() <= usize::MAX
                &&& self.good == hashes_of(self.blocks.take(self.next))
                &&& self.bad.len() == 0
            },
            ImportStage::FindingEra => {
                &&& 0 <= self.next < self.blocks.len() <= usize::MAX
                &&& self.good == hashes_of(self.blocks.take(self.next + 1))
                &&& self.bad.len() == 0
                &&& self.current().header.number >= HISTORY
            },
            ImportStage::Committing | ImportStage::Inserting => {
                &&& 0 <= self.next < self.blocks.len() <= usize::MAX
                &&& self.good == hashes_of(self.blocks.take(self.next + 1))
                &&& self.bad.len() == 0
            },
            _ => {
                &&& 0 <= self.next <= self.blocks.len() <= usize::MAX
                &&& self.good == hashes_of(self.blocks.take(self.next))
                &&& self.bad == (if self.next < self.blocks.len() {
                    seq![self.current().header.hash]
                } else {
                    Seq::empty()
                })
                &&& match self.stage {
                    ImportStage::MarkingBad => self.bad.len() > 0,
                    ImportStage::MarkingGood | ImportStage::QueryingQueue
                    | ImportStage::Notifying => self.good.len() > 0,
                    _ => true,
                }
            },
        }
    }

    /// Goes on to the next block that is to be checked. A block whose parent
    /// is bad is bad itself and not checked.
    pub open spec fn scan(self) -> (ImportState, ImportAction<Seq<H256>>)
        decreases self.blocks.len() - self.next,
    {
        if self.next >= self.blocks.len() {
            self.wind_up()
        } else if self.bad.contains(self.current().header.parent_hash) {
            ImportState {
                next: self.next + 1,
                bad: with_hash(self.bad, self.current().header.hash),
                ..self
            }.scan()
        } else {
            (
                ImportState { stage: ImportStage::Checking, ..self },
                ImportAction::Check(self.next as usize),
            )
        }
    }

    /// Marks the bad blocks, if there are any.
    pub open spec fn wind_up(self) -> (ImportState, ImportAction<Seq<H256>>) {
        if self.bad.len() > 0 {
            (
                ImportState { stage: ImportStage::MarkingBad, ..self },
                ImportAction::MarkBad(self.bad),
            )
        } else {
            self.mark_good()
        }
    }

    /// Marks the good blocks, if there are any.
    pub open spec fn mark_good(self) -> (ImportState, ImportAction<Seq<H256>>) {
        if self.good.len() > 0 {
            (
                ImportState { stage: ImportStage::MarkingGood, ..self },
                ImportAction::MarkGood(self.good),
            )
        } else {
            self.reread()
        }
    }

    /// Looks at the best block again.
    pub open spec fn reread(self) -> (ImportState, ImportAction<Seq<H256>>) {
        (ImportState { stage: ImportStage::RereadingBest, ..self }, ImportAction::ReadBestHash)
    }

    /// Ends the import.
    pub open spec fn finish(self) -> (ImportState, ImportAction<Seq<H256>>) {
        (
            ImportState { stage: ImportStage::Finished, ..self },
            ImportAction::Done(self.good.len() as usize),
        )
    }

    /// Commits the state of the current block.
    pub open spec fn commit(self, ancient: Option<(BlockNumber, H256)>) -> (
        ImportState,
        ImportAction<Seq<H256>>,
    ) {
        (
            ImportState { stage: ImportStage::Committing, ..self },
            ImportAction::Commit {
                number: self.current().header.number,
                hash: self.current().header.hash,
                ancient,
            },
        )
    }

    /// What comes of `event`: the import after it, and what to do next.
    pub open spec fn after(
        self,
        event: ImportEvent<Seq<PreverifiedBlock>>,
        sealing_enabled: bool,
    ) -> (ImportState, ImportAction<Seq<H256>>) {
        match event {
            ImportEvent::Start => (
                ImportState { stage: ImportStage::Draining, ..self },
                ImportAction::Drain(MAX_BLOCKS_TO_IMPORT),
            ),
            ImportEvent::Drained(blocks) => (
                ImportState { blocks, stage: ImportStage::ReadingBest, ..self },
                ImportAction::ReadBestHash,
            ),
            ImportEvent::BestHash(hash) => if self.stage == ImportStage::ReadingBest {
                ImportState { best_before: hash, ..self }.scan()
            } else if hash != self.best_before && sealing_enabled {
                (
                    ImportState { stage: ImportStage::PreparingSealing, ..self },
                    ImportAction::PrepareSealing,
                )
            } else {
                self.finish()
            },
            ImportEvent::Checked(good) => if good {
                let passed = ImportState {
                    good: self.good.push(self.current().header.hash),
                    ..self
                };
                if self.current().header.number >= HISTORY {
                    (
                        ImportState { stage: ImportStage::FindingEra, ..passed },
                        ImportAction::FindEra((self.current().header.number - HISTORY) as u64),
                    )
                } else {
                    passed.commit(None)
                }
            } else {
                ImportState {
                    bad: with_hash(self.bad, self.current().header.hash),
                    ..self
                }.wind_up()
            },
            ImportEvent::EraHash(hash) => self.commit(
                Some(((self.current().header.number - HISTORY) as u64, hash)),
            ),
            ImportEvent::Committed => (
                ImportState { stage: ImportStage::Inserting, ..self },
                ImportAction::Insert(self.next as usize),
            ),
            ImportEvent::Inserted => ImportState { next: self.next + 1, ..self }.scan(),
            ImportEvent::MarkedBad => self.mark_good(),
            ImportEvent::MarkedGood => (
                ImportState { stage: ImportStage::QueryingQueue, ..self },
                ImportAction::QueryQueue,
            ),
            ImportEvent::QueueEmpty(empty) => if empty {
                (
                    ImportState { stage: ImportStage::Notifying, ..self },
                    ImportAction::Notify {
                        good: self.good,
                        bad: self.bad,
                        retracted: Seq::empty(),
                    },
                )
            } else {
                self.reread()
            },
            ImportEvent::Notified => self.reread(),
            ImportEvent::SealingPrepared => self.finish(),
        }
    }
}

/// `hashes` with `hash` among them.
pub open spec fn with_hash(hashes: Seq<H256>, hash: H256) -> Seq<H256> {
    if hashes.contains(hash) {
        hashes
    } else {
        hashes.push(hash)
    }
}

/// Tells whether `hash` is among `hashes`.
fn contains_hash(hashes: &Vec<H256>, hash: &H256) -> (found: bool)
    ensures
        found == hashes@.contains(*hash),
{
    let mut i: usize = 0;
    while i < hashes.len()
        invariant
            i <= hashes@.len(),
            forall|j: int| 0 <= j < i ==> hashes@[j] != *hash,
        decreases hashes@.len() - i,
    {
        if hashes[i] == *hash {
            return true;
        }
        i = i + 1;
    }
    false
}

/// Puts `hash` among `hashes`.
fn add_hash(hashes: &mut Vec<H256>, hash: H256)
    ensures
        final(hashes)@ == with_hash(old(hashes)@, hash),
{
    if !contains_hash(hashes, &hash) {
        hashes.push(hash);
    }
}

/// Returns a copy of `hashes`.
fn copy_hashes(hashes: &Vec<H256>) -> (copy: Vec<H256>)
    ensures
        copy@ == hashes@,
{
    let mut copy: Vec<H256> = Vec::new();
    let mut i: usize = 0;
    while i < hashes.len()
        invariant
            i <= hashes@.len(),
            copy@ == hashes@.take(i as int),
        decreases hashes@.len() - i,
    {
        copy.push(hashes[i]);
        i = i + 1;
        assert(copy@ =~= hashes@.take(i as int));
    }
    assert(hashes@.take(i as int) =~= hashes@);
    copy
}

/// An import under way.
pub struct ImportRun {
    blocks: Vec<PreverifiedBlock>,
    next: usize,
    good: Vec<H256>,
    bad: Vec<H256>,
    best_before: H256,
    stage: ImportStage,
}

impl View for ImportRun {
    type V = ImportState;

    closed spec fn view(&self) -> ImportState {
        ImportState {
            blocks: self.blocks@,
            next: self.next as int,
            good: self.good@,
            bad: self.bad@,
            best_before: self.best_before,
            stage: self.stage,
        }
    }
}

impl ImportRun {
    /// Returns an import that has not started.
    pub fn new() -> (run: ImportRun)
        ensures
            run@ == ImportState::idle(),
            run@.consistent(),
    {
        let run = ImportRun {
            blocks: Vec::new(),
            next: 0,
            good: Vec::new(),
            bad: Vec::new(),
            best_before: H256::new(),
            stage: ImportStage::Idle,
        };
        assert(run@ == ImportState::idle());
        run
    }

    /// Returns the block that is being imported.
    pub fn current_block(&self) -> (block: Option<&PreverifiedBlock>)
        ensures
            match block {
                Some(block) => 0 <= self@.next < self@.blocks.len() && *block == self@.current(),
                None => self@.next >= self@.blocks.len(),
            },
    {
        if self.next < self.blocks.len() {
            Some(&self.blocks[self.next])
        } else {
            None
        }
    }

    /// Tells whether the import waits for an event of this kind.
    pub fn awaits(&self, event: &ImportEvent<Vec<PreverifiedBlock>>) -> (awaited: bool)
        ensures
            awaited == self@.awaits(event@),
    {
        match event {
            ImportEvent::Start => self.stage == ImportStage::Idle,
            ImportEvent::Drained(_) => self.stage == ImportStage::Draining,
            ImportEvent::BestHash(_) => self.stage == ImportStage::ReadingBest || self.stage
                == ImportStage::RereadingBest,
            ImportEvent::Checked(_) => self.stage == ImportStage::Checking,
            ImportEvent::EraHash(_) => self.stage == ImportStage::FindingEra,
            ImportEvent::Committed => self.stage == ImportStage::Committing,
            ImportEvent::Inserted => self.stage == ImportStage::Inserting,
            ImportEvent::MarkedBad => self.stage == ImportStage::MarkingBad,
            ImportEvent::MarkedGood => self.stage == ImportStage::MarkingGood,
            ImportEvent::QueueEmpty(_) => self.stage == ImportStage::QueryingQueue,
            ImportEvent::Notified => self.stage == ImportStage::Notifying,
            ImportEvent::SealingPrepared => self.stage == ImportStage::PreparingSealing,
        }
    }

    fn scan(&mut self) -> (action: ImportAction<Vec<H256>>)
        ensures
            (final(self)@, action@) == old(self)@.scan(),
        decreases old(self).blocks@.len() - old(self).next,
    {
        if self.next >= self.blocks.len() {
            return self.wind_up();
        }
        let header = self.blocks[self.next].header;
        if contains_hash(&self.bad, &header.parent_hash) {
            add_hash(&mut self.bad, header.hash);
            self.next = self.next + 1;
            return self.scan();
        }
        self.stage = ImportStage::Checking;
        ImportAction::Check(self.next)
    }

    fn wind_up(&mut self) -> (action: ImportAction<Vec<H256>>)
        ensures
            (final(self)@, action@) == old(self)@.wind_up(),
    {
        if self.bad.len() > 0 {
            self.stage = ImportStage::MarkingBad;
            ImportAction::MarkBad(copy_hashes(&self.bad))
        } else {
            self.mark_good()
        }
    }

    fn mark_good(&mut self) -> (action: ImportAction<Vec<H256>>)
        ensures
            (final(self)@, action@) == old(self)@.mark_good(),
    {
        if self.good.len() > 0 {
            self.stage = ImportStage::MarkingGood;
            ImportAction::MarkGood(copy_hashes(&self.good))
        } else {
            self.reread()
        }
    }

    fn reread(&mut self) -> (action: ImportAction<Vec<H256>>)
        ensures
            (final(self)@, action@) == old(self)@.reread(),
    {
        self.stage = ImportStage::RereadingBest;
        ImportAction::ReadBestHash
    }

    fn finish(&mut self) -> (action: ImportAction<Vec<H256>>)
        ensures
            (final(self)@, action@) == old(self)@.finish(),
    {
        self.stage = ImportStage::Finished;
        ImportAction::Done(self.good.len())
    }

    fn commit(&mut self, ancient: Option<(BlockNumber, H256)>) -> (action: ImportAction<Vec<H256>>)
        requires
            0 <= old(self)@.next < old(self)@.blocks.len(),
        ensures
            (final(self)@, action@) == old(self)@.commit(ancient),
    {
        let header = self.blocks[self.next].header;
        self.stage = ImportStage::Committing;
        ImportAction::Commit { number: header.number, hash: header.hash, ancient }
    }

    /// Takes note of `event` and returns what to do next.
    pub fn advance(
        &mut self,
        event: ImportEvent<Vec<PreverifiedBlock>>,
        sealing_enabled: bool,
    ) -> (action: ImportAction<Vec<H256>>)
        requires
            old(self)@.consistent(),
            old(self)@.awaits(event@),
        ensures
            (final(self)@, action@) == old(self)@.after(event@, sealing_enabled),
            final(self)@.consistent(),
    {
        proof {
            assert(event matches ImportEvent::Drained(blocks) ==> blocks.len() == blocks@.len());
            lemma_consistent_after(self@, event@, sealing_enabled);
        }
        match event {
            ImportEvent::Start => {
                self.stage = ImportStage::Draining;
                ImportAction::Drain(MAX_BLOCKS_TO_IMPORT)
            },
            ImportEvent::Drained(blocks) => {
                self.blocks = blocks;
                self.stage = ImportStage::ReadingBest;
                ImportAction::ReadBestHash
            },
            ImportEvent::BestHash(hash) => if self.stage == ImportStage::ReadingBest {
                self.best_before = hash;
                self.scan()
            } else if hash != self.best_before && sealing_enabled {
                self.stage = ImportStage::PreparingSealing;
                ImportAction::PrepareSealing
            } else {
                self.finish()
            },
            ImportEvent::Checked(good) => {
                let header = self.blocks[self.next].header;
                if good {
                    self.good.push(header.hash);
                    if header.number >= HISTORY {
                        self.stage = ImportStage::FindingEra;
                        ImportAction::FindEra(header.number - HISTORY)
                    } else {
                        self.commit(None)
                    }
                } else {
                    add_hash(&mut self.bad, header.hash);
                    self.wind_up()
                }
            },
            ImportEvent::EraHash(hash) => {
                let number: BlockNumber = self.blocks[self.next].header.number;
                self.commit(Some((number - HISTORY, hash)))
            },
            ImportEvent::Committed => {
                self.stage = ImportStage::Inserting;
                ImportAction::Insert(self.next)
            },
            ImportEvent::Inserted => {
                self.next = self.next + 1;
                self.scan()
            },
            ImportEvent::MarkedBad => self.mark_good(),
            ImportEvent::MarkedGood => {
                self.stage = ImportStage::QueryingQueue;
                ImportAction::QueryQueue
            },
            ImportEvent::QueueEmpty(empty) => if empty {
                self.stage = ImportStage::Notifying;
                ImportAction::Notify {
                    good: copy_hashes(&self.good),
                    bad: copy_hashes(&self.bad),
                    retracted: Vec::new(),
                }
            } else {
                self.reread()
            },
            ImportEvent::Notified => self.reread(),
            ImportEvent::SealingPrepared => self.finish(),
        }
    }
}

/// An event that is waited for keeps an import consistent.
pub proof fn lemma_consistent_after(
    state: ImportState,
    event: ImportEvent<Seq<PreverifiedBlock>>,
    sealing_enabled: bool,
)
    requires
        state.consistent(),
        state.awaits(event),
        event matches ImportEvent::Drained(blocks) ==> blocks.len() <= usize::MAX,
    ensures
        state.after(event, sealing_enabled).0.consistent(),
{
    assert(state.blocks.take(state.blocks.len() as int) =~= state.blocks);
    match event {
        ImportEvent::BestHash(hash) => {
            if state.stage == ImportStage::ReadingBest {
                assert(state.good =~= hashes_of(state.blocks.take(0)));
                assert(state.bad =~= Seq::empty());
            }
        },
        ImportEvent::Checked(good) => {
            assert(state.good.push(state.current().header.hash) =~= hashes_of(
                state.blocks.take(state.next + 1),
            ));
            assert(with_hash(state.bad, state.current().header.hash)
                =~= seq![state.current().header.hash]);
        },
        ImportEvent::Inserted => {
            assert(state.bad =~= Seq::empty());
        },
        _ => {},
    }
}

} // verus!
