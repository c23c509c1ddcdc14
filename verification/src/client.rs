//! The client and its own state.

use crate::import::{ImportAction, ImportEvent, ImportRun};
use crate::report::ClientReport;
use crate::types::{Address, Bytes, Opaque, PreverifiedBlock, H256};
use vstd::prelude::*;

verus! {

/// A block that is complete but for its seal, and the hash that names it to
/// those who look for one.
pub struct ClosedBlock<T: Opaque> {
    /// The hash that a seal is looked for.
    pub hash: H256,
    /// The block.
    pub block: T::ClosedBlock,
}

/// Blockchain database client.
pub struct Client<T: Opaque> {
    report: ClientReport,
    sealing_enabled: bool,
    sealing_block: Option<ClosedBlock<T>>,
    author: Address,
    extra_data: Bytes,
}

/// The state of a client as a mathematical value.
#[verifier::ext_equal]
pub struct ClientState<T: Opaque> {
    /// What the client has done so far.
    pub report: ClientReport,
    /// Whether somebody wants blocks to seal.
    pub sealing_enabled: bool,
    /// The block that is to be sealed.
    pub sealing_block: Option<ClosedBlock<T>>,
    /// Who the blocks are sealed as.
    pub author: Address,
    /// The extra data that the blocks are sealed with.
    pub extra_data: Seq<u8>,
}

impl<T: Opaque> View for Client<T> {
    type V = ClientState<T>;

    closed spec fn view(&self) -> ClientState<T> {
        ClientState {
            report: self.report,
            sealing_enabled: self.sealing_enabled,
            sealing_block: self.sealing_block,
            author: self.author,
            extra_data: self.extra_data@,
        }
    }
}

impl<T: Opaque> ClientState<T> {
    /// Whether the client has done nothing yet.
    pub open spec fn fresh(self) -> bool {
        &&& self.report == ClientReport::blank()
        &&& !self.sealing_enabled
        &&& self.sealing_block is None
        &&& self.author.is_zero()
        &&& self.extra_data.len() == 0
    }
}

/// What has come of the last action of a submission.
pub enum SealEvent<T: Opaque> {
    /// A seal for the block with this hash has been submitted.
    Submitted {
        /// The hash of the block.
        pow_hash: H256,
        /// The fields of the seal.
        seal: Vec<Bytes>,
    },
    /// The seal does not fit this block.
    Refused(ClosedBlock<T>),
    /// The seal fits, and this is the sealed block.
    Sealed(Bytes),
    /// The sealed block has been imported or not.
    Imported(Result<(), T::Error>),
}

/// Why a submission has failed.
pub enum SealError<T: Opaque> {
    /// No block with that hash is to be sealed.
    PowHashInvalid,
    /// The seal does not fit the block.
    PowInvalid,
    /// The sealed block could not be imported.
    Import(T::Error),
}

/// What a submission has to do next.
pub enum SealAction<T: Opaque> {
    /// Try this seal on this block.
    TrySeal {
        /// The block.
        block: ClosedBlock<T>,
        /// The fields of the seal.
        seal: Vec<Bytes>,
    },
    /// Import this block.
    Import(Bytes),
    /// All is done.
    Done(Result<(), SealError<T>>),
}

impl<T: Opaque> ClientState<T> {
    /// What comes of `event`: the state after it, and what to do next.
    pub open spec fn after_seal(self, event: SealEvent<T>) -> (ClientState<T>, SealAction<T>) {
        match event {
            SealEvent::Submitted { pow_hash, seal } => match self.sealing_block {
                Some(block) if block.hash == pow_hash => (
                    ClientState { sealing_block: None, ..self },
                    SealAction::TrySeal { block, seal },
                ),
                _ => (self, SealAction::Done(Err(SealError::PowHashInvalid))),
            },
            SealEvent::Refused(block) => (
                ClientState { sealing_block: Some(block), ..self },
                SealAction::Done(Err(SealError::PowInvalid)),
            ),
            SealEvent::Sealed(bytes) => (self, SealAction::Import(bytes)),
            SealEvent::Imported(Ok(_)) => (self, SealAction::Done(Ok(()))),
            SealEvent::Imported(Err(error)) => (
                self,
                SealAction::Done(Err(SealError::Import(error))),
            ),
        }
    }
}

impl<T: Opaque> Client<T> {
    /// Returns a client that has done nothing yet.
    pub(crate) fn fresh() -> (client: Client<T>)
        ensures
            client@.fresh(),
    {
        Client {
            report: ClientReport::default(),
            sealing_enabled: false,
            sealing_block: None,
            author: Address::new(),
            extra_data: Vec::new(),
        }
    }

    /// Takes note of what has come of the last action of an import, and
    /// returns what to do next. A block that has been inserted into the chain
    /// is added to the report.
    pub fn import_verified_blocks(
        &mut self,
        run: &mut ImportRun,
        event: ImportEvent<Vec<PreverifiedBlock>>,
    ) -> (action: ImportAction<Vec<H256>>)
        requires
            old(run)@.consistent(),
            old(run)@.awaits(event@),
            event is Inserted ==> old(self)@.report.has_room_for(old(run)@.current()),
        ensures
            (final(run)@, action@) == old(run)@.after(event@, old(self)@.sealing_enabled),
            final(run)@.consistent(),
            final(self)@ == (ClientState {
                report: if event is Inserted {
                    old(self)@.report.accrued(old(run)@.current())
                } else {
                    old(self)@.report
                },
                ..old(self)@
            }),
    {
        if let ImportEvent::Inserted = event {
            if let Some(block) = run.current_block() {
                self.report.accrue_block(block);
            }
        }
        run.advance(event, self.sealing_enabled)
    }

    /// Returns the report, given the memory that the state database uses.
    pub fn report(&self, state_db_mem: usize) -> (report: ClientReport)
        ensures
            report == (ClientReport { state_db_mem, ..self@.report }),
    {
        ClientReport { state_db_mem, ..self.report }
    }

    /// Returns the author that we will seal blocks as.
    pub fn author(&self) -> (author: Address)
        ensures
            author == self@.author,
    {
        self.author
    }

    /// Sets the author that we will seal blocks as.
    pub fn set_author(&mut self, author: Address)
        ensures
            final(self)@ == (ClientState { author, ..old(self)@ }),
    {
        self.author = author;
    }

    /// Returns the extra data that we will seal blocks with.
    pub fn extra_data(&self) -> (extra_data: Bytes)
        ensures
            extra_data@ == self@.extra_data,
    {
        self.extra_data.clone()
    }

    /// Sets the extra data that we will seal blocks with.
    pub fn set_extra_data(&mut self, extra_data: Bytes)
        ensures
            final(self)@ == (ClientState { extra_data: extra_data@, ..old(self)@ }),
    {
        self.extra_data = extra_data;
    }

    /// Takes note that somebody wants a block to seal, and tells whether one
    /// has to be prepared first.
    pub fn sealing_block(&mut self) -> (prepare: bool)
        ensures
            prepare == (old(self)@.sealing_block is None),
            final(self)@ == (ClientState {
                sealing_enabled: old(self)@.sealing_enabled || prepare,
                ..old(self)@
            }),
    {
        if self.sealing_block.is_none() {
            self.sealing_enabled = true;
            true
        } else {
            false
        }
    }

    /// Returns the block that is to be sealed.
    pub fn block_to_seal(&self) -> (block: Option<&ClosedBlock<T>>)
        ensures
            match block {
                Some(block) => self@.sealing_block == Some(*block),
                None => self@.sealing_block is None,
            },
    {
        match &self.sealing_block {
            Some(block) => Some(block),
            None => None,
        }
    }

    /// Replaces the block that is to be sealed.
    pub fn set_block_to_seal(&mut self, block: ClosedBlock<T>)
        ensures
            final(self)@ == (ClientState { sealing_block: Some(block), ..old(self)@ }),
    {
        self.sealing_block = Some(block);
    }

    /// Takes note of what has come of the last action of a submission, and
    /// returns what to do next.
    pub fn submit_seal(&mut self, event: SealEvent<T>) -> (action: SealAction<T>)
        ensures
            (final(self)@, action) == old(self)@.after_seal(event),
    {
        match event {
            SealEvent::Submitted { pow_hash, seal } => {
                match self.sealing_block.take() {
                    Some(block) => if block.hash == pow_hash {
                        SealAction::TrySeal { block, seal }
                    } else {
                        self.sealing_block = Some(block);
                        SealAction::Done(Err(SealError::PowHashInvalid))
                    },
                    None => SealAction::Done(Err(SealError::PowHashInvalid)),
                }
            },
            SealEvent::Refused(block) => {
                self.sealing_block = Some(block);
                SealAction::Done(Err(SealError::PowInvalid))
            },
            SealEvent::Sealed(bytes) => SealAction::Import(bytes),
            SealEvent::Imported(Ok(_)) => SealAction::Done(Ok(())),
            SealEvent::Imported(Err(error)) => SealAction::Done(Err(SealError::Import(error))),
        }
    }
}

} // verus!
