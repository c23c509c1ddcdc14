//! What holds of the submission of seals.

use crate::client::{ClientState, ClosedBlock, SealAction, SealError, SealEvent};
use crate::types::{Bytes, Opaque, H256};
use vstd::prelude::*;

verus! {

/// A seal that does not fit leaves everything as it was, the block to be
/// sealed included.
pub proof fn law_refused_seal_changes_nothing<T: Opaque>(
    state: ClientState<T>,
    block: ClosedBlock<T>,
    seal: Vec<Bytes>,
)
    requires
        state.sealing_block == Some(block),
    ensures
        ({
            let submitted = SealEvent::Submitted { pow_hash: block.hash, seal };
            let (tried, first) = state.after_seal(submitted);
            let (refused, second) = tried.after_seal(SealEvent::Refused(block));
            &&& first == (SealAction::TrySeal { block, seal })
            &&& second == SealAction::<T>::Done(Err(SealError::PowInvalid))
            &&& refused == state
        }),
{
}

/// A seal for any other block than the one to be sealed is refused and changes
/// nothing.
pub proof fn law_foreign_seal_is_refused<T: Opaque>(
    state: ClientState<T>,
    pow_hash: H256,
    seal: Vec<Bytes>,
)
    requires
        state.sealing_block matches Some(block) ==> block.hash != pow_hash,
    ensures
        state.after_seal(SealEvent::Submitted { pow_hash, seal }) == (
            state,
            SealAction::<T>::Done(Err(SealError::PowHashInvalid)),
        ),
{
}

/// A block is sealed once: when a seal fits, the sealed block is imported, the
/// result of the import decides, and until another block is to be sealed every
/// further seal is refused.
pub proof fn law_block_is_sealed_once<T: Opaque>(
    state: ClientState<T>,
    block: ClosedBlock<T>,
    seal: Vec<Bytes>,
    sealed: Bytes,
    import: Result<(), T::Error>,
    later: SealEvent<T>,
)
    requires
        state.sealing_block == Some(block),
        later is Submitted,
    ensures
        ({
            let submitted = SealEvent::Submitted { pow_hash: block.hash, seal };
            let (tried, first) = state.after_seal(submitted);
            let (accepted, second) = tried.after_seal(SealEvent::Sealed(sealed));
            let (done, third) = accepted.after_seal(SealEvent::Imported(import));
            &&& first == (SealAction::TrySeal { block, seal })
            &&& second == SealAction::<T>::Import(sealed)
            &&& third == SealAction::<T>::Done(
                match import {
                    Ok(_) => Ok(()),
                    Err(error) => Err(SealError::Import(error)),
                },
            )
            &&& done == (ClientState { sealing_block: None, ..state })
            &&& done.after_seal(later) == (
                done,
                SealAction::<T>::Done(Err(SealError::PowHashInvalid)),
            )
        }),
{
}

/// Whatever the client is at, a block that its seal does not fit becomes the
/// block to be sealed again, and the submission fails for it; a block that is
/// sealed is imported as it is; and the import decides what the submission comes
/// to, without any change.
pub proof fn law_seal_replies<T: Opaque>(
    state: ClientState<T>,
    block: ClosedBlock<T>,
    sealed: Bytes,
    error: T::Error,
)
    ensures
        ({
            let (after, action) = state.after_seal(SealEvent::Refused(block));
            &&& after.sealing_block == Some(block)
            &&& action == SealAction::<T>::Done(Err(SealError::PowInvalid))
        }),
        state.after_seal(SealEvent::Sealed(sealed)) == (state, SealAction::<T>::Import(sealed)),
        state.after_seal(SealEvent::Imported(Ok(()))) == (state, SealAction::<T>::Done(Ok(()))),
        state.after_seal(SealEvent::Imported(Err(error))) == (
            state,
            SealAction::<T>::Done(Err(SealError::Import(error))),
        ),
{
}

/// A seal is tried exactly if it is submitted for the block to be sealed, and it
/// is that block and that seal that are tried.
pub proof fn law_seals_that_are_tried<T: Opaque>(
    state: ClientState<T>,
    event: SealEvent<T>,
    block: ClosedBlock<T>,
    seal: Vec<Bytes>,
)
    ensures
        state.after_seal(event).1 == (SealAction::<T>::TrySeal { block, seal }) <==> {
            &&& state.sealing_block == Some(block)
            &&& event == (SealEvent::<T>::Submitted { pow_hash: block.hash, seal })
        },
        state.after_seal(event).1 is TrySeal ==> state.after_seal(event).0.sealing_block is None,
{
}

/// No submission touches anything but the block to be sealed.
pub proof fn law_submission_touches_sealing_only<T: Opaque>(
    state: ClientState<T>,
    event: SealEvent<T>,
)
    ensures
        state.after_seal(event).0 == (ClientState {
            sealing_block: state.after_seal(event).0.sealing_block,
            ..state
        }),
{
}

} // verus!
