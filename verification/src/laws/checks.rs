//! What the check of a block comes to, stage by stage.

use crate::answers::{Known, Lookup, Request};
use crate::import::{Check, Refusal, StageResults};
use crate::laws::lookups::lemma_ancestors_ask_for_details;
use crate::laws::reads::law_ancestors_hold_on;
use crate::types::{BlockNumber, Header, Opaque};
use vstd::prelude::*;

verus! {

/// A check asks for the best block first. A block that lies a thousand blocks or
/// more behind it is refused as ancient, whatever the stages say, and no other
/// is. Any other block is verified against its family as long as that has not
/// been done, and is refused for its family exactly if that has failed.
pub proof fn law_check_of_the_family<T: Opaque>(
    known: Known<T>,
    header: Header,
    results: StageResults,
)
    ensures
        known.best_block_number is None <==> known.check(header, results) == Check::<T>::Read(
            Request::BestBlockNumber,
        ),
        known.best_block_number matches Some(best) ==> {
            let ancient = header.number + 1000 <= best;
            &&& ancient <==> known.check(header, results) == Check::<T>::Refuse(Refusal::Ancient)
            &&& !ancient && results.family is None <==> known.check(header, results) == Check::<
                T,
            >::VerifyFamily
            &&& !ancient && results.family == Some(false) <==> known.check(header, results)
                == Check::<T>::Refuse(Refusal::Family)
        },
{
    lemma_ancestors_ask_for_details(known, header.parent_hash, 255);
}

/// A block that is young enough and fits its family is looked at for its parent:
/// the parent is asked for exactly if that has not been done, and the block is
/// refused for it exactly if the chain does not have it.
pub proof fn law_check_of_the_parent<T: Opaque>(
    known: Known<T>,
    header: Header,
    results: StageResults,
    best: BlockNumber,
)
    requires
        known.best_block_number == Some(best),
        best < header.number + 1000,
        results.family == Some(true),
    ensures
        ({
            let parent = header.parent_hash;
            &&& !known.block_header.contains_key(parent) <==> known.check(header, results)
                == Check::<T>::Read(Request::BlockHeader(parent))
            &&& known.block_header.contains_key(parent) && known.block_header[parent] is None
                <==> known.check(header, results) == Check::<T>::Refuse(Refusal::ParentNotFound)
        }),
{
    lemma_ancestors_ask_for_details(known, header.parent_hash, 255);
}

/// A block that is young enough, fits its family and has a parent in the chain
/// is enacted on that parent as long as that has not been tried, and is refused
/// for it exactly if it has failed. An enacted block is looked at as long as
/// that has not been done, is refused exactly if it is not the one that was
/// announced, and is closed exactly if it is.
pub proof fn law_check_of_the_enactment<T: Opaque>(
    chain: Known<T>,
    header: Header,
    results: StageResults,
    best: BlockNumber,
    parent: T::Header,
)
    requires
        chain.complete(),
        chain.best_block_number == Some(best),
        best < header.number + 1000,
        results.family == Some(true),
        chain.block_header[header.parent_hash] == Some(parent),
    ensures
        ({
            let step = chain.check(header, results);
            &&& results.enacted is None <==> step == (Check::<T>::Enact { parent })
            &&& results.enacted == Some(false) <==> step == Check::<T>::Refuse(Refusal::Enactment)
            &&& results.enacted == Some(true) && results.confirmed is None <==> step == Check::<
                T,
            >::VerifyFinal
            &&& results.enacted == Some(true) && results.confirmed == Some(false) <==> step
                == Check::<T>::Refuse(Refusal::Final)
            &&& results.enacted == Some(true) && results.confirmed == Some(true) <==> step
                == Check::<T>::Close
        }),
{
    assert(chain.answers(Request::BlockHeader(header.parent_hash)));
    law_ancestors_hold_on(chain, chain, header.parent_hash, 255);
    if let Lookup::Ask(request) = chain.ancestor(header.parent_hash, 255) {
        assert(chain.answers(request));
    }
}

/// No stage is refused without its negative result, and nothing is refused for
/// its parent unless the chain has said that it does not have it.
pub proof fn law_refusals_have_their_reason<T: Opaque>(
    known: Known<T>,
    header: Header,
    results: StageResults,
)
    ensures
        known.check(header, results) matches Check::Refuse(refusal) ==> match refusal {
            Refusal::Ancient => {
                known.best_block_number matches Some(best) && header.number + 1000 <= best
            },
            Refusal::Family => results.family == Some(false),
            Refusal::ParentNotFound => known.block_header.contains_key(header.parent_hash)
                && known.block_header[header.parent_hash] is None,
            Refusal::Enactment => results.enacted == Some(false),
            Refusal::Final => results.confirmed == Some(false),
        },
        known.check(header, results) matches Check::Read(request) ==> {
            ||| request == Request::BestBlockNumber
            ||| request == Request::BlockHeader(header.parent_hash)
            ||| request is BlockDetails
        },
{
    lemma_ancestors_ask_for_details(known, header.parent_hash, 255);
}

} // verus!
