//! The preparation of blocks to be sealed.

use crate::answers::{ask, ask_once, Answers, Known, Lookup, Request, UncleSearch};
use crate::client::Client;
use crate::reads::LAST_HASHES;
use crate::types::{Address, Bytes, Opaque, H256};
use vstd::prelude::*;

verus! {

/// What uncles a block may name.
#[derive(Debug, Clone, Copy, PartialEq, Eq, Structural)]
pub struct UncleRules {
    /// How many generations back an uncle may lie.
    pub maximum_age: usize,
    /// How many uncles a block may name.
    pub maximum_count: usize,
}

/// What a new block is to be made of.
pub struct SealingPlan<'a, T: Opaque> {
    /// The header of its parent.
    pub parent: &'a T::Header,
    /// The hashes of its parent and of its ancestors.
    pub last_hashes: Vec<H256>,
    /// Its author.
    pub author: Address,
    /// Its extra data.
    pub extra_data: Bytes,
    /// The uncles that it names.
    pub uncles: Vec<&'a T::Header>,
}

/// What a new block gets from the chain, as a mathematical value.
pub struct Groundwork<T: Opaque> {
    /// The hash of its parent.
    pub parent_hash: H256,
    /// The header of its parent.
    pub parent: T::Header,
    /// The uncles that it names.
    pub uncles: Seq<T::Header>,
}

/// The first `count` of `headers`, or all of them if they are fewer.
pub open spec fn at_most<H>(headers: Seq<H>, count: usize) -> Seq<H> {
    if headers.len() <= count {
        headers
    } else {
        headers.take(count as int)
    }
}

impl<T: Opaque> Known<T> {
    /// What a child of the best block gets from the chain, if the chain has
    /// the header of the best block.
    pub open spec fn groundwork(self, rules: UncleRules) -> Lookup<Option<Groundwork<T>>> {
        ask_once(self.best_block_hash, Request::BestBlockHash).and_then(
            |best: H256|
                ask(self.block_header, best, Request::BlockHeader(best)).and_then(
                    |header: Option<T::Header>|
                        match header {
                            Some(parent) => self.ancestor(best, (LAST_HASHES - 1) as nat).and_then(
                                |_oldest: Option<H256>|
                                    {
                                        let search = UncleSearch {
                                            parent: best,
                                            age: rules.maximum_age,
                                        };
                                        ask(
                                            self.uncle_headers,
                                            search,
                                            Request::UncleHeaders(search),
                                        ).map(
                                            |uncles: Vec<T::Header>|
                                                Some(
                                                    Groundwork {
                                                        parent_hash: best,
                                                        parent,
                                                        uncles: at_most(
                                                            uncles@,
                                                            rules.maximum_count,
                                                        ),
                                                    },
                                                ),
                                        )
                                    },
                            ),
                            None => Lookup::Ready(None),
                        },
                ),
        )
    }
}

/// What `headers` point at.
pub open spec fn pointed_at<'a, H>(headers: Seq<&'a H>) -> Seq<H> {
    Seq::new(headers.len(), |i: int| *headers[i])
}

impl<T: Opaque> Client<T> {
    /// Returns what a new block on top of the best one is to be made of, or
    /// `None` where the chain lacks the header of the best block.
    pub fn prepare_sealing<'a>(&self, answers: &'a Answers<T>, rules: &UncleRules) -> (plan: Lookup<
        Option<SealingPlan<'a, T>>,
    >)
        ensures
            match plan {
                Lookup::Ask(request) => answers@.groundwork(*rules) == Lookup::<
                    Option<Groundwork<T>>,
                >::Ask(request),
                Lookup::Ready(None) => answers@.groundwork(*rules) == Lookup::Ready(
                    None::<Groundwork<T>>,
                ),
                Lookup::Ready(Some(plan)) => {
                    &&& answers@.groundwork(*rules) matches Lookup::Ready(Some(ground))
                    &&& *plan.parent == ground.parent
                    &&& answers@.lineage(ground.parent_hash, plan.last_hashes@)
                    &&& plan.author == self@.author
                    &&& plan.extra_data@ == self@.extra_data
                    &&& pointed_at(plan.uncles@) == ground.uncles
                },
            },
    {
        let best = match answers.best_block_hash {
            Some(best) => best,
            None => {
                return Lookup::Ask(Request::BestBlockHash);
            },
        };
        let parent = match answers.block_header.ask(&best, Request::BlockHeader(best)) {
            Lookup::Ready(Some(parent)) => parent,
            Lookup::Ready(None) => {
                return Lookup::Ready(None);
            },
            Lookup::Ask(request) => {
                return Lookup::Ask(request);
            },
        };
        let last_hashes = match Self::build_last_hashes(answers, best) {
            Lookup::Ready(last_hashes) => last_hashes,
            Lookup::Ask(request) => {
                return Lookup::Ask(request);
            },
        };
        assert(answers@.shows_ancestor(
            best,
            (LAST_HASHES - 1) as nat,
            last_hashes@[LAST_HASHES - 1],
        ));
        let search = UncleSearch { parent: best, age: rules.maximum_age };
        let candidates = match answers.uncle_headers.ask(&search, Request::UncleHeaders(search)) {
            Lookup::Ready(candidates) => candidates,
            Lookup::Ask(request) => {
                return Lookup::Ask(request);
            },
        };
        let mut uncles: Vec<&'a T::Header> = Vec::new();
        while uncles.len() < candidates.len() && uncles.len() < rules.maximum_count
            invariant
                uncles@.len() <= candidates@.len(),
                uncles@.len() <= rules.maximum_count,
                forall|i: int| 0 <= i < uncles@.len() ==> *uncles@[i] == candidates@[i],
            decreases candidates@.len() - uncles@.len(),
        {
            uncles.push(&candidates[uncles.len()]);
        }
        assert(pointed_at(uncles@) =~= at_most(candidates@, rules.maximum_count));
        Lookup::Ready(
            Some(
                SealingPlan {
                    parent,
                    last_hashes,
                    author: self.author(),
                    extra_data: self.extra_data(),
                    uncles,
                },
            ),
        )
    }
}

} // verus!
