//! The reading operations of the client.

use crate::answers::{
    ask, ask_once, gives_bytes, lends_option, AccountSearch, Answers, BloomSearch, Known, Lookup,
    Request, RouteEnds,
};
use crate::blocks;
use crate::client::Client;
use crate::report::BlockChainInfo;
use crate::rlp;
use crate::types::{
    Address, BlockDetails, BlockId, BlockNumber, BlockStatus, Bytes, ImportError, Opaque, StateId,
    TransactionAddress, TransactionId, H2048, H256, U256,
};
use vstd::prelude::*;

verus! {

/// How many hashes of past blocks a block can see.
pub const LAST_HASHES: usize = 256;

impl<T: Opaque> Known<T> {
    /// The hash of the block that `id` names.
    pub open spec fn hash_of(self, id: BlockId) -> Lookup<Option<H256>> {
        match id {
            BlockId::Hash(hash) => Lookup::Ready(Some(hash)),
            BlockId::Number(number) => ask(self.block_hash, number, Request::BlockHash(number)),
            BlockId::Earliest => ask(self.block_hash, 0, Request::BlockHash(0)),
            BlockId::Latest => ask_once(self.best_block_hash, Request::BestBlockHash).map(
                |hash: H256| Some(hash),
            ),
        }
    }

    /// The number of the block that `id` names.
    pub open spec fn number_of(self, id: BlockId) -> Lookup<Option<BlockNumber>> {
        match id {
            BlockId::Number(number) => Lookup::Ready(Some(number)),
            BlockId::Hash(hash) => ask(self.block_number, hash, Request::BlockNumber(hash)),
            BlockId::Earliest => Lookup::Ready(Some(0)),
            BlockId::Latest => ask_once(self.best_block_number, Request::BestBlockNumber).map(
                |number: BlockNumber| Some(number),
            ),
        }
    }

    /// The block that `id` names.
    pub open spec fn block_of(self, id: BlockId) -> Lookup<Option<Bytes>> {
        self.hash_of(id).and_then(
            |hash: Option<H256>|
                match hash {
                    Some(h) => ask(self.block, h, Request::Block(h)),
                    None => Lookup::Ready(None),
                },
        )
    }

    /// The encoded header of the block that `id` names: its first item.
    pub open spec fn header_of(self, id: BlockId) -> Lookup<Option<Seq<u8>>> {
        self.block_of(id).map(
            |block: Option<Bytes>|
                match block {
                    Some(bytes) => Some(rlp::item(bytes@, 0)),
                    None => None,
                },
        )
    }

    /// The encoded body of the block that `id` names: the list of its second
    /// and its third item.
    pub open spec fn body_of(self, id: BlockId) -> Lookup<Option<Seq<u8>>> {
        self.block_of(id).map(
            |block: Option<Bytes>|
                match block {
                    Some(bytes) => Some(rlp::list(rlp::item(bytes@, 1) + rlp::item(bytes@, 2))),
                    None => None,
                },
        )
    }

    /// The state of the best block, which the chain has: the one whose root the
    /// header of the best block names, with new accounts as the engine has
    /// them.
    pub open spec fn current_state(self) -> Lookup<StateId> {
        self.block_of(BlockId::Latest).and_then(
            |block: Option<Bytes>|
                ask_once(self.account_start_nonce, Request::AccountStartNonce).map(
                    |start: U256|
                        StateId {
                            root: blocks::state_root(block->0@),
                            account_start_nonce: start,
                        },
                ),
        )
    }

    /// The nonce of an account in the state of the best block.
    pub open spec fn nonce_of(self, address: Address) -> Lookup<U256> {
        self.current_state().and_then(
            |state: StateId|
                {
                    let search = AccountSearch { state, address };
                    ask(self.nonce, search, Request::Nonce(search))
                },
        )
    }

    /// The code of an account in the state of the best block.
    pub open spec fn code_of(self, address: Address) -> Lookup<Option<Bytes>> {
        self.current_state().and_then(
            |state: StateId|
                {
                    let search = AccountSearch { state, address };
                    ask(self.code, search, Request::Code(search))
                },
        )
    }

    /// The status of the block that `id` names: what the chain has is in the
    /// chain, and of the rest the queue knows.
    pub open spec fn status_of(self, id: BlockId) -> Lookup<BlockStatus> {
        self.hash_of(id).and_then(
            |hash: Option<H256>|
                match hash {
                    Some(h) => ask(self.is_known, h, Request::IsKnown(h)).and_then(
                        |known: bool|
                            if known {
                                Lookup::Ready(BlockStatus::InChain)
                            } else {
                                ask(self.queue_status, h, Request::QueueStatus(h))
                            },
                    ),
                    None => Lookup::Ready(BlockStatus::Unknown),
                },
        )
    }

    /// The total difficulty of the block that `id` names.
    pub open spec fn total_difficulty_of(self, id: BlockId) -> Lookup<Option<U256>> {
        self.hash_of(id).and_then(
            |hash: Option<H256>|
                match hash {
                    Some(h) => ask(self.block_details, h, Request::BlockDetails(h)).map(
                        |details: Option<BlockDetails>|
                            match details {
                                Some(d) => Some(d.total_difficulty),
                                None => None,
                            },
                    ),
                    None => Lookup::Ready(None),
                },
        )
    }

    /// Where the transaction that `id` names stands.
    pub open spec fn address_of(self, id: TransactionId) -> Lookup<Option<TransactionAddress>> {
        match id {
            TransactionId::Hash(hash) => ask(
                self.transaction_address,
                hash,
                Request::TransactionAddress(hash),
            ),
            TransactionId::Location(block, index) => self.hash_of(block).map(
                |hash: Option<H256>|
                    match hash {
                        Some(h) => Some(TransactionAddress { block_hash: h, index }),
                        None => None,
                    },
            ),
        }
    }

    /// The transaction that `id` names.
    pub open spec fn transaction_of(self, id: TransactionId) -> Lookup<
        Option<T::LocalizedTransaction>,
    > {
        self.address_of(id).and_then(
            |address: Option<TransactionAddress>|
                match address {
                    Some(a) => ask(self.transaction, a, Request::Transaction(a)),
                    None => Lookup::Ready(None),
                },
        )
    }

    /// The way from one block to another, if the chain has both.
    pub open spec fn route_between(self, from: H256, to: H256) -> Lookup<Option<T::TreeRoute>> {
        ask(self.is_known, from, Request::IsKnown(from)).and_then(
            |from_known: bool|
                if from_known {
                    ask(self.is_known, to, Request::IsKnown(to)).and_then(
                        |to_known: bool|
                            if to_known {
                                let ends = RouteEnds { from, to };
                                ask(self.tree_route, ends, Request::TreeRoute(ends)).map(
                                    |route: T::TreeRoute| Some(route),
                                )
                            } else {
                                Lookup::Ready(None)
                            },
                    )
                } else {
                    Lookup::Ready(None)
                },
        )
    }

    /// The numbers of the blocks from `from` to `to` that have the bits of
    /// `bloom`, if both ends have a number.
    pub open spec fn bloom_hits(self, bloom: H2048, from: BlockId, to: BlockId) -> Lookup<
        Option<Vec<BlockNumber>>,
    > {
        self.number_of(from).and_then(
            |first: Option<BlockNumber>|
                self.number_of(to).and_then(
                    |last: Option<BlockNumber>|
                        match (first, last) {
                            (Some(first), Some(last)) => {
                                let search = BloomSearch { bloom, from: first, to: last };
                                ask(
                                    self.blocks_with_bloom,
                                    search,
                                    Request::BlocksWithBloom(search),
                                ).map(|numbers: Vec<BlockNumber>| Some(numbers))
                            },
                            _ => Lookup::Ready(None),
                        },
                ),
        )
    }

    /// What there is to say of the best chain and of the block queue.
    pub open spec fn info(self) -> Lookup<BlockChainInfo> {
        ask_once(self.best_block_total_difficulty, Request::BestBlockTotalDifficulty).and_then(
            |total: U256|
                ask_once(self.queue_total_difficulty, Request::QueueTotalDifficulty).and_then(
                    |pending: U256|
                        ask_once(self.genesis_hash, Request::GenesisHash).and_then(
                            |genesis: H256|
                                ask_once(self.best_block_hash, Request::BestBlockHash).and_then(
                                    |best: H256|
                                        ask_once(
                                            self.best_block_number,
                                            Request::BestBlockNumber,
                                        ).map(
                                            |number: BlockNumber|
                                                BlockChainInfo {
                                                    total_difficulty: total,
                                                    pending_total_difficulty: pending,
                                                    genesis_hash: genesis,
                                                    best_block_hash: best,
                                                    best_block_number: number,
                                                },
                                        ),
                                ),
                        ),
                ),
        )
    }

    /// Whether the block with this hash and this parent is to be queued, and
    /// if not, why.
    pub open spec fn admission(self, hash: H256, parent: H256) -> Lookup<Result<(), ImportError>> {
        ask(self.is_known, hash, Request::IsKnown(hash)).and_then(
            |known: bool|
                if known {
                    Lookup::Ready(Err(ImportError::AlreadyInChain))
                } else {
                    self.status_of(BlockId::Hash(parent)).map(
                        |status: BlockStatus|
                            if status == BlockStatus::Unknown {
                                Err(ImportError::UnknownParent(parent))
                            } else {
                                Ok(())
                            },
                    )
                },
        )
    }

    /// The hash that lies `n` generations above `hash`, or `None` beyond the
    /// first block that the chain has no details of.
    pub open spec fn ancestor(self, hash: H256, n: nat) -> Lookup<Option<H256>>
        decreases n,
    {
        if n == 0 {
            Lookup::Ready(Some(hash))
        } else {
            self.ancestor(hash, (n - 1) as nat).and_then(
                |child: Option<H256>|
                    match child {
                        Some(c) => ask(self.block_details, c, Request::BlockDetails(c)).map(
                            |details: Option<BlockDetails>|
                                match details {
                                    Some(d) => Some(d.parent),
                                    None => None,
                                },
                        ),
                        None => Lookup::Ready(None),
                    },
            )
        }
    }

    /// Whether `shown` is the hash that lies `n` generations above `hash`, or
    /// zero where there is none.
    pub open spec fn shows_ancestor(self, hash: H256, n: nat, shown: H256) -> bool {
        match self.ancestor(hash, n) {
            Lookup::Ready(Some(h)) => shown == h,
            Lookup::Ready(None) => shown == H256::zero(),
            Lookup::Ask(_) => false,
        }
    }

    /// Whether `hashes` are those of a block and its ancestors, the youngest
    /// first, filled up with zeros.
    pub open spec fn lineage(self, hash: H256, hashes: Seq<H256>) -> bool {
        &&& hashes.len() == LAST_HASHES
        &&& forall|i: int|
            #![trigger hashes[i]]
            0 <= i < LAST_HASHES ==> self.shows_ancestor(hash, i as nat, hashes[i])
    }

    /// Whether the block that `id` names, once it has been read, starts with a
    /// list of at least `n` items.
    pub open spec fn names_list_of(self, id: BlockId, n: nat) -> bool {
        match self.block_of(id) {
            Lookup::Ready(Some(bytes)) => rlp::is_list_of(bytes@, n),
            _ => true,
        }
    }

    /// Whether the chain has the best block, once it has been looked for, and
    /// the block names the root of its state.
    pub open spec fn best_names_state(self) -> bool {
        match self.block_of(BlockId::Latest) {
            Lookup::Ready(Some(bytes)) => blocks::names_state(bytes@),
            Lookup::Ready(None) => false,
            Lookup::Ask(_) => true,
        }
    }

    /// Whether it is known that the chain does not have the block with this
    /// hash.
    pub open spec fn lacks(self, hash: H256) -> bool {
        self.is_known.contains_key(hash) && !self.is_known[hash]
    }
}

impl<T: Opaque> Client<T> {
    /// Returns the hash of the block that `id` names.
    pub fn block_hash(answers: &Answers<T>, id: BlockId) -> (hash: Lookup<Option<H256>>)
        ensures
            hash == answers@.hash_of(id),
    {
        match id {
            BlockId::Hash(hash) => Lookup::Ready(Some(hash)),
            BlockId::Number(number) => Self::hash_at(answers, number),
            BlockId::Earliest => Self::hash_at(answers, 0),
            BlockId::Latest => match answers.best_block_hash {
                Some(hash) => Lookup::Ready(Some(hash)),
                None => Lookup::Ask(Request::BestBlockHash),
            },
        }
    }

    /// Returns the hash of the block with the given number in the best chain.
    fn hash_at(answers: &Answers<T>, number: BlockNumber) -> (hash: Lookup<Option<H256>>)
        ensures
            hash == ask(answers@.block_hash, number, Request::BlockHash(number)),
    {
        match answers.block_hash.ask(&number, Request::BlockHash(number)) {
            Lookup::Ready(hash) => Lookup::Ready(*hash),
            Lookup::Ask(request) => Lookup::Ask(request),
        }
    }

    /// Returns the number of the block that `id` names.
    pub fn block_number(answers: &Answers<T>, id: BlockId) -> (number: Lookup<Option<BlockNumber>>)
        ensures
            number == answers@.number_of(id),
    {
        match id {
            BlockId::Number(number) => Lookup::Ready(Some(number)),
            BlockId::Hash(hash) => match answers.block_number.ask(
                &hash,
                Request::BlockNumber(hash),
            ) {
                Lookup::Ready(number) => Lookup::Ready(*number),
                Lookup::Ask(request) => Lookup::Ask(request),
            },
            BlockId::Earliest => Lookup::Ready(Some(0)),
            BlockId::Latest => match answers.best_block_number {
                Some(number) => Lookup::Ready(Some(number)),
                None => Lookup::Ask(Request::BestBlockNumber),
            },
        }
    }

    /// Returns the block that `id` names.
    pub fn block(answers: &Answers<T>, id: BlockId) -> (block: Lookup<Option<&Bytes>>)
        ensures
            lends_option(block, answers@.block_of(id)),
    {
        match Self::block_hash(answers, id) {
            Lookup::Ready(Some(hash)) => match answers.block.ask(&hash, Request::Block(hash)) {
                Lookup::Ready(Some(bytes)) => Lookup::Ready(Some(bytes)),
                Lookup::Ready(None) => Lookup::Ready(None),
                Lookup::Ask(request) => Lookup::Ask(request),
            },
            Lookup::Ready(None) => Lookup::Ready(None),
            Lookup::Ask(request) => Lookup::Ask(request),
        }
    }

    /// Returns the encoded header of the block that `id` names.
    pub fn block_header(answers: &Answers<T>, id: BlockId) -> (header: Lookup<Option<Bytes>>)
        requires
            answers@.names_list_of(id, 1),
        ensures
            gives_bytes(header, answers@.header_of(id)),
    {
        match Self::block(answers, id) {
            Lookup::Ready(Some(bytes)) => Lookup::Ready(Some(rlp::copy_item(bytes, 0))),
            Lookup::Ready(None) => Lookup::Ready(None),
            Lookup::Ask(request) => Lookup::Ask(request),
        }
    }

    /// Returns the encoded transactions and uncles of the block that `id` names.
    pub fn block_body(answers: &Answers<T>, id: BlockId) -> (body: Lookup<Option<Bytes>>)
        requires
            answers@.names_list_of(id, 3),
        ensures
            gives_bytes(body, answers@.body_of(id)),
    {
        match Self::block(answers, id) {
            Lookup::Ready(Some(bytes)) => Lookup::Ready(Some(rlp::list_of_two(bytes, 1, 2))),
            Lookup::Ready(None) => Lookup::Ready(None),
            Lookup::Ask(request) => Lookup::Ask(request),
        }
    }

    /// Returns the status of the block that `id` names.
    pub fn block_status(answers: &Answers<T>, id: BlockId) -> (status: Lookup<BlockStatus>)
        ensures
            status == answers@.status_of(id),
    {
        match Self::block_hash(answers, id) {
            Lookup::Ready(Some(hash)) => match answers.is_known.ask(
                &hash,
                Request::IsKnown(hash),
            ) {
                Lookup::Ready(known) => if *known {
                    Lookup::Ready(BlockStatus::InChain)
                } else {
                    match answers.queue_status.ask(&hash, Request::QueueStatus(hash)) {
                        Lookup::Ready(status) => Lookup::Ready(*status),
                        Lookup::Ask(request) => Lookup::Ask(request),
                    }
                },
                Lookup::Ask(request) => Lookup::Ask(request),
            },
            Lookup::Ready(None) => Lookup::Ready(BlockStatus::Unknown),
            Lookup::Ask(request) => Lookup::Ask(request),
        }
    }

    /// Returns the total difficulty of the block that `id` names.
    pub fn block_total_difficulty(answers: &Answers<T>, id: BlockId) -> (difficulty: Lookup<
        Option<U256>,
    >)
        ensures
            difficulty == answers@.total_difficulty_of(id),
    {
        match Self::block_hash(answers, id) {
            Lookup::Ready(Some(hash)) => match answers.block_details.ask(
                &hash,
                Request::BlockDetails(hash),
            ) {
                Lookup::Ready(Some(details)) => Lookup::Ready(Some(details.total_difficulty)),
                Lookup::Ready(None) => Lookup::Ready(None),
                Lookup::Ask(request) => Lookup::Ask(request),
            },
            Lookup::Ready(None) => Lookup::Ready(None),
            Lookup::Ask(request) => Lookup::Ask(request),
        }
    }

    /// Returns where the transaction that `id` names stands.
    fn transaction_address(answers: &Answers<T>, id: TransactionId) -> (address: Lookup<
        Option<TransactionAddress>,
    >)
        ensures
            address == answers@.address_of(id),
    {
        match id {
            TransactionId::Hash(hash) => match answers.transaction_address.ask(
                &hash,
                Request::TransactionAddress(hash),
            ) {
                Lookup::Ready(address) => Lookup::Ready(*address),
                Lookup::Ask(request) => Lookup::Ask(request),
            },
            TransactionId::Location(block, index) => match Self::block_hash(answers, block) {
                Lookup::Ready(Some(hash)) => Lookup::Ready(
                    Some(TransactionAddress { block_hash: hash, index }),
                ),
                Lookup::Ready(None) => Lookup::Ready(None),
                Lookup::Ask(request) => Lookup::Ask(request),
            },
        }
    }

    /// Returns the transaction that `id` names.
    pub fn transaction(answers: &Answers<T>, id: TransactionId) -> (transaction: Lookup<
        Option<&T::LocalizedTransaction>,
    >)
        ensures
            lends_option(transaction, answers@.transaction_of(id)),
    {
        match Self::transaction_address(answers, id) {
            Lookup::Ready(Some(address)) => match answers.transaction.ask(
                &address,
                Request::Transaction(address),
            ) {
                Lookup::Ready(Some(transaction)) => Lookup::Ready(Some(transaction)),
                Lookup::Ready(None) => Lookup::Ready(None),
                Lookup::Ask(request) => Lookup::Ask(request),
            },
            Lookup::Ready(None) => Lookup::Ready(None),
            Lookup::Ask(request) => Lookup::Ask(request),
        }
    }

    /// Returns the way from one block to another, if the chain has both.
    pub fn tree_route<'a>(answers: &'a Answers<T>, from: &H256, to: &H256) -> (route: Lookup<
        Option<&'a T::TreeRoute>,
    >)
        ensures
            lends_option(route, answers@.route_between(*from, *to)),
    {
        match answers.is_known.ask(from, Request::IsKnown(*from)) {
            Lookup::Ready(known) => if !*known {
                return Lookup::Ready(None);
            },
            Lookup::Ask(request) => {
                return Lookup::Ask(request);
            },
        }
        match answers.is_known.ask(to, Request::IsKnown(*to)) {
            Lookup::Ready(known) => if !*known {
                return Lookup::Ready(None);
            },
            Lookup::Ask(request) => {
                return Lookup::Ask(request);
            },
        }
        let ends = RouteEnds { from: *from, to: *to };
        match answers.tree_route.ask(&ends, Request::TreeRoute(ends)) {
            Lookup::Ready(route) => Lookup::Ready(Some(route)),
            Lookup::Ask(request) => Lookup::Ask(request),
        }
    }

    /// Returns which state is that of the best block.
    pub fn state(answers: &Answers<T>) -> (state: Lookup<StateId>)
        requires
            answers@.best_names_state(),
        ensures
            state == answers@.current_state(),
    {
        let root = match Self::block(answers, BlockId::Latest) {
            Lookup::Ready(block) => blocks::read_state_root(block.unwrap()).unwrap(),
            Lookup::Ask(request) => {
                return Lookup::Ask(request);
            },
        };
        match answers.account_start_nonce {
            Some(start) => Lookup::Ready(StateId { root, account_start_nonce: start }),
            None => Lookup::Ask(Request::AccountStartNonce),
        }
    }

    /// Returns the nonce of an account in the state of the best block.
    pub fn nonce(answers: &Answers<T>, address: &Address) -> (nonce: Lookup<U256>)
        requires
            answers@.best_names_state(),
        ensures
            nonce == answers@.nonce_of(*address),
    {
        let state = match Self::state(answers) {
            Lookup::Ready(state) => state,
            Lookup::Ask(request) => {
                return Lookup::Ask(request);
            },
        };
        let search = AccountSearch { state, address: *address };
        match answers.nonce.ask(&search, Request::Nonce(search)) {
            Lookup::Ready(nonce) => Lookup::Ready(*nonce),
            Lookup::Ask(request) => Lookup::Ask(request),
        }
    }

    /// Returns the code of an account in the state of the best block.
    pub fn code<'a>(answers: &'a Answers<T>, address: &Address) -> (code: Lookup<Option<&'a Bytes>>)
        requires
            answers@.best_names_state(),
        ensures
            lends_option(code, answers@.code_of(*address)),
    {
        let state = match Self::state(answers) {
            Lookup::Ready(state) => state,
            Lookup::Ask(request) => {
                return Lookup::Ask(request);
            },
        };
        let search = AccountSearch { state, address: *address };
        match answers.code.ask(&search, Request::Code(search)) {
            Lookup::Ready(Some(code)) => Lookup::Ready(Some(code)),
            Lookup::Ready(None) => Lookup::Ready(None),
            Lookup::Ask(request) => Lookup::Ask(request),
        }
    }

    /// Returns state data: none is kept.
    pub fn state_data(_hash: &H256) -> (data: Option<Bytes>)
        ensures
            data is None,
    {
        None
    }

    /// Returns encoded block receipts: none are kept.
    pub fn block_receipts(_hash: &H256) -> (receipts: Option<Bytes>)
        ensures
            receipts is None,
    {
        None
    }

    /// Returns what there is to say of the best chain and of the block queue.
    pub fn chain_info(answers: &Answers<T>) -> (info: Lookup<BlockChainInfo>)
        ensures
            info == answers@.info(),
    {
        let total_difficulty = match answers.best_block_total_difficulty {
            Some(difficulty) => difficulty,
            None => {
                return Lookup::Ask(Request::BestBlockTotalDifficulty);
            },
        };
        let pending_total_difficulty = match answers.queue_total_difficulty {
            Some(difficulty) => difficulty,
            None => {
                return Lookup::Ask(Request::QueueTotalDifficulty);
            },
        };
        let genesis_hash = match answers.genesis_hash {
            Some(hash) => hash,
            None => {
                return Lookup::Ask(Request::GenesisHash);
            },
        };
        let best_block_hash = match answers.best_block_hash {
            Some(hash) => hash,
            None => {
                return Lookup::Ask(Request::BestBlockHash);
            },
        };
        let best_block_number: BlockNumber = match answers.best_block_number {
            Some(number) => number,
            None => {
                return Lookup::Ask(Request::BestBlockNumber);
            },
        };
        Lookup::Ready(
            BlockChainInfo {
                total_difficulty,
                pending_total_difficulty,
                genesis_hash,
                best_block_hash,
                best_block_number,
            },
        )
    }

    /// Returns the numbers of the blocks between two blocks that have the
    /// bits of `bloom`, if both ends have a number.
    pub fn blocks_with_bloom<'a>(
        answers: &'a Answers<T>,
        bloom: &H2048,
        from_block: BlockId,
        to_block: BlockId,
    ) -> (numbers: Lookup<Option<&'a Vec<BlockNumber>>>)
        ensures
            lends_option(numbers, answers@.bloom_hits(*bloom, from_block, to_block)),
    {
        let from = match Self::block_number(answers, from_block) {
            Lookup::Ready(number) => number,
            Lookup::Ask(request) => {
                return Lookup::Ask(request);
            },
        };
        let to = match Self::block_number(answers, to_block) {
            Lookup::Ready(number) => number,
            Lookup::Ask(request) => {
                return Lookup::Ask(request);
            },
        };
        match (from, to) {
            (Some(from), Some(to)) => {
                let search = BloomSearch { bloom: *bloom, from, to };
                match answers.blocks_with_bloom.ask(&search, Request::BlocksWithBloom(search)) {
                    Lookup::Ready(numbers) => Lookup::Ready(Some(numbers)),
                    Lookup::Ask(request) => Lookup::Ask(request),
                }
            },
            _ => Lookup::Ready(None),
        }
    }

    /// Decides whether an encoded block, whose header has the given hash, is to
    /// be handed to the block queue. The parent is not looked at where the
    /// chain has the block.
    pub fn import_block(answers: &Answers<T>, bytes: &Bytes, hash: &H256) -> (admission: Lookup<
        Result<(), ImportError>,
    >)
        requires
            answers@.lacks(*hash) ==> blocks::names_parent(bytes@),
        ensures
            admission == answers@.admission(*hash, blocks::parent_hash(bytes@)),
    {
        match answers.is_known.ask(hash, Request::IsKnown(*hash)) {
            Lookup::Ready(known) => if *known {
                return Lookup::Ready(Err(ImportError::AlreadyInChain));
            },
            Lookup::Ask(request) => {
                return Lookup::Ask(request);
            },
        }
        let parent_hash = blocks::read_parent_hash(bytes).unwrap();
        match Self::block_status(answers, BlockId::Hash(parent_hash)) {
            Lookup::Ready(status) => if status == BlockStatus::Unknown {
                Lookup::Ready(Err(ImportError::UnknownParent(parent_hash)))
            } else {
                Lookup::Ready(Ok(()))
            },
            Lookup::Ask(request) => Lookup::Ask(request),
        }
    }

    /// Returns the hash of a block and those of its ancestors, the youngest
    /// first, filled up with zeros.
    pub fn build_last_hashes(answers: &Answers<T>, parent_hash: H256) -> (hashes: Lookup<Vec<H256>>)
        ensures
            match hashes {
                Lookup::Ready(hashes) => answers@.lineage(parent_hash, hashes@),
                Lookup::Ask(request) => answers@.ancestor(parent_hash, (LAST_HASHES - 1) as nat)
                    == Lookup::<Option<H256>>::Ask(request),
            },
    {
        let mut hashes: Vec<H256> = Vec::new();
        let mut last: Option<H256> = Some(parent_hash);
        hashes.push(parent_hash);
        while hashes.len() < LAST_HASHES
            invariant
                1 <= hashes@.len() <= LAST_HASHES,
                answers@.ancestor(parent_hash, (hashes@.len() - 1) as nat) == Lookup::Ready(last),
                forall|i: int|
                    #![trigger hashes@[i]]
                    0 <= i < hashes@.len() ==> answers@.shows_ancestor(
                        parent_hash,
                        i as nat,
                        hashes@[i],
                    ),
            decreases LAST_HASHES - hashes.len(),
        {
            last = match last {
                Some(hash) => match answers.block_details.ask(
                    &hash,
                    Request::BlockDetails(hash),
                ) {
                    Lookup::Ready(Some(details)) => Some(details.parent),
                    Lookup::Ready(None) => None,
                    Lookup::Ask(request) => {
                        proof {
                            answers@.lemma_question_stays(
                                parent_hash,
                                hashes@.len(),
                                (LAST_HASHES - 1) as nat,
                            );
                        }
                        return Lookup::Ask(request);
                    },
                },
                None => None,
            };
            let hash = match last {
                Some(hash) => hash,
                None => H256::new(),
            };
            assert(answers@.shows_ancestor(parent_hash, hashes@.len(), hash));
            hashes.push(hash);
        }
        Lookup::Ready(hashes)
    }
}

impl<T: Opaque> Known<T> {
    /// A question that stands in the way of an ancestor stands in the way of
    /// the older ones.
    proof fn lemma_question_stays(self, hash: H256, younger: nat, older: nat)
        requires
            younger <= older,
            self.ancestor(hash, younger) is Ask,
        ensures
            self.ancestor(hash, older) == self.ancestor(hash, younger),
        decreases older,
    {
        if younger < older {
            self.lemma_question_stays(hash, younger, (older - 1) as nat);
        }
    }
}

} // verus!
