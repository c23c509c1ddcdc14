//! The plain values that the client works on.

use vstd::prelude::*;

verus! {

/// The number of a block in a chain.
pub type BlockNumber = u64;

/// Raw bytes.
pub type Bytes = Vec<u8>;

/// A hash of 32 bytes, as two big-endian halves.
#[derive(Debug, Clone, Copy, PartialEq, Eq, Structural)]
pub struct H256 {
    /// The first 16 bytes.
    pub hi: u128,
    /// The last 16 bytes.
    pub lo: u128,
}

impl H256 {
    /// The hash of all zeros.
    pub open spec fn zero() -> H256 {
        H256 { hi: 0, lo: 0 }
    }

    /// Returns the hash of all zeros.
    pub fn new() -> (hash: H256)
        ensures
            hash == H256::zero(),
    {
        H256 { hi: 0, lo: 0 }
    }
}

/// A bloom filter of 2048 bits.
#[derive(Debug, Clone, Copy, PartialEq, Eq)]
pub struct H2048 {
    /// The bits, in words of 64.
    pub words: [u64; 32],
}

/// An account address of 20 bytes.
#[derive(Debug, Clone, Copy, PartialEq, Eq)]
pub struct Address {
    /// The bytes of the address.
    pub bytes: [u8; 20],
}

impl Address {
    /// Whether the address is all zeros.
    pub open spec fn is_zero(self) -> bool {
        forall|i: int| 0 <= i < 20 ==> #[trigger] self.bytes@[i] == 0
    }

    /// Returns the address of all zeros.
    pub fn new() -> (address: Address)
        ensures
            address.is_zero(),
    {
        Address { bytes: [0u8; 20] }
    }
}

/// An unsigned number of 256 bits.
#[derive(Debug, Clone, Copy, PartialEq, Eq, Structural)]
pub struct U256 {
    /// The upper 128 bits.
    pub hi: u128,
    /// The lower 128 bits.
    pub lo: u128,
}

impl U256 {
    /// One more than the largest number that 128 bits hold.
    pub open spec fn half() -> nat {
        0x1_0000_0000_0000_0000_0000_0000_0000_0000nat
    }

    /// One more than the largest number that can be held.
    pub open spec fn modulus() -> nat {
        U256::half() * U256::half()
    }

    /// The number that is meant.
    pub open spec fn value(self) -> nat {
        (self.hi as nat) * U256::half() + self.lo as nat
    }

    /// The way to hold `n`, which is below the modulus.
    pub open spec fn of(n: nat) -> U256 {
        U256 { hi: (n / U256::half()) as u128, lo: (n % U256::half()) as u128 }
    }

    /// The sum of two numbers that fits.
    pub open spec fn plus(self, other: U256) -> U256 {
        U256::of(self.value() + other.value())
    }

    /// A number is held in one way only.
    pub proof fn lemma_of_value(self)
        ensures
            self.value() < U256::modulus(),
            U256::of(self.value()) == self,
    {
    }

    /// Holding a number does not change it.
    pub proof fn lemma_value_of(n: nat)
        requires
            n < U256::modulus(),
        ensures
            U256::of(n).value() == n,
    {
    }

    /// Returns zero.
    pub fn zero() -> (number: U256)
        ensures
            number.value() == 0,
            number == U256::of(0),
    {
        U256 { hi: 0, lo: 0 }
    }

    /// Returns the sum, or `None` where it does not fit.
    pub fn checked_add(self, other: U256) -> (sum: Option<U256>)
        ensures
            sum == (if self.value() + other.value() < U256::modulus() {
                Some(self.plus(other))
            } else {
                None
            }),
    {
        let (lo, carry): (u128, u128) = if self.lo <= u128::MAX - other.lo {
            (self.lo + other.lo, 0)
        } else {
            (self.lo - (u128::MAX - other.lo) - 1, 1)
        };
        if self.hi > u128::MAX - other.hi {
            return None;
        }
        let hi: u128 = self.hi + other.hi;
        if hi > u128::MAX - carry {
            return None;
        }
        let sum = U256 { hi: hi + carry, lo };
        proof {
            sum.lemma_of_value();
        }
        Some(sum)
    }
}

/// Names a block.
#[derive(Debug, Clone, Copy, PartialEq, Eq)]
pub enum BlockId {
    /// The block with this hash.
    Hash(H256),
    /// The block with this number in the best chain.
    Number(BlockNumber),
    /// The first block of the best chain.
    Earliest,
    /// The last block of the best chain.
    Latest,
}

/// Names a transaction.
#[derive(Debug, Clone, Copy, PartialEq, Eq)]
pub enum TransactionId {
    /// The transaction with this hash.
    Hash(H256),
    /// The transaction at this index of this block.
    Location(BlockId, usize),
}

/// Where a transaction stands.
#[derive(Debug, Clone, Copy, PartialEq, Eq, Structural)]
pub struct TransactionAddress {
    /// The hash of the block that holds it.
    pub block_hash: H256,
    /// Its index in that block.
    pub index: usize,
}

/// General block status.
#[derive(Debug, Clone, Copy, PartialEq, Eq, Structural)]
pub enum BlockStatus {
    /// Part of the blockchain.
    InChain,
    /// Queued for import.
    Queued,
    /// Known as bad.
    Bad,
    /// Unknown.
    Unknown,
}

/// What the chain keeps about a block besides the block itself.
#[derive(Debug, Clone, Copy, PartialEq, Eq, Structural)]
pub struct BlockDetails {
    /// The hash of its parent.
    pub parent: H256,
    /// The difficulty of the chain that ends with it.
    pub total_difficulty: U256,
}

/// Names a state of the accounts.
#[derive(Debug, Clone, Copy, PartialEq, Eq, Structural)]
pub struct StateId {
    /// The root of the state.
    pub root: H256,
    /// The nonce that new accounts start with.
    pub account_start_nonce: U256,
}

/// What the client reads of a block header.
#[derive(Debug, Clone, Copy, PartialEq, Eq, Structural)]
pub struct Header {
    /// The hash of the header, which names the block.
    pub hash: H256,
    /// The number of the block.
    pub number: BlockNumber,
    /// The hash of the parent block.
    pub parent_hash: H256,
    /// The gas that the block has used.
    pub gas_used: U256,
}

/// What the client reads of a block that the queue has verified on its own.
#[derive(Debug, Clone, Copy, PartialEq, Eq, Structural)]
pub struct PreverifiedBlock {
    /// The header of the block.
    pub header: Header,
    /// How many transactions the block has.
    pub transaction_count: usize,
}

/// The types of values that the client hands on without looking inside.
pub trait Opaque {
    /// A block header as the chain stores it.
    type Header;
    /// A transaction together with its place in the chain.
    type LocalizedTransaction;
    /// The way from one block to another.
    type TreeRoute;
    /// A log entry of a transaction.
    type LogEntry;
    /// A block that is complete but for its seal.
    type ClosedBlock;
    /// Why the import of a block has failed.
    type Error;
}

/// A log entry of a receipt, and whether the filter in question selects it.
pub struct CandidateLog<T: Opaque> {
    /// The log entry.
    pub entry: T::LogEntry,
    /// Whether the filter selects it.
    pub selected: bool,
}

/// What the client reads of a transaction receipt.
pub struct Receipt<T: Opaque> {
    /// The log entries that the transaction has made, in order.
    pub logs: Vec<CandidateLog<T>>,
}

/// Why a block is not taken for import.
#[derive(Debug, Clone, Copy, PartialEq, Eq, Structural)]
pub enum ImportError {
    /// The chain has the block already.
    AlreadyInChain,
    /// Neither the chain nor the queue knows the parent, whose hash this is.
    UnknownParent(H256),
}

} // verus!
