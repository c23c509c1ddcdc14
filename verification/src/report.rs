//! What the client reports about itself and about the chain.

use crate::types::{BlockNumber, PreverifiedBlock, H256, U256};
use vstd::prelude::*;

verus! {

/// Report on the status of a client.
#[derive(Debug, Clone, Copy, PartialEq, Eq, Structural)]
pub struct ClientReport {
    /// How many blocks have been imported so far.
    pub blocks_imported: usize,
    /// How many transactions have been applied so far.
    pub transactions_applied: usize,
    /// How much gas has been processed so far.
    pub gas_processed: U256,
    /// Memory used by the state database.
    pub state_db_mem: usize,
}

impl Default for ClientReport {
    /// Returns the report of a client that has done nothing yet.
    fn default() -> (report: ClientReport)
        ensures
            report == ClientReport::blank(),
    {
        ClientReport {
            blocks_imported: 0,
            transactions_applied: 0,
            gas_processed: U256::zero(),
            state_db_mem: 0,
        }
    }
}

impl ClientReport {
    /// The report of a client that has done nothing yet.
    pub open spec fn blank() -> ClientReport {
        ClientReport {
            blocks_imported: 0,
            transactions_applied: 0,
            gas_processed: U256::of(0),
            state_db_mem: 0,
        }
    }

    /// Whether the counters have room for `block`.
    pub open spec fn has_room_for(self, block: PreverifiedBlock) -> bool {
        &&& self.blocks_imported + 1 <= usize::MAX
        &&& self.transactions_applied + block.transaction_count <= usize::MAX
        &&& self.gas_processed.value() + block.header.gas_used.value() < U256::modulus()
    }

    /// The report after `block` has been processed too.
    pub open spec fn accrued(self, block: PreverifiedBlock) -> ClientReport {
        ClientReport {
            blocks_imported: (self.blocks_imported + 1) as usize,
            transactions_applied: (self.transactions_applied + block.transaction_count) as usize,
            gas_processed: self.gas_processed.plus(block.header.gas_used),
            state_db_mem: self.state_db_mem,
        }
    }

    /// The report after `blocks` have been processed too, in order.
    pub open spec fn accrued_all(self, blocks: Seq<PreverifiedBlock>) -> ClientReport
        decreases blocks.len(),
    {
        if blocks.len() == 0 {
            self
        } else {
            self.accrued_all(blocks.drop_last()).accrued(blocks.last())
        }
    }

    /// Tells whether the counters have room for `block`.
    pub fn can_accrue(&self, block: &PreverifiedBlock) -> (room: bool)
        ensures
            room == self.has_room_for(*block),
    {
        self.blocks_imported < usize::MAX && block.transaction_count <= usize::MAX
            - self.transactions_applied && self.gas_processed.checked_add(
            block.header.gas_used,
        ).is_some()
    }

    /// Alters the report to reflect that the additional `block` has been processed.
    pub fn accrue_block(&mut self, block: &PreverifiedBlock)
        requires
            old(self).has_room_for(*block),
        ensures
            *final(self) == old(self).accrued(*block),
    {
        self.blocks_imported = self.blocks_imported + 1;
        self.transactions_applied = self.transactions_applied + block.transaction_count;
        if let Some(sum) = self.gas_processed.checked_add(block.header.gas_used) {
            self.gas_processed = sum;
        }
    }
}

/// How many transactions `blocks` have.
pub open spec fn transactions_in(blocks: Seq<PreverifiedBlock>) -> nat
    decreases blocks.len(),
{
    if blocks.len() == 0 {
        0
    } else {
        transactions_in(blocks.drop_last()) + blocks.last().transaction_count as nat
    }
}

/// How much gas `blocks` have used.
pub open spec fn gas_in(blocks: Seq<PreverifiedBlock>) -> nat
    decreases blocks.len(),
{
    if blocks.len() == 0 {
        0
    } else {
        gas_in(blocks.drop_last()) + blocks.last().header.gas_used.value()
    }
}

/// While nothing overflows, the report grows by the number of the blocks, of
/// their transactions and of the gas that they have used, and by nothing else.
pub proof fn law_report_counts(report: ClientReport, blocks: Seq<PreverifiedBlock>)
    requires
        report.blocks_imported + blocks.len() <= usize::MAX,
        report.transactions_applied + transactions_in(blocks) <= usize::MAX,
        report.gas_processed.value() + gas_in(blocks) < U256::modulus(),
    ensures
        report.accrued_all(blocks).blocks_imported == report.blocks_imported + blocks.len(),
        report.accrued_all(blocks).transactions_applied == report.transactions_applied
            + transactions_in(blocks),
        report.accrued_all(blocks).gas_processed.value() == report.gas_processed.value() + gas_in(
            blocks,
        ),
        report.accrued_all(blocks).state_db_mem == report.state_db_mem,
    decreases blocks.len(),
{
    if blocks.len() > 0 {
        law_report_counts(report, blocks.drop_last());
        U256::lemma_value_of(report.gas_processed.value() + gas_in(blocks));
    }
}

/// Information about the blockchain gathered together.
#[derive(Debug, Clone, Copy, PartialEq, Eq, Structural)]
pub struct BlockChainInfo {
    /// Blockchain difficulty.
    pub total_difficulty: U256,
    /// Block queue difficulty.
    pub pending_total_difficulty: U256,
    /// Genesis block hash.
    pub genesis_hash: H256,
    /// Best blockchain block hash.
    pub best_block_hash: H256,
    /// Best blockchain block number.
    pub best_block_number: BlockNumber,
}

/// The decimal digit for `n`, which is below ten.
pub open spec fn digit(n: nat) -> char {
    if n == 0 {
        '0'
    } else if n == 1 {
        '1'
    } else if n == 2 {
        '2'
    } else if n == 3 {
        '3'
    } else if n == 4 {
        '4'
    } else if n == 5 {
        '5'
    } else if n == 6 {
        '6'
    } else if n == 7 {
        '7'
    } else if n == 8 {
        '8'
    } else {
        '9'
    }
}

/// The decimal numeral for `n`.
pub open spec fn decimal(n: nat) -> Seq<char>
    decreases n,
{
    if n < 10 {
        seq![digit(n)]
    } else {
        decimal(n / 10).push(digit(n % 10))
    }
}

/// Appends the decimal digit for `n` to `out`.
fn append_digit(out: &mut String, n: u64)
    requires
        n < 10,
    ensures
        final(out)@ == old(out)@.push(digit(n as nat)),
{
    proof {
        reveal_strlit("0");
        reveal_strlit("1");
        reveal_strlit("2");
        reveal_strlit("3");
        reveal_strlit("4");
        reveal_strlit("5");
        reveal_strlit("6");
        reveal_strlit("7");
        reveal_strlit("8");
        reveal_strlit("9");
    }
    let text: &str = match n {
        0 => "0",
        1 => "1",
        2 => "2",
        3 => "3",
        4 => "4",
        5 => "5",
        6 => "6",
        7 => "7",
        8 => "8",
        _ => "9",
    };
    assert(text@ =~= seq![digit(n as nat)]);
    out.append(text);
    assert(out@ =~= old(out)@.push(digit(n as nat)));
}

/// Appends the decimal numeral for `n` to `out`.
fn append_decimal(out: &mut String, n: u64)
    ensures
        final(out)@ == old(out)@ + decimal(n as nat),
    decreases n,
{
    if n >= 10 {
        append_decimal(out, n / 10);
    }
    append_digit(out, n % 10);
}

impl BlockChainInfo {
    /// Returns the number and the hash of the best block as text, given the
    /// hash as text.
    pub fn display(&self, best_block_hash: &str) -> (text: String)
        ensures
            text@ == seq!['#'] + decimal(self.best_block_number as nat) + seq!['.']
                + best_block_hash@,
    {
        proof {
            reveal_strlit("#");
            reveal_strlit(".");
        }
        let mut text = String::new();
        text.append("#");
        append_decimal(&mut text, self.best_block_number);
        text.append(".");
        text.append(best_block_hash);
        assert(text@ =~= seq!['#'] + decimal(self.best_block_number as nat) + seq!['.']
            + best_block_hash@);
        text
    }
}

} // verus!
