//! What holds of the plain values and of the report.

use crate::client::ClientState;
use crate::report::{decimal, ClientReport};
use crate::types::{Address, Opaque, PreverifiedBlock, H256, U256};
use vstd::prelude::*;

verus! {

/// A number of 256 bits means its upper half, shifted by 128 bits, and its lower
/// half; what it means tells it from all others; and a sum means the sum of what
/// is added, if that is below the 256th power of two.
pub proof fn law_wide_numbers(a: U256, b: U256)
    ensures
        a.value() == a.hi * 0x1_0000_0000_0000_0000_0000_0000_0000_0000 + a.lo,
        a.value() == b.value() <==> a == b,
        U256::modulus()
            == 0x1_0000_0000_0000_0000_0000_0000_0000_0000_0000_0000_0000_0000_0000_0000_0000_0000,
        a.value() + b.value() < U256::modulus() ==> a.plus(b).value() == a.value() + b.value(),
{
    if a.value() + b.value() < U256::modulus() {
        U256::lemma_value_of(a.value() + b.value());
    }
}

/// The hash and the address of all zeros are that.
pub proof fn law_zeros(address: Address)
    ensures
        H256::zero().hi == 0,
        H256::zero().lo == 0,
        address.is_zero() <==> forall|i: int| 0 <= i < 20 ==> #[trigger] address.bytes@[i] == 0,
{
}

/// There is room for a block exactly if none of the three counters overflows,
/// and then the report has one block more, the transactions of the block more
/// and the gas of the block more, and is unchanged otherwise.
pub proof fn law_report_of_one_block(report: ClientReport, block: PreverifiedBlock)
    ensures
        report.has_room_for(block) <==> {
            &&& report.blocks_imported < usize::MAX
            &&& report.transactions_applied + block.transaction_count <= usize::MAX
            &&& report.gas_processed.value() + block.header.gas_used.value() < U256::modulus()
        },
        report.has_room_for(block) ==> {
            let after = report.accrued(block);
            &&& after.blocks_imported == report.blocks_imported + 1
            &&& after.transactions_applied == report.transactions_applied + block.transaction_count
            &&& after.gas_processed.value() == report.gas_processed.value()
                + block.header.gas_used.value()
            &&& after.state_db_mem == report.state_db_mem
        },
{
    law_wide_numbers(report.gas_processed, block.header.gas_used);
}

/// The blocks of an import are added to the report one after the other.
pub proof fn law_report_of_several_blocks(
    report: ClientReport,
    blocks: Seq<PreverifiedBlock>,
    block: PreverifiedBlock,
)
    ensures
        report.accrued_all(Seq::empty()) == report,
        report.accrued_all(blocks.push(block)) == report.accrued_all(blocks).accrued(block),
{
    assert(blocks.push(block).drop_last() =~= blocks);
}

/// A client that has done nothing has a report of zeros, wants no block to seal
/// and has none, has the author of all zeros and no extra data.
pub proof fn law_fresh_clients<T: Opaque>(state: ClientState<T>)
    ensures
        state.fresh() <==> {
            &&& state.report.blocks_imported == 0
            &&& state.report.transactions_applied == 0
            &&& state.report.gas_processed.value() == 0
            &&& state.report.state_db_mem == 0
            &&& !state.sealing_enabled
            &&& state.sealing_block is None
            &&& forall|i: int| 0 <= i < 20 ==> #[trigger] state.author.bytes@[i] == 0
            &&& state.extra_data.len() == 0
        },
{
    U256::lemma_value_of(0);
    state.report.gas_processed.lemma_of_value();
}

/// The number that decimal digits write, the most significant first.
pub open spec fn numeral_value(digits: Seq<char>) -> int
    decreases digits.len(),
{
    if digits.len() == 0 {
        0
    } else {
        10 * numeral_value(digits.drop_last()) + (digits.last() as int - '0' as int)
    }
}

/// The decimal numeral for a number consists of digits, means the number, and
/// has no zero in front unless it is zero.
pub proof fn law_decimals(n: nat)
    ensures
        decimal(n).len() > 0,
        forall|i: int|
            0 <= i < decimal(n).len() ==> '0' as int <= (#[trigger] decimal(n)[i]) as int
                <= '9' as int,
        numeral_value(decimal(n)) == n,
        n > 0 ==> decimal(n)[0] != '0',
    decreases n,
{
    let digits = decimal(n);
    if n >= 10 {
        law_decimals(n / 10);
        assert(digits.drop_last() =~= decimal(n / 10));
        assert(digits[0] == decimal(n / 10)[0]);
        assert forall|i: int| 0 <= i < digits.len() implies '0' as int <= (#[trigger] digits[i])
            as int <= '9' as int by {
            if i < digits.len() - 1 {
                assert(digits[i] == decimal(n / 10)[i]);
            }
        }
    } else {
        assert(digits.drop_last() =~= Seq::empty());
        assert(numeral_value(digits.drop_last()) == 0);
    }
}

} // verus!
