use ethcore_client::report::{BlockChainInfo, ClientReport};
use ethcore_client::types::{Address, Header, PreverifiedBlock, H256, U256};

fn block(transaction_count: usize, gas_used: U256) -> PreverifiedBlock {
    PreverifiedBlock {
        header: Header {
            hash: H256 { hi: 1, lo: 1 },
            number: 1,
            parent_hash: H256 { hi: 1, lo: 0 },
            gas_used,
        },
        transaction_count,
    }
}

fn info(best_block_number: u64) -> BlockChainInfo {
    BlockChainInfo {
        total_difficulty: U256::zero(),
        pending_total_difficulty: U256::zero(),
        genesis_hash: H256::new(),
        best_block_hash: H256::new(),
        best_block_number,
    }
}

#[test]
fn report_starts_blank() {
    assert_eq!(
        ClientReport::default(),
        ClientReport {
            blocks_imported: 0,
            transactions_applied: 0,
            gas_processed: U256 { hi: 0, lo: 0 },
            state_db_mem: 0,
        }
    );
}

#[test]
fn report_accrues_blocks() {
    let mut report = ClientReport { state_db_mem: 5, ..ClientReport::default() };
    report.accrue_block(&block(3, U256 { hi: 0, lo: u128::MAX }));
    report.accrue_block(&block(4, U256 { hi: 2, lo: 2 }));
    assert_eq!(
        report,
        ClientReport {
            blocks_imported: 2,
            transactions_applied: 7,
            gas_processed: U256 { hi: 3, lo: 1 },
            state_db_mem: 5,
        }
    );
}

#[test]
fn full_report_has_no_room() {
    let most = U256 { hi: u128::MAX, lo: u128::MAX };
    let one = U256 { hi: 0, lo: 1 };
    let report = ClientReport::default();
    assert!(report.can_accrue(&block(usize::MAX, most)));
    assert!(!ClientReport { blocks_imported: usize::MAX, ..report }.can_accrue(&block(0, one)));
    assert!(!ClientReport { transactions_applied: 1, ..report }.can_accrue(&block(usize::MAX, one)));
    assert!(!ClientReport { gas_processed: most, ..report }.can_accrue(&block(0, one)));
    assert!(ClientReport { gas_processed: most, ..report }.can_accrue(&block(0, U256::zero())));
}

#[test]
fn sums_carry_and_overflow() {
    let a = U256 { hi: 0, lo: u128::MAX };
    let one = U256 { hi: 0, lo: 1 };
    assert_eq!(a.checked_add(one), Some(U256 { hi: 1, lo: 0 }));
    assert_eq!(a.checked_add(a), Some(U256 { hi: 1, lo: u128::MAX - 1 }));
    let most = U256 { hi: u128::MAX, lo: u128::MAX };
    assert_eq!(most.checked_add(one), None);
    assert_eq!(most.checked_add(most), None);
    assert_eq!(most.checked_add(U256::zero()), Some(most));
    assert_eq!(U256 { hi: u128::MAX, lo: 0 }.checked_add(U256 { hi: 1, lo: 0 }), None);
}

#[test]
fn info_is_displayed_as_number_and_hash() {
    assert_eq!(info(0).display("abcd"), "#0.abcd");
    assert_eq!(info(7).display(""), "#7.");
    assert_eq!(info(1234567890).display("0x00"), "#1234567890.0x00");
    assert_eq!(info(u64::MAX).display("h"), "#18446744073709551615.h");
}

#[test]
fn new_values_are_zero() {
    assert_eq!(H256::new(), H256 { hi: 0, lo: 0 });
    assert_eq!(Address::new(), Address { bytes: [0u8; 20] });
    assert_eq!(U256::zero(), U256 { hi: 0, lo: 0 });
}
