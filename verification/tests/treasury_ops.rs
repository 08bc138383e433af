use dex_treasury::treasury::{Module, TREASURY_ACCOUNT};
use dex_treasury::types::{AuctionRequest, CurrencyId, LedgerOp, TreasuryError};

const AUSD: CurrencyId = CurrencyId::Token(2);
const DOT: CurrencyId = CurrencyId::Token(3);
const DAVE: u64 = 4;

fn new_treasury() -> Module {
    Module::new(AUSD, 0, 0, 0, 0, 0)
}

#[test]
fn booking_debit_and_surplus() {
    let mut treasury = new_treasury();
    assert_eq!(treasury.on_system_debit(450), Ok(()));
    assert_eq!(treasury.get_debit_pool(), 450);
    let cmds = treasury.on_system_surplus(300).unwrap();
    assert_eq!(
        cmds,
        vec![LedgerOp::Deposit { currency: AUSD, account: TREASURY_ACCOUNT, amount: 300 }]
    );
    assert_eq!(treasury.get_surplus_pool(), 300);
}

#[test]
fn pool_overflows_are_refused() {
    let mut treasury = new_treasury();
    treasury.on_system_debit(u64::MAX).unwrap();
    assert_eq!(treasury.on_system_debit(1), Err(TreasuryError::DebitPoolOverflow));
    treasury.on_system_surplus(u64::MAX).unwrap();
    assert_eq!(treasury.on_system_surplus(1), Err(TreasuryError::SurplusPoolOverflow));
    assert_eq!(treasury.transfer_surplus_from(DAVE, 1), Err(TreasuryError::SurplusPoolOverflow));
}

#[test]
fn offset_nets_surplus_against_debit() {
    let mut treasury = new_treasury();
    treasury.on_system_surplus(300).unwrap();
    treasury.on_system_debit(450).unwrap();
    let cmds = treasury.offset_surplus_and_debit();
    assert_eq!(
        cmds,
        vec![LedgerOp::Withdraw { currency: AUSD, account: TREASURY_ACCOUNT, amount: 300 }]
    );
    assert_eq!(treasury.get_surplus_pool(), 0);
    assert_eq!(treasury.get_debit_pool(), 150);
}

#[test]
fn offset_of_empty_pools_burns_nothing() {
    let mut treasury = new_treasury();
    assert!(treasury.offset_surplus_and_debit().is_empty());
    treasury.on_system_surplus(300).unwrap();
    // no debit to net against
    assert!(treasury.offset_surplus_and_debit().is_empty());
    assert_eq!(treasury.get_surplus_pool(), 300);
}

#[test]
fn collateral_moves_in_and_out() {
    let mut treasury = new_treasury();
    let cmds = treasury.transfer_collateral_from(DOT, DAVE, 500).unwrap();
    assert_eq!(
        cmds,
        vec![LedgerOp::Transfer { currency: DOT, from: DAVE, to: TREASURY_ACCOUNT, amount: 500 }]
    );
    assert_eq!(treasury.get_total_collaterals(DOT), 500);
    let cmds = treasury.transfer_collateral_to(DOT, DAVE, 200).unwrap();
    assert_eq!(
        cmds,
        vec![LedgerOp::Transfer { currency: DOT, from: TREASURY_ACCOUNT, to: DAVE, amount: 200 }]
    );
    assert_eq!(treasury.get_total_collaterals(DOT), 300);
    assert_eq!(
        treasury.transfer_collateral_to(DOT, DAVE, 301),
        Err(TreasuryError::CollateralNotEnough)
    );
    assert_eq!(
        treasury.transfer_collateral_from(DOT, DAVE, u64::MAX),
        Err(TreasuryError::CollateralOverflow)
    );
}

#[test]
fn stable_debit_instructions() {
    let mut treasury = new_treasury();
    assert_eq!(
        treasury.deposit_backed_debit_to(DAVE, 10),
        vec![LedgerOp::Deposit { currency: AUSD, account: DAVE, amount: 10 }]
    );
    assert_eq!(
        treasury.withdraw_backed_debit_from(DAVE, 10),
        vec![LedgerOp::Withdraw { currency: AUSD, account: DAVE, amount: 10 }]
    );
    let cmds = treasury.deposit_unbacked_debit_to(DAVE, 10).unwrap();
    assert_eq!(cmds, vec![LedgerOp::Deposit { currency: AUSD, account: DAVE, amount: 10 }]);
    assert_eq!(treasury.get_debit_pool(), 10);
    let cmds = treasury.transfer_surplus_from(DAVE, 25).unwrap();
    assert_eq!(
        cmds,
        vec![LedgerOp::Transfer { currency: AUSD, from: DAVE, to: TREASURY_ACCOUNT, amount: 25 }]
    );
    assert_eq!(treasury.get_surplus_pool(), 25);
}

#[test]
fn debit_proportion_is_a_ratio() {
    let treasury = new_treasury();
    assert_eq!(
        treasury.get_debit_proportion(1, 4).inner,
        250_000_000_000_000_000
    );
    assert_eq!(treasury.get_debit_proportion(1, 0).inner, 0);
}

#[test]
fn parameters_can_be_updated_piecewise() {
    let mut treasury = new_treasury();
    treasury.set_debit_and_surplus_handle_params(Some(100), Some(200), Some(30), Some(40));
    treasury.set_debit_and_surplus_handle_params(None, Some(500), None, None);
    treasury.set_collateral_auction_maximum_size(DOT, 100);
    assert_eq!(treasury.collateral_auction_maximum_size(DOT), 100);
    assert_eq!(treasury.collateral_auction_maximum_size(AUSD), 0);
    // the cycle trigger sees the updated values
    treasury.on_system_surplus(1000).unwrap();
    let (_, auctions) = treasury.advance_settlement_cycle(0, 0, 0);
    // threshold 0 + 500 + 100: (1000 - 600) / 100 + 1 = 5 surplus auctions
    assert_eq!(auctions.len(), 5);
    assert_eq!(auctions[0], AuctionRequest::Surplus { amount: 100 });
}

#[test]
fn account_id_is_fixed() {
    let treasury = new_treasury();
    assert_eq!(treasury.account_id(), TREASURY_ACCOUNT);
}
