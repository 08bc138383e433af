use dex_treasury::dex::{Dex, DEX_ACCOUNT};
use dex_treasury::types::{CurrencyId, DexError, LedgerOp, TradingPair};

const KAR: CurrencyId = CurrencyId::Token(1);
const AUSD: CurrencyId = CurrencyId::Token(2);
const ALICE: u64 = 1;

fn pair() -> TradingPair {
    TradingPair::from_currency_ids(KAR, AUSD).unwrap()
}

fn enabled_dex() -> Dex {
    let mut dex = Dex::new(0, 100, 4);
    dex.enable_trading_pair(KAR, AUSD).unwrap();
    dex
}

#[test]
fn first_deposit_sets_the_price() {
    let mut dex = enabled_dex();
    let cmds = dex.add_liquidity(ALICE, KAR, AUSD, 1000, 2000, 0).unwrap();
    // rates (2, 1) value both sides equally: 2 * 1000 + 1 * 2000 = 4000 shares
    assert_eq!(
        cmds,
        vec![
            LedgerOp::Transfer { currency: KAR, from: ALICE, to: DEX_ACCOUNT, amount: 1000 },
            LedgerOp::Transfer { currency: AUSD, from: ALICE, to: DEX_ACCOUNT, amount: 2000 },
            LedgerOp::Deposit { currency: CurrencyId::DexShare(1, 2), account: ALICE, amount: 4000 },
        ]
    );
    assert_eq!(dex.liquidity_pool(&pair()), (1000, 2000));
    assert_eq!(dex.share_supply(&pair()), 4000);
}

#[test]
fn later_deposits_keep_the_price() {
    let mut dex = enabled_dex();
    dex.add_liquidity(ALICE, KAR, AUSD, 1000, 2000, 0).unwrap();
    // offering (500, 1000) matches the 1:2 price exactly
    let cmds = dex.add_liquidity(ALICE, KAR, AUSD, 500, 1000, 2000).unwrap();
    assert_eq!(
        cmds,
        vec![
            LedgerOp::Transfer { currency: KAR, from: ALICE, to: DEX_ACCOUNT, amount: 500 },
            LedgerOp::Transfer { currency: AUSD, from: ALICE, to: DEX_ACCOUNT, amount: 1000 },
            LedgerOp::Deposit { currency: CurrencyId::DexShare(1, 2), account: ALICE, amount: 2000 },
        ]
    );
    assert_eq!(dex.liquidity_pool(&pair()), (1500, 3000));
    assert_eq!(dex.share_supply(&pair()), 6000);
}

#[test]
fn over_supplied_side_is_scaled_down() {
    let mut dex = enabled_dex();
    dex.add_liquidity(ALICE, KAR, AUSD, 1000, 2000, 0).unwrap();
    // offering (800, 1000): only (500, 1000) keeps the 1:2 price
    dex.add_liquidity(ALICE, KAR, AUSD, 800, 1000, 0).unwrap();
    assert_eq!(dex.liquidity_pool(&pair()), (1500, 3000));
    assert_eq!(dex.share_supply(&pair()), 6000);
}

#[test]
fn liquidity_needs_an_enabled_pair() {
    let mut dex = Dex::new(0, 100, 4);
    assert_eq!(
        dex.add_liquidity(ALICE, KAR, AUSD, 1000, 2000, 0),
        Err(DexError::MustBeEnabled)
    );
    assert_eq!(
        dex.add_liquidity(ALICE, KAR, KAR, 1000, 2000, 0),
        Err(DexError::InvalidCurrencyId)
    );
}

#[test]
fn zero_sided_deposit_is_refused() {
    let mut dex = enabled_dex();
    assert_eq!(
        dex.add_liquidity(ALICE, KAR, AUSD, 0, 2000, 0),
        Err(DexError::InvalidLiquidityIncrement)
    );
}

#[test]
fn deposit_below_acceptable_share_increment_is_refused() {
    let mut dex = enabled_dex();
    assert_eq!(
        dex.add_liquidity(ALICE, KAR, AUSD, 1000, 2000, 4001),
        Err(DexError::UnacceptableShareIncrement)
    );
}

#[test]
fn removing_liquidity_withdraws_in_proportion() {
    let mut dex = enabled_dex();
    dex.add_liquidity(ALICE, KAR, AUSD, 1000, 2000, 0).unwrap();
    let cmds = dex.remove_liquidity(ALICE, KAR, AUSD, 2000, 500, 1000).unwrap();
    assert_eq!(
        cmds,
        vec![
            LedgerOp::Withdraw { currency: CurrencyId::DexShare(1, 2), account: ALICE, amount: 2000 },
            LedgerOp::Transfer { currency: KAR, from: DEX_ACCOUNT, to: ALICE, amount: 500 },
            LedgerOp::Transfer { currency: AUSD, from: DEX_ACCOUNT, to: ALICE, amount: 1000 },
        ]
    );
    assert_eq!(dex.liquidity_pool(&pair()), (500, 1000));
    assert_eq!(dex.share_supply(&pair()), 2000);
}

#[test]
fn removing_nothing_is_a_no_op() {
    let mut dex = enabled_dex();
    let cmds = dex.remove_liquidity(ALICE, KAR, AUSD, 0, 0, 0).unwrap();
    assert!(cmds.is_empty());
}

#[test]
fn removal_below_acceptable_withdrawals_is_refused() {
    let mut dex = enabled_dex();
    dex.add_liquidity(ALICE, KAR, AUSD, 1000, 2000, 0).unwrap();
    assert_eq!(
        dex.remove_liquidity(ALICE, KAR, AUSD, 2000, 501, 1000),
        Err(DexError::UnacceptableLiquidityWithdrawn)
    );
}

#[test]
fn removing_more_shares_than_outstanding_is_refused() {
    let mut dex = enabled_dex();
    dex.add_liquidity(ALICE, KAR, AUSD, 1000, 2000, 0).unwrap();
    assert_eq!(
        dex.remove_liquidity(ALICE, KAR, AUSD, 4001, 0, 0),
        Err(DexError::InsufficientLiquidity)
    );
}

#[test]
fn liquidity_survives_a_disabled_pair() {
    // disabling blocks trading and deposits, not withdrawal
    let mut dex = enabled_dex();
    dex.add_liquidity(ALICE, KAR, AUSD, 1000, 2000, 0).unwrap();
    dex.disable_trading_pair(KAR, AUSD).unwrap();
    assert_eq!(dex.liquidity_pool(&pair()), (1000, 2000));
    assert!(dex.remove_liquidity(ALICE, KAR, AUSD, 2000, 0, 0).is_ok());
    assert_eq!(dex.liquidity_pool(&pair()), (500, 1000));
}
