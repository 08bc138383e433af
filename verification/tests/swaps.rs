use dex_treasury::dex::{Dex, DEX_ACCOUNT};
use dex_treasury::rate::FixedRate;
use dex_treasury::types::{CurrencyId, DexError, LedgerOp, TradingPair};

const KAR: CurrencyId = CurrencyId::Token(1);
const AUSD: CurrencyId = CurrencyId::Token(2);
const DOT: CurrencyId = CurrencyId::Token(3);
const BOB: u64 = 2;

fn pair(a: CurrencyId, b: CurrencyId) -> TradingPair {
    TradingPair::from_currency_ids(a, b).unwrap()
}

/// A fee-free exchange with an enabled KAR/AUSD pool of (1000, 1000).
fn pool_dex() -> Dex {
    let mut dex = Dex::new(0, 100, 3);
    dex.enable_trading_pair(KAR, AUSD).unwrap();
    dex.add_liquidity(BOB, KAR, AUSD, 1000, 1000, 0).unwrap();
    dex
}

#[test]
fn swap_with_exact_supply_works() {
    let mut dex = pool_dex();
    let (target, cmds) = dex
        .swap_with_exact_supply(BOB, &vec![KAR, AUSD], 100, 90, None)
        .unwrap();
    assert_eq!(target, 90);
    assert_eq!(
        cmds,
        vec![
            LedgerOp::Transfer { currency: KAR, from: BOB, to: DEX_ACCOUNT, amount: 100 },
            LedgerOp::Transfer { currency: AUSD, from: DEX_ACCOUNT, to: BOB, amount: 90 },
        ]
    );
    assert_eq!(dex.liquidity_pool(&pair(KAR, AUSD)), (1100, 910));
}

#[test]
fn swap_with_exact_target_works() {
    let mut dex = pool_dex();
    let (supply, cmds) = dex
        .swap_with_exact_target(BOB, &vec![KAR, AUSD], 90, 100, None)
        .unwrap();
    assert_eq!(supply, 99);
    assert_eq!(
        cmds,
        vec![
            LedgerOp::Transfer { currency: KAR, from: BOB, to: DEX_ACCOUNT, amount: 99 },
            LedgerOp::Transfer { currency: AUSD, from: DEX_ACCOUNT, to: BOB, amount: 90 },
        ]
    );
    assert_eq!(dex.liquidity_pool(&pair(KAR, AUSD)), (1099, 910));
}

#[test]
fn swap_across_two_hops() {
    let mut dex = pool_dex();
    dex.enable_trading_pair(AUSD, DOT).unwrap();
    dex.add_liquidity(BOB, AUSD, DOT, 1000, 1000, 0).unwrap();
    let (target, _) = dex
        .swap_with_exact_supply(BOB, &vec![KAR, AUSD, DOT], 100, 0, None)
        .unwrap();
    assert_eq!(target, 82);
    assert_eq!(dex.liquidity_pool(&pair(KAR, AUSD)), (1100, 910));
    assert_eq!(dex.liquidity_pool(&pair(AUSD, DOT)), (1090, 918));
}

#[test]
fn swap_below_minimum_target_is_refused() {
    let mut dex = pool_dex();
    assert_eq!(
        dex.swap_with_exact_supply(BOB, &vec![KAR, AUSD], 100, 91, None),
        Err(DexError::InsufficientTargetAmount)
    );
    // nothing moved
    assert_eq!(dex.liquidity_pool(&pair(KAR, AUSD)), (1000, 1000));
}

#[test]
fn swap_above_maximum_supply_is_refused() {
    let mut dex = pool_dex();
    assert_eq!(
        dex.swap_with_exact_target(BOB, &vec![KAR, AUSD], 90, 98, None),
        Err(DexError::ExcessiveSupplyAmount)
    );
}

#[test]
fn swap_path_length_is_bounded() {
    let mut dex = pool_dex();
    assert_eq!(
        dex.swap_with_exact_supply(BOB, &vec![KAR], 100, 0, None),
        Err(DexError::InvalidTradingPathLength)
    );
    // the limit configured in pool_dex is 3
    assert_eq!(
        dex.swap_with_exact_supply(BOB, &vec![KAR, AUSD, DOT, CurrencyId::Token(4)], 100, 0, None),
        Err(DexError::InvalidTradingPathLength)
    );
}

#[test]
fn swap_needs_enabled_pairs_with_liquidity() {
    let mut dex = pool_dex();
    assert_eq!(
        dex.swap_with_exact_supply(BOB, &vec![KAR, DOT], 100, 0, None),
        Err(DexError::MustBeEnabled)
    );
    dex.enable_trading_pair(KAR, DOT).unwrap();
    assert_eq!(
        dex.swap_with_exact_supply(BOB, &vec![KAR, DOT], 100, 0, None),
        Err(DexError::InsufficientLiquidity)
    );
    assert_eq!(
        dex.swap_with_exact_supply(BOB, &vec![KAR, KAR], 100, 0, None),
        Err(DexError::InvalidCurrencyId)
    );
}

#[test]
fn swap_of_nothing_is_refused() {
    let mut dex = pool_dex();
    assert_eq!(
        dex.swap_with_exact_supply(BOB, &vec![KAR, AUSD], 0, 0, None),
        Err(DexError::ZeroTargetAmount)
    );
    assert_eq!(
        dex.swap_with_exact_target(BOB, &vec![KAR, AUSD], 0, 100, None),
        Err(DexError::ZeroSupplyAmount)
    );
}

#[test]
fn price_impact_limit_guards_the_swap() {
    let mut dex = pool_dex();
    // 100 in draws 90 out of a 1000 reserve: 9% impact, above a 5% limit
    let five_percent = FixedRate::checked_from_rational(5, 100).unwrap();
    assert_eq!(
        dex.swap_with_exact_supply(BOB, &vec![KAR, AUSD], 100, 0, Some(five_percent)),
        Err(DexError::ExceedPriceImpactLimit)
    );
    let ten_percent = FixedRate::checked_from_rational(10, 100).unwrap();
    assert!(dex
        .swap_with_exact_supply(BOB, &vec![KAR, AUSD], 100, 0, Some(ten_percent))
        .is_ok());
}

#[test]
fn quotes_without_trading() {
    let dex = pool_dex();
    assert_eq!(dex.get_swap_target_amount(&vec![KAR, AUSD], 100, None), Some(90));
    assert_eq!(dex.get_swap_supply_amount(&vec![KAR, AUSD], 90, None), Some(99));
    assert_eq!(dex.get_swap_target_amount(&vec![KAR, DOT], 100, None), None);
    assert_eq!(dex.get_liquidity(KAR, AUSD), (1000, 1000));
    assert_eq!(dex.get_liquidity(AUSD, KAR), (1000, 1000));
    assert_eq!(dex.get_liquidity(KAR, DOT), (0, 0));
}

#[test]
fn oriented_liquidity_follows_argument_order() {
    let mut dex = Dex::new(0, 100, 3);
    dex.enable_trading_pair(KAR, AUSD).unwrap();
    dex.add_liquidity(BOB, KAR, AUSD, 500, 2000, 0).unwrap();
    assert_eq!(dex.get_liquidity(KAR, AUSD), (500, 2000));
    assert_eq!(dex.get_liquidity(AUSD, KAR), (2000, 500));
}
