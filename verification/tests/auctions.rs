use dex_treasury::dex::Dex;
use dex_treasury::treasury::Module;
use dex_treasury::types::{AuctionRequest, CurrencyId, DexError, TreasuryError, TreasurySwapError};

const AUSD: CurrencyId = CurrencyId::Token(2);
const DOT: CurrencyId = CurrencyId::Token(3);
const EVE: u64 = 5;

#[test]
fn collateral_lots_split_proportionally() {
    let mut treasury = Module::new(AUSD, 0, 0, 0, 0, 0);
    treasury.transfer_collateral_from(DOT, EVE, 250).unwrap();
    treasury.set_collateral_auction_maximum_size(DOT, 100);
    let lots = treasury.create_collateral_auctions(DOT, 250, 500, EVE, 0);
    // amounts [100, 100, 50], targets [200, 200, 100]: sums are exact
    assert_eq!(
        lots,
        vec![
            AuctionRequest::Collateral { refund_receiver: EVE, currency: DOT, amount: 100, target: 200 },
            AuctionRequest::Collateral { refund_receiver: EVE, currency: DOT, amount: 100, target: 200 },
            AuctionRequest::Collateral { refund_receiver: EVE, currency: DOT, amount: 50, target: 100 },
        ]
    );
    let amount_sum: u64 = lots
        .iter()
        .map(|l| match l {
            AuctionRequest::Collateral { amount, .. } => *amount,
            _ => 0,
        })
        .sum();
    let target_sum: u64 = lots
        .iter()
        .map(|l| match l {
            AuctionRequest::Collateral { target, .. } => *target,
            _ => 0,
        })
        .sum();
    assert_eq!(amount_sum, 250);
    assert_eq!(target_sum, 500);
}

#[test]
fn collateral_splitting_stops_at_the_cap() {
    let mut treasury = Module::new(AUSD, 0, 0, 0, 0, 2);
    treasury.transfer_collateral_from(DOT, EVE, 550).unwrap();
    treasury.set_collateral_auction_maximum_size(DOT, 100);
    let lots = treasury.create_collateral_auctions(DOT, 550, 1100, EVE, 0);
    // two full lots, then the cap turns the rest into one oversized lot
    assert_eq!(
        lots,
        vec![
            AuctionRequest::Collateral { refund_receiver: EVE, currency: DOT, amount: 100, target: 199 },
            AuctionRequest::Collateral { refund_receiver: EVE, currency: DOT, amount: 100, target: 199 },
            AuctionRequest::Collateral { refund_receiver: EVE, currency: DOT, amount: 350, target: 702 },
        ]
    );
}

#[test]
fn unlimited_lot_size_makes_one_lot() {
    let mut treasury = Module::new(AUSD, 0, 0, 0, 0, 0);
    treasury.transfer_collateral_from(DOT, EVE, 250).unwrap();
    let lots = treasury.create_collateral_auctions(DOT, 250, 500, EVE, 0);
    assert_eq!(
        lots,
        vec![AuctionRequest::Collateral { refund_receiver: EVE, currency: DOT, amount: 250, target: 500 }]
    );
}

#[test]
fn collateral_auctions_need_unencumbered_collateral() {
    let mut treasury = Module::new(AUSD, 0, 0, 0, 0, 0);
    treasury.transfer_collateral_from(DOT, EVE, 250).unwrap();
    // 100 of the 250 held are already locked in open auctions
    assert!(treasury.create_collateral_auctions(DOT, 200, 500, EVE, 100).is_empty());
    assert!(!treasury.create_collateral_auctions(DOT, 150, 500, EVE, 100).is_empty());
}

#[test]
fn surplus_auctions_follow_the_buffer() {
    let mut treasury = Module::new(AUSD, 100, 200, 0, 0, 0);
    treasury.on_system_surplus(1000).unwrap();
    let (cmds, auctions) = treasury.advance_settlement_cycle(100, 0, 0);
    assert!(cmds.is_empty());
    // threshold 100 + 200 + 100 = 400: (1000 - 400) / 100 + 1 = 7 auctions
    assert_eq!(auctions.len(), 7);
    assert!(auctions.iter().all(|a| *a == AuctionRequest::Surplus { amount: 100 }));
    // the surplus pool itself is untouched by auction requests
    assert_eq!(treasury.get_surplus_pool(), 1000);
}

#[test]
fn trigger_loops_respect_the_auction_cap() {
    // surplus alone would create 10 auctions, debit 10 more; cap is 5
    let mut treasury = Module::new(AUSD, 100, 0, 50, 100, 5);
    treasury.on_system_surplus(1000).unwrap();
    treasury.on_system_debit(2000).unwrap();
    let (cmds, auctions) = treasury.advance_settlement_cycle(0, 0, 0);
    // the offset burns the whole surplus first
    assert_eq!(cmds.len(), 1);
    assert_eq!(treasury.get_surplus_pool(), 0);
    assert_eq!(treasury.get_debit_pool(), 1000);
    // no surplus remains, so all 5 allowed auctions are debit auctions
    assert_eq!(auctions.len(), 5);
    assert!(auctions
        .iter()
        .all(|a| *a == AuctionRequest::Debit { initial_amount: 50, fixed_target: 100 }));
}

#[test]
fn surplus_trigger_stops_at_the_cap() {
    // the pool would cover 10 surplus auctions, but the cap allows 5
    let mut treasury = Module::new(AUSD, 100, 0, 0, 0, 5);
    treasury.on_system_surplus(1000).unwrap();
    let (_, auctions) = treasury.advance_settlement_cycle(0, 0, 0);
    assert_eq!(auctions.len(), 5);
    assert!(auctions.iter().all(|a| *a == AuctionRequest::Surplus { amount: 100 }));
    // with no cap, all 10 are created
    let mut unbounded = Module::new(AUSD, 100, 0, 0, 0, 0);
    unbounded.on_system_surplus(1000).unwrap();
    let (_, auctions) = unbounded.advance_settlement_cycle(0, 0, 0);
    assert_eq!(auctions.len(), 10);
}

#[test]
fn shutdown_stops_the_trigger_but_not_the_offset() {
    let mut treasury = Module::new(AUSD, 100, 0, 50, 100, 0);
    treasury.on_system_surplus(1000).unwrap();
    treasury.on_system_debit(300).unwrap();
    treasury.emergency_shutdown();
    assert!(treasury.is_shutdown());
    let (cmds, auctions) = treasury.advance_settlement_cycle(0, 0, 0);
    assert_eq!(cmds.len(), 1);
    assert_eq!(treasury.get_surplus_pool(), 700);
    assert_eq!(treasury.get_debit_pool(), 0);
    assert!(auctions.is_empty());
}

#[test]
fn swapping_collateral_to_stable() {
    let mut dex = Dex::new(0, 100, 3);
    dex.enable_trading_pair(DOT, AUSD).unwrap();
    dex.add_liquidity(EVE, DOT, AUSD, 1000, 1000, 0).unwrap();
    let mut treasury = Module::new(AUSD, 0, 0, 0, 0, 0);
    treasury.transfer_collateral_from(DOT, EVE, 100).unwrap();
    let (realized, cmds) = treasury
        .swap_collateral_to_stable(&mut dex, DOT, 100, 90)
        .unwrap();
    assert_eq!(realized, 90);
    assert_eq!(cmds.len(), 2);
    assert_eq!(treasury.get_total_collaterals(DOT), 0);
    assert_eq!(treasury.get_surplus_pool(), 90);
    // the pair is canonically (AUSD, DOT): the stable side shrank to 910
    let pair = dex_treasury::types::TradingPair::from_currency_ids(DOT, AUSD).unwrap();
    assert_eq!(dex.liquidity_pool(&pair), (910, 1100));
}

#[test]
fn collateral_swap_failures_change_nothing() {
    let mut dex = Dex::new(0, 100, 3);
    dex.enable_trading_pair(DOT, AUSD).unwrap();
    dex.add_liquidity(EVE, DOT, AUSD, 1000, 1000, 0).unwrap();
    let mut treasury = Module::new(AUSD, 0, 0, 0, 0, 0);
    treasury.transfer_collateral_from(DOT, EVE, 100).unwrap();
    assert_eq!(
        treasury.swap_collateral_to_stable(&mut dex, DOT, 101, 0),
        Err(TreasurySwapError::Treasury(TreasuryError::CollateralNotEnough))
    );
    assert_eq!(
        treasury.swap_collateral_to_stable(&mut dex, DOT, 100, 91),
        Err(TreasurySwapError::Dex(DexError::InsufficientTargetAmount))
    );
    assert_eq!(
        treasury.swap_collateral_to_stable(&mut dex, CurrencyId::Token(9), 0, 0),
        Err(TreasurySwapError::Dex(DexError::MustBeEnabled))
    );
    assert_eq!(treasury.get_total_collaterals(DOT), 100);
    assert_eq!(treasury.get_surplus_pool(), 0);
    let pair = dex_treasury::types::TradingPair::from_currency_ids(DOT, AUSD).unwrap();
    assert_eq!(dex.liquidity_pool(&pair), (1000, 1000));
}
