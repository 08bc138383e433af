use dex_treasury::dex::{Dex, DEX_ACCOUNT};
use dex_treasury::types::{CurrencyId, DexError, LedgerOp, TradingPair, TradingPairStatus};

const KAR: CurrencyId = CurrencyId::Token(1);
const AUSD: CurrencyId = CurrencyId::Token(2);
const CHARLIE: u64 = 3;

fn pair() -> TradingPair {
    TradingPair::from_currency_ids(KAR, AUSD).unwrap()
}

fn listed_dex() -> Dex {
    let mut dex = Dex::new(0, 100, 4);
    dex.list_provisioning(KAR, AUSD, 5, 1, 100, 100, 10).unwrap();
    dex
}

#[test]
fn contributions_accumulate_exactly() {
    let mut dex = listed_dex();
    let cmds = dex.add_provision(CHARLIE, KAR, AUSD, 50, 50).unwrap();
    assert_eq!(
        cmds,
        vec![
            LedgerOp::Transfer { currency: KAR, from: CHARLIE, to: DEX_ACCOUNT, amount: 50 },
            LedgerOp::Transfer { currency: AUSD, from: CHARLIE, to: DEX_ACCOUNT, amount: 50 },
        ]
    );
    dex.add_provision(CHARLIE, KAR, AUSD, 50, 50).unwrap();
    // two deposits of 50 accumulate to exactly 100 on each side, no loss
    assert_eq!(dex.provisioning_pool(&pair(), CHARLIE), (100, 100));
    match dex.trading_pair_statuses(&pair()) {
        TradingPairStatus::Provisioning(p) => {
            assert_eq!(p.accumulated_provision, (100, 100))
        }
        other => panic!("unexpected status {:?}", other),
    }
}

#[test]
fn contribution_below_both_minima_fails() {
    let mut dex = listed_dex();
    // minima are (5, 1): (4, 0) reaches neither
    assert_eq!(
        dex.add_provision(CHARLIE, KAR, AUSD, 4, 0),
        Err(DexError::InvalidContributionIncrement)
    );
    // reaching one side is enough
    assert!(dex.add_provision(CHARLIE, KAR, AUSD, 0, 1).is_ok());
}

#[test]
fn provision_needs_a_provisioning_pair() {
    let mut dex = Dex::new(0, 100, 4);
    assert_eq!(
        dex.add_provision(CHARLIE, KAR, AUSD, 50, 50),
        Err(DexError::MustBeProvisioning)
    );
    assert_eq!(
        dex.add_provision(CHARLIE, KAR, KAR, 50, 50),
        Err(DexError::InvalidCurrencyId)
    );
}

#[test]
fn ending_provisioning_before_deadline_fails() {
    let mut dex = listed_dex();
    dex.add_provision(CHARLIE, KAR, AUSD, 100, 100).unwrap();
    // the deadline is round 10
    assert_eq!(dex.end_provisioning(KAR, AUSD, 9), Err(DexError::UnqualifiedProvision));
    assert!(dex.end_provisioning(KAR, AUSD, 10).is_ok());
}

#[test]
fn ending_provisioning_below_target_fails() {
    let mut dex = listed_dex();
    dex.add_provision(CHARLIE, KAR, AUSD, 50, 50).unwrap();
    // both sides below their target of 100
    assert_eq!(dex.end_provisioning(KAR, AUSD, 10), Err(DexError::UnqualifiedProvision));
}

#[test]
fn ending_provisioning_with_an_empty_side_fails() {
    let mut dex = listed_dex();
    dex.add_provision(CHARLIE, KAR, AUSD, 150, 0).unwrap();
    assert_eq!(dex.end_provisioning(KAR, AUSD, 10), Err(DexError::UnqualifiedProvision));
}

#[test]
fn ending_provisioning_converts_to_enabled() {
    let mut dex = listed_dex();
    dex.add_provision(CHARLIE, KAR, AUSD, 200, 100).unwrap();
    let cmds = dex.end_provisioning(KAR, AUSD, 10).unwrap();
    // rates (1, 2) value both sides equally: 1 * 200 + 2 * 100 = 400 shares
    assert_eq!(
        cmds,
        vec![LedgerOp::Deposit {
            currency: CurrencyId::DexShare(1, 2),
            account: DEX_ACCOUNT,
            amount: 400,
        }]
    );
    assert_eq!(dex.trading_pair_statuses(&pair()), TradingPairStatus::Enabled);
    assert_eq!(dex.liquidity_pool(&pair()), (200, 100));
    assert_eq!(dex.share_supply(&pair()), 400);
    let (rate_0, rate_1) = dex.initial_share_exchange_rates(&pair());
    assert_eq!(rate_0.inner, 1_000_000_000_000_000_000);
    assert_eq!(rate_1.inner, 2_000_000_000_000_000_000);
}

#[test]
fn claiming_shares_twice_yields_shares_once() {
    let mut dex = listed_dex();
    dex.add_provision(CHARLIE, KAR, AUSD, 50, 50).unwrap();
    dex.add_provision(CHARLIE, KAR, AUSD, 50, 50).unwrap();
    assert_eq!(
        dex.claim_dex_share(CHARLIE, KAR, AUSD),
        Err(DexError::StillProvisioning)
    );
    dex.end_provisioning(KAR, AUSD, 10).unwrap();
    let first = dex.claim_dex_share(CHARLIE, KAR, AUSD).unwrap();
    // equal sides: rates (1, 1), so 100 + 100 = 200 shares
    assert_eq!(
        first,
        vec![LedgerOp::Transfer {
            currency: CurrencyId::DexShare(1, 2),
            from: DEX_ACCOUNT,
            to: CHARLIE,
            amount: 200,
        }]
    );
    assert_eq!(dex.provisioning_pool(&pair(), CHARLIE), (0, 0));
    // the second claim finds no entry and transfers nothing
    let second = dex.claim_dex_share(CHARLIE, KAR, AUSD).unwrap();
    assert!(second.is_empty());
}
