use dex_treasury::dex::Dex;
use dex_treasury::types::{CurrencyId, DexError, TradingPair, TradingPairStatus};

const KAR: CurrencyId = CurrencyId::Token(1);
const AUSD: CurrencyId = CurrencyId::Token(2);

fn new_dex() -> Dex {
    Dex::new(0, 100, 4)
}

fn pair() -> TradingPair {
    TradingPair::from_currency_ids(KAR, AUSD).unwrap()
}

#[test]
fn pairs_are_canonical() {
    let p = TradingPair::from_currency_ids(AUSD, KAR).unwrap();
    assert_eq!(p.first(), KAR);
    assert_eq!(p.second(), AUSD);
    assert_eq!(p, pair());
    assert_eq!(p.dex_share_currency_id(), CurrencyId::DexShare(1, 2));
    assert!(TradingPair::from_currency_ids(KAR, KAR).is_none());
    assert!(TradingPair::from_currency_ids(KAR, CurrencyId::DexShare(1, 2)).is_none());
}

#[test]
fn list_provisioning_sets_status() {
    let mut dex = new_dex();
    assert_eq!(dex.list_provisioning(KAR, AUSD, 5, 1, 100, 100, 10), Ok(()));
    match dex.trading_pair_statuses(&pair()) {
        TradingPairStatus::Provisioning(p) => {
            assert_eq!(p.min_contribution, (5, 1));
            assert_eq!(p.target_provision, (100, 100));
            assert_eq!(p.accumulated_provision, (0, 0));
            assert_eq!(p.not_before, 10);
        }
        other => panic!("unexpected status {:?}", other),
    }
}

#[test]
fn listing_orders_parameters_canonically() {
    let mut dex = new_dex();
    // arguments arrive in (AUSD, KAR) order; storage is in (KAR, AUSD) order
    assert_eq!(dex.list_provisioning(AUSD, KAR, 5, 1, 200, 100, 10), Ok(()));
    match dex.trading_pair_statuses(&pair()) {
        TradingPairStatus::Provisioning(p) => {
            assert_eq!(p.min_contribution, (1, 5));
            assert_eq!(p.target_provision, (100, 200));
        }
        other => panic!("unexpected status {:?}", other),
    }
}

#[test]
fn listing_twice_without_disabling_fails() {
    let mut dex = new_dex();
    assert_eq!(dex.list_provisioning(KAR, AUSD, 5, 1, 100, 100, 10), Ok(()));
    assert_eq!(
        dex.list_provisioning(KAR, AUSD, 5, 1, 100, 100, 10),
        Err(DexError::MustBeDisabled)
    );
}

#[test]
fn listing_an_invalid_pair_fails() {
    let mut dex = new_dex();
    assert_eq!(
        dex.list_provisioning(KAR, KAR, 5, 1, 100, 100, 10),
        Err(DexError::InvalidCurrencyId)
    );
}

#[test]
fn listing_with_outstanding_shares_fails() {
    let mut dex = new_dex();
    assert_eq!(dex.enable_trading_pair(KAR, AUSD), Ok(()));
    dex.add_liquidity(7, KAR, AUSD, 1000, 1000, 0).unwrap();
    assert_eq!(dex.disable_trading_pair(KAR, AUSD), Ok(()));
    assert_eq!(
        dex.list_provisioning(KAR, AUSD, 5, 1, 100, 100, 10),
        Err(DexError::NotAllowedList)
    );
}

#[test]
fn update_provisioning_parameters_works() {
    let mut dex = new_dex();
    assert_eq!(
        dex.update_provisioning_parameters(KAR, AUSD, 5, 1, 100, 100, 10),
        Err(DexError::MustBeProvisioning)
    );
    dex.list_provisioning(KAR, AUSD, 5, 1, 100, 100, 10).unwrap();
    dex.add_provision(3, KAR, AUSD, 20, 20).unwrap();
    assert_eq!(
        dex.update_provisioning_parameters(KAR, AUSD, 6, 2, 300, 400, 50),
        Ok(())
    );
    match dex.trading_pair_statuses(&pair()) {
        TradingPairStatus::Provisioning(p) => {
            assert_eq!(p.min_contribution, (6, 2));
            assert_eq!(p.target_provision, (300, 400));
            // accumulated contributions survive the update
            assert_eq!(p.accumulated_provision, (20, 20));
            assert_eq!(p.not_before, 50);
        }
        other => panic!("unexpected status {:?}", other),
    }
}

#[test]
fn enable_and_disable_trading_pair() {
    let mut dex = new_dex();
    assert_eq!(dex.disable_trading_pair(KAR, AUSD), Err(DexError::MustBeEnabled));
    assert_eq!(dex.enable_trading_pair(KAR, AUSD), Ok(()));
    assert_eq!(dex.trading_pair_statuses(&pair()), TradingPairStatus::Enabled);
    assert_eq!(dex.enable_trading_pair(KAR, AUSD), Err(DexError::AlreadyEnabled));
    assert_eq!(dex.disable_trading_pair(KAR, AUSD), Ok(()));
    assert_eq!(dex.trading_pair_statuses(&pair()), TradingPairStatus::Disabled);
}

#[test]
fn enabling_a_provisioning_pair_with_contributions_fails() {
    let mut dex = new_dex();
    dex.list_provisioning(KAR, AUSD, 5, 1, 100, 100, 10).unwrap();
    // without contributions, enabling directly is allowed
    let mut empty = new_dex();
    empty.list_provisioning(KAR, AUSD, 5, 1, 100, 100, 10).unwrap();
    assert_eq!(empty.enable_trading_pair(KAR, AUSD), Ok(()));
    // with contributions, it is not
    dex.add_provision(3, KAR, AUSD, 20, 20).unwrap();
    assert_eq!(dex.enable_trading_pair(KAR, AUSD), Err(DexError::StillProvisioning));
}
