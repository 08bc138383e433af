use dex_treasury::mock::{mock_shutdown, GasToWeight, MockEmergencyShutdown, MockPriceSource, WeightToFee};
use dex_treasury::rate::FixedRate;

#[test]
fn mock_shutdown_fires_the_signal() {
    let mut signal = MockEmergencyShutdown::new();
    assert!(!signal.is_shutdown());
    mock_shutdown(&mut signal);
    assert!(signal.is_shutdown());
}

#[test]
fn mock_price_source_returns_what_was_planted() {
    let mut source = MockPriceSource::new();
    assert_eq!(source.get_relative_price(), None);
    let price = FixedRate::checked_from_rational(3, 2).unwrap();
    source.set_relative_price(Some(price));
    assert_eq!(source.get_relative_price(), Some(price));
    source.set_relative_price(None);
    assert_eq!(source.get_relative_price(), None);
}

#[test]
fn gas_converts_to_weight_one_to_one() {
    assert_eq!(GasToWeight::convert(0), 0);
    assert_eq!(GasToWeight::convert(21_000), 21_000);
}

#[test]
fn weight_fees_are_flat_and_saturating() {
    let schedule = WeightToFee { fee_per_weight: 3 };
    assert_eq!(schedule.weight_to_fee(7), 21);
    assert_eq!(schedule.weight_to_fee(u64::MAX), u64::MAX);
}
