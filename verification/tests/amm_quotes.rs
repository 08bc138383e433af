use dex_treasury::amm::{get_supply_amount, get_target_amount};

#[test]
fn target_amount_no_fee_example() {
    // reserves (1000, 1000), no fee, supply 100: floor(100 * 1000 / 1100)
    assert_eq!(get_target_amount(0, 100, 1000, 1000, 100), 90);
}

#[test]
fn target_amount_with_fee() {
    assert_eq!(get_target_amount(1, 100, 1_000_000, 1_000_000, 10_000), 9802);
}

#[test]
fn target_amount_degenerate_inputs_quote_zero() {
    assert_eq!(get_target_amount(0, 100, 0, 1000, 100), 0);
    assert_eq!(get_target_amount(0, 100, 1000, 0, 100), 0);
    assert_eq!(get_target_amount(0, 100, 1000, 1000, 0), 0);
}

#[test]
fn supply_amount_inverts_target_amount() {
    let target = get_target_amount(1, 100, 1_000_000, 1_000_000, 10_000);
    let supply = get_supply_amount(1, 100, 1_000_000, 1_000_000, target);
    assert_eq!(supply, 10_000);
    assert!(supply <= 10_000);
}

#[test]
fn supply_amount_rounds_against_the_trader() {
    // drawing 90 out of (1000, 1000) with no fee costs floor(90000 / 910) + 1
    assert_eq!(get_supply_amount(0, 100, 1000, 1000, 90), 99);
}

#[test]
fn supply_amount_degenerate_inputs_quote_zero() {
    assert_eq!(get_supply_amount(0, 100, 0, 1000, 90), 0);
    assert_eq!(get_supply_amount(0, 100, 1000, 0, 90), 0);
    assert_eq!(get_supply_amount(0, 100, 1000, 1000, 0), 0);
    // a request that drains (or exceeds) the pool cannot be served
    assert_eq!(get_supply_amount(0, 100, 1000, 1000, 1000), 0);
    assert_eq!(get_supply_amount(0, 100, 1000, 1000, 2000), 0);
}

#[test]
fn supply_amount_too_large_for_a_balance_quotes_zero() {
    // the inverse quote would be u64::MAX + 1
    assert_eq!(get_supply_amount(0, 1, u64::MAX, 2, 1), 0);
}

#[test]
fn constant_product_never_decreases_across_quotes() {
    let cases: &[(u32, u32, u64, u64, u64)] = &[
        (0, 100, 1000, 1000, 100),
        (1, 100, 1_000_000, 1_000_000, 10_000),
        (3, 1000, 7, 9, 5),
        (0, 1, 2, 2, 2),
        (25, 100, 123_456, 654_321, 98_765),
    ];
    for &(fee_n, fee_d, sp, tp, s) in cases {
        let out = get_target_amount(fee_n, fee_d, sp, tp, s);
        let before = sp as u128 * tp as u128;
        let after = (sp as u128 + s as u128) * (tp - out) as u128;
        assert!(after >= before);
    }
}
