use vstd::prelude::*;
use vstd::arithmetic::div_mod::{
    lemma_div_denominator, lemma_div_is_ordered, lemma_div_pos_is_pos, lemma_fundamental_div_mod,
    lemma_fundamental_div_mod_converse, lemma_multiply_divide_le, lemma_multiply_divide_lt,
};
use vstd::arithmetic::mul::{
    lemma_mul_inequality, lemma_mul_nonnegative, lemma_mul_strict_inequality,
    lemma_mul_strictly_positive, lemma_mul_upper_bound,
};

use crate::Balance;

verus! {

/// Amount of target currency paid out by a pool holding `supply_pool` /
/// `target_pool` reserves for `supply_amount` of supply currency, after the
/// proportional fee `fee_numerator / fee_denominator` is withheld from the
/// input side. Degenerate inputs (an empty pool or a zero supply) quote zero.
pub open spec fn target_amount_spec(
    fee_numerator: int,
    fee_denominator: int,
    supply_pool: int,
    target_pool: int,
    supply_amount: int,
) -> int {
    if supply_amount == 0 || supply_pool == 0 || target_pool == 0 {
        0
    } else {
        let after_fee = supply_amount * (fee_denominator - fee_numerator);
        let den = supply_pool * fee_denominator + after_fee;
        if den == 0 {
            0
        } else {
            (after_fee * target_pool) / den
        }
    }
}

/// Amount of supply currency that must be paid in to draw exactly
/// `target_amount` out of the pool: the algebraic inverse of
/// `target_amount_spec`, with one unit added to the quotient so the rounding
/// never favors the trader. Zero when the request is degenerate, drains the
/// pool, or does not fit in a `Balance`.
pub open spec fn supply_amount_spec(
    fee_numerator: int,
    fee_denominator: int,
    supply_pool: int,
    target_pool: int,
    target_amount: int,
) -> int {
    if target_amount == 0 || supply_pool == 0 || target_pool == 0 {
        0
    } else {
        let num = supply_pool * target_amount * fee_denominator;
        let den = (target_pool - target_amount) * (fee_denominator - fee_numerator);
        if den <= 0 {
            0
        } else if num / den + 1 > u64::MAX {
            0
        } else {
            num / den + 1
        }
    }
}

/// How much target currency a swap of exactly `supply_amount` yields.
pub fn get_target_amount(
    fee_numerator: u32,
    fee_denominator: u32,
    supply_pool: Balance,
    target_pool: Balance,
    supply_amount: Balance,
) -> (target: Balance)
    requires
        0 < fee_denominator,
        fee_numerator <= fee_denominator,
    ensures
        target == target_amount_spec(
            fee_numerator as int,
            fee_denominator as int,
            supply_pool as int,
            target_pool as int,
            supply_amount as int,
        ),
        target <= target_pool,
        target_pool > 0 ==> target < target_pool,
{
    if supply_amount == 0 || supply_pool == 0 || target_pool == 0 {
        return 0;
    }
    let fee_factor: u32 = fee_denominator - fee_numerator;
    proof {
        lemma_mul_upper_bound(supply_amount as int, 0xffff_ffff_ffff_ffff, fee_factor as int, 0xffff_ffff);
        lemma_mul_upper_bound(supply_pool as int, 0xffff_ffff_ffff_ffff, fee_denominator as int, 0xffff_ffff);
        lemma_mul_strictly_positive(supply_pool as int, fee_denominator as int);
    }
    let after_fee: u128 = (supply_amount as u128) * (fee_factor as u128);
    let den: u128 = (supply_pool as u128) * (fee_denominator as u128) + after_fee;
    match mul_div_u128(after_fee, target_pool, den) {
        Some(q) => {
            proof {
                lemma_mul_strict_inequality(after_fee as int, den as int, target_pool as int);
                lemma_multiply_divide_lt(after_fee * target_pool, den as int, target_pool as int);
            }
            q
        },
        None => {
            proof {
                lemma_mul_strict_inequality(after_fee as int, den as int, target_pool as int);
                lemma_multiply_divide_lt(after_fee * target_pool, den as int, target_pool as int);
            }
            0
        },
    }
}

/// How much supply currency a swap must consume to yield exactly
/// `target_amount`.
pub fn get_supply_amount(
    fee_numerator: u32,
    fee_denominator: u32,
    supply_pool: Balance,
    target_pool: Balance,
    target_amount: Balance,
) -> (supply: Balance)
    requires
        0 < fee_denominator,
        fee_numerator <= fee_denominator,
    ensures
        supply == supply_amount_spec(
            fee_numerator as int,
            fee_denominator as int,
            supply_pool as int,
            target_pool as int,
            target_amount as int,
        ),
{
    if target_amount == 0 || supply_pool == 0 || target_pool == 0 {
        return 0;
    }
    if target_amount >= target_pool || fee_numerator == fee_denominator {
        proof {
            assert((target_pool - target_amount) * (fee_denominator - fee_numerator) <= 0)
                by (nonlinear_arith)
                requires
                    target_pool - target_amount <= 0 || fee_denominator - fee_numerator == 0,
                    fee_denominator - fee_numerator >= 0,
            ;
        }
        return 0;
    }
    proof {
        lemma_mul_upper_bound(supply_pool as int, 0xffff_ffff_ffff_ffff, fee_denominator as int, 0xffff_ffff);
        lemma_mul_upper_bound(
            (target_pool - target_amount) as int,
            0xffff_ffff_ffff_ffff,
            (fee_denominator - fee_numerator) as int,
            0xffff_ffff,
        );
        lemma_mul_strictly_positive((target_pool - target_amount) as int, (fee_denominator - fee_numerator) as int);
    }
    let num_a: u128 = (supply_pool as u128) * (fee_denominator as u128);
    let den: u128 = ((target_pool - target_amount) as u128) * ((fee_denominator - fee_numerator) as u128);
    proof {
        assert(num_a * target_amount == supply_pool as int * target_amount as int * fee_denominator as int)
            by (nonlinear_arith)
            requires
                num_a == supply_pool as int * fee_denominator as int,
        ;
    }
    match mul_div_u128(num_a, target_amount, den) {
        Some(q) => {
            if q == u64::MAX {
                0
            } else {
                q + 1
            }
        },
        None => 0,
    }
}

/// The constant-product law: for every fee rate at most one and any reserves,
/// the reserve product after applying a quoted swap is at least the product
/// before it; the fee and the rounding both favor the pool.
pub proof fn lemma_swap_keeps_constant_product(
    fee_numerator: int,
    fee_denominator: int,
    supply_pool: int,
    target_pool: int,
    supply_amount: int,
)
    requires
        0 <= fee_numerator <= fee_denominator,
        0 < fee_denominator,
        0 <= supply_pool,
        0 <= target_pool,
        0 <= supply_amount,
    ensures
        ({
            let target = target_amount_spec(
                fee_numerator,
                fee_denominator,
                supply_pool,
                target_pool,
                supply_amount,
            );
            0 <= target <= target_pool && (supply_pool + supply_amount) * (target_pool - target)
                >= supply_pool * target_pool
        }),
{
    let target = target_amount_spec(fee_numerator, fee_denominator, supply_pool, target_pool, supply_amount);
    if supply_amount == 0 || supply_pool == 0 || target_pool == 0 {
        assert(target == 0);
        lemma_mul_inequality(supply_pool, supply_pool + supply_amount, target_pool);
    } else {
        let after_fee = supply_amount * (fee_denominator - fee_numerator);
        let den = supply_pool * fee_denominator + after_fee;
        lemma_mul_strictly_positive(supply_pool, fee_denominator);
        lemma_mul_nonnegative(supply_amount, fee_denominator - fee_numerator);
        assert(den > 0);
        lemma_mul_nonnegative(after_fee, target_pool);
        lemma_div_pos_is_pos(after_fee * target_pool, den);
        lemma_mul_inequality(after_fee, den, target_pool);
        lemma_multiply_divide_le(after_fee * target_pool, den, target_pool);
        assert(target == (after_fee * target_pool) / den);
        lemma_fundamental_div_mod(after_fee * target_pool, den);
        let r = (after_fee * target_pool) % den;
        assert((supply_pool + supply_amount) * (target_pool - target) >= supply_pool * target_pool)
            by (nonlinear_arith)
            requires
                0 <= fee_numerator <= fee_denominator,
                0 < supply_pool,
                0 < target_pool,
                0 < supply_amount,
                after_fee == supply_amount * (fee_denominator - fee_numerator),
                den == supply_pool * fee_denominator + after_fee,
                0 < den,
                after_fee * target_pool == den * target + r,
                0 <= r < den,
                0 <= target <= target_pool,
        ;
    }
}

/// The reverse quote also protects the pool: whenever it quotes a non-zero
/// supply for a requested target, paying that supply in and drawing the
/// target out strictly grows the reserve product; the one-unit rounding
/// reserve covers every loss to truncation.
pub proof fn lemma_supply_amount_covers_product(
    fee_numerator: int,
    fee_denominator: int,
    supply_pool: int,
    target_pool: int,
    target_amount: int,
)
    requires
        0 <= fee_numerator <= fee_denominator,
        0 < fee_denominator,
        0 < supply_pool,
        0 < target_pool,
        0 < target_amount,
        supply_amount_spec(fee_numerator, fee_denominator, supply_pool, target_pool, target_amount) != 0,
    ensures
        ({
            let supply = supply_amount_spec(
                fee_numerator,
                fee_denominator,
                supply_pool,
                target_pool,
                target_amount,
            );
            (supply_pool + supply) * (target_pool - target_amount) > supply_pool * target_pool
        }),
{
    let fee_factor = fee_denominator - fee_numerator;
    let num = supply_pool * target_amount * fee_denominator;
    let den = (target_pool - target_amount) * fee_factor;
    let supply = supply_amount_spec(fee_numerator, fee_denominator, supply_pool, target_pool, target_amount);
    assert(den > 0);
    assert(fee_factor > 0 && target_amount < target_pool) by (nonlinear_arith)
        requires
            den == (target_pool - target_amount) * fee_factor,
            0 < den,
            0 <= fee_factor,
    ;
    assert(supply == num / den + 1);
    lemma_fundamental_div_mod(num, den);
    let r = num % den;
    assert(supply * den > num) by (nonlinear_arith)
        requires
            0 < den,
            num == den * (num / den) + r,
            0 <= r < den,
            supply == num / den + 1,
    ;
    assert((supply_pool + supply) * (target_pool - target_amount) > supply_pool * target_pool)
        by (nonlinear_arith)
        requires
            0 < fee_factor <= fee_denominator,
            0 < supply_pool,
            0 < target_amount < target_pool,
            num == supply_pool * target_amount * fee_denominator,
            den == (target_pool - target_amount) * fee_factor,
            0 < den,
            supply * den > num,
    ;
}

/// The round-trip law: quoting the supply needed for the exact target that a
/// forward quote produced asks for at most the original supply, whenever the
/// forward quote's division is inexact. (When it divides exactly, the reverse
/// quote's one-unit rounding reserve overshoots by one: reserves (2, 2) with
/// supply 2 and no fee quote target 1, whose reverse quote is 3.)
pub proof fn lemma_supply_round_trip(
    fee_numerator: int,
    fee_denominator: int,
    supply_pool: int,
    target_pool: int,
    supply_amount: int,
)
    requires
        0 <= fee_numerator < fee_denominator,
        0 < supply_pool,
        0 < target_pool,
        0 < supply_amount,
        (supply_amount * (fee_denominator - fee_numerator) * target_pool) % (supply_pool * fee_denominator
            + supply_amount * (fee_denominator - fee_numerator)) != 0,
    ensures
        supply_amount_spec(
            fee_numerator,
            fee_denominator,
            supply_pool,
            target_pool,
            target_amount_spec(fee_numerator, fee_denominator, supply_pool, target_pool, supply_amount),
        ) <= supply_amount,
{
    let fee_factor = fee_denominator - fee_numerator;
    let after_fee = supply_amount * fee_factor;
    let den = supply_pool * fee_denominator + after_fee;
    lemma_mul_strictly_positive(supply_pool, fee_denominator);
    lemma_mul_strictly_positive(supply_amount, fee_factor);
    assert(den > 0);
    assert(after_fee * target_pool == supply_amount * fee_factor * target_pool);
    let target = target_amount_spec(fee_numerator, fee_denominator, supply_pool, target_pool, supply_amount);
    lemma_mul_nonnegative(after_fee, target_pool);
    lemma_div_pos_is_pos(after_fee * target_pool, den);
    assert(target == (after_fee * target_pool) / den);
    if target == 0 {
        assert(supply_amount_spec(fee_numerator, fee_denominator, supply_pool, target_pool, 0) == 0);
    } else {
        lemma_mul_strict_inequality(after_fee, den, target_pool);
        lemma_multiply_divide_lt(after_fee * target_pool, den, target_pool);
        assert(target < target_pool);
        lemma_fundamental_div_mod(after_fee * target_pool, den);
        let r = (after_fee * target_pool) % den;
        assert(r != 0);
        let num2 = supply_pool * target * fee_denominator;
        let den2 = (target_pool - target) * fee_factor;
        lemma_mul_strictly_positive(target_pool - target, fee_factor);
        assert(den2 > 0);
        assert(num2 < den2 * supply_amount) by (nonlinear_arith)
            requires
                0 < fee_factor,
                0 < supply_pool,
                0 < target_pool,
                0 < supply_amount,
                after_fee == supply_amount * fee_factor,
                den == supply_pool * fee_denominator + after_fee,
                after_fee * target_pool == den * target + r,
                0 < r < den,
                0 < target < target_pool,
                num2 == supply_pool * target * fee_denominator,
                den2 == (target_pool - target) * fee_factor,
        ;
        lemma_multiply_divide_lt(num2, den2, supply_amount);
        assert(num2 / den2 + 1 <= supply_amount);
    }
}

/// Upper bound (2^100) on the wide factors fed to `mul_div_u128`; every product
/// built out of a balance (64 bits) and a fee part (32 bits) stays below it.
pub const WIDE_BOUND: u128 = 0x10000000000000000000000000;

/// Computes `floor((a * b) / c)` even though `a * b` may exceed 128 bits, by
/// long division over the base-2^16 digits of `b`. Returns `None` when the
/// quotient does not fit in a `Balance`.
fn mul_div_u128(a: u128, b: u64, c: u128) -> (r: Option<Balance>)
    requires
        0 < c < WIDE_BOUND,
        a < WIDE_BOUND,
    ensures
        match r {
            Some(q) => q == (a * b) / (c as int),
            None => (a * b) / (c as int) > u64::MAX,
        },
{
    let d0: u128 = (b / 0x1000000000000) as u128;
    let d1: u128 = ((b / 0x100000000) % 0x10000) as u128;
    let d2: u128 = ((b / 0x10000) % 0x10000) as u128;
    let d3: u128 = (b % 0x10000) as u128;
    let ghost p1: int = b as int / 0x1000000000000;
    let ghost p2: int = b as int / 0x100000000;
    let ghost p3: int = b as int / 0x10000;
    proof {
        lemma_div_denominator(b as int, 0x10000, 0x10000);
        lemma_div_denominator(b as int, 0x100000000, 0x10000);
        lemma_fundamental_div_mod(b as int, 0x10000);
        lemma_fundamental_div_mod(b as int / 0x10000, 0x10000);
        lemma_fundamental_div_mod(b as int / 0x100000000, 0x10000);
        assert(p1 == 0 * 0x10000 + d0);
        assert(p2 == p1 * 0x10000 + d1);
        assert(p3 == p2 * 0x10000 + d2);
        assert(b == p3 * 0x10000 + d3);
    }
    let mut quot: u128 = 0;
    let mut rem: u128 = 0;

    match mul_div_digit(a, c, quot, rem, d0, Ghost(0)) {
        Some((q2, r2)) => {
            quot = q2;
            rem = r2;
        }
        None => {
            proof {
                quotient_exceeds_all(a, b as int, c as int, p1);
            }
            return None;
        }
    }
    match mul_div_digit(a, c, quot, rem, d1, Ghost(p1)) {
        Some((q2, r2)) => {
            quot = q2;
            rem = r2;
        }
        None => {
            proof {
                quotient_exceeds_all(a, b as int, c as int, p2);
            }
            return None;
        }
    }
    match mul_div_digit(a, c, quot, rem, d2, Ghost(p2)) {
        Some((q2, r2)) => {
            quot = q2;
            rem = r2;
        }
        None => {
            proof {
                quotient_exceeds_all(a, b as int, c as int, p3);
            }
            return None;
        }
    }
    match mul_div_digit(a, c, quot, rem, d3, Ghost(p3)) {
        Some((q2, r2)) => {
            quot = q2;
            rem = r2;
        }
        None => {
            return None;
        }
    }
    if quot > u64::MAX as u128 {
        None
    } else {
        Some(quot as u64)
    }
}

/// The quotient grows with the dividend prefix: once a prefix already pushes it
/// past 2^128 the full quotient cannot fit in a `Balance`.
proof fn quotient_exceeds_all(a: u128, b: int, c: int, prefix: int)
    requires
        0 < c,
        0 <= prefix <= b,
        (a * prefix) / c >= 0x100000000000000000000000000000000,
    ensures
        (a * b) / c > u64::MAX,
{
    lemma_mul_inequality(prefix, b, a as int);
    lemma_div_is_ordered(prefix * a, b * a, c);
    assert(prefix * a == a * prefix) by (nonlinear_arith);
    assert(b * a == a * b) by (nonlinear_arith);
}

/// One base-2^16 long-division step: folds the next digit of the dividend into
/// the running quotient and remainder. `None` when the quotient leaves u128.
fn mul_div_digit(a: u128, c: u128, quot: u128, rem: u128, digit: u128, Ghost(prefix): Ghost<int>) -> (r: Option<
    (u128, u128),
>)
    requires
        0 < c < WIDE_BOUND,
        a < WIDE_BOUND,
        digit < 0x10000,
        rem < c,
        0 <= prefix,
        quot * c + rem == a * prefix,
    ensures
        ({
            let ext = prefix * 0x10000 + digit;
            match r {
                Some(p) => p.0 * c + p.1 == a * ext && p.1 < c && p.0 == (a * ext) / (c as int),
                None => (a * ext) / (c as int) >= 0x100000000000000000000000000000000,
            }
        }),
{
    proof {
        lemma_mul_upper_bound(a as int, WIDE_BOUND - 1, digit as int, 0xffff);
    }
    let s: u128 = rem * 0x10000 + a * digit;
    let t: u128 = s / c;
    let r2: u128 = s % c;
    let ghost ext: int = prefix * 0x10000 + digit;
    proof {
        lemma_fundamental_div_mod(s as int, c as int);
    }
    match quot.checked_mul(0x10000) {
        Some(q16) => match q16.checked_add(t) {
            Some(q2) => {
                proof {
                    assert(q2 * c + r2 == a * ext) by (nonlinear_arith)
                        requires
                            quot * c + rem == a * prefix,
                            s == rem * 0x10000 + a * digit,
                            s == c * (s as int / c as int) + s as int % c as int,
                            t == s as int / c as int,
                            r2 == s as int % c as int,
                            q2 == quot * 0x10000 + t,
                            ext == prefix * 0x10000 + digit,
                    ;
                    lemma_fundamental_div_mod_converse(a * ext, c as int, q2 as int, r2 as int);
                }
                Some((q2, r2))
            },
            None => {
                proof {
                    mul_div_digit_overflow(a, c as int, quot as int, rem as int, digit as int, prefix, s as int, t as int, r2 as int);
                }
                None
            },
        },
        None => {
            proof {
                mul_div_digit_overflow(a, c as int, quot as int, rem as int, digit as int, prefix, s as int, t as int, r2 as int);
            }
            None
        },
    }
}

/// When the running quotient leaves u128, the mathematical quotient of the
/// extended prefix is at least 2^128.
proof fn mul_div_digit_overflow(a: u128, c: int, quot: int, rem: int, digit: int, prefix: int, s: int, t: int, r2: int)
    requires
        0 < c,
        0 <= rem < c,
        0 <= digit,
        0 <= prefix,
        0 <= quot,
        quot * c + rem == a * prefix,
        s == rem * 0x10000 + a * digit,
        t == s / c,
        r2 == s % c,
        quot * 0x10000 + t > u128::MAX,
    ensures
        (a * (prefix * 0x10000 + digit)) / c >= 0x100000000000000000000000000000000,
{
    let ext = prefix * 0x10000 + digit;
    let qm = quot * 0x10000 + t;
    lemma_fundamental_div_mod(s, c);
    assert(qm * c + r2 == a * ext) by (nonlinear_arith)
        requires
            quot * c + rem == a * prefix,
            s == rem * 0x10000 + a * digit,
            s == c * (s / c) + s % c,
            t == s / c,
            r2 == s % c,
            qm == quot * 0x10000 + t,
            ext == prefix * 0x10000 + digit,
    ;
    lemma_fundamental_div_mod_converse(a * ext, c, qm, r2);
}

} // verus!
