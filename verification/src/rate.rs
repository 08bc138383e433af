use vstd::prelude::*;
use vstd::arithmetic::div_mod::{
    lemma_div_is_ordered, lemma_div_multiples_vanish, lemma_multiply_divide_le,
};
use vstd::arithmetic::mul::lemma_mul_inequality;

use crate::Balance;

verus! {

/// Scale of the fixed-point rate type: rates carry 18 decimal places.
pub const RATE_SCALE: u128 = 1_000_000_000_000_000_000;

/// An unsigned fixed-point number with 18 decimal places, used for share
/// exchange rates, price-impact ratios and lot proportions.
#[derive(Clone, Copy, PartialEq, Eq, Structural, Debug)]
pub struct FixedRate {
    /// The represented number, multiplied by `RATE_SCALE`.
    pub inner: u128,
}

/// A share exchange rate, fixed when provisioning converts to trading.
pub type ExchangeRate = FixedRate;

/// A dimensionless proportion, such as a price-impact bound.
pub type Ratio = FixedRate;

/// The fixed-point encoding of the rational `n / d`, rounded down.
pub open spec fn rational_to_fixed(n: int, d: int) -> int {
    (n * RATE_SCALE) / d
}

/// `rate` applied to the integer `b`, rounded down.
pub open spec fn fixed_mul_floor(rate: FixedRate, b: int) -> int {
    (rate.inner * b) / (RATE_SCALE as int)
}

impl FixedRate {
    /// The rate representing one.
    pub fn one() -> (r: FixedRate)
        ensures
            r.inner == RATE_SCALE,
    {
        FixedRate { inner: RATE_SCALE }
    }

    /// The rate representing zero.
    pub fn zero() -> (r: FixedRate)
        ensures
            r.inner == 0,
    {
        FixedRate { inner: 0 }
    }

    /// The rate closest to `n / d` from below; `None` when `d` is zero.
    pub fn checked_from_rational(n: Balance, d: Balance) -> (r: Option<FixedRate>)
        ensures
            r is None <==> d == 0,
            r matches Some(rate) ==> rate.inner == rational_to_fixed(n as int, d as int),
    {
        if d == 0 {
            None
        } else {
            Some(FixedRate { inner: (n as u128) * RATE_SCALE / (d as u128) })
        }
    }

    /// The rate closest to `n / d` from below, or zero when `d` is zero.
    pub fn from_rational_or_zero(n: Balance, d: Balance) -> (r: FixedRate)
        ensures
            r == rate_or_zero(n, d),
    {
        match Self::checked_from_rational(n, d) {
            Some(rate) => rate,
            None => Self::zero(),
        }
    }

    /// Applies the rate to a balance, rounding down and saturating at the
    /// largest balance.
    pub fn saturating_mul_int(self, b: Balance) -> (r: Balance)
        ensures
            r == if fixed_mul_floor(self, b as int) > u64::MAX {
                u64::MAX as int
            } else {
                fixed_mul_floor(self, b as int)
            },
    {
        match self.inner.checked_mul(b as u128) {
            Some(p) => {
                let q: u128 = p / RATE_SCALE;
                if q > u64::MAX as u128 {
                    u64::MAX
                } else {
                    q as u64
                }
            },
            None => {
                proof {
                    lemma_div_is_ordered(
                        0x100000000000000000000000000000000int,
                        self.inner * b,
                        RATE_SCALE as int,
                    );
                    assert(0x100000000000000000000000000000000int / (RATE_SCALE as int) > u64::MAX);
                }
                u64::MAX
            },
        }
    }

    /// Applies the rate to a balance, rounding down; `None` instead of
    /// clamping when the product leaves the balance range.
    pub fn checked_mul_int(self, b: Balance) -> (r: Option<Balance>)
        ensures
            r matches Some(v) ==> v == fixed_mul_floor(self, b as int) && fixed_mul_floor(self, b as int)
                <= u64::MAX,
            r is None <==> fixed_mul_floor(self, b as int) > u64::MAX,
    {
        match self.inner.checked_mul(b as u128) {
            Some(p) => {
                let q: u128 = p / RATE_SCALE;
                if q > u64::MAX as u128 {
                    None
                } else {
                    Some(q as u64)
                }
            },
            None => {
                proof {
                    lemma_div_is_ordered(
                        0x100000000000000000000000000000000int,
                        self.inner * b,
                        RATE_SCALE as int,
                    );
                    assert(0x100000000000000000000000000000000int / (RATE_SCALE as int) > u64::MAX);
                }
                None
            },
        }
    }

    /// Whether this rate is at most `other`.
    pub fn le(self, other: FixedRate) -> (r: bool)
        ensures
            r == (self.inner <= other.inner),
    {
        self.inner <= other.inner
    }
}

/// The fixed-point rate closest to `n / d` from below, or zero when `d` is
/// zero, as `from_rational_or_zero` computes it.
pub open spec fn rate_or_zero(n: Balance, d: Balance) -> FixedRate {
    if d == 0 {
        FixedRate { inner: 0 }
    } else {
        FixedRate { inner: rational_to_fixed(n as int, d as int) as u128 }
    }
}

/// A proportion of at most one applied to a balance never exceeds it.
pub proof fn lemma_fixed_proportion_le(n: Balance, d: Balance, p: Balance)
    requires
        n <= d,
    ensures
        0 <= fixed_mul_floor(rate_or_zero(n, d), p as int) <= p,
{
    let rate = rate_or_zero(n, d);
    if d == 0 {
        assert(rate.inner * p == 0);
        assert(0int / (RATE_SCALE as int) == 0);
    } else {
        lemma_mul_inequality(n as int, d as int, RATE_SCALE as int);
        lemma_multiply_divide_le(n * RATE_SCALE, d as int, RATE_SCALE as int);
        assert(rate.inner <= RATE_SCALE);
        lemma_mul_inequality(rate.inner as int, RATE_SCALE as int, p as int);
        lemma_div_is_ordered(rate.inner * p, RATE_SCALE * p, RATE_SCALE as int);
        lemma_div_multiples_vanish(p as int, RATE_SCALE as int);
        vstd::arithmetic::mul::lemma_mul_nonnegative(rate.inner as int, p as int);
        vstd::arithmetic::div_mod::lemma_div_pos_is_pos(rate.inner * p, RATE_SCALE as int);
    }
}

/// Saturating subtraction on balances.
pub fn sat_sub(a: Balance, b: Balance) -> (r: Balance)
    ensures
        r == if a - b < 0 {
            0int
        } else {
            a - b
        },
{
    if a >= b {
        a - b
    } else {
        0
    }
}

/// Saturating addition on balances.
pub fn sat_add(a: Balance, b: Balance) -> (r: Balance)
    ensures
        r == if a + b > u64::MAX {
            u64::MAX as int
        } else {
            a + b
        },
{
    match a.checked_add(b) {
        Some(s) => s,
        None => u64::MAX,
    }
}

} // verus!
