use std::collections::HashMap;

use vstd::prelude::*;

use crate::amm;
use crate::rate::{sat_add, sat_sub, ExchangeRate, FixedRate, Ratio, RATE_SCALE};
use crate::types::{
    CurrencyId, DexError, LedgerOp, ProvisioningParameters, TradingPair, TradingPairStatus,
};
use crate::{AccountId, Balance, RoundNumber};

verus! {

broadcast use vstd::std_specs::hash::group_hash_axioms;

/// The custodial account that holds every asset owned by the exchange.
pub const DEX_ACCOUNT: AccountId = 10_000_000_001;

/// Clamp of a non-negative integer into the balance range.
pub open spec fn sat64(x: int) -> Balance {
    if x > u64::MAX {
        u64::MAX as Balance
    } else {
        x as Balance
    }
}

/// Non-negative clamp of a difference, as saturating subtraction computes it.
pub open spec fn sat_sub64(a: int, b: int) -> Balance {
    if a - b < 0 {
        0 as Balance
    } else {
        (a - b) as Balance
    }
}

/// The pair of initial share exchange rates fixed when a pool first receives
/// liquidity holding `amount_0` / `amount_1`: the larger side is valued at
/// one, the other at the ratio that equalizes the two sides' implied value.
/// A zero side (possible only when quoting, never after provisioning) yields
/// rate zero for the opposite side.
pub open spec fn initial_rates_spec(amount_0: Balance, amount_1: Balance) -> (ExchangeRate, ExchangeRate) {
    if amount_0 > amount_1 {
        (FixedRate { inner: RATE_SCALE }, crate::rate::rate_or_zero(amount_0, amount_1))
    } else {
        (crate::rate::rate_or_zero(amount_1, amount_0), FixedRate { inner: RATE_SCALE })
    }
}

/// Shares owed for contributions `(c0, c1)` under rates `(r0, r1)`:
/// `r0 * c0 + r1 * c1`, each product rounded down, saturating.
pub open spec fn shares_for(r0: ExchangeRate, r1: ExchangeRate, c0: Balance, c1: Balance) -> Balance {
    sat64(
        sat64(crate::rate::fixed_mul_floor(r0, c0 as int)) + sat64(
            crate::rate::fixed_mul_floor(r1, c1 as int),
        ),
    )
}

/// The same amounts read from the other end.
pub open spec fn reversed_amounts(s: Seq<Balance>) -> Seq<Balance> {
    Seq::new(s.len(), |j: int| s[s.len() - 1 - j])
}

/// Share issuance for a proportion of the pool, zero when the product leaves
/// the balance range (mirroring a checked multiplication whose failure is
/// treated as no acceptable increment).
pub open spec fn checked_share(rate: FixedRate, total_shares: Balance) -> Balance {
    if crate::rate::fixed_mul_floor(rate, total_shares as int) > u64::MAX {
        0 as Balance
    } else {
        crate::rate::fixed_mul_floor(rate, total_shares as int) as Balance
    }
}

/// The pool increments and the share increment that a liquidity deposit of at
/// most `(max_0, max_1)` yields against reserves `(pool_0, pool_1)` with
/// `total_shares` outstanding. The first deposit sets the price and is valued
/// like a provisioning conversion; later deposits keep the pool's price by
/// scaling down the over-supplied side, and earn shares in proportion to the
/// pool growth.
pub open spec fn add_liquidity_amounts(
    pool_0: Balance,
    pool_1: Balance,
    total_shares: Balance,
    max_0: Balance,
    max_1: Balance,
) -> (Balance, Balance, Balance) {
    if total_shares == 0 {
        let rates = initial_rates_spec(max_0, max_1);
        (max_0, max_1, shares_for(rates.0, rates.1, max_0, max_1))
    } else {
        let exchange_rate_0_1 = crate::rate::rate_or_zero(pool_1, pool_0);
        let input_exchange_rate_0_1 = crate::rate::rate_or_zero(max_1, max_0);
        if input_exchange_rate_0_1.inner <= exchange_rate_0_1.inner {
            let exchange_rate_1_0 = crate::rate::rate_or_zero(pool_0, pool_1);
            let amount_0 = sat64(crate::rate::fixed_mul_floor(exchange_rate_1_0, max_1 as int));
            (amount_0, max_1, checked_share(crate::rate::rate_or_zero(amount_0, pool_0), total_shares))
        } else {
            let amount_1 = sat64(crate::rate::fixed_mul_floor(exchange_rate_0_1, max_0 as int));
            (max_0, amount_1, checked_share(crate::rate::rate_or_zero(amount_1, pool_1), total_shares))
        }
    }
}

/// Pool reserves after one hop that pays `supply_increment` of
/// `supply_currency` in and draws `target_decrement` of `target_currency`
/// out, saturating at the balance range's ends. A currency pair that cannot
/// form a trading pair leaves the reserves untouched.
pub open spec fn swap_hop_map(
    m: Map<u64, (Balance, Balance)>,
    supply_currency: CurrencyId,
    target_currency: CurrencyId,
    supply_increment: Balance,
    target_decrement: Balance,
) -> Map<u64, (Balance, Balance)> {
    if TradingPair::can_pair(supply_currency, target_currency) {
        let pair = TradingPair::pair_of(supply_currency, target_currency);
        let pool = if m.contains_key(pair.key_spec()) {
            m[pair.key_spec()]
        } else {
            (0 as Balance, 0 as Balance)
        };
        if supply_currency == pair.first_spec() {
            m.insert(
                pair.key_spec(),
                (sat64(pool.0 + supply_increment), sat_sub64(pool.1 as int, target_decrement as int)),
            )
        } else {
            m.insert(
                pair.key_spec(),
                (sat_sub64(pool.0 as int, target_decrement as int), sat64(pool.1 + supply_increment)),
            )
        }
    } else {
        m
    }
}

/// Pool reserves after applying every hop of a quoted path in order.
pub open spec fn path_swapped(
    m: Map<u64, (Balance, Balance)>,
    path: Seq<CurrencyId>,
    amounts: Seq<Balance>,
    i: int,
) -> Map<u64, (Balance, Balance)>
    decreases path.len() - i,
{
    if path.len() <= i + 1 || amounts.len() <= i + 1 {
        m
    } else {
        path_swapped(swap_hop_map(m, path[i], path[i + 1], amounts[i], amounts[i + 1]), path, amounts, i + 1)
    }
}

/// The amounts `(amount_a, amount_b)` reordered into the canonical order of
/// the pair formed by the two currencies.
pub open spec fn ordered_amounts(
    currency_id_a: CurrencyId,
    currency_id_b: CurrencyId,
    amount_a: Balance,
    amount_b: Balance,
) -> (Balance, Balance) {
    if currency_id_a == TradingPair::pair_of(currency_id_a, currency_id_b).first_spec() {
        (amount_a, amount_b)
    } else {
        (amount_b, amount_a)
    }
}

/// The exchange: per-pair lifecycle status, pool reserves, pool-share
/// issuance, provisioning contributions and frozen initial share rates,
/// together with the fee rate and the trading-path length limit.
///
/// Currency balances themselves live in the host's ledger; every operation
/// that moves value returns the `LedgerOp` instructions the host must apply
/// atomically with the call.
#[derive(Clone)]
pub struct Dex {
    fee_numerator: u32,
    fee_denominator: u32,
    trading_path_limit: usize,
    statuses: HashMap<u64, TradingPairStatus>,
    pools: HashMap<u64, (Balance, Balance)>,
    share_supplies: HashMap<u64, Balance>,
    provisions: HashMap<u128, (Balance, Balance)>,
    initial_rates: HashMap<u64, (ExchangeRate, ExchangeRate)>,
}

impl Dex {
    /// Numerator of the swap fee rate.
    pub closed spec fn fee_numerator_spec(self) -> u32 {
        self.fee_numerator
    }

    /// Denominator of the swap fee rate.
    pub closed spec fn fee_denominator_spec(self) -> u32 {
        self.fee_denominator
    }

    /// Largest accepted trading path length.
    pub closed spec fn path_limit_spec(self) -> usize {
        self.trading_path_limit
    }

    /// Status of every listed pair, keyed by `TradingPair::key_spec`.
    pub closed spec fn status_map(self) -> Map<u64, TradingPairStatus> {
        self.statuses@
    }

    /// Reserves of every pool, keyed by `TradingPair::key_spec`.
    pub closed spec fn pool_map(self) -> Map<u64, (Balance, Balance)> {
        self.pools@
    }

    /// Outstanding pool-share issuance, keyed by `TradingPair::key_spec`.
    pub closed spec fn share_map(self) -> Map<u64, Balance> {
        self.share_supplies@
    }

    /// Provisioning contributions, keyed by `provision_key_spec`.
    pub closed spec fn provision_map(self) -> Map<u128, (Balance, Balance)> {
        self.provisions@
    }

    /// Frozen initial share exchange rates, keyed by `TradingPair::key_spec`.
    pub closed spec fn rate_map(self) -> Map<u64, (ExchangeRate, ExchangeRate)> {
        self.initial_rates@
    }

    /// Key of a contributor's entry in the provisioning pool.
    pub open spec fn provision_key_spec(pair: TradingPair, who: AccountId) -> u128 {
        ((pair.key_spec() as int) * 0x10000000000000000 + (who as int)) as u128
    }

    /// The configuration is well formed: the fee is a proportion of at most
    /// one and at least direct paths are allowed.
    pub open spec fn wf(self) -> bool {
        &&& 0 < self.fee_denominator_spec()
        &&& self.fee_numerator_spec() <= self.fee_denominator_spec()
        &&& 2 <= self.path_limit_spec()
    }

    /// Status of a pair; a pair never listed is disabled.
    pub open spec fn status_of(self, pair: TradingPair) -> TradingPairStatus {
        if self.status_map().contains_key(pair.key_spec()) {
            self.status_map()[pair.key_spec()]
        } else {
            TradingPairStatus::Disabled
        }
    }

    /// Reserves of a pair's pool, in canonical order; empty when absent.
    pub open spec fn pool_of(self, pair: TradingPair) -> (Balance, Balance) {
        if self.pool_map().contains_key(pair.key_spec()) {
            self.pool_map()[pair.key_spec()]
        } else {
            (0 as Balance, 0 as Balance)
        }
    }

    /// Outstanding pool-share issuance of a pair; zero when absent.
    pub open spec fn share_supply_of(self, pair: TradingPair) -> Balance {
        if self.share_map().contains_key(pair.key_spec()) {
            self.share_map()[pair.key_spec()]
        } else {
            0 as Balance
        }
    }

    /// A contributor's accumulated provision for a pair; zero when absent.
    pub open spec fn provision_of(self, pair: TradingPair, who: AccountId) -> (Balance, Balance) {
        if self.provision_map().contains_key(Self::provision_key_spec(pair, who)) {
            self.provision_map()[Self::provision_key_spec(pair, who)]
        } else {
            (0 as Balance, 0 as Balance)
        }
    }

    /// Whether a contributor has an open provisioning entry for a pair.
    pub open spec fn has_provision(self, pair: TradingPair, who: AccountId) -> bool {
        self.provision_map().contains_key(Self::provision_key_spec(pair, who))
    }

    /// Frozen initial share exchange rates of a pair; zero rates when absent.
    pub open spec fn initial_rate_of(self, pair: TradingPair) -> (ExchangeRate, ExchangeRate) {
        if self.rate_map().contains_key(pair.key_spec()) {
            self.rate_map()[pair.key_spec()]
        } else {
            (FixedRate { inner: 0 }, FixedRate { inner: 0 })
        }
    }

    /// The fee rate and path limit of `a` and `b` agree: no operation ever
    /// changes them.
    pub open spec fn same_config(a: Dex, b: Dex) -> bool {
        &&& a.fee_numerator_spec() == b.fee_numerator_spec()
        &&& a.fee_denominator_spec() == b.fee_denominator_spec()
        &&& a.path_limit_spec() == b.path_limit_spec()
    }

    /// A fresh exchange with the given fee rate and path limit and no listed
    /// pairs.
    pub fn new(fee_numerator: u32, fee_denominator: u32, trading_path_limit: usize) -> (r: Dex)
        requires
            0 < fee_denominator,
            fee_numerator <= fee_denominator,
            2 <= trading_path_limit,
        ensures
            r.wf(),
            r.fee_numerator_spec() == fee_numerator,
            r.fee_denominator_spec() == fee_denominator,
            r.path_limit_spec() == trading_path_limit,
            r.status_map() == Map::<u64, TradingPairStatus>::empty(),
            r.pool_map() == Map::<u64, (Balance, Balance)>::empty(),
            r.share_map() == Map::<u64, Balance>::empty(),
            r.provision_map() == Map::<u128, (Balance, Balance)>::empty(),
            r.rate_map() == Map::<u64, (ExchangeRate, ExchangeRate)>::empty(),
    {
        Dex {
            fee_numerator,
            fee_denominator,
            trading_path_limit,
            statuses: HashMap::new(),
            pools: HashMap::new(),
            share_supplies: HashMap::new(),
            provisions: HashMap::new(),
            initial_rates: HashMap::new(),
        }
    }

    /// The custodial account holding the exchange's assets.
    pub fn account_id(&self) -> (r: AccountId)
        ensures
            r == DEX_ACCOUNT,
    {
        DEX_ACCOUNT
    }

    /// Status of a pair (disabled when never listed).
    pub fn trading_pair_statuses(&self, pair: &TradingPair) -> (s: TradingPairStatus)
        ensures
            s == self.status_of(*pair),
    {
        let k: u64 = pair.key();
        match self.statuses.get(&k) {
            Some(s) => *s,
            None => TradingPairStatus::Disabled,
        }
    }

    /// Reserves of a pair's pool, in the pair's canonical order.
    pub fn liquidity_pool(&self, pair: &TradingPair) -> (p: (Balance, Balance))
        ensures
            p == self.pool_of(*pair),
    {
        let k: u64 = pair.key();
        match self.pools.get(&k) {
            Some(p) => *p,
            None => (0, 0),
        }
    }

    /// Outstanding pool-share issuance of a pair.
    pub fn share_supply(&self, pair: &TradingPair) -> (s: Balance)
        ensures
            s == self.share_supply_of(*pair),
    {
        let k: u64 = pair.key();
        match self.share_supplies.get(&k) {
            Some(s) => *s,
            None => 0,
        }
    }

    /// A contributor's accumulated provision for a pair.
    pub fn provisioning_pool(&self, pair: &TradingPair, who: AccountId) -> (p: (Balance, Balance))
        ensures
            p == self.provision_of(*pair, who),
    {
        let k: u128 = Self::provision_key(pair, who);
        match self.provisions.get(&k) {
            Some(p) => *p,
            None => (0, 0),
        }
    }

    /// The frozen initial share exchange rates of a pair.
    pub fn initial_share_exchange_rates(&self, pair: &TradingPair) -> (p: (ExchangeRate, ExchangeRate))
        ensures
            p == self.initial_rate_of(*pair),
    {
        let k: u64 = pair.key();
        match self.initial_rates.get(&k) {
            Some(p) => *p,
            None => (FixedRate { inner: 0 }, FixedRate { inner: 0 }),
        }
    }

    fn provision_key(pair: &TradingPair, who: AccountId) -> (k: u128)
        ensures
            k == Self::provision_key_spec(*pair, who),
    {
        (pair.key() as u128) * 0x10000000000000000 + (who as u128)
    }

    fn write_status(&mut self, pair: &TradingPair, status: TradingPairStatus)
        ensures
            final(self).status_map() == old(self).status_map().insert(pair.key_spec(), status),
            final(self).pool_map() == old(self).pool_map(),
            final(self).share_map() == old(self).share_map(),
            final(self).provision_map() == old(self).provision_map(),
            final(self).rate_map() == old(self).rate_map(),
            Dex::same_config(*final(self), *old(self)),
    {
        let k: u64 = pair.key();
        self.statuses.insert(k, status);
    }

    fn write_pool(&mut self, pair: &TradingPair, pool: (Balance, Balance))
        ensures
            final(self).pool_map() == old(self).pool_map().insert(pair.key_spec(), pool),
            final(self).status_map() == old(self).status_map(),
            final(self).share_map() == old(self).share_map(),
            final(self).provision_map() == old(self).provision_map(),
            final(self).rate_map() == old(self).rate_map(),
            Dex::same_config(*final(self), *old(self)),
    {
        let k: u64 = pair.key();
        self.pools.insert(k, pool);
    }

    fn write_share_supply(&mut self, pair: &TradingPair, supply: Balance)
        ensures
            final(self).share_map() == old(self).share_map().insert(pair.key_spec(), supply),
            final(self).status_map() == old(self).status_map(),
            final(self).pool_map() == old(self).pool_map(),
            final(self).provision_map() == old(self).provision_map(),
            final(self).rate_map() == old(self).rate_map(),
            Dex::same_config(*final(self), *old(self)),
    {
        let k: u64 = pair.key();
        self.share_supplies.insert(k, supply);
    }

    fn write_provision(&mut self, pair: &TradingPair, who: AccountId, contribution: (Balance, Balance))
        ensures
            final(self).provision_map() == old(self).provision_map().insert(
                Self::provision_key_spec(*pair, who),
                contribution,
            ),
            final(self).status_map() == old(self).status_map(),
            final(self).pool_map() == old(self).pool_map(),
            final(self).share_map() == old(self).share_map(),
            final(self).rate_map() == old(self).rate_map(),
            Dex::same_config(*final(self), *old(self)),
    {
        let k: u128 = Self::provision_key(pair, who);
        self.provisions.insert(k, contribution);
    }

    fn remove_provision(&mut self, pair: &TradingPair, who: AccountId)
        ensures
            final(self).provision_map() == old(self).provision_map().remove(
                Self::provision_key_spec(*pair, who),
            ),
            final(self).status_map() == old(self).status_map(),
            final(self).pool_map() == old(self).pool_map(),
            final(self).share_map() == old(self).share_map(),
            final(self).rate_map() == old(self).rate_map(),
            Dex::same_config(*final(self), *old(self)),
    {
        let k: u128 = Self::provision_key(pair, who);
        self.provisions.remove(&k);
    }

    fn write_initial_rates(&mut self, pair: &TradingPair, rates: (ExchangeRate, ExchangeRate))
        ensures
            final(self).rate_map() == old(self).rate_map().insert(pair.key_spec(), rates),
            final(self).status_map() == old(self).status_map(),
            final(self).pool_map() == old(self).pool_map(),
            final(self).share_map() == old(self).share_map(),
            final(self).provision_map() == old(self).provision_map(),
            Dex::same_config(*final(self), *old(self)),
    {
        let k: u64 = pair.key();
        self.initial_rates.insert(k, rates);
    }

    /// Lists a disabled pair for provisioning. Succeeds exactly when the two
    /// currencies form a pair, the pair is disabled, and no pool shares for
    /// it are outstanding; the pair then starts provisioning with no
    /// accumulated contributions.
    pub fn list_provisioning(
        &mut self,
        currency_id_a: CurrencyId,
        currency_id_b: CurrencyId,
        min_contribution_a: Balance,
        min_contribution_b: Balance,
        target_provision_a: Balance,
        target_provision_b: Balance,
        not_before: RoundNumber,
    ) -> (r: Result<(), DexError>)
        ensures
            Dex::same_config(*final(self), *old(self)),
            ({
                let pair = TradingPair::pair_of(currency_id_a, currency_id_b);
                match r {
                    Ok(_) => {
                        &&& TradingPair::can_pair(currency_id_a, currency_id_b)
                        &&& old(self).status_of(pair) is Disabled
                        &&& old(self).share_supply_of(pair) == 0
                        &&& final(self).status_map() == old(self).status_map().insert(
                            pair.key_spec(),
                            TradingPairStatus::Provisioning(
                                ProvisioningParameters {
                                    min_contribution: ordered_amounts(
                                        currency_id_a,
                                        currency_id_b,
                                        min_contribution_a,
                                        min_contribution_b,
                                    ),
                                    target_provision: ordered_amounts(
                                        currency_id_a,
                                        currency_id_b,
                                        target_provision_a,
                                        target_provision_b,
                                    ),
                                    accumulated_provision: (0 as Balance, 0 as Balance),
                                    not_before,
                                },
                            ),
                        )
                        &&& final(self).pool_map() == old(self).pool_map()
                        &&& final(self).share_map() == old(self).share_map()
                        &&& final(self).provision_map() == old(self).provision_map()
                        &&& final(self).rate_map() == old(self).rate_map()
                    },
                    Err(e) => {
                        &&& *final(self) == *old(self)
                        &&& (e == DexError::InvalidCurrencyId <==> !TradingPair::can_pair(
                            currency_id_a,
                            currency_id_b,
                        ))
                        &&& (e == DexError::MustBeDisabled <==> TradingPair::can_pair(
                            currency_id_a,
                            currency_id_b,
                        ) && !(old(self).status_of(pair) is Disabled))
                        &&& (e == DexError::NotAllowedList <==> TradingPair::can_pair(
                            currency_id_a,
                            currency_id_b,
                        ) && old(self).status_of(pair) is Disabled && old(self).share_supply_of(pair) != 0)
                        &&& (e == DexError::InvalidCurrencyId || e == DexError::MustBeDisabled || e
                            == DexError::NotAllowedList)
                    },
                }
            }),
    {
        let pair = match TradingPair::from_currency_ids(currency_id_a, currency_id_b) {
            Some(p) => p,
            None => {
                return Err(DexError::InvalidCurrencyId);
            },
        };
        match self.trading_pair_statuses(&pair) {
            TradingPairStatus::Disabled => {},
            _ => {
                return Err(DexError::MustBeDisabled);
            },
        }
        if self.share_supply(&pair) != 0 {
            return Err(DexError::NotAllowedList);
        }
        let first = pair.first();
        let (min_contribution, target_provision) = if currency_id_a == first {
            (
                (min_contribution_a, min_contribution_b),
                (target_provision_a, target_provision_b),
            )
        } else {
            (
                (min_contribution_b, min_contribution_a),
                (target_provision_b, target_provision_a),
            )
        };
        self.write_status(
            &pair,
            TradingPairStatus::Provisioning(
                ProvisioningParameters {
                    min_contribution,
                    target_provision,
                    accumulated_provision: (0, 0),
                    not_before,
                },
            ),
        );
        Ok(())
    }

    /// Replaces the minimum-contribution, target and deadline parameters of a
    /// provisioning pair, preserving its accumulated contributions. Succeeds
    /// exactly when the currencies form a pair that is provisioning.
    pub fn update_provisioning_parameters(
        &mut self,
        currency_id_a: CurrencyId,
        currency_id_b: CurrencyId,
        min_contribution_a: Balance,
        min_contribution_b: Balance,
        target_provision_a: Balance,
        target_provision_b: Balance,
        not_before: RoundNumber,
    ) -> (r: Result<(), DexError>)
        ensures
            Dex::same_config(*final(self), *old(self)),
            ({
                let pair = TradingPair::pair_of(currency_id_a, currency_id_b);
                match r {
                    Ok(_) => {
                        &&& TradingPair::can_pair(currency_id_a, currency_id_b)
                        &&& old(self).status_of(pair) matches TradingPairStatus::Provisioning(p)
                            && final(self).status_map() == old(self).status_map().insert(
                            pair.key_spec(),
                            TradingPairStatus::Provisioning(
                                ProvisioningParameters {
                                    min_contribution: ordered_amounts(
                                        currency_id_a,
                                        currency_id_b,
                                        min_contribution_a,
                                        min_contribution_b,
                                    ),
                                    target_provision: ordered_amounts(
                                        currency_id_a,
                                        currency_id_b,
                                        target_provision_a,
                                        target_provision_b,
                                    ),
                                    accumulated_provision: p.accumulated_provision,
                                    not_before,
                                },
                            ),
                        )
                        &&& final(self).pool_map() == old(self).pool_map()
                        &&& final(self).share_map() == old(self).share_map()
                        &&& final(self).provision_map() == old(self).provision_map()
                        &&& final(self).rate_map() == old(self).rate_map()
                    },
                    Err(e) => {
                        &&& *final(self) == *old(self)
                        &&& (e == DexError::InvalidCurrencyId <==> !TradingPair::can_pair(
                            currency_id_a,
                            currency_id_b,
                        ))
                        &&& (e == DexError::MustBeProvisioning <==> TradingPair::can_pair(
                            currency_id_a,
                            currency_id_b,
                        ) && !(old(self).status_of(pair) is Provisioning))
                        &&& (e == DexError::InvalidCurrencyId || e == DexError::MustBeProvisioning)
                    },
                }
            }),
    {
        let pair = match TradingPair::from_currency_ids(currency_id_a, currency_id_b) {
            Some(p) => p,
            None => {
                return Err(DexError::InvalidCurrencyId);
            },
        };
        let provisioning_parameters = match self.trading_pair_statuses(&pair) {
            TradingPairStatus::Provisioning(p) => p,
            _ => {
                return Err(DexError::MustBeProvisioning);
            },
        };
        let first = pair.first();
        let (min_contribution, target_provision) = if currency_id_a == first {
            (
                (min_contribution_a, min_contribution_b),
                (target_provision_a, target_provision_b),
            )
        } else {
            (
                (min_contribution_b, min_contribution_a),
                (target_provision_b, target_provision_a),
            )
        };
        self.write_status(
            &pair,
            TradingPairStatus::Provisioning(
                ProvisioningParameters {
                    min_contribution,
                    target_provision,
                    accumulated_provision: provisioning_parameters.accumulated_provision,
                    not_before,
                },
            ),
        );
        Ok(())
    }

    /// Enables a pair directly. Succeeds exactly when the currencies form a
    /// pair that is disabled, or provisioning with no accumulated
    /// contribution (then nothing is minted).
    pub fn enable_trading_pair(&mut self, currency_id_a: CurrencyId, currency_id_b: CurrencyId) -> (r: Result<
        (),
        DexError,
    >)
        ensures
            Dex::same_config(*final(self), *old(self)),
            ({
                let pair = TradingPair::pair_of(currency_id_a, currency_id_b);
                match r {
                    Ok(_) => {
                        &&& TradingPair::can_pair(currency_id_a, currency_id_b)
                        &&& (old(self).status_of(pair) is Disabled || (old(self).status_of(pair)
                            matches TradingPairStatus::Provisioning(p) && p.accumulated_provision == (
                            0 as Balance,
                            0 as Balance,
                        )))
                        &&& final(self).status_map() == old(self).status_map().insert(
                            pair.key_spec(),
                            TradingPairStatus::Enabled,
                        )
                        &&& final(self).pool_map() == old(self).pool_map()
                        &&& final(self).share_map() == old(self).share_map()
                        &&& final(self).provision_map() == old(self).provision_map()
                        &&& final(self).rate_map() == old(self).rate_map()
                    },
                    Err(e) => {
                        &&& *final(self) == *old(self)
                        &&& (e == DexError::InvalidCurrencyId <==> !TradingPair::can_pair(
                            currency_id_a,
                            currency_id_b,
                        ))
                        &&& (e == DexError::AlreadyEnabled <==> TradingPair::can_pair(
                            currency_id_a,
                            currency_id_b,
                        ) && old(self).status_of(pair) is Enabled)
                        &&& (e == DexError::StillProvisioning <==> TradingPair::can_pair(
                            currency_id_a,
                            currency_id_b,
                        ) && (old(self).status_of(pair) matches TradingPairStatus::Provisioning(p)
                            && p.accumulated_provision != (0 as Balance, 0 as Balance)))
                        &&& (e == DexError::InvalidCurrencyId || e == DexError::AlreadyEnabled || e
                            == DexError::StillProvisioning)
                    },
                }
            }),
    {
        let pair = match TradingPair::from_currency_ids(currency_id_a, currency_id_b) {
            Some(p) => p,
            None => {
                return Err(DexError::InvalidCurrencyId);
            },
        };
        match self.trading_pair_statuses(&pair) {
            TradingPairStatus::Disabled => {},
            TradingPairStatus::Provisioning(provisioning_parameters) => {
                if !(provisioning_parameters.accumulated_provision.0 == 0
                    && provisioning_parameters.accumulated_provision.1 == 0) {
                    return Err(DexError::StillProvisioning);
                }
            },
            TradingPairStatus::Enabled => {
                return Err(DexError::AlreadyEnabled);
            },
        }
        self.write_status(&pair, TradingPairStatus::Enabled);
        Ok(())
    }

    /// Disables an enabled pair. Trading and new liquidity stop; reserves and
    /// outstanding shares are untouched. Succeeds exactly when the currencies
    /// form a pair that is enabled.
    pub fn disable_trading_pair(&mut self, currency_id_a: CurrencyId, currency_id_b: CurrencyId) -> (r: Result<
        (),
        DexError,
    >)
        ensures
            Dex::same_config(*final(self), *old(self)),
            ({
                let pair = TradingPair::pair_of(currency_id_a, currency_id_b);
                match r {
                    Ok(_) => {
                        &&& TradingPair::can_pair(currency_id_a, currency_id_b)
                        &&& old(self).status_of(pair) is Enabled
                        &&& final(self).status_map() == old(self).status_map().insert(
                            pair.key_spec(),
                            TradingPairStatus::Disabled,
                        )
                        &&& final(self).pool_map() == old(self).pool_map()
                        &&& final(self).share_map() == old(self).share_map()
                        &&& final(self).provision_map() == old(self).provision_map()
                        &&& final(self).rate_map() == old(self).rate_map()
                    },
                    Err(e) => {
                        &&& *final(self) == *old(self)
                        &&& (e == DexError::InvalidCurrencyId <==> !TradingPair::can_pair(
                            currency_id_a,
                            currency_id_b,
                        ))
                        &&& (e == DexError::MustBeEnabled <==> TradingPair::can_pair(
                            currency_id_a,
                            currency_id_b,
                        ) && !(old(self).status_of(pair) is Enabled))
                        &&& (e == DexError::InvalidCurrencyId || e == DexError::MustBeEnabled)
                    },
                }
            }),
    {
        let pair = match TradingPair::from_currency_ids(currency_id_a, currency_id_b) {
            Some(p) => p,
            None => {
                return Err(DexError::InvalidCurrencyId);
            },
        };
        match self.trading_pair_statuses(&pair) {
            TradingPairStatus::Enabled => {},
            _ => {
                return Err(DexError::MustBeEnabled);
            },
        }
        self.write_status(&pair, TradingPairStatus::Disabled);
        Ok(())
    }

    /// One forward hop of a quote: what a swap of `amount_in` of
    /// `supply_currency` into `target_currency` yields, or why it is refused.
    /// The hop demands an enabled pair with liquidity on both sides, a
    /// non-zero output, the constant-product check, and the optional
    /// price-impact bound on `output / target reserve`.
    pub open spec fn hop_forward(
        self,
        supply_currency: CurrencyId,
        target_currency: CurrencyId,
        amount_in: Balance,
        limit: Option<Ratio>,
    ) -> Result<Balance, DexError> {
        if !TradingPair::can_pair(supply_currency, target_currency) {
            Err(DexError::InvalidCurrencyId)
        } else if !(self.status_of(TradingPair::pair_of(supply_currency, target_currency)) is Enabled) {
            Err(DexError::MustBeEnabled)
        } else {
            let pools = self.get_liquidity_spec(supply_currency, target_currency);
            if pools.0 == 0 || pools.1 == 0 {
                Err(DexError::InsufficientLiquidity)
            } else {
                let target = amm::target_amount_spec(
                    self.fee_numerator_spec() as int,
                    self.fee_denominator_spec() as int,
                    pools.0 as int,
                    pools.1 as int,
                    amount_in as int,
                );
                if target == 0 {
                    Err(DexError::ZeroTargetAmount)
                } else if (pools.0 + amount_in) * (pools.1 - target) < pools.0 * pools.1 {
                    Err(DexError::InvariantCheckFailed)
                } else if limit matches Some(l) && crate::rate::rational_to_fixed(target, pools.1 as int)
                    > l.inner {
                    Err(DexError::ExceedPriceImpactLimit)
                } else {
                    Ok(target as Balance)
                }
            }
        }
    }

    /// The constant-product check of a forward hop never fires: the forward
    /// quote's rounding always favors the pool, so the check exists only to
    /// catch a future change that would let value leak out.
    pub proof fn lemma_forward_hop_keeps_invariant(
        self,
        supply_currency: CurrencyId,
        target_currency: CurrencyId,
        amount_in: Balance,
        limit: Option<Ratio>,
    )
        requires
            self.wf(),
        ensures
            self.hop_forward(supply_currency, target_currency, amount_in, limit) != Err::<
                Balance,
                DexError,
            >(DexError::InvariantCheckFailed),
    {
        if TradingPair::can_pair(supply_currency, target_currency) && self.status_of(
            TradingPair::pair_of(supply_currency, target_currency),
        ) is Enabled {
            let pools = self.get_liquidity_spec(supply_currency, target_currency);
            if pools.0 != 0 && pools.1 != 0 {
                amm::lemma_swap_keeps_constant_product(
                    self.fee_numerator_spec() as int,
                    self.fee_denominator_spec() as int,
                    pools.0 as int,
                    pools.1 as int,
                    amount_in as int,
                );
            }
        }
    }

    /// The constant-product check of a backward hop never fires either: the
    /// backward quote's one-unit rounding reserve always covers the pool.
    pub proof fn lemma_backward_hop_keeps_invariant(
        self,
        supply_currency: CurrencyId,
        target_currency: CurrencyId,
        amount_out: Balance,
        limit: Option<Ratio>,
    )
        requires
            self.wf(),
        ensures
            self.hop_backward(supply_currency, target_currency, amount_out, limit) != Err::<
                Balance,
                DexError,
            >(DexError::InvariantCheckFailed),
    {
        if TradingPair::can_pair(supply_currency, target_currency) && self.status_of(
            TradingPair::pair_of(supply_currency, target_currency),
        ) is Enabled {
            let pools = self.get_liquidity_spec(supply_currency, target_currency);
            if pools.0 != 0 && pools.1 != 0 && amount_out != 0 {
                let supply = amm::supply_amount_spec(
                    self.fee_numerator_spec() as int,
                    self.fee_denominator_spec() as int,
                    pools.0 as int,
                    pools.1 as int,
                    amount_out as int,
                );
                if supply != 0 {
                    amm::lemma_supply_amount_covers_product(
                        self.fee_numerator_spec() as int,
                        self.fee_denominator_spec() as int,
                        pools.0 as int,
                        pools.1 as int,
                        amount_out as int,
                    );
                }
            }
        }
    }

    /// The amounts at positions `i ..` of a forward quote along `path`, given
    /// that `amount` of `path[i]` flows in at position `i`.
    pub open spec fn target_chain(
        self,
        path: Seq<CurrencyId>,
        i: int,
        amount: Balance,
        limit: Option<Ratio>,
    ) -> Result<Seq<Balance>, DexError>
        decreases path.len() - i,
    {
        if path.len() <= i + 1 {
            Ok(seq![amount])
        } else {
            match self.hop_forward(path[i], path[i + 1], amount, limit) {
                Err(e) => Err(e),
                Ok(out) => match self.target_chain(path, i + 1, out, limit) {
                    Err(e) => Err(e),
                    Ok(rest) => Ok(seq![amount] + rest),
                },
            }
        }
    }

    /// The full forward quote: all intermediate amounts of a swap that
    /// supplies `supply_amount` of `path[0]`, or the first refusal.
    pub open spec fn target_amounts_spec(
        self,
        path: Seq<CurrencyId>,
        supply_amount: Balance,
        limit: Option<Ratio>,
    ) -> Result<Seq<Balance>, DexError> {
        if path.len() < 2 || path.len() > self.path_limit_spec() {
            Err(DexError::InvalidTradingPathLength)
        } else {
            self.target_chain(path, 0, supply_amount, limit)
        }
    }

    /// A forward chain splits at any position whose earlier hops all
    /// succeeded with the recorded amounts.
    proof fn lemma_target_chain_decompose(
        self,
        path: Seq<CurrencyId>,
        amounts: Seq<Balance>,
        k: int,
        limit: Option<Ratio>,
    )
        requires
            0 <= k < path.len(),
            amounts.len() == k + 1,
            forall|j: int|
                0 <= j < k ==> #[trigger] self.hop_forward(path[j], path[j + 1], amounts[j], limit)
                    == Ok::<Balance, DexError>(amounts[j + 1]),
        ensures
            self.target_chain(path, 0, amounts[0], limit) == (match self.target_chain(
                path,
                k,
                amounts[k],
                limit,
            ) {
                Ok(rest) => Ok::<Seq<Balance>, DexError>(amounts.subrange(0, k) + rest),
                Err(e) => Err::<Seq<Balance>, DexError>(e),
            }),
        decreases k,
    {
        if k == 0 {
            match self.target_chain(path, 0, amounts[0], limit) {
                Ok(rest) => {
                    assert(amounts.subrange(0, 0) + rest =~= rest);
                },
                Err(_) => {},
            }
        } else {
            self.lemma_target_chain_decompose(path, amounts.subrange(0, k), k - 1, limit);
            assert(amounts.subrange(0, k)[k - 1] == amounts[k - 1]);
            assert(amounts.subrange(0, k).subrange(0, k - 1) =~= amounts.subrange(0, k - 1));
            assert(self.hop_forward(path[k - 1], path[k], amounts[k - 1], limit) == Ok::<Balance, DexError>(
                amounts[k],
            ));
            match self.target_chain(path, k, amounts[k], limit) {
                Ok(rest) => {
                    assert(self.target_chain(path, k - 1, amounts[k - 1], limit) == Ok::<Seq<Balance>, DexError>(
                        seq![amounts[k - 1]] + rest,
                    ));
                    assert(amounts.subrange(0, k - 1) + (seq![amounts[k - 1]] + rest) =~= amounts.subrange(
                        0,
                        k,
                    ) + rest);
                },
                Err(e) => {
                    assert(self.target_chain(path, k - 1, amounts[k - 1], limit) == Err::<Seq<Balance>, DexError>(
                        e,
                    ));
                },
            }
        }
    }

    /// The amounts at every position of a forward quote of `supply_amount`
    /// along `path`: position 0 carries the supplied amount, each later
    /// position what the hop into it yields. Fails with the first hop's
    /// refusal, or immediately on a path that is too short or too long.
    pub fn get_target_amounts(
        &self,
        path: &Vec<CurrencyId>,
        supply_amount: Balance,
        price_impact_limit: Option<Ratio>,
    ) -> (r: Result<Vec<Balance>, DexError>)
        requires
            self.wf(),
        ensures
            ({
                let s = self.target_amounts_spec(path@, supply_amount, price_impact_limit);
                match r {
                    Ok(amounts) => s matches Ok(sa) && sa == amounts@,
                    Err(e) => s matches Err(se) && se == e,
                }
            }),
    {
        let path_length: usize = path.len();
        if path_length < 2 || path_length > self.trading_path_limit {
            return Err(DexError::InvalidTradingPathLength);
        }
        let mut target_amounts: Vec<Balance> = Vec::new();
        target_amounts.push(supply_amount);
        let mut i: usize = 0;
        while i + 1 < path_length
            invariant
                self.wf(),
                path@.len() == path_length,
                2 <= path_length <= self.path_limit_spec(),
                i + 1 <= path_length,
                target_amounts@.len() == i + 1,
                target_amounts@[0] == supply_amount,
                forall|j: int|
                    0 <= j < i ==> #[trigger] self.hop_forward(
                        path@[j],
                        path@[j + 1],
                        target_amounts@[j],
                        price_impact_limit,
                    ) == Ok::<Balance, DexError>(target_amounts@[j + 1]),
            decreases path_length - i,
        {
            let amount_i: Balance = target_amounts[i];
            let supply_currency: CurrencyId = path[i];
            let target_currency: CurrencyId = path[i + 1];
            let pair = match TradingPair::from_currency_ids(supply_currency, target_currency) {
                Some(p) => p,
                None => {
                    proof {
                        self.lemma_target_chain_decompose(
                            path@,
                            target_amounts@,
                            i as int,
                            price_impact_limit,
                        );
                    }
                    return Err(DexError::InvalidCurrencyId);
                },
            };
            match self.trading_pair_statuses(&pair) {
                TradingPairStatus::Enabled => {},
                _ => {
                    proof {
                        self.lemma_target_chain_decompose(
                            path@,
                            target_amounts@,
                            i as int,
                            price_impact_limit,
                        );
                    }
                    return Err(DexError::MustBeEnabled);
                },
            }
            let (supply_pool, target_pool) = self.get_liquidity(supply_currency, target_currency);
            if supply_pool == 0 || target_pool == 0 {
                proof {
                    self.lemma_target_chain_decompose(path@, target_amounts@, i as int, price_impact_limit);
                }
                return Err(DexError::InsufficientLiquidity);
            }
            let target: Balance = amm::get_target_amount(
                self.fee_numerator,
                self.fee_denominator,
                supply_pool,
                target_pool,
                amount_i,
            );
            if target == 0 {
                proof {
                    self.lemma_target_chain_decompose(path@, target_amounts@, i as int, price_impact_limit);
                }
                return Err(DexError::ZeroTargetAmount);
            }
            proof {
                vstd::arithmetic::mul::lemma_mul_upper_bound(
                    supply_pool as int,
                    0xffff_ffff_ffff_ffff,
                    target_pool as int,
                    0xffff_ffff_ffff_ffff,
                );
            }
            let invariant_before: u128 = (supply_pool as u128) * (target_pool as u128);
            let invariant_ok: bool = match (supply_pool as u128 + amount_i as u128).checked_mul(
                (target_pool - target) as u128,
            ) {
                Some(after) => after >= invariant_before,
                None => true,
            };
            if !invariant_ok {
                proof {
                    self.lemma_target_chain_decompose(path@, target_amounts@, i as int, price_impact_limit);
                }
                return Err(DexError::InvariantCheckFailed);
            }
            let impact_ok: bool = match price_impact_limit {
                Some(limit) => {
                    let price_impact = FixedRate::from_rational_or_zero(target, target_pool);
                    price_impact.le(limit)
                },
                None => true,
            };
            if !impact_ok {
                proof {
                    self.lemma_target_chain_decompose(path@, target_amounts@, i as int, price_impact_limit);
                }
                return Err(DexError::ExceedPriceImpactLimit);
            }
            target_amounts.push(target);
            i += 1;
        }
        proof {
            self.lemma_target_chain_decompose(path@, target_amounts@, i as int, price_impact_limit);
            assert(target_amounts@.subrange(0, i as int) + seq![target_amounts@[i as int]] =~= target_amounts@);
        }
        Ok(target_amounts)
    }

    /// One backward hop of a quote: what a swap out of `supply_currency`
    /// must consume to yield `amount_out` of `target_currency`, or why it is
    /// refused. The hop demands an enabled pair with liquidity on both sides,
    /// a non-zero input, the constant-product check, and the optional
    /// price-impact bound on `output / target reserve`.
    pub open spec fn hop_backward(
        self,
        supply_currency: CurrencyId,
        target_currency: CurrencyId,
        amount_out: Balance,
        limit: Option<Ratio>,
    ) -> Result<Balance, DexError> {
        if !TradingPair::can_pair(supply_currency, target_currency) {
            Err(DexError::InvalidCurrencyId)
        } else if !(self.status_of(TradingPair::pair_of(supply_currency, target_currency)) is Enabled) {
            Err(DexError::MustBeEnabled)
        } else {
            let pools = self.get_liquidity_spec(supply_currency, target_currency);
            if pools.0 == 0 || pools.1 == 0 {
                Err(DexError::InsufficientLiquidity)
            } else {
                let supply = amm::supply_amount_spec(
                    self.fee_numerator_spec() as int,
                    self.fee_denominator_spec() as int,
                    pools.0 as int,
                    pools.1 as int,
                    amount_out as int,
                );
                if supply == 0 {
                    Err(DexError::ZeroSupplyAmount)
                } else if (pools.0 + supply) * (pools.1 - amount_out) < pools.0 * pools.1 {
                    Err(DexError::InvariantCheckFailed)
                } else if limit matches Some(l) && crate::rate::rational_to_fixed(
                    amount_out as int,
                    pools.1 as int,
                ) > l.inner {
                    Err(DexError::ExceedPriceImpactLimit)
                } else {
                    Ok(supply as Balance)
                }
            }
        }
    }

    /// The amounts at positions `0 ..= i` of a backward quote along `path`,
    /// given that `amount` of `path[i]` must flow out at position `i`.
    pub open spec fn chain_down(
        self,
        path: Seq<CurrencyId>,
        i: int,
        amount: Balance,
        limit: Option<Ratio>,
    ) -> Result<Seq<Balance>, DexError>
        decreases i,
    {
        if i <= 0 {
            Ok(seq![amount])
        } else {
            match self.hop_backward(path[i - 1], path[i], amount, limit) {
                Err(e) => Err(e),
                Ok(sup) => match self.chain_down(path, i - 1, sup, limit) {
                    Err(e) => Err(e),
                    Ok(rest) => Ok(rest + seq![amount]),
                },
            }
        }
    }

    /// The full backward quote: all intermediate amounts of a swap that
    /// yields exactly `target_amount` of the path's last currency, or the
    /// first refusal.
    pub open spec fn supply_amounts_spec(
        self,
        path: Seq<CurrencyId>,
        target_amount: Balance,
        limit: Option<Ratio>,
    ) -> Result<Seq<Balance>, DexError> {
        if path.len() < 2 || path.len() > self.path_limit_spec() {
            Err(DexError::InvalidTradingPathLength)
        } else {
            self.chain_down(path, path.len() - 1, target_amount, limit)
        }
    }

    /// A backward chain splits at any position whose later hops all succeeded
    /// with the recorded amounts (`rev` lists them from the path's end
    /// backwards).
    proof fn lemma_chain_down_decompose(
        self,
        path: Seq<CurrencyId>,
        rev: Seq<Balance>,
        limit: Option<Ratio>,
    )
        requires
            1 <= rev.len() <= path.len(),
            forall|j: int|
                0 <= j < rev.len() - 1 ==> #[trigger] self.hop_backward(
                    path[path.len() - 2 - j],
                    path[path.len() - 1 - j],
                    rev[j],
                    limit,
                ) == Ok::<Balance, DexError>(rev[j + 1]),
        ensures
            self.chain_down(path, path.len() - 1, rev[0], limit) == (match self.chain_down(
                path,
                path.len() - rev.len(),
                rev.last(),
                limit,
            ) {
                Ok(head) => Ok::<Seq<Balance>, DexError>(
                    head + reversed_amounts(rev).subrange(1, rev.len() as int),
                ),
                Err(e) => Err::<Seq<Balance>, DexError>(e),
            }),
        decreases rev.len(),
    {
        let n = path.len() as int;
        let len = rev.len() as int;
        if len == 1 {
            match self.chain_down(path, n - 1, rev[0], limit) {
                Ok(head) => {
                    assert(head + reversed_amounts(rev).subrange(1, 1) =~= head);
                },
                Err(_) => {},
            }
        } else {
            let shorter = rev.subrange(0, len - 1);
            assert(forall|j: int|
                0 <= j < shorter.len() - 1 ==> #[trigger] self.hop_backward(
                    path[path.len() - 2 - j],
                    path[path.len() - 1 - j],
                    shorter[j],
                    limit,
                ) == Ok::<Balance, DexError>(shorter[j + 1]));
            self.lemma_chain_down_decompose(path, shorter, limit);
            let mid = n - len + 1;
            assert(self.hop_backward(
                path[path.len() - 2 - (len - 2)],
                path[path.len() - 1 - (len - 2)],
                rev[len - 2],
                limit,
            ) == Ok::<Balance, DexError>(rev[len - 1]));
            assert(self.hop_backward(path[mid - 1], path[mid], rev[len - 2], limit) == Ok::<Balance, DexError>(
                rev[len - 1],
            ));
            match self.chain_down(path, n - len, rev.last(), limit) {
                Ok(rest) => {
                    assert(self.chain_down(path, mid, rev[len - 2], limit) == Ok::<Seq<Balance>, DexError>(
                        rest + seq![rev[len - 2]],
                    ));
                    assert((rest + seq![rev[len - 2]]) + reversed_amounts(shorter).subrange(1, len - 1)
                        =~= rest + reversed_amounts(rev).subrange(1, len));
                },
                Err(e) => {
                    assert(self.chain_down(path, mid, rev[len - 2], limit) == Err::<Seq<Balance>, DexError>(
                        e,
                    ));
                },
            }
        }
    }

    /// The amounts at every position of a backward quote of `target_amount`
    /// along `path`: the last position carries the requested target, each
    /// earlier position what its hop must consume. Fails with the first
    /// hop's refusal (walking backwards), or immediately on a path that is
    /// too short or too long.
    pub fn get_supply_amounts(
        &self,
        path: &Vec<CurrencyId>,
        target_amount: Balance,
        price_impact_limit: Option<Ratio>,
    ) -> (r: Result<Vec<Balance>, DexError>)
        requires
            self.wf(),
        ensures
            ({
                let s = self.supply_amounts_spec(path@, target_amount, price_impact_limit);
                match r {
                    Ok(amounts) => s matches Ok(sa) && sa == amounts@,
                    Err(e) => s matches Err(se) && se == e,
                }
            }),
    {
        let path_length: usize = path.len();
        if path_length < 2 || path_length > self.trading_path_limit {
            return Err(DexError::InvalidTradingPathLength);
        }
        let mut rev: Vec<Balance> = Vec::new();
        rev.push(target_amount);
        let mut i: usize = path_length - 1;
        while i > 0
            invariant
                self.wf(),
                path@.len() == path_length,
                2 <= path_length <= self.path_limit_spec(),
                i <= path_length - 1,
                rev@.len() == path_length - i,
                rev@[0] == target_amount,
                forall|j: int|
                    0 <= j < rev@.len() - 1 ==> #[trigger] self.hop_backward(
                        path@[path_length - 2 - j],
                        path@[path_length - 1 - j],
                        rev@[j],
                        price_impact_limit,
                    ) == Ok::<Balance, DexError>(rev@[j + 1]),
            decreases i,
        {
            let amount_out: Balance = rev[rev.len() - 1];
            let supply_currency: CurrencyId = path[i - 1];
            let target_currency: CurrencyId = path[i];
            let pair = match TradingPair::from_currency_ids(supply_currency, target_currency) {
                Some(p) => p,
                None => {
                    proof {
                        self.lemma_chain_down_decompose(path@, rev@, price_impact_limit);
                    }
                    return Err(DexError::InvalidCurrencyId);
                },
            };
            match self.trading_pair_statuses(&pair) {
                TradingPairStatus::Enabled => {},
                _ => {
                    proof {
                        self.lemma_chain_down_decompose(path@, rev@, price_impact_limit);
                    }
                    return Err(DexError::MustBeEnabled);
                },
            }
            let (supply_pool, target_pool) = self.get_liquidity(supply_currency, target_currency);
            if supply_pool == 0 || target_pool == 0 {
                proof {
                    self.lemma_chain_down_decompose(path@, rev@, price_impact_limit);
                }
                return Err(DexError::InsufficientLiquidity);
            }
            let supply: Balance = amm::get_supply_amount(
                self.fee_numerator,
                self.fee_denominator,
                supply_pool,
                target_pool,
                amount_out,
            );
            if supply == 0 {
                proof {
                    self.lemma_chain_down_decompose(path@, rev@, price_impact_limit);
                }
                return Err(DexError::ZeroSupplyAmount);
            }
            proof {
                if amount_out >= target_pool {
                    assert((target_pool - amount_out) * (self.fee_denominator_spec()
                        - self.fee_numerator_spec()) <= 0) by (nonlinear_arith)
                        requires
                            target_pool - amount_out <= 0,
                            self.fee_denominator_spec() - self.fee_numerator_spec() >= 0,
                    ;
                }
                vstd::arithmetic::mul::lemma_mul_upper_bound(
                    supply_pool as int,
                    0xffff_ffff_ffff_ffff,
                    target_pool as int,
                    0xffff_ffff_ffff_ffff,
                );
            }
            let invariant_before: u128 = (supply_pool as u128) * (target_pool as u128);
            let invariant_ok: bool = match (supply_pool as u128 + supply as u128).checked_mul(
                (target_pool - amount_out) as u128,
            ) {
                Some(after) => after >= invariant_before,
                None => true,
            };
            if !invariant_ok {
                proof {
                    self.lemma_chain_down_decompose(path@, rev@, price_impact_limit);
                }
                return Err(DexError::InvariantCheckFailed);
            }
            let impact_ok: bool = match price_impact_limit {
                Some(limit) => {
                    let price_impact = FixedRate::from_rational_or_zero(amount_out, target_pool);
                    price_impact.le(limit)
                },
                None => true,
            };
            if !impact_ok {
                proof {
                    self.lemma_chain_down_decompose(path@, rev@, price_impact_limit);
                }
                return Err(DexError::ExceedPriceImpactLimit);
            }
            rev.push(supply);
            i -= 1;
        }
        proof {
            self.lemma_chain_down_decompose(path@, rev@, price_impact_limit);
            assert(seq![rev@.last()] + reversed_amounts(rev@).subrange(1, rev@.len() as int)
                =~= reversed_amounts(rev@));
        }
        let mut supply_amounts: Vec<Balance> = Vec::new();
        let mut k: usize = path_length;
        while k > 0
            invariant
                rev@.len() == path_length,
                k <= path_length,
                supply_amounts@.len() == path_length - k,
                forall|m: int|
                    0 <= m < supply_amounts@.len() ==> supply_amounts@[m] == rev@[path_length - 1 - m],
            decreases k,
        {
            k -= 1;
            supply_amounts.push(rev[k]);
        }
        proof {
            assert(supply_amounts@ =~= reversed_amounts(rev@));
        }
        Ok(supply_amounts)
    }

    /// Reserves backing a swap from `currency_id_a` into `currency_id_b`:
    /// the supply-side reserve first. Zero reserves when the currencies form
    /// no pair.
    pub open spec fn get_liquidity_spec(self, currency_id_a: CurrencyId, currency_id_b: CurrencyId) -> (
        Balance,
        Balance,
    ) {
        if TradingPair::can_pair(currency_id_a, currency_id_b) {
            let pair = TradingPair::pair_of(currency_id_a, currency_id_b);
            if currency_id_a == pair.first_spec() {
                self.pool_of(pair)
            } else {
                (self.pool_of(pair).1, self.pool_of(pair).0)
            }
        } else {
            (0 as Balance, 0 as Balance)
        }
    }

    /// Reserves backing a swap from `currency_id_a` into `currency_id_b`.
    pub fn get_liquidity(&self, currency_id_a: CurrencyId, currency_id_b: CurrencyId) -> (r: (Balance, Balance))
        ensures
            r == self.get_liquidity_spec(currency_id_a, currency_id_b),
    {
        match TradingPair::from_currency_ids(currency_id_a, currency_id_b) {
            Some(pair) => {
                let (pool_0, pool_1) = self.liquidity_pool(&pair);
                let first = pair.first();
                if currency_id_a == first {
                    (pool_0, pool_1)
                } else {
                    (pool_1, pool_0)
                }
            },
            None => (0, 0),
        }
    }

    /// Deposits liquidity into an enabled pair, scaling the two offered
    /// maxima down to the pool's current price, and mints the proportional
    /// share increment to the depositor. Succeeds exactly when the currencies
    /// form an enabled pair, all three increments are non-zero, and the share
    /// increment reaches `min_share_increment`.
    pub fn add_liquidity(
        &mut self,
        who: AccountId,
        currency_id_a: CurrencyId,
        currency_id_b: CurrencyId,
        max_amount_a: Balance,
        max_amount_b: Balance,
        min_share_increment: Balance,
    ) -> (r: Result<Vec<LedgerOp>, DexError>)
        ensures
            Dex::same_config(*final(self), *old(self)),
            ({
                let pair = TradingPair::pair_of(currency_id_a, currency_id_b);
                let m = ordered_amounts(currency_id_a, currency_id_b, max_amount_a, max_amount_b);
                let pool = old(self).pool_of(pair);
                let total_shares = old(self).share_supply_of(pair);
                let liq = add_liquidity_amounts(pool.0, pool.1, total_shares, m.0, m.1);
                match r {
                    Ok(cmds) => {
                        &&& TradingPair::can_pair(currency_id_a, currency_id_b)
                        &&& old(self).status_of(pair) is Enabled
                        &&& liq.0 != 0 && liq.1 != 0 && liq.2 != 0
                        &&& liq.2 >= min_share_increment
                        &&& final(self).pool_map() == old(self).pool_map().insert(
                            pair.key_spec(),
                            (sat64(pool.0 + liq.0), sat64(pool.1 + liq.1)),
                        )
                        &&& final(self).share_map() == old(self).share_map().insert(
                            pair.key_spec(),
                            sat64(total_shares + liq.2),
                        )
                        &&& final(self).status_map() == old(self).status_map()
                        &&& final(self).provision_map() == old(self).provision_map()
                        &&& final(self).rate_map() == old(self).rate_map()
                        &&& cmds@ == seq![
                            (LedgerOp::Transfer {
                                currency: pair.first_spec(),
                                from: who,
                                to: DEX_ACCOUNT,
                                amount: liq.0,
                            }),
                            (LedgerOp::Transfer {
                                currency: pair.second_spec(),
                                from: who,
                                to: DEX_ACCOUNT,
                                amount: liq.1,
                            }),
                            (LedgerOp::Deposit {
                                currency: pair.share_currency_spec(),
                                account: who,
                                amount: liq.2,
                            }),
                        ]
                    },
                    Err(e) => {
                        &&& *final(self) == *old(self)
                        &&& (e == DexError::InvalidCurrencyId <==> !TradingPair::can_pair(
                            currency_id_a,
                            currency_id_b,
                        ))
                        &&& (e == DexError::MustBeEnabled <==> TradingPair::can_pair(
                            currency_id_a,
                            currency_id_b,
                        ) && !(old(self).status_of(pair) is Enabled))
                        &&& (e == DexError::InvalidLiquidityIncrement <==> TradingPair::can_pair(
                            currency_id_a,
                            currency_id_b,
                        ) && old(self).status_of(pair) is Enabled && (liq.0 == 0 || liq.1 == 0
                            || liq.2 == 0))
                        &&& (e == DexError::UnacceptableShareIncrement <==> TradingPair::can_pair(
                            currency_id_a,
                            currency_id_b,
                        ) && old(self).status_of(pair) is Enabled && liq.0 != 0 && liq.1 != 0
                            && liq.2 != 0 && liq.2 < min_share_increment)
                        &&& (e == DexError::InvalidCurrencyId || e == DexError::MustBeEnabled || e
                            == DexError::InvalidLiquidityIncrement || e
                            == DexError::UnacceptableShareIncrement)
                    },
                }
            }),
    {
        let pair = match TradingPair::from_currency_ids(currency_id_a, currency_id_b) {
            Some(p) => p,
            None => {
                return Err(DexError::InvalidCurrencyId);
            },
        };
        match self.trading_pair_statuses(&pair) {
            TradingPairStatus::Enabled => {},
            _ => {
                return Err(DexError::MustBeEnabled);
            },
        }
        let first = pair.first();
        let (max_amount_0, max_amount_1) = if currency_id_a == first {
            (max_amount_a, max_amount_b)
        } else {
            (max_amount_b, max_amount_a)
        };
        let total_shares = self.share_supply(&pair);
        let (pool_0, pool_1) = self.liquidity_pool(&pair);
        let (pool_0_increment, pool_1_increment, share_increment): (Balance, Balance, Balance) = if total_shares
            == 0 {
            let (exchange_rate_0, exchange_rate_1) = if max_amount_0 > max_amount_1 {
                (FixedRate::one(), FixedRate::from_rational_or_zero(max_amount_0, max_amount_1))
            } else {
                (FixedRate::from_rational_or_zero(max_amount_1, max_amount_0), FixedRate::one())
            };
            let initial_share: Balance = sat_add(
                exchange_rate_0.saturating_mul_int(max_amount_0),
                exchange_rate_1.saturating_mul_int(max_amount_1),
            );
            (max_amount_0, max_amount_1, initial_share)
        } else {
            let exchange_rate_0_1 = FixedRate::from_rational_or_zero(pool_1, pool_0);
            let input_exchange_rate_0_1 = FixedRate::from_rational_or_zero(max_amount_1, max_amount_0);
            if input_exchange_rate_0_1.le(exchange_rate_0_1) {
                let exchange_rate_1_0 = FixedRate::from_rational_or_zero(pool_0, pool_1);
                let amount_0 = exchange_rate_1_0.saturating_mul_int(max_amount_1);
                let share_increment = match FixedRate::from_rational_or_zero(amount_0, pool_0).checked_mul_int(
                    total_shares,
                ) {
                    Some(v) => v,
                    None => 0,
                };
                (amount_0, max_amount_1, share_increment)
            } else {
                let amount_1 = exchange_rate_0_1.saturating_mul_int(max_amount_0);
                let share_increment = match FixedRate::from_rational_or_zero(amount_1, pool_1).checked_mul_int(
                    total_shares,
                ) {
                    Some(v) => v,
                    None => 0,
                };
                (max_amount_0, amount_1, share_increment)
            }
        };
        if share_increment == 0 || pool_0_increment == 0 || pool_1_increment == 0 {
            return Err(DexError::InvalidLiquidityIncrement);
        }
        if share_increment < min_share_increment {
            return Err(DexError::UnacceptableShareIncrement);
        }
        self.write_pool(&pair, (sat_add(pool_0, pool_0_increment), sat_add(pool_1, pool_1_increment)));
        self.write_share_supply(&pair, sat_add(total_shares, share_increment));
        let mut cmds: Vec<LedgerOp> = Vec::new();
        cmds.push(
            LedgerOp::Transfer { currency: pair.first(), from: who, to: DEX_ACCOUNT, amount: pool_0_increment },
        );
        cmds.push(
            LedgerOp::Transfer { currency: pair.second(), from: who, to: DEX_ACCOUNT, amount: pool_1_increment },
        );
        cmds.push(
            LedgerOp::Deposit { currency: pair.dex_share_currency_id(), account: who, amount: share_increment },
        );
        Ok(cmds)
    }

    /// Burns `remove_share` pool shares and withdraws both reserves in
    /// proportion. Removing zero shares succeeds without effect. Otherwise
    /// succeeds exactly when the currencies form a pair, both withdrawals
    /// reach their acceptable minima, and no more shares are removed than are
    /// outstanding.
    pub fn remove_liquidity(
        &mut self,
        who: AccountId,
        currency_id_a: CurrencyId,
        currency_id_b: CurrencyId,
        remove_share: Balance,
        min_withdrawn_a: Balance,
        min_withdrawn_b: Balance,
    ) -> (r: Result<Vec<LedgerOp>, DexError>)
        ensures
            Dex::same_config(*final(self), *old(self)),
            remove_share == 0 ==> (r matches Ok(cmds) && cmds@ == Seq::<LedgerOp>::empty() && *final(self)
                == *old(self)),
            remove_share != 0 ==> ({
                let pair = TradingPair::pair_of(currency_id_a, currency_id_b);
                let min_withdrawn = ordered_amounts(
                    currency_id_a,
                    currency_id_b,
                    min_withdrawn_a,
                    min_withdrawn_b,
                );
                let total_shares = old(self).share_supply_of(pair);
                let proportion = crate::rate::rate_or_zero(remove_share, total_shares);
                let pool = old(self).pool_of(pair);
                let dec_0 = sat64(crate::rate::fixed_mul_floor(proportion, pool.0 as int));
                let dec_1 = sat64(crate::rate::fixed_mul_floor(proportion, pool.1 as int));
                match r {
                    Ok(cmds) => {
                        &&& TradingPair::can_pair(currency_id_a, currency_id_b)
                        &&& dec_0 >= min_withdrawn.0 && dec_1 >= min_withdrawn.1
                        &&& remove_share <= total_shares
                        &&& final(self).share_map() == old(self).share_map().insert(
                            pair.key_spec(),
                            (total_shares - remove_share) as Balance,
                        )
                        &&& final(self).pool_map() == old(self).pool_map().insert(
                            pair.key_spec(),
                            ((pool.0 - dec_0) as Balance, (pool.1 - dec_1) as Balance),
                        )
                        &&& final(self).status_map() == old(self).status_map()
                        &&& final(self).provision_map() == old(self).provision_map()
                        &&& final(self).rate_map() == old(self).rate_map()
                        &&& cmds@ == seq![
                            (LedgerOp::Withdraw {
                                currency: pair.share_currency_spec(),
                                account: who,
                                amount: remove_share,
                            }),
                            (LedgerOp::Transfer {
                                currency: pair.first_spec(),
                                from: DEX_ACCOUNT,
                                to: who,
                                amount: dec_0,
                            }),
                            (LedgerOp::Transfer {
                                currency: pair.second_spec(),
                                from: DEX_ACCOUNT,
                                to: who,
                                amount: dec_1,
                            }),
                        ]
                    },
                    Err(e) => {
                        &&& *final(self) == *old(self)
                        &&& (e == DexError::InvalidCurrencyId <==> !TradingPair::can_pair(
                            currency_id_a,
                            currency_id_b,
                        ))
                        &&& (e == DexError::UnacceptableLiquidityWithdrawn <==> TradingPair::can_pair(
                            currency_id_a,
                            currency_id_b,
                        ) && (dec_0 < min_withdrawn.0 || dec_1 < min_withdrawn.1))
                        &&& (e == DexError::InsufficientLiquidity <==> TradingPair::can_pair(
                            currency_id_a,
                            currency_id_b,
                        ) && dec_0 >= min_withdrawn.0 && dec_1 >= min_withdrawn.1 && remove_share
                            > total_shares)
                        &&& (e == DexError::InvalidCurrencyId || e
                            == DexError::UnacceptableLiquidityWithdrawn || e
                            == DexError::InsufficientLiquidity)
                    },
                }
            }),
    {
        if remove_share == 0 {
            return Ok(Vec::new());
        }
        let pair = match TradingPair::from_currency_ids(currency_id_a, currency_id_b) {
            Some(p) => p,
            None => {
                return Err(DexError::InvalidCurrencyId);
            },
        };
        let first = pair.first();
        let (min_withdrawn_0, min_withdrawn_1) = if currency_id_a == first {
            (min_withdrawn_a, min_withdrawn_b)
        } else {
            (min_withdrawn_b, min_withdrawn_a)
        };
        let total_shares = self.share_supply(&pair);
        let proportion = FixedRate::from_rational_or_zero(remove_share, total_shares);
        let (pool_0, pool_1) = self.liquidity_pool(&pair);
        let pool_0_decrement = proportion.saturating_mul_int(pool_0);
        let pool_1_decrement = proportion.saturating_mul_int(pool_1);
        if !(pool_0_decrement >= min_withdrawn_0 && pool_1_decrement >= min_withdrawn_1) {
            return Err(DexError::UnacceptableLiquidityWithdrawn);
        }
        if remove_share > total_shares {
            return Err(DexError::InsufficientLiquidity);
        }
        proof {
            crate::rate::lemma_fixed_proportion_le(remove_share, total_shares, pool_0);
            crate::rate::lemma_fixed_proportion_le(remove_share, total_shares, pool_1);
        }
        self.write_share_supply(&pair, total_shares - remove_share);
        self.write_pool(&pair, (pool_0 - pool_0_decrement, pool_1 - pool_1_decrement));
        let mut cmds: Vec<LedgerOp> = Vec::new();
        cmds.push(
            LedgerOp::Withdraw { currency: pair.dex_share_currency_id(), account: who, amount: remove_share },
        );
        cmds.push(
            LedgerOp::Transfer { currency: pair.first(), from: DEX_ACCOUNT, to: who, amount: pool_0_decrement },
        );
        cmds.push(
            LedgerOp::Transfer { currency: pair.second(), from: DEX_ACCOUNT, to: who, amount: pool_1_decrement },
        );
        Ok(cmds)
    }

    /// Contributes both sides of a provisioning pair. Succeeds exactly when
    /// the currencies form a pair that is provisioning and at least one side
    /// of the contribution reaches the pair's minimum; the contribution is
    /// recorded against the contributor and accumulated for the pair, and the
    /// host is told to move both amounts into the exchange account.
    pub fn add_provision(
        &mut self,
        who: AccountId,
        currency_id_a: CurrencyId,
        currency_id_b: CurrencyId,
        contribution_a: Balance,
        contribution_b: Balance,
    ) -> (r: Result<Vec<LedgerOp>, DexError>)
        ensures
            Dex::same_config(*final(self), *old(self)),
            ({
                let pair = TradingPair::pair_of(currency_id_a, currency_id_b);
                let c = ordered_amounts(currency_id_a, currency_id_b, contribution_a, contribution_b);
                match r {
                    Ok(cmds) => {
                        &&& TradingPair::can_pair(currency_id_a, currency_id_b)
                        &&& old(self).status_of(pair) matches TradingPairStatus::Provisioning(p) && {
                            let mine = old(self).provision_of(pair, who);
                            &&& c.0 >= p.min_contribution.0 || c.1 >= p.min_contribution.1
                            &&& final(self).provision_map() == old(self).provision_map().insert(
                                Self::provision_key_spec(pair, who),
                                (sat64(mine.0 + c.0), sat64(mine.1 + c.1)),
                            )
                            &&& final(self).status_map() == old(self).status_map().insert(
                                pair.key_spec(),
                                TradingPairStatus::Provisioning(
                                    ProvisioningParameters {
                                        accumulated_provision: (
                                            sat64(p.accumulated_provision.0 + c.0),
                                            sat64(p.accumulated_provision.1 + c.1),
                                        ),
                                        ..p
                                    },
                                ),
                            )
                        }
                        &&& final(self).pool_map() == old(self).pool_map()
                        &&& final(self).share_map() == old(self).share_map()
                        &&& final(self).rate_map() == old(self).rate_map()
                        &&& cmds@ == seq![
                            (LedgerOp::Transfer {
                                currency: pair.first_spec(),
                                from: who,
                                to: DEX_ACCOUNT,
                                amount: c.0,
                            }),
                            (LedgerOp::Transfer {
                                currency: pair.second_spec(),
                                from: who,
                                to: DEX_ACCOUNT,
                                amount: c.1,
                            }),
                        ]
                    },
                    Err(e) => {
                        &&& *final(self) == *old(self)
                        &&& (e == DexError::InvalidCurrencyId <==> !TradingPair::can_pair(
                            currency_id_a,
                            currency_id_b,
                        ))
                        &&& (e == DexError::MustBeProvisioning <==> TradingPair::can_pair(
                            currency_id_a,
                            currency_id_b,
                        ) && !(old(self).status_of(pair) is Provisioning))
                        &&& (e == DexError::InvalidContributionIncrement <==> TradingPair::can_pair(
                            currency_id_a,
                            currency_id_b,
                        ) && (old(self).status_of(pair) matches TradingPairStatus::Provisioning(p)
                            && c.0 < p.min_contribution.0 && c.1 < p.min_contribution.1))
                        &&& (e == DexError::InvalidCurrencyId || e == DexError::MustBeProvisioning
                            || e == DexError::InvalidContributionIncrement)
                    },
                }
            }),
    {
        let pair = match TradingPair::from_currency_ids(currency_id_a, currency_id_b) {
            Some(p) => p,
            None => {
                return Err(DexError::InvalidCurrencyId);
            },
        };
        let mut provision_parameters = match self.trading_pair_statuses(&pair) {
            TradingPairStatus::Provisioning(p) => p,
            _ => {
                return Err(DexError::MustBeProvisioning);
            },
        };
        let first = pair.first();
        let (contribution_0, contribution_1) = if currency_id_a == first {
            (contribution_a, contribution_b)
        } else {
            (contribution_b, contribution_a)
        };
        if !(contribution_0 >= provision_parameters.min_contribution.0
            || contribution_1 >= provision_parameters.min_contribution.1) {
            return Err(DexError::InvalidContributionIncrement);
        }
        let mine = self.provisioning_pool(&pair, who);
        self.write_provision(
            &pair,
            who,
            (sat_add(mine.0, contribution_0), sat_add(mine.1, contribution_1)),
        );
        provision_parameters.accumulated_provision = (
            sat_add(provision_parameters.accumulated_provision.0, contribution_0),
            sat_add(provision_parameters.accumulated_provision.1, contribution_1),
        );
        self.write_status(&pair, TradingPairStatus::Provisioning(provision_parameters));
        let mut cmds: Vec<LedgerOp> = Vec::new();
        cmds.push(
            LedgerOp::Transfer { currency: pair.first(), from: who, to: DEX_ACCOUNT, amount: contribution_0 },
        );
        cmds.push(
            LedgerOp::Transfer { currency: pair.second(), from: who, to: DEX_ACCOUNT, amount: contribution_1 },
        );
        Ok(cmds)
    }

    /// Claims the pool shares a contributor earned by provisioning, at the
    /// rates frozen when the pair converted; the entry is removed, so a
    /// second claim finds nothing and succeeds without effect. Succeeds
    /// exactly when the currencies form a pair that is no longer
    /// provisioning.
    pub fn claim_dex_share(
        &mut self,
        who: AccountId,
        currency_id_a: CurrencyId,
        currency_id_b: CurrencyId,
    ) -> (r: Result<Vec<LedgerOp>, DexError>)
        ensures
            Dex::same_config(*final(self), *old(self)),
            ({
                let pair = TradingPair::pair_of(currency_id_a, currency_id_b);
                match r {
                    Ok(cmds) => {
                        &&& TradingPair::can_pair(currency_id_a, currency_id_b)
                        &&& !(old(self).status_of(pair) is Provisioning)
                        &&& if old(self).has_provision(pair, who) {
                            let mine = old(self).provision_of(pair, who);
                            let rates = old(self).initial_rate_of(pair);
                            &&& final(self).provision_map() == old(self).provision_map().remove(
                                Self::provision_key_spec(pair, who),
                            )
                            &&& final(self).status_map() == old(self).status_map()
                            &&& final(self).pool_map() == old(self).pool_map()
                            &&& final(self).share_map() == old(self).share_map()
                            &&& final(self).rate_map() == old(self).rate_map()
                            &&& cmds@ == seq![
                                (LedgerOp::Transfer {
                                    currency: pair.share_currency_spec(),
                                    from: DEX_ACCOUNT,
                                    to: who,
                                    amount: shares_for(rates.0, rates.1, mine.0, mine.1),
                                }),
                            ]
                        } else {
                            &&& *final(self) == *old(self)
                            &&& cmds@ == Seq::<LedgerOp>::empty()
                        }
                    },
                    Err(e) => {
                        &&& *final(self) == *old(self)
                        &&& (e == DexError::InvalidCurrencyId <==> !TradingPair::can_pair(
                            currency_id_a,
                            currency_id_b,
                        ))
                        &&& (e == DexError::StillProvisioning <==> TradingPair::can_pair(
                            currency_id_a,
                            currency_id_b,
                        ) && old(self).status_of(pair) is Provisioning)
                        &&& (e == DexError::InvalidCurrencyId || e == DexError::StillProvisioning)
                    },
                }
            }),
    {
        let pair = match TradingPair::from_currency_ids(currency_id_a, currency_id_b) {
            Some(p) => p,
            None => {
                return Err(DexError::InvalidCurrencyId);
            },
        };
        match self.trading_pair_statuses(&pair) {
            TradingPairStatus::Provisioning(_) => {
                return Err(DexError::StillProvisioning);
            },
            _ => {},
        }
        let k: u128 = Self::provision_key(&pair, who);
        let present: bool = self.provisions.contains_key(&k);
        let mut cmds: Vec<LedgerOp> = Vec::new();
        if present {
            let (contribution_0, contribution_1) = self.provisioning_pool(&pair, who);
            let (exchange_rate_0, exchange_rate_1) = self.initial_share_exchange_rates(&pair);
            let share_to_claim: Balance = sat_add(
                exchange_rate_0.saturating_mul_int(contribution_0),
                exchange_rate_1.saturating_mul_int(contribution_1),
            );
            self.remove_provision(&pair, who);
            cmds.push(
                LedgerOp::Transfer {
                    currency: pair.dex_share_currency_id(),
                    from: DEX_ACCOUNT,
                    to: who,
                    amount: share_to_claim,
                },
            );
        }
        Ok(cmds)
    }

    /// Claiming shares is idempotent: a successful claim removes the
    /// contributor's entry, so a later claim for the same pair and
    /// contributor finds nothing, changes nothing, and transfers nothing
    /// (the contract of `claim_dex_share` for an absent entry).
    pub proof fn lemma_claim_dex_share_idempotent(before: Dex, after: Dex, pair: TradingPair, who: AccountId)
        requires
            after.provision_map() == before.provision_map().remove(Self::provision_key_spec(pair, who)),
        ensures
            !after.has_provision(pair, who),
    {
    }

    /// Converts a qualified provisioning pair to enabled: fixes the initial
    /// share exchange rates that value both sides equally, mints the total
    /// shares into the exchange account, moves the accumulated contributions
    /// into the pool reserves, and opens trading. Succeeds exactly when the
    /// currencies form a provisioning pair whose deadline has passed, both
    /// accumulated sides are non-zero, and at least one side has reached its
    /// target.
    pub fn end_provisioning(
        &mut self,
        currency_id_a: CurrencyId,
        currency_id_b: CurrencyId,
        now: RoundNumber,
    ) -> (r: Result<Vec<LedgerOp>, DexError>)
        ensures
            Dex::same_config(*final(self), *old(self)),
            ({
                let pair = TradingPair::pair_of(currency_id_a, currency_id_b);
                match r {
                    Ok(cmds) => {
                        &&& TradingPair::can_pair(currency_id_a, currency_id_b)
                        &&& old(self).status_of(pair) matches TradingPairStatus::Provisioning(p) && {
                            let acc = p.accumulated_provision;
                            let rates = initial_rates_spec(acc.0, acc.1);
                            let total_shares = shares_for(rates.0, rates.1, acc.0, acc.1);
                            let pool = old(self).pool_of(pair);
                            &&& now >= p.not_before
                            &&& acc.0 != 0 && acc.1 != 0
                            &&& acc.0 >= p.target_provision.0 || acc.1 >= p.target_provision.1
                            &&& final(self).status_map() == old(self).status_map().insert(
                                pair.key_spec(),
                                TradingPairStatus::Enabled,
                            )
                            &&& final(self).pool_map() == old(self).pool_map().insert(
                                pair.key_spec(),
                                (sat64(pool.0 + acc.0), sat64(pool.1 + acc.1)),
                            )
                            &&& final(self).share_map() == old(self).share_map().insert(
                                pair.key_spec(),
                                sat64(old(self).share_supply_of(pair) + total_shares),
                            )
                            &&& final(self).rate_map() == old(self).rate_map().insert(
                                pair.key_spec(),
                                rates,
                            )
                            &&& final(self).provision_map() == old(self).provision_map()
                            &&& cmds@ == seq![
                                (LedgerOp::Deposit {
                                    currency: pair.share_currency_spec(),
                                    account: DEX_ACCOUNT,
                                    amount: total_shares,
                                }),
                            ]
                        }
                    },
                    Err(e) => {
                        &&& *final(self) == *old(self)
                        &&& (e == DexError::InvalidCurrencyId <==> !TradingPair::can_pair(
                            currency_id_a,
                            currency_id_b,
                        ))
                        &&& (e == DexError::MustBeProvisioning <==> TradingPair::can_pair(
                            currency_id_a,
                            currency_id_b,
                        ) && !(old(self).status_of(pair) is Provisioning))
                        &&& (e == DexError::UnqualifiedProvision <==> TradingPair::can_pair(
                            currency_id_a,
                            currency_id_b,
                        ) && (old(self).status_of(pair) matches TradingPairStatus::Provisioning(p)
                            && !(now >= p.not_before && p.accumulated_provision.0 != 0
                            && p.accumulated_provision.1 != 0 && (p.accumulated_provision.0
                            >= p.target_provision.0 || p.accumulated_provision.1
                            >= p.target_provision.1))))
                        &&& (e == DexError::InvalidCurrencyId || e == DexError::MustBeProvisioning
                            || e == DexError::UnqualifiedProvision)
                    },
                }
            }),
    {
        let pair = match TradingPair::from_currency_ids(currency_id_a, currency_id_b) {
            Some(p) => p,
            None => {
                return Err(DexError::InvalidCurrencyId);
            },
        };
        let provisioning_parameters = match self.trading_pair_statuses(&pair) {
            TradingPairStatus::Provisioning(p) => p,
            _ => {
                return Err(DexError::MustBeProvisioning);
            },
        };
        let (total_provision_0, total_provision_1) = provisioning_parameters.accumulated_provision;
        if !(now >= provisioning_parameters.not_before && total_provision_0 != 0 && total_provision_1 != 0
            && (total_provision_0 >= provisioning_parameters.target_provision.0 || total_provision_1
            >= provisioning_parameters.target_provision.1)) {
            return Err(DexError::UnqualifiedProvision);
        }
        let (share_exchange_rate_0, share_exchange_rate_1) = if total_provision_0 > total_provision_1 {
            (FixedRate::one(), FixedRate::from_rational_or_zero(total_provision_0, total_provision_1))
        } else {
            (FixedRate::from_rational_or_zero(total_provision_1, total_provision_0), FixedRate::one())
        };
        let total_shares_to_issue: Balance = sat_add(
            share_exchange_rate_0.saturating_mul_int(total_provision_0),
            share_exchange_rate_1.saturating_mul_int(total_provision_1),
        );
        let supply = self.share_supply(&pair);
        self.write_share_supply(&pair, sat_add(supply, total_shares_to_issue));
        let (pool_0, pool_1) = self.liquidity_pool(&pair);
        self.write_pool(&pair, (sat_add(pool_0, total_provision_0), sat_add(pool_1, total_provision_1)));
        self.write_status(&pair, TradingPairStatus::Enabled);
        self.write_initial_rates(&pair, (share_exchange_rate_0, share_exchange_rate_1));
        let mut cmds: Vec<LedgerOp> = Vec::new();
        cmds.push(
            LedgerOp::Deposit {
                currency: pair.dex_share_currency_id(),
                account: DEX_ACCOUNT,
                amount: total_shares_to_issue,
            },
        );
        Ok(cmds)
    }

    /// Applies one hop's reserve movement to the pool of the pair the two
    /// currencies form; no-op when they form none.
    fn apply_swap(
        &mut self,
        supply_currency: CurrencyId,
        target_currency: CurrencyId,
        supply_increment: Balance,
        target_decrement: Balance,
    )
        ensures
            final(self).pool_map() == swap_hop_map(
                old(self).pool_map(),
                supply_currency,
                target_currency,
                supply_increment,
                target_decrement,
            ),
            final(self).status_map() == old(self).status_map(),
            final(self).share_map() == old(self).share_map(),
            final(self).provision_map() == old(self).provision_map(),
            final(self).rate_map() == old(self).rate_map(),
            Dex::same_config(*final(self), *old(self)),
    {
        match TradingPair::from_currency_ids(supply_currency, target_currency) {
            Some(pair) => {
                let (pool_0, pool_1) = self.liquidity_pool(&pair);
                let first = pair.first();
                if supply_currency == first {
                    self.write_pool(
                        &pair,
                        (sat_add(pool_0, supply_increment), sat_sub(pool_1, target_decrement)),
                    );
                } else {
                    self.write_pool(
                        &pair,
                        (sat_sub(pool_0, target_decrement), sat_add(pool_1, supply_increment)),
                    );
                }
            },
            None => {},
        }
    }

    /// Applies every hop of a quoted path to the pools, in order.
    fn apply_swap_by_path(&mut self, path: &Vec<CurrencyId>, amounts: &Vec<Balance>)
        ensures
            final(self).pool_map() == path_swapped(old(self).pool_map(), path@, amounts@, 0),
            final(self).status_map() == old(self).status_map(),
            final(self).share_map() == old(self).share_map(),
            final(self).provision_map() == old(self).provision_map(),
            final(self).rate_map() == old(self).rate_map(),
            Dex::same_config(*final(self), *old(self)),
    {
        let n: usize = if path.len() < amounts.len() {
            path.len()
        } else {
            amounts.len()
        };
        if n < 2 {
            return ;
        }
        let mut i: usize = 0;
        while i < n - 1
            invariant
                2 <= n,
                n <= path@.len(),
                n <= amounts@.len(),
                n == path@.len() || n == amounts@.len(),
                i <= n - 1,
                path_swapped(old(self).pool_map(), path@, amounts@, 0) == path_swapped(
                    self.pool_map(),
                    path@,
                    amounts@,
                    i as int,
                ),
                self.status_map() == old(self).status_map(),
                self.share_map() == old(self).share_map(),
                self.provision_map() == old(self).provision_map(),
                self.rate_map() == old(self).rate_map(),
                Dex::same_config(*self, *old(self)),
            decreases path@.len() - i,
        {
            self.apply_swap(path[i], path[i + 1], amounts[i], amounts[i + 1]);
            i += 1;
        }
    }

    /// Swaps an exact `supply_amount` of `path`'s first currency into its
    /// last. Succeeds exactly when the forward quote succeeds and yields at
    /// least `min_target_amount`; the hops' reserve movements are applied and
    /// the host is told to collect the supply from the trader and pay the
    /// yield out. Returns the amount the trader receives.
    pub fn swap_with_exact_supply(
        &mut self,
        who: AccountId,
        path: &Vec<CurrencyId>,
        supply_amount: Balance,
        min_target_amount: Balance,
        price_impact_limit: Option<Ratio>,
    ) -> (r: Result<(Balance, Vec<LedgerOp>), DexError>)
        requires
            old(self).wf(),
        ensures
            final(self).wf(),
            Dex::same_config(*final(self), *old(self)),
            ({
                let quote = old(self).target_amounts_spec(path@, supply_amount, price_impact_limit);
                match r {
                    Ok(res) => quote matches Ok(amounts) && {
                        let actual_target = amounts[amounts.len() - 1];
                        &&& actual_target >= min_target_amount
                        &&& res.0 == actual_target
                        &&& final(self).pool_map() == path_swapped(old(self).pool_map(), path@, amounts, 0)
                        &&& final(self).status_map() == old(self).status_map()
                        &&& final(self).share_map() == old(self).share_map()
                        &&& final(self).provision_map() == old(self).provision_map()
                        &&& final(self).rate_map() == old(self).rate_map()
                        &&& res.1@ == seq![
                            (LedgerOp::Transfer {
                                currency: path@[0],
                                from: who,
                                to: DEX_ACCOUNT,
                                amount: supply_amount,
                            }),
                            (LedgerOp::Transfer {
                                currency: path@[path@.len() - 1],
                                from: DEX_ACCOUNT,
                                to: who,
                                amount: actual_target,
                            }),
                        ]
                    },
                    Err(e) => {
                        &&& *final(self) == *old(self)
                        &&& match quote {
                            Err(qe) => e == qe,
                            Ok(amounts) => amounts[amounts.len() - 1] < min_target_amount && e
                                == DexError::InsufficientTargetAmount,
                        }
                    },
                }
            }),
    {
        let amounts = match self.get_target_amounts(path, supply_amount, price_impact_limit) {
            Ok(a) => a,
            Err(e) => {
                return Err(e);
            },
        };
        let actual_target_amount: Balance = amounts[amounts.len() - 1];
        if actual_target_amount < min_target_amount {
            return Err(DexError::InsufficientTargetAmount);
        }
        self.apply_swap_by_path(path, &amounts);
        let mut cmds: Vec<LedgerOp> = Vec::new();
        cmds.push(
            LedgerOp::Transfer { currency: path[0], from: who, to: DEX_ACCOUNT, amount: supply_amount },
        );
        cmds.push(
            LedgerOp::Transfer {
                currency: path[path.len() - 1],
                from: DEX_ACCOUNT,
                to: who,
                amount: actual_target_amount,
            },
        );
        Ok((actual_target_amount, cmds))
    }

    /// Swaps as little of `path`'s first currency as needed into an exact
    /// `target_amount` of its last. Succeeds exactly when the backward quote
    /// succeeds and consumes at most `max_supply_amount`; the hops' reserve
    /// movements are applied and the host is told to collect the supply from
    /// the trader and pay the target out. Returns the amount the trader
    /// pays.
    pub fn swap_with_exact_target(
        &mut self,
        who: AccountId,
        path: &Vec<CurrencyId>,
        target_amount: Balance,
        max_supply_amount: Balance,
        price_impact_limit: Option<Ratio>,
    ) -> (r: Result<(Balance, Vec<LedgerOp>), DexError>)
        requires
            old(self).wf(),
        ensures
            final(self).wf(),
            Dex::same_config(*final(self), *old(self)),
            ({
                let quote = old(self).supply_amounts_spec(path@, target_amount, price_impact_limit);
                match r {
                    Ok(res) => quote matches Ok(amounts) && {
                        let actual_supply = amounts[0];
                        &&& actual_supply <= max_supply_amount
                        &&& res.0 == actual_supply
                        &&& final(self).pool_map() == path_swapped(old(self).pool_map(), path@, amounts, 0)
                        &&& final(self).status_map() == old(self).status_map()
                        &&& final(self).share_map() == old(self).share_map()
                        &&& final(self).provision_map() == old(self).provision_map()
                        &&& final(self).rate_map() == old(self).rate_map()
                        &&& res.1@ == seq![
                            (LedgerOp::Transfer {
                                currency: path@[0],
                                from: who,
                                to: DEX_ACCOUNT,
                                amount: actual_supply,
                            }),
                            (LedgerOp::Transfer {
                                currency: path@[path@.len() - 1],
                                from: DEX_ACCOUNT,
                                to: who,
                                amount: target_amount,
                            }),
                        ]
                    },
                    Err(e) => {
                        &&& *final(self) == *old(self)
                        &&& match quote {
                            Err(qe) => e == qe,
                            Ok(amounts) => amounts[0] > max_supply_amount && e
                                == DexError::ExcessiveSupplyAmount,
                        }
                    },
                }
            }),
    {
        let amounts = match self.get_supply_amounts(path, target_amount, price_impact_limit) {
            Ok(a) => a,
            Err(e) => {
                return Err(e);
            },
        };
        let actual_supply_amount: Balance = amounts[0];
        if actual_supply_amount > max_supply_amount {
            return Err(DexError::ExcessiveSupplyAmount);
        }
        self.apply_swap_by_path(path, &amounts);
        let mut cmds: Vec<LedgerOp> = Vec::new();
        cmds.push(
            LedgerOp::Transfer { currency: path[0], from: who, to: DEX_ACCOUNT, amount: actual_supply_amount },
        );
        cmds.push(
            LedgerOp::Transfer {
                currency: path[path.len() - 1],
                from: DEX_ACCOUNT,
                to: who,
                amount: target_amount,
            },
        );
        Ok((actual_supply_amount, cmds))
    }

    /// What a swap of an exact supply along `path` would yield, if anything.
    pub fn get_swap_target_amount(
        &self,
        path: &Vec<CurrencyId>,
        supply_amount: Balance,
        price_impact_limit: Option<Ratio>,
    ) -> (r: Option<Balance>)
        requires
            self.wf(),
        ensures
            match r {
                Some(target) => self.target_amounts_spec(path@, supply_amount, price_impact_limit) matches Ok(
                    amounts,
                ) && target == amounts[amounts.len() - 1],
                None => self.target_amounts_spec(path@, supply_amount, price_impact_limit) is Err,
            },
    {
        match self.get_target_amounts(path, supply_amount, price_impact_limit) {
            Ok(amounts) => Some(amounts[amounts.len() - 1]),
            Err(_) => None,
        }
    }

    /// What a swap into an exact target along `path` would consume, if
    /// anything.
    pub fn get_swap_supply_amount(
        &self,
        path: &Vec<CurrencyId>,
        target_amount: Balance,
        price_impact_limit: Option<Ratio>,
    ) -> (r: Option<Balance>)
        requires
            self.wf(),
        ensures
            match r {
                Some(supply) => self.supply_amounts_spec(path@, target_amount, price_impact_limit) matches Ok(
                    amounts,
                ) && supply == amounts[0],
                None => self.supply_amounts_spec(path@, target_amount, price_impact_limit) is Err,
            },
    {
        match self.get_supply_amounts(path, target_amount, price_impact_limit) {
            Ok(amounts) => Some(amounts[0]),
            Err(_) => None,
        }
    }
}

} // verus!
