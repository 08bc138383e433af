use std::collections::HashMap;

use vstd::prelude::*;

use crate::dex::{path_swapped, Dex};
use crate::rate::{FixedRate, Ratio};
use crate::types::{AuctionRequest, CurrencyId, DexError, LedgerOp, TreasuryError, TreasurySwapError};
use crate::{AccountId, Balance};

verus! {

broadcast use vstd::std_specs::hash::group_hash_axioms;

/// The custodial account that holds every asset owned by the treasury.
pub const TREASURY_ACCOUNT: AccountId = 10_000_000_002;

/// The stable target of one full-sized collateral lot: the lot's proportion
/// of the auctioned amount, applied to the total target. Both are taken from
/// the original totals, never from the shrinking remainder, so rounding does
/// not compound; the final lot absorbs all rounding slack.
pub open spec fn lot_target_spec(max_size: Balance, amount: Balance, target: Balance) -> Balance {
    crate::dex::sat64(
        crate::rate::fixed_mul_floor(crate::rate::rate_or_zero(max_size, amount), target as int),
    )
}

/// How many full-sized lots a collateral auction of `amount` splits into
/// before the final remainder lot: as many as fit below `amount`, but no
/// more than the cycle's auction cap (zero: unbounded).
pub open spec fn full_lots_spec(amount: Balance, max_size: Balance, cap: u32) -> int {
    if amount == 0 || max_size == 0 || amount <= max_size {
        0
    } else {
        let q = (amount - 1) as int / (max_size as int);
        if cap == 0 {
            q
        } else if q > cap {
            cap as int
        } else {
            q
        }
    }
}

/// As long as another whole full-sized lot fits under the total amount, the
/// full-sized lot targets allocated so far stay under the total target.
proof fn lemma_lot_target_bound(max_size: Balance, amount: Balance, target: Balance, k: int)
    requires
        0 < max_size,
        0 <= k,
        (k + 1) * max_size <= amount,
    ensures
        0 <= (k + 1) * lot_target_spec(max_size, amount, target) <= target,
        lot_target_spec(max_size, amount, target) == crate::rate::fixed_mul_floor(
            crate::rate::rate_or_zero(max_size, amount),
            target as int,
        ),
{
    vstd::arithmetic::mul::lemma_mul_strictly_positive(k + 1, max_size as int);
    assert(amount > 0);
    assert(max_size <= amount) by (nonlinear_arith)
        requires
            0 <= k,
            0 < max_size,
            (k + 1) * max_size <= amount,
    ;
    crate::rate::lemma_fixed_proportion_le(max_size, amount, target);
    let scale = crate::rate::RATE_SCALE as int;
    let rate = (max_size as int * scale) / (amount as int);
    let lot = lot_target_spec(max_size, amount, target);
    assert(lot == (rate * target) / scale);
    vstd::arithmetic::div_mod::lemma_fundamental_div_mod(max_size as int * scale, amount as int);
    vstd::arithmetic::div_mod::lemma_fundamental_div_mod(rate * target, scale);
    vstd::arithmetic::div_mod::lemma_mod_bound(max_size as int * scale, amount as int);
    vstd::arithmetic::div_mod::lemma_mod_bound(rate * target, scale);
    vstd::arithmetic::mul::lemma_mul_nonnegative(max_size as int, scale);
    vstd::arithmetic::div_mod::lemma_div_pos_is_pos(max_size as int * scale, amount as int);
    assert((k + 1) * lot <= target) by (nonlinear_arith)
        requires
            0 < scale,
            0 < amount,
            0 <= target,
            0 <= rate,
            0 <= lot,
            0 <= k,
            (amount as int) * rate <= (max_size as int) * scale,
            scale * lot <= rate * target,
            (k + 1) * max_size <= amount,
    ;
    vstd::arithmetic::mul::lemma_mul_nonnegative(k + 1, lot as int);
}

/// How many fixed-size auctions the trigger loop would create from `pool`,
/// with no cap: one for each time the pool covers what is already in auction
/// (`in_auction` plus `extra`) and one more fixed size.
pub open spec fn uncapped_auction_count(
    pool: Balance,
    in_auction: Balance,
    extra: Balance,
    fixed_size: Balance,
) -> int {
    if fixed_size == 0 {
        0
    } else {
        let threshold = in_auction + extra + fixed_size;
        if pool < threshold {
            0
        } else {
            (pool - threshold) / (fixed_size as int) + 1
        }
    }
}

/// When a trigger loop stops because the pool no longer covers the
/// threshold, it has created exactly the uncapped count.
proof fn lemma_count_exhausted(
    pool: Balance,
    in_auction: Balance,
    extra: Balance,
    fixed_size: Balance,
    created: int,
)
    requires
        fixed_size != 0,
        0 <= created,
        created > 0 ==> pool - (created - 1) * fixed_size >= in_auction + extra + fixed_size,
        pool - created * fixed_size < in_auction + extra + fixed_size,
    ensures
        uncapped_auction_count(pool, in_auction, extra, fixed_size) == created,
{
    let th = in_auction + extra + fixed_size;
    if created == 0 {
        vstd::arithmetic::mul::lemma_mul_basics(fixed_size as int);
    } else {
        let x = pool - th;
        assert(created * fixed_size == (created - 1) * fixed_size + fixed_size) by (nonlinear_arith);
        vstd::arithmetic::mul::lemma_mul_nonnegative(created - 1, fixed_size as int);
        vstd::arithmetic::div_mod::lemma_fundamental_div_mod_converse(
            x,
            fixed_size as int,
            created - 1,
            x - (created - 1) * fixed_size,
        );
    }
}

/// When a trigger loop stops at the auction cap while the pool still covers
/// the threshold, the uncapped count is beyond the cap.
proof fn lemma_count_capped(
    pool: Balance,
    in_auction: Balance,
    extra: Balance,
    fixed_size: Balance,
    created: int,
)
    requires
        fixed_size != 0,
        0 <= created,
        pool - created * fixed_size >= in_auction + extra + fixed_size,
    ensures
        uncapped_auction_count(pool, in_auction, extra, fixed_size) > created,
{
    let th = in_auction + extra + fixed_size;
    let x = pool - th;
    vstd::arithmetic::mul::lemma_mul_nonnegative(created, fixed_size as int);
    vstd::arithmetic::div_mod::lemma_div_multiples_vanish(created, fixed_size as int);
    assert(created * fixed_size == (fixed_size as int) * created) by (nonlinear_arith);
    vstd::arithmetic::div_mod::lemma_div_is_ordered(created * fixed_size, x, fixed_size as int);
}

/// The treasury module: the balance sheet and auction-trigger configuration
/// of the system's treasury.
///
/// The surplus and debit pools record the system's accumulated surplus and
/// bad debt in stable currency; the collateral totals record seized
/// collateral per currency. Stable and collateral balances themselves live in
/// the host's ledger under the treasury account; operations return the
/// `LedgerOp` instructions the host must apply atomically with the call, and
/// `AuctionRequest` values for the host's auction execution engine.
#[derive(Clone)]
pub struct Module {
    stable_currency: CurrencyId,
    surplus_pool: Balance,
    debit_pool: Balance,
    total_collaterals: HashMap<u128, Balance>,
    surplus_auction_fixed_size: Balance,
    surplus_buffer_size: Balance,
    initial_amount_per_debit_auction: Balance,
    debit_auction_fixed_size: Balance,
    collateral_auction_maximum_size: HashMap<u128, Balance>,
    max_auctions_count: u32,
    is_shutdown: bool,
}

impl Module {
    /// The stable currency the treasury issues and burns.
    pub closed spec fn stable_currency_spec(self) -> CurrencyId {
        self.stable_currency
    }

    /// Accumulated system surplus.
    pub closed spec fn surplus_pool_spec(self) -> Balance {
        self.surplus_pool
    }

    /// Accumulated system bad debt.
    pub closed spec fn debit_pool_spec(self) -> Balance {
        self.debit_pool
    }

    /// Collateral held, keyed by `CurrencyId::key_spec`.
    pub closed spec fn collateral_map(self) -> Map<u128, Balance> {
        self.total_collaterals@
    }

    /// Stable currency sold per surplus auction.
    pub closed spec fn surplus_auction_fixed_size_spec(self) -> Balance {
        self.surplus_auction_fixed_size
    }

    /// Surplus kept back from auctioning.
    pub closed spec fn surplus_buffer_size_spec(self) -> Balance {
        self.surplus_buffer_size
    }

    /// Native currency offered per debit auction.
    pub closed spec fn initial_amount_per_debit_auction_spec(self) -> Balance {
        self.initial_amount_per_debit_auction
    }

    /// Stable currency raised per debit auction.
    pub closed spec fn debit_auction_fixed_size_spec(self) -> Balance {
        self.debit_auction_fixed_size
    }

    /// Largest collateral lot per currency, keyed by `CurrencyId::key_spec`.
    pub closed spec fn collateral_max_map(self) -> Map<u128, Balance> {
        self.collateral_auction_maximum_size@
    }

    /// Cap on auctions created in one settlement cycle (zero: unbounded).
    pub closed spec fn max_auctions_count_spec(self) -> u32 {
        self.max_auctions_count
    }

    /// Whether the system has been shut down.
    pub closed spec fn is_shutdown_spec(self) -> bool {
        self.is_shutdown
    }

    /// Collateral held in a currency; zero when absent.
    pub open spec fn collateral_of(self, currency: CurrencyId) -> Balance {
        if self.collateral_map().contains_key(currency.key_spec()) {
            self.collateral_map()[currency.key_spec()]
        } else {
            0 as Balance
        }
    }

    /// Largest collateral lot for a currency; zero (unlimited) when absent.
    pub open spec fn collateral_max_of(self, currency: CurrencyId) -> Balance {
        if self.collateral_max_map().contains_key(currency.key_spec()) {
            self.collateral_max_map()[currency.key_spec()]
        } else {
            0 as Balance
        }
    }

    /// The parts of the treasury that auction-parameter updates leave alone.
    pub open spec fn same_pools(a: Module, b: Module) -> bool {
        &&& a.stable_currency_spec() == b.stable_currency_spec()
        &&& a.surplus_pool_spec() == b.surplus_pool_spec()
        &&& a.debit_pool_spec() == b.debit_pool_spec()
        &&& a.collateral_map() == b.collateral_map()
        &&& a.is_shutdown_spec() == b.is_shutdown_spec()
    }

    /// The configuration, which balance-sheet operations leave alone.
    pub open spec fn same_params(a: Module, b: Module) -> bool {
        &&& a.stable_currency_spec() == b.stable_currency_spec()
        &&& a.surplus_auction_fixed_size_spec() == b.surplus_auction_fixed_size_spec()
        &&& a.surplus_buffer_size_spec() == b.surplus_buffer_size_spec()
        &&& a.initial_amount_per_debit_auction_spec() == b.initial_amount_per_debit_auction_spec()
        &&& a.debit_auction_fixed_size_spec() == b.debit_auction_fixed_size_spec()
        &&& a.collateral_max_map() == b.collateral_max_map()
        &&& a.max_auctions_count_spec() == b.max_auctions_count_spec()
    }

    /// A fresh treasury with empty pools and the given configuration.
    pub fn new(
        stable_currency: CurrencyId,
        surplus_auction_fixed_size: Balance,
        surplus_buffer_size: Balance,
        initial_amount_per_debit_auction: Balance,
        debit_auction_fixed_size: Balance,
        max_auctions_count: u32,
    ) -> (r: Module)
        ensures
            r.stable_currency_spec() == stable_currency,
            r.surplus_pool_spec() == 0,
            r.debit_pool_spec() == 0,
            r.collateral_map() == Map::<u128, Balance>::empty(),
            r.surplus_auction_fixed_size_spec() == surplus_auction_fixed_size,
            r.surplus_buffer_size_spec() == surplus_buffer_size,
            r.initial_amount_per_debit_auction_spec() == initial_amount_per_debit_auction,
            r.debit_auction_fixed_size_spec() == debit_auction_fixed_size,
            r.collateral_max_map() == Map::<u128, Balance>::empty(),
            r.max_auctions_count_spec() == max_auctions_count,
            !r.is_shutdown_spec(),
    {
        Module {
            stable_currency,
            surplus_pool: 0,
            debit_pool: 0,
            total_collaterals: HashMap::new(),
            surplus_auction_fixed_size,
            surplus_buffer_size,
            initial_amount_per_debit_auction,
            debit_auction_fixed_size,
            collateral_auction_maximum_size: HashMap::new(),
            max_auctions_count,
            is_shutdown: false,
        }
    }

    /// The custodial account holding the treasury's assets.
    pub fn account_id(&self) -> (r: AccountId)
        ensures
            r == TREASURY_ACCOUNT,
    {
        TREASURY_ACCOUNT
    }

    /// Marks the system as shut down; the periodic auction trigger then
    /// stands still.
    pub fn emergency_shutdown(&mut self)
        ensures
            final(self).is_shutdown_spec(),
            final(self).surplus_pool_spec() == old(self).surplus_pool_spec(),
            final(self).debit_pool_spec() == old(self).debit_pool_spec(),
            final(self).collateral_map() == old(self).collateral_map(),
            Module::same_params(*final(self), *old(self)),
    {
        self.is_shutdown = true;
    }

    /// Whether the system has been shut down.
    pub fn is_shutdown(&self) -> (r: bool)
        ensures
            r == self.is_shutdown_spec(),
    {
        self.is_shutdown
    }

    /// The accumulated system surplus.
    pub fn get_surplus_pool(&self) -> (r: Balance)
        ensures
            r == self.surplus_pool_spec(),
    {
        self.surplus_pool
    }

    /// The accumulated system bad debt.
    pub fn get_debit_pool(&self) -> (r: Balance)
        ensures
            r == self.debit_pool_spec(),
    {
        self.debit_pool
    }

    /// The collateral held in a currency.
    pub fn get_total_collaterals(&self, currency: CurrencyId) -> (r: Balance)
        ensures
            r == self.collateral_of(currency),
    {
        let k: u128 = currency.key();
        match self.total_collaterals.get(&k) {
            Some(v) => *v,
            None => 0,
        }
    }

    /// The largest collateral lot for a currency (zero: unlimited).
    pub fn collateral_auction_maximum_size(&self, currency: CurrencyId) -> (r: Balance)
        ensures
            r == self.collateral_max_of(currency),
    {
        let k: u128 = currency.key();
        match self.collateral_auction_maximum_size.get(&k) {
            Some(v) => *v,
            None => 0,
        }
    }

    /// Updates the surplus- and debit-auction parameters; a `None` leaves the
    /// parameter as it is.
    pub fn set_debit_and_surplus_handle_params(
        &mut self,
        surplus_auction_fixed_size: Option<Balance>,
        surplus_buffer_size: Option<Balance>,
        initial_amount_per_debit_auction: Option<Balance>,
        debit_auction_fixed_size: Option<Balance>,
    )
        ensures
            Module::same_pools(*final(self), *old(self)),
            final(self).collateral_max_map() == old(self).collateral_max_map(),
            final(self).max_auctions_count_spec() == old(self).max_auctions_count_spec(),
            final(self).surplus_auction_fixed_size_spec() == (match surplus_auction_fixed_size {
                Some(v) => v,
                None => old(self).surplus_auction_fixed_size_spec(),
            }),
            final(self).surplus_buffer_size_spec() == (match surplus_buffer_size {
                Some(v) => v,
                None => old(self).surplus_buffer_size_spec(),
            }),
            final(self).initial_amount_per_debit_auction_spec() == (match initial_amount_per_debit_auction {
                Some(v) => v,
                None => old(self).initial_amount_per_debit_auction_spec(),
            }),
            final(self).debit_auction_fixed_size_spec() == (match debit_auction_fixed_size {
                Some(v) => v,
                None => old(self).debit_auction_fixed_size_spec(),
            }),
    {
        match surplus_auction_fixed_size {
            Some(amount) => {
                self.surplus_auction_fixed_size = amount;
            },
            None => {},
        }
        match surplus_buffer_size {
            Some(amount) => {
                self.surplus_buffer_size = amount;
            },
            None => {},
        }
        match initial_amount_per_debit_auction {
            Some(amount) => {
                self.initial_amount_per_debit_auction = amount;
            },
            None => {},
        }
        match debit_auction_fixed_size {
            Some(amount) => {
                self.debit_auction_fixed_size = amount;
            },
            None => {},
        }
    }

    /// Sets the largest collateral-auction lot for a currency.
    pub fn set_collateral_auction_maximum_size(&mut self, currency: CurrencyId, size: Balance)
        ensures
            Module::same_pools(*final(self), *old(self)),
            final(self).collateral_max_map() == old(self).collateral_max_map().insert(
                currency.key_spec(),
                size,
            ),
            final(self).max_auctions_count_spec() == old(self).max_auctions_count_spec(),
            final(self).surplus_auction_fixed_size_spec() == old(self).surplus_auction_fixed_size_spec(),
            final(self).surplus_buffer_size_spec() == old(self).surplus_buffer_size_spec(),
            final(self).initial_amount_per_debit_auction_spec() == old(self).initial_amount_per_debit_auction_spec(),
            final(self).debit_auction_fixed_size_spec() == old(self).debit_auction_fixed_size_spec(),
    {
        let k: u128 = currency.key();
        self.collateral_auction_maximum_size.insert(k, size);
    }

    /// Books newly discovered bad debt into the debit pool. Succeeds exactly
    /// when the pool does not overflow.
    pub fn on_system_debit(&mut self, amount: Balance) -> (r: Result<(), TreasuryError>)
        ensures
            Module::same_params(*final(self), *old(self)),
            final(self).collateral_map() == old(self).collateral_map(),
            final(self).surplus_pool_spec() == old(self).surplus_pool_spec(),
            final(self).is_shutdown_spec() == old(self).is_shutdown_spec(),
            match r {
                Ok(_) => old(self).debit_pool_spec() + amount <= u64::MAX && final(self).debit_pool_spec()
                    == old(self).debit_pool_spec() + amount,
                Err(e) => e == TreasuryError::DebitPoolOverflow && old(self).debit_pool_spec() + amount
                    > u64::MAX && *final(self) == *old(self),
            },
    {
        match self.debit_pool.checked_add(amount) {
            Some(new_debit_pool) => {
                self.debit_pool = new_debit_pool;
                Ok(())
            },
            None => Err(TreasuryError::DebitPoolOverflow),
        }
    }

    /// Books system surplus into the surplus pool and mints that much stable
    /// currency into the treasury account. Succeeds exactly when the pool
    /// does not overflow.
    pub fn on_system_surplus(&mut self, amount: Balance) -> (r: Result<Vec<LedgerOp>, TreasuryError>)
        ensures
            Module::same_params(*final(self), *old(self)),
            final(self).collateral_map() == old(self).collateral_map(),
            final(self).debit_pool_spec() == old(self).debit_pool_spec(),
            final(self).is_shutdown_spec() == old(self).is_shutdown_spec(),
            match r {
                Ok(cmds) => old(self).surplus_pool_spec() + amount <= u64::MAX && final(self).surplus_pool_spec() == old(self).surplus_pool_spec() + amount && cmds@ == seq![
                    (LedgerOp::Deposit {
                        currency: old(self).stable_currency_spec(),
                        account: TREASURY_ACCOUNT,
                        amount,
                    }),
                ],
                Err(e) => e == TreasuryError::SurplusPoolOverflow && old(self).surplus_pool_spec() + amount
                    > u64::MAX && *final(self) == *old(self),
            },
    {
        match self.surplus_pool.checked_add(amount) {
            Some(new_surplus_pool) => {
                self.surplus_pool = new_surplus_pool;
                let mut cmds: Vec<LedgerOp> = Vec::new();
                cmds.push(
                    LedgerOp::Deposit { currency: self.stable_currency, account: TREASURY_ACCOUNT, amount },
                );
                Ok(cmds)
            },
            None => Err(TreasuryError::SurplusPoolOverflow),
        }
    }

    /// Mints stable currency, already backed by the debit pool, to an
    /// account.
    pub fn deposit_backed_debit_to(&self, who: AccountId, amount: Balance) -> (cmds: Vec<LedgerOp>)
        ensures
            cmds@ == seq![
                (LedgerOp::Deposit { currency: self.stable_currency_spec(), account: who, amount }),
            ],
    {
        let mut cmds: Vec<LedgerOp> = Vec::new();
        cmds.push(LedgerOp::Deposit { currency: self.stable_currency, account: who, amount });
        cmds
    }

    /// Mints unbacked stable currency to an account, booking it as bad debt.
    /// Succeeds exactly when the debit pool does not overflow.
    pub fn deposit_unbacked_debit_to(&mut self, who: AccountId, amount: Balance) -> (r: Result<
        Vec<LedgerOp>,
        TreasuryError,
    >)
        ensures
            Module::same_params(*final(self), *old(self)),
            final(self).collateral_map() == old(self).collateral_map(),
            final(self).surplus_pool_spec() == old(self).surplus_pool_spec(),
            final(self).is_shutdown_spec() == old(self).is_shutdown_spec(),
            match r {
                Ok(cmds) => old(self).debit_pool_spec() + amount <= u64::MAX && final(self).debit_pool_spec()
                    == old(self).debit_pool_spec() + amount && cmds@ == seq![
                    (LedgerOp::Deposit { currency: old(self).stable_currency_spec(), account: who, amount }),
                ],
                Err(e) => e == TreasuryError::DebitPoolOverflow && old(self).debit_pool_spec() + amount
                    > u64::MAX && *final(self) == *old(self),
            },
    {
        match self.on_system_debit(amount) {
            Ok(_) => {
                let mut cmds: Vec<LedgerOp> = Vec::new();
                cmds.push(LedgerOp::Deposit { currency: self.stable_currency, account: who, amount });
                Ok(cmds)
            },
            Err(e) => Err(e),
        }
    }

    /// Burns backed stable currency from an account.
    pub fn withdraw_backed_debit_from(&self, who: AccountId, amount: Balance) -> (cmds: Vec<LedgerOp>)
        ensures
            cmds@ == seq![
                (LedgerOp::Withdraw { currency: self.stable_currency_spec(), account: who, amount }),
            ],
    {
        let mut cmds: Vec<LedgerOp> = Vec::new();
        cmds.push(LedgerOp::Withdraw { currency: self.stable_currency, account: who, amount });
        cmds
    }

    /// Collects stable currency from an account into the surplus pool.
    /// Succeeds exactly when the pool does not overflow.
    pub fn transfer_surplus_from(&mut self, from: AccountId, amount: Balance) -> (r: Result<
        Vec<LedgerOp>,
        TreasuryError,
    >)
        ensures
            Module::same_params(*final(self), *old(self)),
            final(self).collateral_map() == old(self).collateral_map(),
            final(self).debit_pool_spec() == old(self).debit_pool_spec(),
            final(self).is_shutdown_spec() == old(self).is_shutdown_spec(),
            match r {
                Ok(cmds) => old(self).surplus_pool_spec() + amount <= u64::MAX && final(self).surplus_pool_spec() == old(self).surplus_pool_spec() + amount && cmds@ == seq![
                    (LedgerOp::Transfer {
                        currency: old(self).stable_currency_spec(),
                        from,
                        to: TREASURY_ACCOUNT,
                        amount,
                    }),
                ],
                Err(e) => e == TreasuryError::SurplusPoolOverflow && old(self).surplus_pool_spec() + amount
                    > u64::MAX && *final(self) == *old(self),
            },
    {
        match self.surplus_pool.checked_add(amount) {
            Some(new_surplus_pool) => {
                self.surplus_pool = new_surplus_pool;
                let mut cmds: Vec<LedgerOp> = Vec::new();
                cmds.push(
                    LedgerOp::Transfer {
                        currency: self.stable_currency,
                        from,
                        to: TREASURY_ACCOUNT,
                        amount,
                    },
                );
                Ok(cmds)
            },
            None => Err(TreasuryError::SurplusPoolOverflow),
        }
    }

    /// Releases collateral from the treasury to an account. Succeeds exactly
    /// when that much collateral is held.
    pub fn transfer_collateral_to(&mut self, currency: CurrencyId, to: AccountId, amount: Balance) -> (r: Result<
        Vec<LedgerOp>,
        TreasuryError,
    >)
        ensures
            Module::same_params(*final(self), *old(self)),
            final(self).surplus_pool_spec() == old(self).surplus_pool_spec(),
            final(self).debit_pool_spec() == old(self).debit_pool_spec(),
            final(self).is_shutdown_spec() == old(self).is_shutdown_spec(),
            match r {
                Ok(cmds) => old(self).collateral_of(currency) >= amount && final(self).collateral_map()
                    == old(self).collateral_map().insert(
                    currency.key_spec(),
                    (old(self).collateral_of(currency) - amount) as Balance,
                ) && cmds@ == seq![
                    (LedgerOp::Transfer { currency, from: TREASURY_ACCOUNT, to, amount }),
                ],
                Err(e) => e == TreasuryError::CollateralNotEnough && old(self).collateral_of(currency)
                    < amount && *final(self) == *old(self),
            },
    {
        let held: Balance = self.get_total_collaterals(currency);
        if held < amount {
            return Err(TreasuryError::CollateralNotEnough);
        }
        let k: u128 = currency.key();
        self.total_collaterals.insert(k, held - amount);
        let mut cmds: Vec<LedgerOp> = Vec::new();
        cmds.push(LedgerOp::Transfer { currency, from: TREASURY_ACCOUNT, to, amount });
        Ok(cmds)
    }

    /// Seizes collateral from an account into the treasury. Succeeds exactly
    /// when the collateral total does not overflow.
    pub fn transfer_collateral_from(&mut self, currency: CurrencyId, from: AccountId, amount: Balance) -> (r: Result<
        Vec<LedgerOp>,
        TreasuryError,
    >)
        ensures
            Module::same_params(*final(self), *old(self)),
            final(self).surplus_pool_spec() == old(self).surplus_pool_spec(),
            final(self).debit_pool_spec() == old(self).debit_pool_spec(),
            final(self).is_shutdown_spec() == old(self).is_shutdown_spec(),
            match r {
                Ok(cmds) => old(self).collateral_of(currency) + amount <= u64::MAX && final(self).collateral_map() == old(self).collateral_map().insert(
                    currency.key_spec(),
                    (old(self).collateral_of(currency) + amount) as Balance,
                ) && cmds@ == seq![
                    (LedgerOp::Transfer { currency, from, to: TREASURY_ACCOUNT, amount }),
                ],
                Err(e) => e == TreasuryError::CollateralOverflow && old(self).collateral_of(currency)
                    + amount > u64::MAX && *final(self) == *old(self),
            },
    {
        let held: Balance = self.get_total_collaterals(currency);
        match held.checked_add(amount) {
            Some(new_total) => {
                let k: u128 = currency.key();
                self.total_collaterals.insert(k, new_total);
                let mut cmds: Vec<LedgerOp> = Vec::new();
                cmds.push(LedgerOp::Transfer { currency, from, to: TREASURY_ACCOUNT, amount });
                Ok(cmds)
            },
            None => Err(TreasuryError::CollateralOverflow),
        }
    }

    /// The share of the stable currency's total issuance that `amount`
    /// represents.
    pub fn get_debit_proportion(&self, amount: Balance, stable_total_issuance: Balance) -> (r: Ratio)
        ensures
            r == crate::rate::rate_or_zero(amount, stable_total_issuance),
    {
        FixedRate::from_rational_or_zero(amount, stable_total_issuance)
    }

    /// Nets the surplus pool against the debit pool: both shrink by the
    /// smaller of the two, and that much stable currency is burned from the
    /// treasury account. The primary debt-extinguishing step of every
    /// settlement cycle.
    pub fn offset_surplus_and_debit(&mut self) -> (cmds: Vec<LedgerOp>)
        ensures
            Module::same_params(*final(self), *old(self)),
            final(self).collateral_map() == old(self).collateral_map(),
            final(self).is_shutdown_spec() == old(self).is_shutdown_spec(),
            ({
                let offset = if old(self).surplus_pool_spec() <= old(self).debit_pool_spec() {
                    old(self).surplus_pool_spec()
                } else {
                    old(self).debit_pool_spec()
                };
                &&& final(self).surplus_pool_spec() == old(self).surplus_pool_spec() - offset
                &&& final(self).debit_pool_spec() == old(self).debit_pool_spec() - offset
                &&& cmds@ == if offset == 0 {
                    Seq::<LedgerOp>::empty()
                } else {
                    seq![
                        (LedgerOp::Withdraw {
                            currency: old(self).stable_currency_spec(),
                            account: TREASURY_ACCOUNT,
                            amount: offset,
                        }),
                    ]
                }
            }),
    {
        let offset_amount: Balance = if self.debit_pool <= self.surplus_pool {
            self.debit_pool
        } else {
            self.surplus_pool
        };
        let mut cmds: Vec<LedgerOp> = Vec::new();
        if offset_amount != 0 {
            self.debit_pool = self.debit_pool - offset_amount;
            self.surplus_pool = self.surplus_pool - offset_amount;
            cmds.push(
                LedgerOp::Withdraw {
                    currency: self.stable_currency,
                    account: TREASURY_ACCOUNT,
                    amount: offset_amount,
                },
            );
        }
        cmds
    }

    /// Splits seized collateral into auction lots: full lots no larger than
    /// the currency's maximum size, each allocated a proportional share of
    /// `target` computed from the original totals, and one final lot that
    /// carries the remainder of both. Splitting stops at the cycle's auction
    /// cap, the remainder then forming one oversized final lot. Produces
    /// nothing unless the treasury holds `amount` beyond what is already in
    /// auction.
    pub fn create_collateral_auctions(
        &self,
        currency_id: CurrencyId,
        amount: Balance,
        target: Balance,
        refund_receiver: AccountId,
        collateral_in_auction: Balance,
    ) -> (r: Vec<AuctionRequest>)
        ensures
            ({
                let max_size = self.collateral_max_of(currency_id);
                let cap = self.max_auctions_count_spec();
                let lot = lot_target_spec(max_size, amount, target);
                let full = full_lots_spec(amount, max_size, cap);
                if self.collateral_of(currency_id) < amount + collateral_in_auction || amount == 0 {
                    r@ == Seq::<AuctionRequest>::empty()
                } else {
                    &&& full * max_size < amount
                    &&& 0 <= full * lot <= target
                    &&& r@.len() == full + 1
                    &&& forall|i: int|
                        0 <= i < full ==> r@[i] == (AuctionRequest::Collateral {
                            refund_receiver,
                            currency: currency_id,
                            amount: max_size,
                            target: lot,
                        })
                    &&& r@[full] == (AuctionRequest::Collateral {
                        refund_receiver,
                        currency: currency_id,
                        amount: (amount - full * max_size) as Balance,
                        target: (target - full * lot) as Balance,
                    })
                }
            }),
    {
        let held: Balance = self.get_total_collaterals(currency_id);
        if (held as u128) < (amount as u128) + (collateral_in_auction as u128) {
            return Vec::new();
        }
        if amount == 0 {
            return Vec::new();
        }
        let collateral_auction_maximum_size: Balance = self.collateral_auction_maximum_size(currency_id);
        let max_auctions_count: u32 = self.max_auctions_count;
        let ghost lot = lot_target_spec(collateral_auction_maximum_size, amount, target);
        let ghost full = full_lots_spec(amount, collateral_auction_maximum_size, max_auctions_count);
        let mut unhandled_collateral_amount: Balance = amount;
        let mut unhandled_target: Balance = target;
        let mut created_lots: u64 = 0;
        let mut requests: Vec<AuctionRequest> = Vec::new();
        proof {
            vstd::arithmetic::mul::lemma_mul_basics(collateral_auction_maximum_size as int);
            vstd::arithmetic::mul::lemma_mul_basics(lot as int);
            if collateral_auction_maximum_size != 0 && amount > collateral_auction_maximum_size {
                let q = (amount - 1) as int / (collateral_auction_maximum_size as int);
                vstd::arithmetic::div_mod::lemma_div_pos_is_pos(
                    amount - 1,
                    collateral_auction_maximum_size as int,
                );
                vstd::arithmetic::div_mod::lemma_div_nonincreasing(
                    amount - 1,
                    collateral_auction_maximum_size as int,
                );
                vstd::arithmetic::div_mod::lemma_fundamental_div_mod(
                    amount - 1,
                    collateral_auction_maximum_size as int,
                );
                vstd::arithmetic::div_mod::lemma_mod_bound(
                    amount - 1,
                    collateral_auction_maximum_size as int,
                );
                assert((collateral_auction_maximum_size as int) * q == q * (
                collateral_auction_maximum_size as int)) by (nonlinear_arith);
                vstd::arithmetic::mul::lemma_mul_inequality(
                    full,
                    q,
                    collateral_auction_maximum_size as int,
                );
                assert(full * (collateral_auction_maximum_size as int) < amount);
                if full > 0 {
                    lemma_lot_target_bound(
                        collateral_auction_maximum_size,
                        amount,
                        target,
                        full - 1,
                    );
                }
            }
            assert(full < amount);
        }
        while unhandled_collateral_amount != 0
            invariant
                collateral_auction_maximum_size == self.collateral_max_of(currency_id),
                max_auctions_count == self.max_auctions_count_spec(),
                lot == lot_target_spec(collateral_auction_maximum_size, amount, target),
                full == full_lots_spec(amount, collateral_auction_maximum_size, max_auctions_count),
                0 < amount,
                full < amount,
                0 <= created_lots <= full,
                max_auctions_count != 0 ==> created_lots <= max_auctions_count,
                unhandled_collateral_amount != 0 ==> {
                    &&& requests@.len() == created_lots
                    &&& unhandled_collateral_amount == amount - created_lots * collateral_auction_maximum_size
                    &&& unhandled_target == target - created_lots * lot
                },
                unhandled_collateral_amount == 0 ==> {
                    &&& created_lots == full
                    &&& requests@.len() == full + 1
                    &&& requests@[full] == (AuctionRequest::Collateral {
                        refund_receiver,
                        currency: currency_id,
                        amount: (amount - full * collateral_auction_maximum_size) as Balance,
                        target: (target - full * lot) as Balance,
                    })
                },
                forall|i: int|
                    0 <= i < created_lots ==> requests@[i] == (AuctionRequest::Collateral {
                        refund_receiver,
                        currency: currency_id,
                        amount: collateral_auction_maximum_size,
                        target: lot,
                    }),
                full * collateral_auction_maximum_size < amount,
                0 <= full * lot <= target,
            decreases unhandled_collateral_amount,
        {
            let ghost k = created_lots as int;
            let (lot_collateral_amount, lot_target): (Balance, Balance) = if unhandled_collateral_amount
                > collateral_auction_maximum_size && collateral_auction_maximum_size != 0 {
                if max_auctions_count != 0 && created_lots >= max_auctions_count as u64 {
                    proof {
                        lemma_full_lots_at_cap(
                            amount,
                            collateral_auction_maximum_size,
                            max_auctions_count,
                            k,
                        );
                    }
                    (unhandled_collateral_amount, unhandled_target)
                } else {
                    proof {
                        lemma_full_lots_above(
                            amount,
                            collateral_auction_maximum_size,
                            max_auctions_count,
                            k,
                        );
                        lemma_lot_target_bound(collateral_auction_maximum_size, amount, target, k);
                        lemma_lot_target_bound(
                            collateral_auction_maximum_size,
                            amount,
                            target,
                            if k > 0 {
                                k - 1
                            } else {
                                0
                            },
                        );
                        assert((k + 1) * lot == k * lot + lot) by (nonlinear_arith);
                        assert((k + 1) * collateral_auction_maximum_size == k
                            * collateral_auction_maximum_size + collateral_auction_maximum_size)
                            by (nonlinear_arith);
                    }
                    created_lots += 1;
                    let proportion = FixedRate::from_rational_or_zero(
                        collateral_auction_maximum_size,
                        amount,
                    );
                    (collateral_auction_maximum_size, proportion.saturating_mul_int(target))
                }
            } else {
                proof {
                    lemma_full_lots_done(amount, collateral_auction_maximum_size, max_auctions_count, k);
                }
                (unhandled_collateral_amount, unhandled_target)
            };
            requests.push(
                AuctionRequest::Collateral {
                    refund_receiver,
                    currency: currency_id,
                    amount: lot_collateral_amount,
                    target: lot_target,
                },
            );
            unhandled_collateral_amount = unhandled_collateral_amount - lot_collateral_amount;
            unhandled_target = unhandled_target - lot_target;
        }
        requests
    }

    /// Sells seized collateral through the exchange for stable currency: the
    /// direct pair is swapped with the whole `supply_amount`, demanding at
    /// least `target_amount` back; the realized output is booked into the
    /// surplus pool and the collateral total shrinks by the amount sold.
    /// Succeeds exactly when that much collateral is held, the swap quote
    /// succeeds and reaches `target_amount`, and the surplus pool does not
    /// overflow; on any failure both the treasury and the exchange are left
    /// untouched.
    pub fn swap_collateral_to_stable(
        &mut self,
        dex: &mut Dex,
        currency_id: CurrencyId,
        supply_amount: Balance,
        target_amount: Balance,
    ) -> (r: Result<(Balance, Vec<LedgerOp>), TreasurySwapError>)
        requires
            old(dex).wf(),
        ensures
            final(dex).wf(),
            Dex::same_config(*final(dex), *old(dex)),
            Module::same_params(*final(self), *old(self)),
            final(self).debit_pool_spec() == old(self).debit_pool_spec(),
            final(self).is_shutdown_spec() == old(self).is_shutdown_spec(),
            ({
                let path = seq![currency_id, old(self).stable_currency_spec()];
                let quote = old(dex).target_amounts_spec(path, supply_amount, None);
                match r {
                    Ok(res) => {
                        &&& old(self).collateral_of(currency_id) >= supply_amount
                        &&& quote matches Ok(amounts) && {
                            let realized = amounts[amounts.len() - 1];
                            &&& realized >= target_amount
                            &&& old(self).surplus_pool_spec() + realized <= u64::MAX
                            &&& res.0 == realized
                            &&& final(self).collateral_map() == old(self).collateral_map().insert(
                                currency_id.key_spec(),
                                (old(self).collateral_of(currency_id) - supply_amount) as Balance,
                            )
                            &&& final(self).surplus_pool_spec() == old(self).surplus_pool_spec()
                                + realized
                            &&& final(dex).pool_map() == path_swapped(
                                old(dex).pool_map(),
                                path,
                                amounts,
                                0,
                            )
                            &&& final(dex).status_map() == old(dex).status_map()
                            &&& final(dex).share_map() == old(dex).share_map()
                            &&& final(dex).provision_map() == old(dex).provision_map()
                            &&& final(dex).rate_map() == old(dex).rate_map()
                            &&& res.1@ == seq![
                                (LedgerOp::Transfer {
                                    currency: currency_id,
                                    from: TREASURY_ACCOUNT,
                                    to: crate::dex::DEX_ACCOUNT,
                                    amount: supply_amount,
                                }),
                                (LedgerOp::Transfer {
                                    currency: old(self).stable_currency_spec(),
                                    from: crate::dex::DEX_ACCOUNT,
                                    to: TREASURY_ACCOUNT,
                                    amount: realized,
                                }),
                            ]
                        }
                    },
                    Err(e) => {
                        &&& *final(self) == *old(self)
                        &&& *final(dex) == *old(dex)
                        &&& if old(self).collateral_of(currency_id) < supply_amount {
                            e == TreasurySwapError::Treasury(TreasuryError::CollateralNotEnough)
                        } else {
                            match quote {
                                Err(qe) => e == TreasurySwapError::Dex(qe),
                                Ok(amounts) => {
                                    let realized = amounts[amounts.len() - 1];
                                    if realized < target_amount {
                                        e == TreasurySwapError::Dex(DexError::InsufficientTargetAmount)
                                    } else {
                                        e == TreasurySwapError::Treasury(TreasuryError::SurplusPoolOverflow)
                                            && old(self).surplus_pool_spec() + realized > u64::MAX
                                    }
                                },
                            }
                        }
                    },
                }
            }),
    {
        let held: Balance = self.get_total_collaterals(currency_id);
        if held < supply_amount {
            return Err(TreasurySwapError::Treasury(TreasuryError::CollateralNotEnough));
        }
        let mut path: Vec<CurrencyId> = Vec::new();
        path.push(currency_id);
        path.push(self.stable_currency);
        proof {
            assert(path@ =~= seq![currency_id, self.stable_currency_spec()]);
        }
        let quote = match dex.get_target_amounts(&path, supply_amount, None) {
            Ok(q) => q,
            Err(e) => {
                return Err(TreasurySwapError::Dex(e));
            },
        };
        let realized: Balance = quote[quote.len() - 1];
        if realized < target_amount {
            return Err(TreasurySwapError::Dex(DexError::InsufficientTargetAmount));
        }
        let new_surplus_pool: Balance = match self.surplus_pool.checked_add(realized) {
            Some(v) => v,
            None => {
                return Err(TreasurySwapError::Treasury(TreasuryError::SurplusPoolOverflow));
            },
        };
        match dex.swap_with_exact_supply(TREASURY_ACCOUNT, &path, supply_amount, target_amount, None) {
            Ok((amount, cmds)) => {
                let k: u128 = currency_id.key();
                self.total_collaterals.insert(k, held - supply_amount);
                self.surplus_pool = new_surplus_pool;
                Ok((amount, cmds))
            },
            Err(e) => Err(TreasurySwapError::Dex(e)),
        }
    }

    /// Runs the treasury's periodic settlement step: first nets the surplus
    /// and debit pools against each other (burning the offset), then — unless
    /// the system is shut down — requests fixed-size surplus auctions while
    /// the remaining surplus covers what is already in auction plus the
    /// buffer, and fixed-size debit auctions likewise, never requesting more
    /// auctions in total than the cycle's cap allows (zero: unbounded).
    pub fn advance_settlement_cycle(
        &mut self,
        total_surplus_in_auction: Balance,
        total_debit_in_auction: Balance,
        total_target_in_auction: Balance,
    ) -> (r: (Vec<LedgerOp>, Vec<AuctionRequest>))
        ensures
            Module::same_params(*final(self), *old(self)),
            final(self).collateral_map() == old(self).collateral_map(),
            final(self).is_shutdown_spec() == old(self).is_shutdown_spec(),
            ({
                let offset = if old(self).surplus_pool_spec() <= old(self).debit_pool_spec() {
                    old(self).surplus_pool_spec() as int
                } else {
                    old(self).debit_pool_spec() as int
                };
                &&& final(self).surplus_pool_spec() == old(self).surplus_pool_spec() - offset
                &&& final(self).debit_pool_spec() == old(self).debit_pool_spec() - offset
                &&& r.0@ == if offset == 0 {
                    Seq::<LedgerOp>::empty()
                } else {
                    seq![
                        (LedgerOp::Withdraw {
                            currency: old(self).stable_currency_spec(),
                            account: TREASURY_ACCOUNT,
                            amount: offset as Balance,
                        }),
                    ]
                }
                &&& ({
                    let cap = old(self).max_auctions_count_spec() as int;
                    let fixed_s = old(self).surplus_auction_fixed_size_spec();
                    let fixed_d = old(self).debit_auction_fixed_size_spec();
                    let init_d = old(self).initial_amount_per_debit_auction_spec();
                    let s_after = (old(self).surplus_pool_spec() - offset) as Balance;
                    let d_after = (old(self).debit_pool_spec() - offset) as Balance;
                    let raw_s = uncapped_auction_count(
                        s_after,
                        total_surplus_in_auction,
                        old(self).surplus_buffer_size_spec(),
                        fixed_s,
                    );
                    let n_s = if cap == 0 || raw_s <= cap {
                        raw_s
                    } else {
                        cap
                    };
                    let raw_d = if init_d == 0 {
                        0int
                    } else {
                        uncapped_auction_count(
                            d_after,
                            total_debit_in_auction,
                            total_target_in_auction,
                            fixed_d,
                        )
                    };
                    let n_d = if cap == 0 || raw_d <= cap - n_s {
                        raw_d
                    } else {
                        cap - n_s
                    };
                    if old(self).is_shutdown_spec() {
                        r.1@ == Seq::<AuctionRequest>::empty()
                    } else {
                        &&& r.1@.len() == n_s + n_d
                        &&& (cap != 0 ==> n_s + n_d <= cap)
                        &&& forall|i: int|
                            0 <= i < n_s ==> r.1@[i] == (AuctionRequest::Surplus { amount: fixed_s })
                        &&& forall|i: int|
                            n_s <= i < n_s + n_d ==> r.1@[i] == (AuctionRequest::Debit {
                                initial_amount: init_d,
                                fixed_target: fixed_d,
                            })
                    }
                })
            }),
    {
        let cmds: Vec<LedgerOp> = self.offset_surplus_and_debit();
        let mut auctions: Vec<AuctionRequest> = Vec::new();
        if self.is_shutdown {
            return (cmds, auctions);
        }
        let max_auctions_count: u32 = self.max_auctions_count;
        let ghost cap = max_auctions_count as int;
        let mut created_lots: u128 = 0;
        let surplus_auction_fixed_size: Balance = self.surplus_auction_fixed_size;
        let ghost s_after = self.surplus_pool;
        let ghost raw_s = uncapped_auction_count(
            s_after,
            total_surplus_in_auction,
            self.surplus_buffer_size_spec(),
            surplus_auction_fixed_size,
        );
        let ghost n_s: int = if cap == 0 || raw_s <= cap {
            raw_s
        } else {
            cap
        };
        if surplus_auction_fixed_size != 0 {
            let mut remain_surplus_pool: Balance = self.surplus_pool;
            let threshold: u128 = total_surplus_in_auction as u128 + self.surplus_buffer_size as u128
                + surplus_auction_fixed_size as u128;
            proof {
                vstd::arithmetic::mul::lemma_mul_basics(surplus_auction_fixed_size as int);
            }
            while (max_auctions_count == 0 || created_lots < max_auctions_count as u128)
                && (remain_surplus_pool as u128) >= threshold
                invariant
                    surplus_auction_fixed_size != 0,
                    threshold == total_surplus_in_auction + self.surplus_buffer_size_spec()
                        + surplus_auction_fixed_size,
                    raw_s == uncapped_auction_count(
                        s_after,
                        total_surplus_in_auction,
                        self.surplus_buffer_size_spec(),
                        surplus_auction_fixed_size,
                    ),
                    0 <= created_lots,
                    created_lots <= s_after,
                    remain_surplus_pool == s_after - created_lots * surplus_auction_fixed_size,
                    created_lots > 0 ==> s_after - (created_lots - 1) * surplus_auction_fixed_size
                        >= threshold,
                    max_auctions_count != 0 ==> created_lots <= max_auctions_count,
                    auctions@.len() == created_lots,
                    forall|i: int|
                        0 <= i < created_lots ==> auctions@[i] == (AuctionRequest::Surplus {
                            amount: surplus_auction_fixed_size,
                        }),
                decreases remain_surplus_pool,
            {
                proof {
                    assert((created_lots + 1) * surplus_auction_fixed_size == created_lots
                        * surplus_auction_fixed_size + surplus_auction_fixed_size) by (nonlinear_arith);
                    assert(created_lots + 1 <= s_after) by (nonlinear_arith)
                        requires
                            surplus_auction_fixed_size >= 1,
                            remain_surplus_pool == s_after - created_lots * surplus_auction_fixed_size,
                            remain_surplus_pool >= surplus_auction_fixed_size,
                            created_lots >= 0,
                    ;
                }
                auctions.push(AuctionRequest::Surplus { amount: surplus_auction_fixed_size });
                created_lots = created_lots + 1;
                remain_surplus_pool = remain_surplus_pool - surplus_auction_fixed_size;
            }
            proof {
                if (remain_surplus_pool as u128) < threshold {
                    lemma_count_exhausted(
                        s_after,
                        total_surplus_in_auction,
                        self.surplus_buffer_size_spec(),
                        surplus_auction_fixed_size,
                        created_lots as int,
                    );
                } else {
                    lemma_count_capped(
                        s_after,
                        total_surplus_in_auction,
                        self.surplus_buffer_size_spec(),
                        surplus_auction_fixed_size,
                        created_lots as int,
                    );
                }
                assert(created_lots == n_s);
            }
        }
        proof {
            assert(created_lots == n_s);
        }
        let debit_auction_fixed_size: Balance = self.debit_auction_fixed_size;
        let initial_amount_per_debit_auction: Balance = self.initial_amount_per_debit_auction;
        let ghost d_after = self.debit_pool;
        let ghost raw_d: int = if initial_amount_per_debit_auction == 0 {
            0int
        } else {
            uncapped_auction_count(
                d_after,
                total_debit_in_auction,
                total_target_in_auction,
                debit_auction_fixed_size,
            )
        };
        let ghost n_d: int = if cap == 0 || raw_d <= cap - n_s {
            raw_d
        } else {
            cap - n_s
        };
        if debit_auction_fixed_size != 0 && initial_amount_per_debit_auction != 0 {
            let mut remain_debit_pool: Balance = self.debit_pool;
            let threshold: u128 = total_debit_in_auction as u128 + total_target_in_auction as u128
                + debit_auction_fixed_size as u128;
            proof {
                vstd::arithmetic::mul::lemma_mul_basics(debit_auction_fixed_size as int);
            }
            while (max_auctions_count == 0 || created_lots < max_auctions_count as u128)
                && (remain_debit_pool as u128) >= threshold
                invariant
                    debit_auction_fixed_size != 0,
                    initial_amount_per_debit_auction != 0,
                    threshold == total_debit_in_auction + total_target_in_auction
                        + debit_auction_fixed_size,
                    0 <= n_s <= created_lots,
                    n_s <= s_after,
                    max_auctions_count != 0 ==> n_s <= max_auctions_count,
                    created_lots - n_s <= d_after,
                    remain_debit_pool == d_after - (created_lots - n_s) * debit_auction_fixed_size,
                    created_lots > n_s ==> d_after - (created_lots - n_s - 1) * debit_auction_fixed_size
                        >= threshold,
                    max_auctions_count != 0 ==> created_lots <= max_auctions_count,
                    auctions@.len() == created_lots,
                    forall|i: int|
                        0 <= i < n_s ==> auctions@[i] == (AuctionRequest::Surplus {
                            amount: surplus_auction_fixed_size,
                        }),
                    forall|i: int|
                        n_s <= i < created_lots ==> auctions@[i] == (AuctionRequest::Debit {
                            initial_amount: initial_amount_per_debit_auction,
                            fixed_target: debit_auction_fixed_size,
                        }),
                decreases remain_debit_pool,
            {
                proof {
                    assert((created_lots - n_s + 1) * debit_auction_fixed_size == (created_lots - n_s)
                        * debit_auction_fixed_size + debit_auction_fixed_size) by (nonlinear_arith);
                    assert(created_lots - n_s + 1 <= d_after) by (nonlinear_arith)
                        requires
                            debit_auction_fixed_size >= 1,
                            remain_debit_pool == d_after - (created_lots - n_s) * debit_auction_fixed_size,
                            remain_debit_pool >= debit_auction_fixed_size,
                            created_lots - n_s >= 0,
                    ;
                }
                auctions.push(
                    AuctionRequest::Debit {
                        initial_amount: initial_amount_per_debit_auction,
                        fixed_target: debit_auction_fixed_size,
                    },
                );
                created_lots = created_lots + 1;
                remain_debit_pool = remain_debit_pool - debit_auction_fixed_size;
            }
            proof {
                if (remain_debit_pool as u128) < threshold {
                    lemma_count_exhausted(
                        d_after,
                        total_debit_in_auction,
                        total_target_in_auction,
                        debit_auction_fixed_size,
                        created_lots - n_s,
                    );
                } else {
                    lemma_count_capped(
                        d_after,
                        total_debit_in_auction,
                        total_target_in_auction,
                        debit_auction_fixed_size,
                        created_lots - n_s,
                    );
                }
                assert(created_lots - n_s == n_d);
            }
        }
        proof {
            assert(created_lots == n_s + n_d);
        }
        (cmds, auctions)
    }
}

/// Below the cap, while more than a full lot remains, another full lot fits.
proof fn lemma_full_lots_above(amount: Balance, max_size: Balance, cap: u32, k: int)
    requires
        0 < max_size,
        0 <= k,
        cap != 0 ==> k < cap,
        k <= full_lots_spec(amount, max_size, cap),
        amount - k * max_size > max_size,
    ensures
        k + 1 <= full_lots_spec(amount, max_size, cap),
        (k + 1) * max_size < amount,
{
    assert((k + 1) * max_size == k * max_size + max_size) by (nonlinear_arith);
    vstd::arithmetic::div_mod::lemma_div_multiples_vanish(k + 1, max_size as int);
    vstd::arithmetic::div_mod::lemma_div_is_ordered(
        (k + 1) * (max_size as int),
        amount - 1,
        max_size as int,
    );
    assert((max_size as int) * (k + 1) == (k + 1) * (max_size as int)) by (nonlinear_arith);
}

/// Once the cap is reached while more than a full lot remains, the cap is
/// exactly the number of full lots.
proof fn lemma_full_lots_at_cap(amount: Balance, max_size: Balance, cap: u32, k: int)
    requires
        0 < max_size,
        cap != 0,
        k == cap,
        k <= full_lots_spec(amount, max_size, cap),
        amount - k * max_size > max_size,
    ensures
        full_lots_spec(amount, max_size, cap) == k,
{
    assert((k + 1) * max_size == k * max_size + max_size) by (nonlinear_arith);
    vstd::arithmetic::div_mod::lemma_div_multiples_vanish(k + 1, max_size as int);
    vstd::arithmetic::div_mod::lemma_div_is_ordered(
        (k + 1) * (max_size as int),
        amount - 1,
        max_size as int,
    );
    assert((max_size as int) * (k + 1) == (k + 1) * (max_size as int)) by (nonlinear_arith);
}

/// When at most a full lot remains (or lots are unbounded in size), the
/// full-sized lots are complete.
proof fn lemma_full_lots_done(amount: Balance, max_size: Balance, cap: u32, k: int)
    requires
        0 <= k,
        0 < amount,
        k <= full_lots_spec(amount, max_size, cap),
        amount - k * max_size > 0,
        max_size == 0 || amount - k * max_size <= max_size,
    ensures
        full_lots_spec(amount, max_size, cap) == k,
{
    if max_size == 0 {
        assert(full_lots_spec(amount, max_size, cap) == 0);
        assert(k * 0 == 0) by (nonlinear_arith);
    } else {
        if amount <= max_size {
            assert(full_lots_spec(amount, max_size, cap) == 0);
        } else {
            let q = (amount - 1) as int / (max_size as int);
            assert(amount - 1 < (max_size as int) * (k + 1)) by (nonlinear_arith)
                requires
                    amount - k * max_size <= max_size,
            ;
            vstd::arithmetic::div_mod::lemma_multiply_divide_lt(amount - 1, max_size as int, k + 1);
            assert(q <= k);
        }
    }
}

} // verus!
