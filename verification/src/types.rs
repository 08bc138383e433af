use vstd::prelude::*;
use vstd::arithmetic::div_mod::lemma_fundamental_div_mod_converse;

use crate::{AccountId, Balance, RoundNumber};

verus! {

/// A currency in the host ledger: a primary token, or the pool-share currency
/// that a trading pair of two tokens issues.
#[derive(Clone, Copy, PartialEq, Eq, Structural, Debug, Hash)]
pub enum CurrencyId {
    Token(u32),
    DexShare(u32, u32),
}

impl CurrencyId {
    /// Only primary tokens can form trading pairs.
    pub open spec fn is_trading_pair_currency(self) -> bool {
        self is Token
    }

    /// The token identifier; meaningful for `Token` values only.
    pub open spec fn token_id_spec(self) -> u32 {
        match self {
            CurrencyId::Token(t) => t,
            CurrencyId::DexShare(_, _) => 0,
        }
    }

    /// Injective encoding of a currency as a map key.
    pub open spec fn key_spec(self) -> u128 {
        match self {
            CurrencyId::Token(t) => t as u128,
            CurrencyId::DexShare(a, b) => (0x10000000000000000 + (a as int) * 0x100000000 + (b as int)) as u128,
        }
    }

    /// The map key of this currency.
    pub fn key(&self) -> (r: u128)
        ensures
            r == self.key_spec(),
    {
        match self {
            CurrencyId::Token(t) => *t as u128,
            CurrencyId::DexShare(a, b) => 0x10000000000000000 + (*a as u128) * 0x100000000 + (*b as u128),
        }
    }
}

/// Two currencies encode to the same key only if they are the same currency.
/// Treasury state is keyed by this encoding; a caller reasoning about two
/// distinct currencies needs this to conclude that an update under one key
/// leaves the other currency's entry alone.
pub proof fn lemma_currency_key_injective(a: CurrencyId, b: CurrencyId)
    requires
        a.key_spec() == b.key_spec(),
    ensures
        a == b,
{
    match (a, b) {
        (CurrencyId::DexShare(a0, a1), CurrencyId::DexShare(b0, b1)) => {
            lemma_fundamental_div_mod_converse(
                a.key_spec() - 0x10000000000000000,
                0x100000000,
                a0 as int,
                a1 as int,
            );
            lemma_fundamental_div_mod_converse(
                b.key_spec() - 0x10000000000000000,
                0x100000000,
                b0 as int,
                b1 as int,
            );
        },
        _ => {},
    }
}

/// An unordered pair of two distinct token currencies, canonicalized so that
/// the smaller token identifier always comes first. A pair also names the
/// pool-share currency it issues.
#[derive(Clone, Copy, PartialEq, Eq, Structural, Debug)]
pub struct TradingPair {
    /// Token identifier of the first (smaller) side.
    pub first_id: u32,
    /// Token identifier of the second (larger) side.
    pub second_id: u32,
}

impl TradingPair {
    /// The canonical order: the pair is well formed when the first token
    /// identifier is strictly below the second.
    pub open spec fn wf(self) -> bool {
        self.first_token() < self.second_token()
    }

    /// Token identifier of the first (smaller) side.
    pub open spec fn first_token(self) -> u32 {
        self.first_id
    }

    /// Token identifier of the second (larger) side.
    pub open spec fn second_token(self) -> u32 {
        self.second_id
    }

    /// The first side as a currency.
    pub open spec fn first_spec(self) -> CurrencyId {
        CurrencyId::Token(self.first_token())
    }

    /// The second side as a currency.
    pub open spec fn second_spec(self) -> CurrencyId {
        CurrencyId::Token(self.second_token())
    }

    /// The pool-share currency this pair issues.
    pub open spec fn share_currency_spec(self) -> CurrencyId {
        CurrencyId::DexShare(self.first_token(), self.second_token())
    }

    /// Injective encoding of the pair as a map key.
    pub open spec fn key_spec(self) -> u64 {
        ((self.first_token() as int) * 0x100000000 + (self.second_token() as int)) as u64
    }

    /// Whether two currencies can form a trading pair at all.
    pub open spec fn can_pair(a: CurrencyId, b: CurrencyId) -> bool {
        a.is_trading_pair_currency() && b.is_trading_pair_currency() && a != b
    }

    /// The canonical pair formed from two pairable currencies.
    pub open spec fn pair_of(a: CurrencyId, b: CurrencyId) -> TradingPair {
        if a.token_id_spec() < b.token_id_spec() {
            TradingPair { first_id: a.token_id_spec(), second_id: b.token_id_spec() }
        } else {
            TradingPair { first_id: b.token_id_spec(), second_id: a.token_id_spec() }
        }
    }

    /// Canonicalizes two currencies into a trading pair; fails when either is
    /// not a primary token or both are the same currency.
    pub fn from_currency_ids(currency_id_a: CurrencyId, currency_id_b: CurrencyId) -> (r: Option<TradingPair>)
        ensures
            r matches Some(p) ==> Self::can_pair(currency_id_a, currency_id_b) && p == Self::pair_of(
                currency_id_a,
                currency_id_b,
            ) && p.wf(),
            r is None <==> !Self::can_pair(currency_id_a, currency_id_b),
    {
        match (currency_id_a, currency_id_b) {
            (CurrencyId::Token(a), CurrencyId::Token(b)) => {
                if a < b {
                    Some(TradingPair { first_id: a, second_id: b })
                } else if b < a {
                    Some(TradingPair { first_id: b, second_id: a })
                } else {
                    None
                }
            },
            _ => None,
        }
    }

    /// The first (smaller) side as a currency.
    pub fn first(&self) -> (r: CurrencyId)
        ensures
            r == self.first_spec(),
    {
        CurrencyId::Token(self.first_id)
    }

    /// The second (larger) side as a currency.
    pub fn second(&self) -> (r: CurrencyId)
        ensures
            r == self.second_spec(),
    {
        CurrencyId::Token(self.second_id)
    }

    /// The pool-share currency this pair issues.
    pub fn dex_share_currency_id(&self) -> (r: CurrencyId)
        ensures
            r == self.share_currency_spec(),
    {
        CurrencyId::DexShare(self.first_id, self.second_id)
    }

    /// The map key of this pair.
    pub fn key(&self) -> (r: u64)
        ensures
            r == self.key_spec(),
    {
        (self.first_id as u64) * 0x100000000 + (self.second_id as u64)
    }
}

/// Two pairs encode to the same key only if they are the same pair.
/// Exchange state is keyed by this encoding; a caller reasoning about two
/// distinct pairs needs this to conclude that an update under one key leaves
/// the other pair's entries alone.
pub proof fn lemma_pair_key_injective(p: TradingPair, q: TradingPair)
    requires
        p.key_spec() == q.key_spec(),
    ensures
        p == q,
{
    lemma_fundamental_div_mod_converse(
        p.key_spec() as int,
        0x100000000,
        p.first_token() as int,
        p.second_token() as int,
    );
    lemma_fundamental_div_mod_converse(
        q.key_spec() as int,
        0x100000000,
        q.first_token() as int,
        q.second_token() as int,
    );
}

/// Parameters of a trading pair while it is provisioning.
#[derive(Clone, Copy, PartialEq, Eq, Debug)]
pub struct ProvisioningParameters {
    /// Least acceptable single contribution, per side.
    pub min_contribution: (Balance, Balance),
    /// Accumulated provision at which the pair may be enabled, per side.
    pub target_provision: (Balance, Balance),
    /// Total contributed so far, per side; never decreases while provisioning.
    pub accumulated_provision: (Balance, Balance),
    /// The first round in which provisioning may be ended.
    pub not_before: RoundNumber,
}

/// Lifecycle status of a trading pair.
#[derive(Clone, Copy, PartialEq, Eq, Debug)]
pub enum TradingPairStatus {
    /// Not tradable; listing and re-enabling are allowed.
    Disabled,
    /// Accumulating pre-launch liquidity contributions.
    Provisioning(ProvisioningParameters),
    /// Open for trading and liquidity operations.
    Enabled,
}

impl Default for TradingPairStatus {
    /// A pair that was never listed is disabled.
    fn default() -> (r: Self)
        ensures
            r is Disabled,
    {
        TradingPairStatus::Disabled
    }
}

/// The ways an exchange operation can fail.
#[derive(Clone, Copy, PartialEq, Eq, Debug)]
pub enum DexError {
    /// Trading pair is already enabled.
    AlreadyEnabled,
    /// Trading pair must be enabled.
    MustBeEnabled,
    /// Trading pair must be provisioning.
    MustBeProvisioning,
    /// Trading pair must be disabled.
    MustBeDisabled,
    /// This trading pair is not allowed to be listed.
    NotAllowedList,
    /// The increment of provision is invalid.
    InvalidContributionIncrement,
    /// The increment of liquidity is invalid.
    InvalidLiquidityIncrement,
    /// Invalid currency id.
    InvalidCurrencyId,
    /// Invalid trading path length.
    InvalidTradingPathLength,
    /// Target amount is below the acceptable minimum.
    InsufficientTargetAmount,
    /// Supply amount is above the acceptable maximum.
    ExcessiveSupplyAmount,
    /// The swap would cause an unacceptable price impact.
    ExceedPriceImpactLimit,
    /// Liquidity is not enough.
    InsufficientLiquidity,
    /// The supply amount is zero.
    ZeroSupplyAmount,
    /// The target amount is zero.
    ZeroTargetAmount,
    /// The share increment is unacceptable.
    UnacceptableShareIncrement,
    /// The liquidity withdrawn is unacceptable.
    UnacceptableLiquidityWithdrawn,
    /// The swap does not meet the constant-product invariant check.
    InvariantCheckFailed,
    /// The provision is unqualified to be converted to enabled.
    UnqualifiedProvision,
    /// Trading pair is still provisioning.
    StillProvisioning,
}

/// The ways a treasury operation can fail.
#[derive(Clone, Copy, PartialEq, Eq, Debug)]
pub enum TreasuryError {
    /// The treasury does not hold that much collateral.
    CollateralNotEnough,
    /// The collateral total would overflow.
    CollateralOverflow,
    /// The surplus pool does not hold that much.
    SurplusPoolNotEnough,
    /// The surplus pool would overflow.
    SurplusPoolOverflow,
    /// The debit pool would overflow.
    DebitPoolOverflow,
}

/// Failure of a treasury operation that swaps through the exchange: its own
/// accounting can refuse, or the swap itself can.
#[derive(Clone, Copy, PartialEq, Eq, Debug)]
pub enum TreasurySwapError {
    /// The treasury's own accounting refused.
    Treasury(TreasuryError),
    /// The exchange refused the swap.
    Dex(DexError),
}

/// One instruction to the host's currency ledger. Operations return these
/// rather than touching balances themselves: the host applies them around the
/// call as one unit, and when any of them fails it discards them all and
/// restores the state it checkpointed before the call.
#[derive(Clone, Copy, PartialEq, Eq, Debug)]
pub enum LedgerOp {
    /// Move `amount` of `currency` between two accounts.
    Transfer { currency: CurrencyId, from: AccountId, to: AccountId, amount: Balance },
    /// Mint `amount` of `currency` into an account.
    Deposit { currency: CurrencyId, account: AccountId, amount: Balance },
    /// Burn `amount` of `currency` from an account.
    Withdraw { currency: CurrencyId, account: AccountId, amount: Balance },
}

/// One request to the host's auction execution engine.
#[derive(Clone, Copy, PartialEq, Eq, Debug)]
pub enum AuctionRequest {
    /// Sell `amount` of surplus stable currency.
    Surplus { amount: Balance },
    /// Sell `initial_amount` of native currency for a fixed stable target.
    Debit { initial_amount: Balance, fixed_target: Balance },
    /// Sell one lot of seized collateral for a stable target.
    Collateral { refund_receiver: AccountId, currency: CurrencyId, amount: Balance, target: Balance },
}

} // verus!
