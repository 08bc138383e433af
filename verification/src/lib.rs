use vstd::prelude::*;

pub mod amm;
pub mod dex;
pub mod mock;
pub mod rate;
pub mod treasury;
pub mod types;

verus! {

/// Fixed-width unit for reserves, contributions, shares and treasury pools.
pub type Balance = u64;

/// Identifier of an account in the host's currency ledger.
pub type AccountId = u64;

/// Settlement-round counter; provisioning deadlines are stated in rounds.
pub type RoundNumber = u64;

} // verus!
