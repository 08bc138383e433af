use vstd::prelude::*;

use crate::rate::FixedRate;
use crate::Balance;

verus! {

/// A stand-in for the host's emergency-shutdown signal: a plain flag that
/// tests flip instead of a whole shutdown subsystem.
#[derive(Clone, Copy, PartialEq, Eq, Debug)]
pub struct MockEmergencyShutdown {
    /// Whether the simulated system has been shut down.
    pub shutdown: bool,
}

impl MockEmergencyShutdown {
    /// A signal that has not fired.
    pub fn new() -> (r: MockEmergencyShutdown)
        ensures
            !r.shutdown,
    {
        MockEmergencyShutdown { shutdown: false }
    }

    /// Whether the simulated system has been shut down.
    pub fn is_shutdown(&self) -> (r: bool)
        ensures
            r == self.shutdown,
    {
        self.shutdown
    }
}

/// Fires the simulated emergency-shutdown signal.
pub fn mock_shutdown(signal: &mut MockEmergencyShutdown)
    ensures
        final(signal).shutdown,
{
    signal.shutdown = true;
}

/// A stand-in for the host's price oracle: it hands back whatever relative
/// price a test planted in it.
#[derive(Clone, Copy, PartialEq, Eq, Debug)]
pub struct MockPriceSource {
    /// The planted relative price between two currencies, if any.
    pub relative_price: Option<FixedRate>,
}

impl MockPriceSource {
    /// An oracle that knows no price.
    pub fn new() -> (r: MockPriceSource)
        ensures
            r.relative_price is None,
    {
        MockPriceSource { relative_price: None }
    }

    /// Plants a relative price (or forgets it with `None`).
    pub fn set_relative_price(&mut self, price: Option<FixedRate>)
        ensures
            final(self).relative_price == price,
    {
        self.relative_price = price;
    }

    /// The planted relative price, if any.
    pub fn get_relative_price(&self) -> (r: Option<FixedRate>)
        ensures
            r == self.relative_price,
    {
        self.relative_price
    }
}

/// A stand-in for the host's gas accounting: gas converts to weight one to
/// one.
#[derive(Clone, Copy, PartialEq, Eq, Debug)]
pub struct GasToWeight {}

impl GasToWeight {
    /// The weight of `gas` units of gas.
    pub fn convert(gas: u64) -> (r: u64)
        ensures
            r == gas,
    {
        gas
    }
}

/// A stand-in for the host's fee schedule: a flat fee per unit of weight.
#[derive(Clone, Copy, PartialEq, Eq, Debug)]
pub struct WeightToFee {
    /// Fee charged per unit of weight.
    pub fee_per_weight: Balance,
}

impl WeightToFee {
    /// The fee for `weight`, saturating at the largest balance.
    pub fn weight_to_fee(&self, weight: u64) -> (r: Balance)
        ensures
            r == if self.fee_per_weight * weight > u64::MAX {
                u64::MAX as int
            } else {
                self.fee_per_weight * weight
            },
    {
        match self.fee_per_weight.checked_mul(weight) {
            Some(fee) => fee,
            None => u64::MAX,
        }
    }
}

} // verus!
