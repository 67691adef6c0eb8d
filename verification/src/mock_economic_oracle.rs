//! A stand-in for a service that reports how the economy scales interest rates.
use vstd::prelude::*;
use crate::decimal::Decimal;

verus! {

broadcast use crate::decimal::group_decimal;

/// The factor the stand-in oracle reports: 1.05, in attos.
pub const MOCK_ECONOMIC_FACTOR_ATTOS: i128 = 1_050_000_000_000_000_000;

/// The stand-in economic indicator service.
pub struct MockEconomicOracle {}

impl MockEconomicOracle {
    /// A new oracle.
    pub fn new() -> (o: MockEconomicOracle) {
        MockEconomicOracle {}
    }

    /// The economic factor: always 1.05, a 5% increase over the base rate.
    pub fn get_economic_factor(&self) -> (f: Decimal)
        ensures
            f.attos() == MOCK_ECONOMIC_FACTOR_ATTOS,
    {
        Decimal::from_attos(MOCK_ECONOMIC_FACTOR_ATTOS)
    }
}

} // verus!
