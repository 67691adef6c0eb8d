//! Interest rates from a base rate, an economic factor and a credit score.
use vstd::prelude::*;
use crate::decimal::{dec, fits, spec_div, spec_mul, ATTOS_PER_UNIT, Decimal};
use crate::mock_economic_oracle::{MockEconomicOracle, MOCK_ECONOMIC_FACTOR_ATTOS};
use crate::vault::ComponentId;

verus! {

broadcast use crate::decimal::group_decimal;

/// Highest credit score.
pub const MAX_CREDIT_SCORE: u32 = 1000;

/// The share of the rate that a credit score leaves: `(1000 - score) / 1000`, in attos.
pub open spec fn credit_factor(credit_score: u32) -> int {
    spec_div(
        (MAX_CREDIT_SCORE - credit_score) * ATTOS_PER_UNIT,
        MAX_CREDIT_SCORE * ATTOS_PER_UNIT,
    )
}

/// The interest rate, in attos: `base_rate * economic_factor * credit_factor`,
/// each product rounded toward zero.
pub open spec fn interest_rate(base_rate: int, economic_factor: int, credit_score: u32) -> int {
    spec_mul(spec_mul(base_rate, economic_factor), credit_factor(credit_score))
}

/// Whether the rate can be computed: the score is at most 1000 and every
/// product fits.
pub open spec fn interest_rate_defined(base_rate: int, economic_factor: int, credit_score: u32) -> bool {
    &&& credit_score <= MAX_CREDIT_SCORE
    &&& fits(spec_mul(base_rate, economic_factor))
    &&& fits(interest_rate(base_rate, economic_factor, credit_score))
}

/// Computes interest rates from its base rate and the factor reported by an
/// economic indicator oracle.
pub struct DynamicInterestCalculator {
    pub base_rate: Decimal,
    pub economic_indicator_oracle: ComponentId,
}

/// The interest rate for a credit score, given the base rate and the economic
/// factor; `None` when the score is above 1000 or a product does not fit.
pub fn interest_rate_from(base_rate: Decimal, economic_factor: Decimal, credit_score: u32) -> (rate: Option<Decimal>)
    ensures
        rate == (if interest_rate_defined(base_rate.attos(), economic_factor.attos(), credit_score) {
            Some(dec(interest_rate(base_rate.attos(), economic_factor.attos(), credit_score)))
        } else {
            None::<Decimal>
        }),
{
    if credit_score > MAX_CREDIT_SCORE {
        return None;
    }
    let remaining = Decimal::from_u32(MAX_CREDIT_SCORE - credit_score);
    let scale = Decimal::from_u32(MAX_CREDIT_SCORE);
    assert(0 <= credit_factor(credit_score) <= ATTOS_PER_UNIT) by {
        lemma_credit_factor(credit_score);
    }
    let factor = remaining.checked_div(scale).unwrap();
    match base_rate.checked_mul(economic_factor) {
        Some(scaled) => scaled.checked_mul(factor),
        None => None,
    }
}

/// The credit factor is exact: `(1000 - score) * 10^15`.
pub proof fn lemma_credit_factor(credit_score: u32)
    requires
        credit_score <= MAX_CREDIT_SCORE,
    ensures
        credit_factor(credit_score) == (MAX_CREDIT_SCORE - credit_score) * 1_000_000_000_000_000,
        0 <= credit_factor(credit_score) <= ATTOS_PER_UNIT,
{
    let r: int = (MAX_CREDIT_SCORE - credit_score) as int;
    let one: int = ATTOS_PER_UNIT as int;
    let q: int = r * 1_000_000_000_000_000;
    assert(r * one * one == q * (1000 * one)) by (nonlinear_arith)
        requires
            one == 1_000_000_000_000_000_000,
            q == r * 1_000_000_000_000_000,
    ;
    assert(q * (1000 * one) / (1000 * one) == q) by (nonlinear_arith)
        requires
            one > 0,
    ;
    assert(r * one >= 0) by (nonlinear_arith)
        requires
            r >= 0,
            one > 0,
    ;
    assert(r * one * one >= 0) by (nonlinear_arith)
        requires
            r * one >= 0,
            one > 0,
    ;
}

impl DynamicInterestCalculator {
    /// A calculator with a base rate that asks the oracle component `oracle`.
    pub fn new(base_rate: Decimal, oracle: ComponentId) -> (c: DynamicInterestCalculator)
        ensures
            c.base_rate == base_rate,
            c.economic_indicator_oracle == oracle,
    {
        DynamicInterestCalculator { base_rate, economic_indicator_oracle: oracle }
    }

    /// The interest rate for a credit score, with the factor that `oracle` (the
    /// component at `self.economic_indicator_oracle`) reports.
    pub fn calculate_interest_rate(&self, oracle: &MockEconomicOracle, credit_score: u32) -> (rate: Decimal)
        requires
            interest_rate_defined(self.base_rate.attos(), MOCK_ECONOMIC_FACTOR_ATTOS as int, credit_score),
        ensures
            rate.attos() == interest_rate(self.base_rate.attos(), MOCK_ECONOMIC_FACTOR_ATTOS as int, credit_score),
    {
        let economic_factor = oracle.get_economic_factor();
        interest_rate_from(self.base_rate, economic_factor, credit_score).unwrap()
    }
}

} // verus!
