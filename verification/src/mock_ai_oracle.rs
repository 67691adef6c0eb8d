//! A stand-in for an AI credit assessment service that answers every borrower
//! with the same assessment.
use vstd::prelude::*;
use crate::decimal::{dec, Decimal};
use crate::vault::ComponentId;

verus! {

broadcast use crate::decimal::group_decimal;

/// Credit score the stand-in oracle gives every borrower.
pub const MOCK_CREDIT_SCORE: u32 = 750;

/// Recommended loan the stand-in oracle gives every borrower: 1000 units, in attos.
pub const MOCK_RECOMMENDED_LOAN_ATTOS: i128 = 1_000_000_000_000_000_000_000;

/// Loan term the stand-in oracle gives every borrower: 30 days in seconds.
pub const MOCK_LOAN_TERM: u64 = 2_592_000;

/// The assessment the stand-in oracle gives: credit score, recommended loan and term.
pub open spec fn mock_assessment() -> (u32, Decimal, u64) {
    (MOCK_CREDIT_SCORE, dec(MOCK_RECOMMENDED_LOAN_ATTOS as int), MOCK_LOAN_TERM)
}

/// The stand-in credit assessment service.
pub struct MockAIOracle {}

impl MockAIOracle {
    /// A new oracle.
    pub fn new() -> (o: MockAIOracle) {
        MockAIOracle {}
    }

    /// Assessment of `borrower`: a credit score of 750, a recommended loan of
    /// 1000 and a term of 2592000 seconds, for every borrower.
    pub fn get_credit_assessment(&self, _borrower: ComponentId) -> (r: (u32, Decimal, u64))
        ensures
            r == mock_assessment(),
    {
        (MOCK_CREDIT_SCORE, Decimal::from_attos(MOCK_RECOMMENDED_LOAN_ATTOS), MOCK_LOAN_TERM)
    }
}

} // verus!
