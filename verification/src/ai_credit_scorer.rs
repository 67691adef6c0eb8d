//! Credit scoring of borrowers, delegated to an AI oracle component.
use vstd::prelude::*;
use crate::decimal::Decimal;
use crate::mock_ai_oracle::{mock_assessment, MockAIOracle};
use crate::vault::ComponentId;

verus! {

broadcast use crate::decimal::group_decimal;

/// Scores borrowers by asking the oracle it was built with.
pub struct AICreditScorer {
    pub ai_oracle: ComponentId,
}

impl AICreditScorer {
    /// A scorer that asks the oracle component `ai_oracle`.
    pub fn new(ai_oracle: ComponentId) -> (s: AICreditScorer)
        ensures
            s.ai_oracle == ai_oracle,
    {
        AICreditScorer { ai_oracle }
    }

    /// Credit score, recommended loan and term of `borrower`, as `oracle` (the
    /// component at `self.ai_oracle`) assesses them.
    pub fn get_credit_score(&self, oracle: &MockAIOracle, borrower: ComponentId) -> (r: (u32, Decimal, u64))
        ensures
            r == mock_assessment(),
    {
        oracle.get_credit_assessment(borrower)
    }
}

} // verus!
