//! Reputation of borrowers: a score from 0 to 100 that starts at 50, rises by
//! 10 for each loan repaid on time and falls by 10 for each loan repaid late
//! or liquidated.
use vstd::prelude::*;
use std::collections::HashMap;
use crate::vault::ComponentId;

verus! {

broadcast use vstd::std_specs::hash::group_hash_axioms;

/// Score of a borrower that has no recorded history.
pub const DEFAULT_REPUTATION: u32 = 50;

/// Highest score a borrower can reach.
pub const MAX_REPUTATION: u32 = 100;

/// Change of the score for one repayment.
pub const REPUTATION_STEP: u32 = 10;

/// Score of `borrower` under the recorded `scores`.
pub open spec fn reputation_in(scores: Map<ComponentId, u32>, borrower: ComponentId) -> u32 {
    if scores.contains_key(borrower) {
        scores[borrower]
    } else {
        DEFAULT_REPUTATION
    }
}

/// The score that follows `current` after a repayment, on time or not.
pub open spec fn next_reputation(current: u32, on_time: bool) -> u32 {
    if on_time {
        if current + REPUTATION_STEP <= MAX_REPUTATION {
            (current + REPUTATION_STEP) as u32
        } else {
            MAX_REPUTATION
        }
    } else {
        (current - REPUTATION_STEP) as u32
    }
}

/// Whether the score of `borrower` can take a repayment of this kind: a late
/// one needs a score of at least 10, which it lowers by 10.
pub open spec fn can_update(scores: Map<ComponentId, u32>, borrower: ComponentId, on_time: bool) -> bool {
    on_time || reputation_in(scores, borrower) >= REPUTATION_STEP
}

/// The reputation scores of borrowers.
pub struct ReputationGovernance {
    pub reputation_scores: HashMap<ComponentId, u32>,
}

impl ReputationGovernance {
    /// The recorded scores; borrowers without one have the default score.
    pub open spec fn scores(&self) -> Map<ComponentId, u32> {
        self.reputation_scores@
    }

    /// Score of `borrower`.
    pub open spec fn reputation(&self, borrower: ComponentId) -> u32 {
        reputation_in(self.scores(), borrower)
    }

    /// Every recorded score lies between 0 and 100 and is a multiple of 10.
    pub open spec fn wf(&self) -> bool {
        forall|b: ComponentId| #[trigger] self.scores().contains_key(b) ==> {
            &&& self.scores()[b] <= MAX_REPUTATION
            &&& self.scores()[b] % REPUTATION_STEP == 0
        }
    }

    /// A governance component with no recorded scores.
    pub fn new() -> (g: ReputationGovernance)
        ensures
            g.scores() == Map::<ComponentId, u32>::empty(),
            g.wf(),
    {
        ReputationGovernance { reputation_scores: HashMap::new() }
    }

    /// Records a repayment by `borrower`: on time raises the score by 10, up to
    /// 100; late lowers it by 10 (the score must be at least 10).
    pub fn update_reputation(&mut self, borrower: ComponentId, on_time: bool)
        requires
            old(self).wf(),
            can_update(old(self).scores(), borrower, on_time),
        ensures
            final(self).wf(),
            final(self).scores() == old(self).scores().insert(
                borrower,
                next_reputation(old(self).reputation(borrower), on_time),
            ),
    {
        let current_score = self.get_reputation(borrower);
        let new_score = if on_time {
            if current_score + REPUTATION_STEP <= MAX_REPUTATION {
                current_score + REPUTATION_STEP
            } else {
                MAX_REPUTATION
            }
        } else {
            current_score - REPUTATION_STEP
        };
        self.reputation_scores.insert(borrower, new_score);
    }

    /// Score of `borrower`, 50 when nothing is recorded.
    pub fn get_reputation(&self, borrower: ComponentId) -> (score: u32)
        requires
            self.wf(),
        ensures
            score == self.reputation(borrower),
            score <= MAX_REPUTATION,
            score % REPUTATION_STEP == 0,
    {
        match self.reputation_scores.get(&borrower) {
            Some(s) => {
                assert(self.scores().contains_key(borrower));
                *s
            },
            None => DEFAULT_REPUTATION,
        }
    }
}

} // verus!
