//! Running totals of the platform's lending: what was lent, what was repaid,
//! and the ratio of the two.
use vstd::prelude::*;
use crate::decimal::{fits, spec_div, Decimal};
use crate::vault::ComponentId;

verus! {

broadcast use crate::decimal::group_decimal;

/// The repayment rate, in attos: repayments divided by loans (rounded toward
/// zero), or zero while nothing has been lent.
pub open spec fn repayment_rate(total_loans: int, total_repayments: int) -> int {
    if total_loans > 0 {
        spec_div(total_repayments, total_loans)
    } else {
        0
    }
}

/// Totals of loans and repayments.
pub struct ImpactTracker {
    pub total_loans: Decimal,
    pub total_repayments: Decimal,
}

impl ImpactTracker {
    /// Total lent, in attos.
    pub open spec fn loans_total(&self) -> int {
        self.total_loans.attos()
    }

    /// Total repaid, in attos.
    pub open spec fn repayments_total(&self) -> int {
        self.total_repayments.attos()
    }

    /// A tracker with both totals at zero.
    pub fn new() -> (t: ImpactTracker)
        ensures
            t.loans_total() == 0,
            t.repayments_total() == 0,
    {
        ImpactTracker { total_loans: Decimal::zero(), total_repayments: Decimal::zero() }
    }

    /// Adds a loan of `amount` to the total lent.
    pub fn record_loan(&mut self, _borrower: ComponentId, amount: Decimal)
        requires
            fits(old(self).loans_total() + amount.attos()),
        ensures
            final(self).loans_total() == old(self).loans_total() + amount.attos(),
            final(self).repayments_total() == old(self).repayments_total(),
    {
        self.total_loans = self.total_loans.checked_add(amount).unwrap();
    }

    /// Adds a repayment of `amount` to the total repaid.
    pub fn record_repayment(&mut self, _borrower: ComponentId, amount: Decimal)
        requires
            fits(old(self).repayments_total() + amount.attos()),
        ensures
            final(self).repayments_total() == old(self).repayments_total() + amount.attos(),
            final(self).loans_total() == old(self).loans_total(),
    {
        self.total_repayments = self.total_repayments.checked_add(amount).unwrap();
    }

    /// Total lent, total repaid, and the repayment rate.
    pub fn get_impact_metrics(&self) -> (m: (Decimal, Decimal, Decimal))
        requires
            self.loans_total() > 0 ==> fits(repayment_rate(self.loans_total(), self.repayments_total())),
        ensures
            m.0.attos() == self.loans_total(),
            m.1.attos() == self.repayments_total(),
            m.2.attos() == repayment_rate(self.loans_total(), self.repayments_total()),
    {
        let rate = if self.total_loans.is_positive() {
            self.total_repayments.checked_div(self.total_loans).unwrap()
        } else {
            Decimal::zero()
        };
        (self.total_loans, self.total_repayments, rate)
    }
}

} // verus!
