//! Insurance of loans: each insured loan pays a premium out of the pool when
//! the pool holds it (and nothing when it does not), and
//! a claim on an insured loan pays the claimed amount out of the pool.
use vstd::prelude::*;
use std::collections::HashMap;
use crate::decimal::{fits, spec_mul, Decimal};
use crate::vault::{Bucket, ComponentId, ResourceId, Vault};

verus! {


broadcast use {vstd::std_specs::hash::group_hash_axioms, crate::decimal::group_decimal};

/// Premium for a loan, in attos: `loan_amount * premium_rate`, rounded toward zero.
pub open spec fn premium(loan_amount: int, premium_rate: int) -> int {
    spec_mul(loan_amount, premium_rate)
}

/// What the pool pays for insuring a loan, in attos: the premium when the pool
/// holds it, and nothing when it does not.
pub open spec fn premium_paid(loan_amount: int, premium_rate: int, balance: int) -> int {
    if premium(loan_amount, premium_rate) <= balance {
        premium(loan_amount, premium_rate)
    } else {
        0
    }
}

/// An insurance pool: a vault, the insured loan amount of each borrower, and
/// the premium rate.
pub struct InsurancePool {
    pub pool: Vault,
    pub insured_loans: HashMap<ComponentId, Decimal>,
    pub premium_rate: Decimal,
}

impl InsurancePool {
    /// Amount in the pool's vault, in attos.
    pub open spec fn balance(&self) -> int {
        self.pool.amount.attos()
    }

    /// Resource held by the pool's vault.
    pub open spec fn resource(&self) -> ResourceId {
        self.pool.resource
    }

    /// Insured loan amount of each borrower.
    pub open spec fn insured(&self) -> Map<ComponentId, Decimal> {
        self.insured_loans@
    }

    /// The premium rate, in attos.
    pub open spec fn rate(&self) -> int {
        self.premium_rate.attos()
    }

    /// The pool's vault never holds a negative amount.
    pub open spec fn wf(&self) -> bool {
        self.balance() >= 0
    }

    /// An empty pool of `xrd_token` with a premium rate and no insured loans.
    pub fn new(xrd_token: ResourceId, premium_rate: Decimal) -> (p: InsurancePool)
        ensures
            p.wf(),
            p.balance() == 0,
            p.resource() == xrd_token,
            p.insured() == Map::<ComponentId, Decimal>::empty(),
            p.rate() == premium_rate.attos(),
    {
        InsurancePool { pool: Vault::new(xrd_token), insured_loans: HashMap::new(), premium_rate }
    }

    /// Insures a loan of `loan_amount` to `borrower` (replacing any earlier
    /// record) and pays the premium out of the pool; a pool that does not hold
    /// the premium pays nothing.
    pub fn insure_loan(&mut self, borrower: ComponentId, loan_amount: Decimal) -> (paid: Bucket)
        requires
            old(self).wf(),
            fits(premium(loan_amount.attos(), old(self).rate())),
            0 <= premium(loan_amount.attos(), old(self).rate()),
        ensures
            final(self).wf(),
            final(self).insured() == old(self).insured().insert(borrower, loan_amount),
            final(self).balance() == old(self).balance()
                - premium_paid(loan_amount.attos(), old(self).rate(), old(self).balance()),
            final(self).resource() == old(self).resource(),
            final(self).rate() == old(self).rate(),
            paid.resource == old(self).resource(),
            paid.amount.attos() == premium_paid(loan_amount.attos(), old(self).rate(), old(self).balance()),
    {
        let premium = loan_amount.checked_mul(self.premium_rate).unwrap();
        self.insured_loans.insert(borrower, loan_amount);
        let payable = if premium.le(&self.pool.amount) {
            premium
        } else {
            Decimal::zero()
        };
        self.pool.take(payable)
    }

    /// Pays a claim of `loan_amount` on the loan insured for `borrower`, which
    /// must be insured for at least that much, and removes the insurance.
    pub fn claim_insurance(&mut self, borrower: ComponentId, loan_amount: Decimal) -> (paid: Bucket)
        requires
            old(self).wf(),
            old(self).insured().contains_key(borrower),
            old(self).insured()[borrower].attos() >= loan_amount.attos(),
            0 <= loan_amount.attos() <= old(self).balance(),
        ensures
            final(self).wf(),
            final(self).insured() == old(self).insured().remove(borrower),
            final(self).balance() == old(self).balance() - loan_amount.attos(),
            final(self).resource() == old(self).resource(),
            final(self).rate() == old(self).rate(),
            paid == (Bucket { resource: old(self).resource(), amount: loan_amount }),
    {
        self.insured_loans.remove(&borrower);
        self.pool.take(loan_amount)
    }
}

} // verus!
