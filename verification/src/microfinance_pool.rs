//! The lending pool of the platform: a vault per currency, the open loans,
//! and the flows that lend, take repayments and liquidate overdue loans
//! together with the insurance, reputation and impact components.
use vstd::prelude::*;
use std::collections::HashMap;
use crate::ai_credit_scorer::AICreditScorer;
use crate::decimal::{dec, fits, spec_mul, ATTOS_PER_UNIT, Decimal};
use crate::dynamic_interest_calculator::{interest_rate, interest_rate_defined, DynamicInterestCalculator};
use crate::impact_tracker::ImpactTracker;
use crate::insurance_pool::{premium, premium_paid, InsurancePool};
use crate::mock_ai_oracle::{MockAIOracle, MOCK_CREDIT_SCORE};
use crate::mock_economic_oracle::{MockEconomicOracle, MOCK_ECONOMIC_FACTOR_ATTOS};
use crate::reputation_governance::{can_update, next_reputation, reputation_in, ReputationGovernance};
use crate::set_sum::{lemma_sum_empty, lemma_sum_insert, lemma_sum_subset, sum_over};
use crate::vault::{Bucket, ComponentId, ResourceId, Vault};

verus! {


broadcast use {vstd::std_specs::hash::group_hash_axioms, crate::decimal::group_decimal};

/// Epochs from a loan's start to its due epoch: 30 days in seconds.
pub const LOAN_DURATION: u64 = 2_592_000;

/// An open loan: its currency, amount, interest rate and due epoch.
#[derive(Clone, Copy, PartialEq, Eq, Structural, Debug)]
pub struct Loan {
    pub currency: ResourceId,
    pub amount: Decimal,
    pub interest_rate: Decimal,
    pub due_epoch: u64,
}

/// What repays a loan, in attos: `amount * (1 + interest_rate)`, rounded toward zero.
pub open spec fn repayment_due(loan: Loan) -> int {
    spec_mul(loan.amount.attos(), ATTOS_PER_UNIT + loan.interest_rate.attos())
}

/// Whether the repayment of a loan can be computed: `1 + interest_rate` and
/// the repayment both fit.
pub open spec fn repayment_defined(loan: Loan) -> bool {
    fits(ATTOS_PER_UNIT + loan.interest_rate.attos()) && fits(repayment_due(loan))
}

impl Loan {
    /// What repays the loan, `amount * (1 + interest_rate)`, or `None` when
    /// that does not fit.
    pub fn repayment_amount(&self) -> (r: Option<Decimal>)
        ensures
            r == (if repayment_defined(*self) {
                Some(dec(repayment_due(*self)))
            } else {
                None::<Decimal>
            }),
    {
        match Decimal::one().checked_add(self.interest_rate) {
            Some(factor) => self.amount.checked_mul(factor),
            None => None,
        }
    }
}

/// Borrowers whose loan was due before `epoch`.
pub open spec fn overdue_borrowers(loans: Map<ComponentId, Loan>, epoch: u64) -> Set<ComponentId> {
    loans.dom().filter(|b: ComponentId| loans[b].due_epoch < epoch)
}

/// The amount of each borrower's loan, in attos.
pub open spec fn loan_amounts(loans: Map<ComponentId, Loan>) -> spec_fn(ComponentId) -> int {
    |b: ComponentId| loans[b].amount.attos()
}

/// The amount of each borrower's loan in `currency`, and zero for loans in
/// other currencies, in attos.
pub open spec fn loan_amounts_in(loans: Map<ComponentId, Loan>, currency: ResourceId) -> spec_fn(ComponentId) -> int {
    |b: ComponentId| if loans[b].currency == currency { loans[b].amount.attos() } else { 0 }
}

/// The scores of `borrowers` after one late repayment each.
pub open spec fn lowered_reputations(scores: Map<ComponentId, u32>, borrowers: Set<ComponentId>) -> Map<ComponentId, u32> {
    Map::new(|b: ComponentId| borrowers.contains(b), |b: ComponentId| next_reputation(reputation_in(scores, b), false))
}

/// The other components the lending pool calls.
pub struct PlatformComponents {
    pub ai_oracle: MockAIOracle,
    pub economic_oracle: MockEconomicOracle,
    pub ai_credit_scorer: AICreditScorer,
    pub interest_calculator: DynamicInterestCalculator,
    pub insurance_pool: InsurancePool,
    pub governance: ReputationGovernance,
    pub impact_tracker: ImpactTracker,
}

impl PlatformComponents {
    /// Each component keeps its own invariant.
    pub open spec fn wf(&self) -> bool {
        self.insurance_pool.wf() && self.governance.wf()
    }

    /// The interest rate a new loan gets, in attos: the calculator's rate for
    /// the credit score that the scorer reports.
    pub open spec fn loan_rate(&self) -> int {
        interest_rate(self.interest_calculator.base_rate.attos(), MOCK_ECONOMIC_FACTOR_ATTOS as int, MOCK_CREDIT_SCORE)
    }
}

/// The loans of one currency among some borrowers sum to a non-negative
/// amount when every loan amount is non-negative.
proof fn lemma_sum_nonneg_in(keys: Set<ComponentId>, loans: Map<ComponentId, Loan>, currency: ResourceId, within: Set<ComponentId>)
    requires
        within.finite(),
        keys.subset_of(within),
        forall|b: ComponentId| within.contains(b) ==> loans.contains_key(b) && loans[b].amount.attos() >= 0,
    ensures
        sum_over(keys, loan_amounts_in(loans, currency)) >= 0,
{
    vstd::set_lib::lemma_set_subset_finite(within, keys);
    crate::set_sum::lemma_sum_nonneg(keys, loan_amounts_in(loans, currency));
}

/// Each vault holds its own currency and a non-negative amount.
pub open spec fn vaults_wf(pools: Map<ResourceId, Vault>) -> bool {
    forall|c: ResourceId| #[trigger] pools.contains_key(c) ==> {
        &&& pools[c].resource == c
        &&& pools[c].amount.attos() >= 0
    }
}

/// Each loan is in a currency that has a vault and is of a non-negative amount.
pub open spec fn loans_wf(pools: Map<ResourceId, Vault>, loans: Map<ComponentId, Loan>) -> bool {
    forall|b: ComponentId| #[trigger] loans.contains_key(b) ==> {
        &&& pools.contains_key(loans[b].currency)
        &&& loans[b].amount.attos() >= 0
    }
}

/// Setting the vault of one currency to a vault of that currency holding a
/// non-negative amount keeps vaults and loans well-formed.
proof fn lemma_wf_set_vault(pools: Map<ResourceId, Vault>, loans: Map<ComponentId, Loan>, currency: ResourceId, vault: Vault)
    requires
        vaults_wf(pools),
        loans_wf(pools, loans),
        vault.resource == currency,
        vault.amount.attos() >= 0,
    ensures
        vaults_wf(pools.insert(currency, vault)),
        loans_wf(pools.insert(currency, vault), loans),
{
    assert forall|b: ComponentId| #[trigger] loans.contains_key(b) implies
        pools.insert(currency, vault).contains_key(loans[b].currency) by {
        assert(pools.contains_key(loans[b].currency));
    }
}

/// Recording a loan of a non-negative amount in a currency that has a vault
/// keeps the loans well-formed.
proof fn lemma_wf_set_loan(pools: Map<ResourceId, Vault>, loans: Map<ComponentId, Loan>, borrower: ComponentId, loan: Loan)
    requires
        loans_wf(pools, loans),
        pools.contains_key(loan.currency),
        loan.amount.attos() >= 0,
    ensures
        loans_wf(pools, loans.insert(borrower, loan)),
{
    assert forall|b: ComponentId| #[trigger] loans.insert(borrower, loan).contains_key(b) implies {
        &&& pools.contains_key(loans.insert(borrower, loan)[b].currency)
        &&& loans.insert(borrower, loan)[b].amount.attos() >= 0
    } by {
        if b != borrower {
            assert(loans.contains_key(b));
        }
    }
}

/// Closing a loan keeps the loans well-formed.
proof fn lemma_wf_remove_loan(pools: Map<ResourceId, Vault>, loans: Map<ComponentId, Loan>, borrower: ComponentId)
    requires
        loans_wf(pools, loans),
    ensures
        loans_wf(pools, loans.remove(borrower)),
{
    assert forall|b: ComponentId| #[trigger] loans.remove(borrower).contains_key(b) implies {
        &&& pools.contains_key(loans.remove(borrower)[b].currency)
        &&& loans.remove(borrower)[b].amount.attos() >= 0
    } by {
        assert(loans.contains_key(b));
    }
}

/// The lending pool component.
pub struct MicrofinancePool {
    pub lending_pools: HashMap<ResourceId, Vault>,
    pub xrd_token: ResourceId,
    pub ai_credit_scorer: ComponentId,
    pub interest_calculator: ComponentId,
    pub liquidity_pool: ComponentId,
    pub insurance_pool: ComponentId,
    pub governance: ComponentId,
    pub impact_tracker: ComponentId,
    pub loans: HashMap<ComponentId, Loan>,
    pub admin_badge: ResourceId,
}

impl MicrofinancePool {
    /// The vault of each currency the pool lends.
    pub open spec fn pools(&self) -> Map<ResourceId, Vault> {
        self.lending_pools@
    }

    /// The open loan of each borrower.
    pub open spec fn loans(&self) -> Map<ComponentId, Loan> {
        self.loans@
    }

    /// The resource whose proof authorizes liquidation.
    pub open spec fn badge(&self) -> ResourceId {
        self.admin_badge
    }

    /// The platform's base currency.
    pub open spec fn base_currency(&self) -> ResourceId {
        self.xrd_token
    }

    /// The components the pool was built with: credit scorer, interest
    /// calculator, liquidity pool, insurance pool, governance and impact tracker.
    pub open spec fn component_ids(&self) -> (ComponentId, ComponentId, ComponentId, ComponentId, ComponentId, ComponentId) {
        (self.ai_credit_scorer, self.interest_calculator, self.liquidity_pool, self.insurance_pool, self.governance, self.impact_tracker)
    }

    /// Each vault holds its own currency and a non-negative amount; each loan
    /// is in a currency that has a vault and is of a non-negative amount.
    pub open spec fn wf(&self) -> bool {
        vaults_wf(self.pools()) && loans_wf(self.pools(), self.loans())
    }

    /// Every currency that had a vault in `earlier` still has one.
    pub open spec fn keeps_vaults_of(&self, earlier: &MicrofinancePool) -> bool {
        earlier.pools().dom().subset_of(self.pools().dom())
    }

    /// The badge, the base currency and the components stay as they were.
    pub open spec fn same_setup(&self, other: &MicrofinancePool) -> bool {
        &&& self.badge() == other.badge()
        &&& self.base_currency() == other.base_currency()
        &&& self.component_ids() == other.component_ids()
    }

    /// A pool that lends `xrd_token` from an empty vault, has no loans, and
    /// whose liquidation is authorized by `admin_badge`; the one badge minted
    /// comes back in a bucket.
    pub fn new(
        xrd_token: ResourceId,
        ai_credit_scorer: ComponentId,
        interest_calculator: ComponentId,
        liquidity_pool: ComponentId,
        insurance_pool: ComponentId,
        governance: ComponentId,
        impact_tracker: ComponentId,
        admin_badge: ResourceId,
    ) -> (r: (MicrofinancePool, Bucket))
        ensures
            r.0.wf(),
            r.0.pools() == Map::<ResourceId, Vault>::empty().insert(xrd_token, Vault { resource: xrd_token, amount: dec(0) }),
            r.0.loans() == Map::<ComponentId, Loan>::empty(),
            r.0.badge() == admin_badge,
            r.0.base_currency() == xrd_token,
            r.0.component_ids() == (ai_credit_scorer, interest_calculator, liquidity_pool, insurance_pool, governance, impact_tracker),
            r.1 == (Bucket { resource: admin_badge, amount: dec(ATTOS_PER_UNIT as int) }),
    {
        let mut lending_pools: HashMap<ResourceId, Vault> = HashMap::new();
        lending_pools.insert(xrd_token, Vault::new(xrd_token));
        let pool = MicrofinancePool {
            lending_pools,
            xrd_token,
            ai_credit_scorer,
            interest_calculator,
            liquidity_pool,
            insurance_pool,
            governance,
            impact_tracker,
            loans: HashMap::new(),
            admin_badge,
        };
        (pool, Bucket { resource: admin_badge, amount: Decimal::one() })
    }

    /// Lends `currency` too, from a new empty vault (a vault it had is replaced).
    pub fn add_currency(&mut self, currency: ResourceId)
        requires
            old(self).wf(),
        ensures
            final(self).wf(),
            final(self).same_setup(old(self)),
            final(self).keeps_vaults_of(old(self)),
            final(self).pools() == old(self).pools().insert(currency, Vault { resource: currency, amount: dec(0) }),
            final(self).loans() == old(self).loans(),
    {
        let vault = Vault::new(currency);
        self.lending_pools.insert(currency, vault);
        proof {
            lemma_wf_set_vault(old(self).pools(), old(self).loans(), currency, vault);
        }
    }

    /// Puts a bucket into the vault of `currency`, which must hold the same resource.
    pub fn put_into_pool(&mut self, currency: ResourceId, bucket: Bucket)
        requires
            old(self).wf(),
            old(self).pools().contains_key(currency),
            bucket.resource == currency,
            bucket.amount.attos() >= 0,
            fits(old(self).pools()[currency].amount.attos() + bucket.amount.attos()),
        ensures
            final(self).wf(),
            final(self).same_setup(old(self)),
            final(self).keeps_vaults_of(old(self)),
            final(self).pools() == old(self).pools().insert(
                currency,
                Vault {
                    resource: currency,
                    amount: dec(old(self).pools()[currency].amount.attos() + bucket.amount.attos()),
                },
            ),
            final(self).loans() == old(self).loans(),
    {
        let mut pool = *self.lending_pools.get(&currency).unwrap();
        pool.put(bucket);
        self.lending_pools.insert(currency, pool);
        proof {
            lemma_wf_set_vault(old(self).pools(), old(self).loans(), currency, pool);
        }
    }

    /// Puts `amount` of `currency` into its vault; the bucket handed back is empty.
    pub fn deposit(&mut self, amount: Decimal, currency: ResourceId) -> (change: Bucket)
        requires
            old(self).wf(),
            old(self).pools().contains_key(currency),
            amount.attos() >= 0,
            fits(old(self).pools()[currency].amount.attos() + amount.attos()),
        ensures
            final(self).wf(),
            final(self).same_setup(old(self)),
            final(self).keeps_vaults_of(old(self)),
            final(self).pools() == old(self).pools().insert(
                currency,
                Vault { resource: currency, amount: dec(old(self).pools()[currency].amount.attos() + amount.attos()) },
            ),
            final(self).loans() == old(self).loans(),
            change == (Bucket { resource: currency, amount: dec(0) }),
    {
        self.put_into_pool(currency, Bucket { resource: currency, amount });
        Bucket::empty(currency)
    }

    /// The pool's own part of a loan: pays `amount` of `currency` out of its
    /// vault and records the loan of `borrower` (replacing an earlier one) at
    /// `interest_rate`, due 2592000 epochs after `current_epoch`.
    pub fn open_loan(
        &mut self,
        borrower: ComponentId,
        amount: Decimal,
        currency: ResourceId,
        interest_rate: Decimal,
        current_epoch: u64,
    ) -> (loan: Bucket)
        requires
            old(self).wf(),
            old(self).pools().contains_key(currency),
            0 <= amount.attos() <= old(self).pools()[currency].amount.attos(),
            current_epoch + LOAN_DURATION <= u64::MAX,
        ensures
            final(self).wf(),
            final(self).same_setup(old(self)),
            final(self).keeps_vaults_of(old(self)),
            final(self).pools() == old(self).pools().insert(
                currency,
                Vault { resource: currency, amount: dec(old(self).pools()[currency].amount.attos() - amount.attos()) },
            ),
            final(self).loans() == old(self).loans().insert(
                borrower,
                Loan { currency, amount, interest_rate, due_epoch: (current_epoch + LOAN_DURATION) as u64 },
            ),
            loan == (Bucket { resource: currency, amount }),
    {
        let mut pool = *self.lending_pools.get(&currency).unwrap();
        let loan = pool.take(amount);
        self.lending_pools.insert(currency, pool);

        let due_epoch = current_epoch + LOAN_DURATION;
        let recorded = Loan { currency, amount, interest_rate, due_epoch };
        self.loans.insert(borrower, recorded);
        proof {
            lemma_wf_set_vault(old(self).pools(), old(self).loans(), currency, pool);
            lemma_wf_set_loan(self.pools(), old(self).loans(), borrower, recorded);
        }
        loan
    }

    /// Lends `amount` of `currency` to `borrower`: the credit scorer scores the
    /// borrower, the calculator sets the rate, the vault pays out the loan, the
    /// loan is recorded (replacing an earlier one of the borrower) with a due
    /// epoch 2592000 after `current_epoch`, the insurance pool insures it and
    /// pays its premium (nothing when it does not hold it), and the impact
    /// tracker counts it. Hands back the loan and the premium.
    pub fn request_loan(
        &mut self,
        borrower: ComponentId,
        amount: Decimal,
        currency: ResourceId,
        components: &mut PlatformComponents,
        current_epoch: u64,
    ) -> (r: (Bucket, Bucket))
        requires
            old(self).wf(),
            old(components).wf(),
            interest_rate_defined(
                old(components).interest_calculator.base_rate.attos(),
                MOCK_ECONOMIC_FACTOR_ATTOS as int,
                MOCK_CREDIT_SCORE,
            ),
            old(self).pools().contains_key(currency),
            0 <= amount.attos() <= old(self).pools()[currency].amount.attos(),
            current_epoch + LOAN_DURATION <= u64::MAX,
            fits(premium(amount.attos(), old(components).insurance_pool.rate())),
            0 <= premium(amount.attos(), old(components).insurance_pool.rate()),
            fits(old(components).impact_tracker.loans_total() + amount.attos()),
        ensures
            final(self).wf(),
            final(components).wf(),
            final(self).same_setup(old(self)),
            final(self).keeps_vaults_of(old(self)),
            final(self).pools() == old(self).pools().insert(
                currency,
                Vault { resource: currency, amount: dec(old(self).pools()[currency].amount.attos() - amount.attos()) },
            ),
            final(self).loans() == old(self).loans().insert(
                borrower,
                Loan {
                    currency,
                    amount,
                    interest_rate: dec(old(components).loan_rate()),
                    due_epoch: (current_epoch + LOAN_DURATION) as u64,
                },
            ),
            final(components).insurance_pool.insured() == old(components).insurance_pool.insured().insert(borrower, amount),
            final(components).insurance_pool.balance() == old(components).insurance_pool.balance()
                - premium_paid(
                    amount.attos(),
                    old(components).insurance_pool.rate(),
                    old(components).insurance_pool.balance(),
                ),
            final(components).insurance_pool.resource() == old(components).insurance_pool.resource(),
            final(components).insurance_pool.rate() == old(components).insurance_pool.rate(),
            final(components).impact_tracker.loans_total() == old(components).impact_tracker.loans_total() + amount.attos(),
            final(components).impact_tracker.repayments_total() == old(components).impact_tracker.repayments_total(),
            final(components).governance == old(components).governance,
            final(components).interest_calculator == old(components).interest_calculator,
            final(components).ai_credit_scorer == old(components).ai_credit_scorer,
            r.0 == (Bucket { resource: currency, amount }),
            r.1.resource == old(components).insurance_pool.resource(),
            r.1.amount.attos() == premium_paid(
                amount.attos(),
                old(components).insurance_pool.rate(),
                old(components).insurance_pool.balance(),
            ),
    {
        let (credit_score, _, _) = components.ai_credit_scorer.get_credit_score(&components.ai_oracle, borrower);
        let interest_rate = components.interest_calculator.calculate_interest_rate(&components.economic_oracle, credit_score);
        let loan = self.open_loan(borrower, amount, currency, interest_rate, current_epoch);
        let insurance_premium = components.insurance_pool.insure_loan(borrower, amount);
        components.impact_tracker.record_loan(borrower, amount);
        (loan, insurance_premium)
    }

    /// The pool's own part of a repayment: closes the loan of `borrower`, takes
    /// `amount * (1 + interest_rate)` out of `payment` into the loan currency's
    /// vault, and hands back what is left of `payment`, the amount repaid, and
    /// whether `current_epoch` is not past the due epoch.
    pub fn settle_loan(&mut self, borrower: ComponentId, payment: Bucket, current_epoch: u64) -> (r: (Bucket, Decimal, bool))
        requires
            old(self).wf(),
            old(self).loans().contains_key(borrower),
            repayment_defined(old(self).loans()[borrower]),
            0 <= repayment_due(old(self).loans()[borrower]) <= payment.amount.attos(),
            payment.resource == old(self).loans()[borrower].currency,
            fits(old(self).pools()[old(self).loans()[borrower].currency].amount.attos()
                + repayment_due(old(self).loans()[borrower])),
        ensures
            final(self).wf(),
            final(self).same_setup(old(self)),
            final(self).keeps_vaults_of(old(self)),
            final(self).loans() == old(self).loans().remove(borrower),
            ({
                let loan = old(self).loans()[borrower];
                final(self).pools() == old(self).pools().insert(
                    loan.currency,
                    Vault {
                        resource: loan.currency,
                        amount: dec(old(self).pools()[loan.currency].amount.attos() + repayment_due(loan)),
                    },
                )
            }),
            r.0.resource == payment.resource,
            r.0.amount.attos() == payment.amount.attos() - repayment_due(old(self).loans()[borrower]),
            r.1.attos() == repayment_due(old(self).loans()[borrower]),
            r.2 == (current_epoch <= old(self).loans()[borrower].due_epoch),
    {
        let loan = *self.loans.get(&borrower).unwrap();
        self.loans.remove(&borrower);
        let repayment_amount = loan.repayment_amount().unwrap();

        let mut payment = payment;
        let repaid = payment.take(repayment_amount);
        proof {
            lemma_wf_remove_loan(old(self).pools(), old(self).loans(), borrower);
        }
        self.put_into_pool(loan.currency, repaid);
        (payment, repayment_amount, current_epoch <= loan.due_epoch)
    }

    /// Takes the repayment of `borrower`'s loan out of `payment`: the loan is
    /// closed, `amount * (1 + interest_rate)` goes into the loan currency's
    /// vault, the borrower's reputation rises if `current_epoch` is not past
    /// the due epoch and falls otherwise, and the impact tracker counts the
    /// repayment. Hands back what is left in `payment`.
    pub fn repay_loan(
        &mut self,
        borrower: ComponentId,
        payment: Bucket,
        components: &mut PlatformComponents,
        current_epoch: u64,
    ) -> (rest: Bucket)
        requires
            old(self).wf(),
            old(components).wf(),
            old(self).loans().contains_key(borrower),
            repayment_defined(old(self).loans()[borrower]),
            0 <= repayment_due(old(self).loans()[borrower]) <= payment.amount.attos(),
            payment.resource == old(self).loans()[borrower].currency,
            fits(old(self).pools()[old(self).loans()[borrower].currency].amount.attos()
                + repayment_due(old(self).loans()[borrower])),
            can_update(
                old(components).governance.scores(),
                borrower,
                current_epoch <= old(self).loans()[borrower].due_epoch,
            ),
            fits(old(components).impact_tracker.repayments_total() + repayment_due(old(self).loans()[borrower])),
        ensures
            final(self).wf(),
            final(components).wf(),
            final(self).same_setup(old(self)),
            final(self).keeps_vaults_of(old(self)),
            final(self).loans() == old(self).loans().remove(borrower),
            ({
                let loan = old(self).loans()[borrower];
                final(self).pools() == old(self).pools().insert(
                    loan.currency,
                    Vault {
                        resource: loan.currency,
                        amount: dec(old(self).pools()[loan.currency].amount.attos() + repayment_due(loan)),
                    },
                )
            }),
            final(components).governance.scores() == old(components).governance.scores().insert(
                borrower,
                next_reputation(
                    old(components).governance.reputation(borrower),
                    current_epoch <= old(self).loans()[borrower].due_epoch,
                ),
            ),
            final(components).impact_tracker.repayments_total() == old(components).impact_tracker.repayments_total()
                + repayment_due(old(self).loans()[borrower]),
            final(components).impact_tracker.loans_total() == old(components).impact_tracker.loans_total(),
            final(components).insurance_pool == old(components).insurance_pool,
            final(components).interest_calculator == old(components).interest_calculator,
            final(components).ai_credit_scorer == old(components).ai_credit_scorer,
            rest.resource == payment.resource,
            rest.amount.attos() == payment.amount.attos() - repayment_due(old(self).loans()[borrower]),
    {
        let (rest, repayment_amount, on_time) = self.settle_loan(borrower, payment, current_epoch);
        if on_time {
            components.governance.update_reputation(borrower, true);
        } else {
            components.governance.update_reputation(borrower, false);
        }
        components.impact_tracker.record_repayment(borrower, repayment_amount);
        rest
    }

    /// The borrowers whose loan was due before `current_epoch`, each once, in
    /// the order the loan book is walked.
    pub fn list_overdue_borrowers(&self, current_epoch: u64) -> (overdue: Vec<ComponentId>)
        ensures
            overdue@.no_duplicates(),
            overdue@.to_set() == overdue_borrowers(self.loans(), current_epoch),
    {
        let ghost keys_seq = vstd::std_specs::iter::IteratorSpec::remaining(&vstd::std_specs::hash::spec_keys_iter(&self.loans));
        let mut all: Vec<ComponentId> = Vec::new();
        for b in iter: self.loans.keys()
            invariant
                all@.len() == iter.index(),
                iter.seq() == keys_seq,
                forall|j: int| 0 <= j < iter.index() ==> all@[j] == *iter.seq()[j],
            ensures
                all@.len() == keys_seq.len(),
        {
            all.push(*b);
        }
        assert(all@ =~= keys_seq.unref());
        assert(all@.to_set() == self.loans().dom());
        assert(all@.no_duplicates());

        let ghost target = overdue_borrowers(self.loans(), current_epoch);
        let mut overdue: Vec<ComponentId> = Vec::new();
        let n = all.len();
        let mut i: usize = 0;
        while i < n
            invariant
                n == all@.len(),
                0 <= i <= n,
                all@.no_duplicates(),
                all@.to_set() == self.loans().dom(),
                target == overdue_borrowers(self.loans(), current_epoch),
                overdue@.no_duplicates(),
                forall|m: int| 0 <= m < overdue@.len() ==> target.contains(#[trigger] overdue@[m]) && (exists|j: int|
                    0 <= j < i && #[trigger] all@[j] == overdue@[m]),
                forall|j: int| 0 <= j < i && target.contains(#[trigger] all@[j]) ==> overdue@.contains(all@[j]),
            decreases n - i,
        {
            let b = all[i];
            assert(self.loans().dom().contains(b)) by {
                assert(all@.to_set().contains(all@[i as int]));
            }
            let loan = *self.loans.get(&b).unwrap();
            let ghost before = overdue@;
            if loan.due_epoch < current_epoch {
                assert(target.contains(b));
                assert forall|m: int| 0 <= m < before.len() implies before[m] != b by {
                    let j = choose|j: int| 0 <= j < i && #[trigger] all@[j] == before[m];
                    assert(all@[j] != all@[i as int]);
                }
                overdue.push(b);
                assert forall|j: int| 0 <= j < i + 1 && target.contains(#[trigger] all@[j]) implies overdue@.contains(all@[j]) by {
                    if j < i {
                        assert(before.contains(all@[j]));
                        let m = choose|m: int| 0 <= m < before.len() && before[m] == all@[j];
                        assert(overdue@[m] == all@[j]);
                    } else {
                        assert(overdue@[before.len() as int] == all@[j]);
                    }
                }
                assert forall|m: int| 0 <= m < overdue@.len() implies target.contains(#[trigger] overdue@[m]) && (exists|j: int|
                    0 <= j < i + 1 && #[trigger] all@[j] == overdue@[m]) by {
                    if m < before.len() {
                        assert(overdue@[m] == before[m]);
                    } else {
                        assert(all@[i as int] == overdue@[m]);
                    }
                }
            } else {
                assert(!target.contains(b));
            }
            i = i + 1;
        }
        assert(overdue@.to_set() =~= target) by {
            assert forall|k: ComponentId| target.contains(k) implies overdue@.contains(k) by {
                assert(all@.to_set().contains(k));
                let j = choose|j: int| 0 <= j < n && all@[j] == k;
                assert(target.contains(all@[j]));
            }
            assert forall|k: ComponentId| overdue@.contains(k) implies target.contains(k) by {
                let m = choose|m: int| 0 <= m < overdue@.len() && overdue@[m] == k;
                assert(target.contains(overdue@[m]));
            }
        }
        overdue
    }

    /// Closes the loan of `borrower` and hands it back.
    pub fn close_loan(&mut self, borrower: ComponentId) -> (loan: Loan)
        requires
            old(self).wf(),
            old(self).loans().contains_key(borrower),
        ensures
            final(self).wf(),
            final(self).same_setup(old(self)),
            final(self).keeps_vaults_of(old(self)),
            final(self).loans() == old(self).loans().remove(borrower),
            final(self).pools() == old(self).pools(),
            loan == old(self).loans()[borrower],
    {
        let loan = *self.loans.get(&borrower).unwrap();
        self.loans.remove(&borrower);
        proof {
            lemma_wf_remove_loan(old(self).pools(), old(self).loans(), borrower);
        }
        loan
    }

    /// Liquidates every loan due before `current_epoch`, on a proof of the
    /// admin badge: each such loan is closed, the insurance pool pays a claim
    /// of the loan amount into the loan currency's vault, and the borrower's
    /// reputation falls. Loans not yet overdue stay as they were.
    pub fn liquidate_overdue_loans(
        &mut self,
        auth: ResourceId,
        components: &mut PlatformComponents,
        current_epoch: u64,
    )
        requires
            old(self).wf(),
            old(components).wf(),
            auth == old(self).badge(),
            forall|b: ComponentId| #[trigger] overdue_borrowers(old(self).loans(), current_epoch).contains(b) ==> {
                &&& old(components).insurance_pool.insured().contains_key(b)
                &&& old(components).insurance_pool.insured()[b].attos() >= old(self).loans()[b].amount.attos()
                &&& old(self).loans()[b].currency == old(components).insurance_pool.resource()
                &&& can_update(old(components).governance.scores(), b, false)
            },
            sum_over(overdue_borrowers(old(self).loans(), current_epoch), loan_amounts(old(self).loans()))
                <= old(components).insurance_pool.balance(),
            forall|c: ResourceId| #[trigger] old(self).pools().contains_key(c) ==> fits(
                old(self).pools()[c].amount.attos()
                    + sum_over(overdue_borrowers(old(self).loans(), current_epoch), loan_amounts_in(old(self).loans(), c)),
            ),
        ensures
            final(self).wf(),
            final(components).wf(),
            final(self).same_setup(old(self)),
            final(self).keeps_vaults_of(old(self)),
            final(self).loans() == old(self).loans().remove_keys(overdue_borrowers(old(self).loans(), current_epoch)),
            final(self).pools().dom() == old(self).pools().dom(),
            forall|c: ResourceId| #[trigger] final(self).pools().contains_key(c) ==> {
                &&& final(self).pools()[c].resource == c
                &&& final(self).pools()[c].amount.attos() == old(self).pools()[c].amount.attos()
                    + sum_over(overdue_borrowers(old(self).loans(), current_epoch), loan_amounts_in(old(self).loans(), c))
            },
            final(components).insurance_pool.insured() == old(components).insurance_pool.insured().remove_keys(
                overdue_borrowers(old(self).loans(), current_epoch),
            ),
            final(components).insurance_pool.balance() == old(components).insurance_pool.balance()
                - sum_over(overdue_borrowers(old(self).loans(), current_epoch), loan_amounts(old(self).loans())),
            final(components).insurance_pool.resource() == old(components).insurance_pool.resource(),
            final(components).insurance_pool.rate() == old(components).insurance_pool.rate(),
            final(components).governance.scores() == old(components).governance.scores().union_prefer_right(
                lowered_reputations(
                    old(components).governance.scores(),
                    overdue_borrowers(old(self).loans(), current_epoch),
                ),
            ),
            final(components).impact_tracker == old(components).impact_tracker,
            final(components).interest_calculator == old(components).interest_calculator,
            final(components).ai_credit_scorer == old(components).ai_credit_scorer,
    {
        let ghost old_loans = self.loans();
        let ghost old_pools = self.pools();
        let ghost old_insured = components.insurance_pool.insured();
        let ghost old_balance = components.insurance_pool.balance();
        let ghost old_scores = components.governance.scores();
        let ghost overdue = overdue_borrowers(old_loans, current_epoch);
        let ghost amounts = loan_amounts(old_loans);

        let borrowers = self.list_overdue_borrowers(current_epoch);
        proof {
            vstd::set_lib::lemma_set_subset_finite(old_loans.dom(), overdue);
        }
        assert forall|b: ComponentId| overdue.contains(b) implies amounts(b) >= 0 by {
            assert(old_loans.contains_key(b));
        }

        let ghost mut done: Set<ComponentId> = Set::empty();
        proof {
            lemma_sum_empty(amounts);
            assert forall|c: ResourceId| old_pools.contains_key(c) implies
                sum_over(done, loan_amounts_in(old_loans, c)) == 0 by {
                lemma_sum_empty(loan_amounts_in(old_loans, c));
            }
            assert(old_insured.remove_keys(done) =~= old_insured);
            assert(old_loans.remove_keys(done) =~= old_loans);
            assert(old_scores.union_prefer_right(lowered_reputations(old_scores, done)) =~= old_scores);
        }
        let n = borrowers.len();
        let mut i: usize = 0;
        while i < n
            invariant
                n == borrowers@.len(),
                0 <= i <= n,
                borrowers@.to_set() == overdue,
                borrowers@.no_duplicates(),
                overdue == overdue_borrowers(old_loans, current_epoch),
                overdue.finite(),
                amounts == loan_amounts(old_loans),
                done.subset_of(overdue),
                done.finite(),
                forall|j: int| 0 <= j < i ==> done.contains(#[trigger] borrowers@[j]),
                forall|j: int| i <= j < n ==> !done.contains(#[trigger] borrowers@[j]),
                self.wf(),
                self.same_setup(old(self)),
                self.loans() == old_loans.remove_keys(done),
                self.pools().dom() == old_pools.dom(),
                forall|c: ResourceId| #[trigger] self.pools().contains_key(c) ==> {
                    &&& self.pools()[c].resource == c
                    &&& self.pools()[c].amount.attos() == old_pools[c].amount.attos()
                        + sum_over(done, loan_amounts_in(old_loans, c))
                },
                // what the caller guarantees
                old_loans == old(self).loans(),
                old_pools == old(self).pools(),
                old(self).wf(),
                forall|b: ComponentId| #[trigger] overdue.contains(b) ==> {
                    &&& old_insured.contains_key(b)
                    &&& old_insured[b].attos() >= old_loans[b].amount.attos()
                    &&& old_loans[b].currency == old(components).insurance_pool.resource()
                    &&& can_update(old_scores, b, false)
                },
                forall|b: ComponentId| overdue.contains(b) ==> amounts(b) >= 0,
                sum_over(overdue, amounts) <= old_balance,
                forall|c: ResourceId| #[trigger] old_pools.contains_key(c) ==> fits(
                    old_pools[c].amount.attos() + sum_over(overdue, loan_amounts_in(old_loans, c)),
                ),
                // the other components
                components.wf(),
                old_insured == old(components).insurance_pool.insured(),
                old_balance == old(components).insurance_pool.balance(),
                old_scores == old(components).governance.scores(),
                components.insurance_pool.insured() == old_insured.remove_keys(done),
                components.insurance_pool.balance() == old_balance - sum_over(done, amounts),
                components.insurance_pool.resource() == old(components).insurance_pool.resource(),
                components.insurance_pool.rate() == old(components).insurance_pool.rate(),
                components.governance.scores() == old_scores.union_prefer_right(lowered_reputations(old_scores, done)),
                components.impact_tracker == old(components).impact_tracker,
                components.interest_calculator == old(components).interest_calculator,
                components.ai_credit_scorer == old(components).ai_credit_scorer,
            decreases n - i,
        {
            let borrower = borrowers[i];
            assert(overdue.contains(borrower)) by {
                assert(borrowers@.to_set().contains(borrowers@[i as int]));
            }
            assert(!done.contains(borrower));
            proof {
                lemma_sum_insert(done, amounts, borrower);
                lemma_sum_subset(done.insert(borrower), overdue, amounts);
            }
            let loan = self.close_loan(borrower);
            let insurance_payout = components.insurance_pool.claim_insurance(borrower, loan.amount);
            proof {
                let cur = loan.currency;
                let t = loan_amounts_in(old_loans, cur);
                assert forall|b: ComponentId| overdue.contains(b) implies t(b) >= 0 by {
                    assert(old_loans.contains_key(b));
                }
                lemma_sum_insert(done, t, borrower);
                lemma_sum_subset(done.insert(borrower), overdue, t);
                lemma_sum_nonneg_in(done, old_loans, cur, overdue);
            }
            self.put_into_pool(loan.currency, insurance_payout);
            components.governance.update_reputation(borrower, false);
            proof {
                let new_done = done.insert(borrower);
                assert forall|c: ResourceId| #[trigger] self.pools().contains_key(c) implies {
                    &&& self.pools()[c].resource == c
                    &&& self.pools()[c].amount.attos() == old_pools[c].amount.attos()
                        + sum_over(new_done, loan_amounts_in(old_loans, c))
                } by {
                    lemma_sum_insert(done, loan_amounts_in(old_loans, c), borrower);
                }
                assert(self.loans() =~= old_loans.remove_keys(new_done));
                assert(components.insurance_pool.insured() =~= old_insured.remove_keys(new_done));
                assert(components.governance.scores() =~= old_scores.union_prefer_right(
                    lowered_reputations(old_scores, new_done),
                ));
                done = new_done;
            }
            i = i + 1;
        }
        proof {
            assert(done =~= overdue) by {
                assert forall|b: ComponentId| overdue.contains(b) implies done.contains(b) by {
                    assert(borrowers@.to_set().contains(b));
                    let j = choose|j: int| 0 <= j < n && borrowers@[j] == b;
                }
            }
        }
    }
}

} // verus!
