use microfinance_platform::ai_credit_scorer::AICreditScorer;
use microfinance_platform::decimal::{Decimal, ATTOS_PER_UNIT};
use microfinance_platform::dynamic_interest_calculator::DynamicInterestCalculator;
use microfinance_platform::impact_tracker::ImpactTracker;
use microfinance_platform::insurance_pool::InsurancePool;
use microfinance_platform::microfinance_pool::{Loan, MicrofinancePool, PlatformComponents, LOAN_DURATION};
use microfinance_platform::mock_ai_oracle::MockAIOracle;
use microfinance_platform::mock_economic_oracle::MockEconomicOracle;
use microfinance_platform::reputation_governance::ReputationGovernance;
use microfinance_platform::vault::Bucket;

const XRD: u64 = 1;
const BADGE: u64 = 2;
const BORROWER: u64 = 500;

fn dec(units: i128) -> Decimal {
    Decimal::from_attos(units * ATTOS_PER_UNIT)
}

fn platform() -> (MicrofinancePool, PlatformComponents) {
    let components = PlatformComponents {
        ai_oracle: MockAIOracle::new(),
        economic_oracle: MockEconomicOracle::new(),
        ai_credit_scorer: AICreditScorer::new(10),
        // a base rate of 0.05
        interest_calculator: DynamicInterestCalculator::new(Decimal::from_attos(50_000_000_000_000_000), 11),
        insurance_pool: InsurancePool::new(XRD, Decimal::zero()),
        governance: ReputationGovernance::new(),
        impact_tracker: ImpactTracker::new(),
    };
    let (pool, badge) = MicrofinancePool::new(XRD, 20, 21, 22, 23, 24, 25, BADGE);
    assert_eq!(badge, Bucket { resource: BADGE, amount: Decimal::one() });
    (pool, components)
}

#[test]
fn deposit_hands_back_an_empty_bucket() {
    let (mut pool, _) = platform();
    let change = pool.deposit(dec(1000), XRD);
    assert_eq!(change, Bucket::empty(XRD));
}

#[test]
fn loan_then_on_time_repayment() {
    let (mut pool, mut c) = platform();
    pool.deposit(dec(1000), XRD);
    let (loan, premium) = pool.request_loan(BORROWER, dec(500), XRD, &mut c, 100);
    assert_eq!(loan, Bucket { resource: XRD, amount: dec(500) });
    assert_eq!(premium, Bucket { resource: XRD, amount: Decimal::zero() });

    // rate 0.013125: 500 * 1.013125 = 506.5625 repays the loan; 550 leaves 43.4375
    let rest = pool.repay_loan(BORROWER, Bucket { resource: XRD, amount: dec(550) }, &mut c, 100 + LOAN_DURATION);
    assert_eq!(rest, Bucket { resource: XRD, amount: Decimal::from_attos(43_437_500_000_000_000_000) });
    assert_eq!(c.governance.get_reputation(BORROWER), 60);

    let (lent, repaid, rate) = c.impact_tracker.get_impact_metrics();
    assert_eq!(lent, dec(500));
    assert_eq!(repaid, Decimal::from_attos(506_562_500_000_000_000_000));
    assert_eq!(rate, Decimal::from_attos(1_013_125_000_000_000_000));
    assert!(lent.is_positive() && repaid.is_positive() && rate.is_positive());
}

#[test]
fn late_repayment_lowers_reputation() {
    let (mut pool, mut c) = platform();
    pool.deposit(dec(1000), XRD);
    pool.request_loan(BORROWER, dec(100), XRD, &mut c, 0);
    let rest = pool.repay_loan(BORROWER, Bucket { resource: XRD, amount: Decimal::from_attos(101_312_500_000_000_000_000) }, &mut c, LOAN_DURATION + 1);
    assert!(rest.is_empty());
    assert_eq!(c.governance.get_reputation(BORROWER), 40);
}

#[test]
fn liquidation_closes_only_overdue_loans() {
    let (mut pool, mut c) = platform();
    pool.deposit(dec(1000), XRD);
    // the insurance pool holds nothing, so only loans of zero are liquidated here
    pool.request_loan(7, Decimal::zero(), XRD, &mut c, 0);
    pool.request_loan(8, dec(10), XRD, &mut c, 100);
    pool.liquidate_overdue_loans(BADGE, &mut c, LOAN_DURATION + 1);
    assert_eq!(c.governance.get_reputation(7), 40);
    assert_eq!(c.governance.get_reputation(8), 50);
    // the loan of 8 is still open and can be repaid on time
    let rest = pool.repay_loan(8, Bucket { resource: XRD, amount: dec(11) }, &mut c, 100 + LOAN_DURATION);
    assert_eq!(rest.amount, Decimal::from_attos(11 * ATTOS_PER_UNIT - 10_131_250_000_000_000_000));
    assert_eq!(c.governance.get_reputation(8), 60);
}

#[test]
fn a_new_currency_starts_empty() {
    let (mut pool, mut c) = platform();
    pool.add_currency(77);
    pool.deposit(dec(5), 77);
    let (loan, _) = pool.request_loan(BORROWER, dec(5), 77, &mut c, 0);
    assert_eq!(loan, Bucket { resource: 77, amount: dec(5) });
}

#[test]
fn repayment_amount_of_a_loan() {
    let loan = Loan {
        currency: XRD,
        amount: dec(500),
        interest_rate: Decimal::from_attos(13_125_000_000_000_000),
        due_epoch: 10,
    };
    assert_eq!(loan.repayment_amount(), Some(Decimal::from_attos(506_562_500_000_000_000_000)));
    let huge = Loan { currency: XRD, amount: Decimal { hi: i64::MAX, mid: u64::MAX, lo: u64::MAX }, interest_rate: dec(1), due_epoch: 0 };
    assert_eq!(huge.repayment_amount(), None);
}

#[test]
fn a_repaid_loan_leaves_no_trace() {
    let (mut pool, mut c) = platform();
    pool.deposit(dec(1000), XRD);
    pool.request_loan(BORROWER, dec(500), XRD, &mut c, 0);
    assert_eq!(pool.loans.len(), 1);
    let rest = pool.repay_loan(BORROWER, Bucket { resource: XRD, amount: Decimal::from_attos(506_562_500_000_000_000_000) }, &mut c, 0);
    assert!(rest.is_empty());
    assert!(pool.loans.is_empty());
    // the vault gained the interest
    assert_eq!(pool.lending_pools.get(&XRD).unwrap().amount, Decimal::from_attos(1_006_562_500_000_000_000_000));
}

#[test]
fn liquidation_moves_insurance_payouts_into_the_pool() {
    let (mut pool, mut c) = platform();
    pool.deposit(dec(1000), XRD);
    // give the insurance pool funds to pay claims with
    c.insurance_pool.pool.amount = dec(300);
    pool.request_loan(1, dec(100), XRD, &mut c, 0);
    pool.request_loan(2, dec(150), XRD, &mut c, 0);
    pool.request_loan(3, dec(50), XRD, &mut c, 1000);
    assert_eq!(pool.lending_pools.get(&XRD).unwrap().amount, dec(700));

    pool.liquidate_overdue_loans(BADGE, &mut c, LOAN_DURATION + 1);
    // the two overdue loans were paid by the insurance pool into the lending pool
    assert_eq!(pool.lending_pools.get(&XRD).unwrap().amount, dec(950));
    assert_eq!(c.insurance_pool.pool.amount, dec(50));
    assert_eq!(pool.loans.len(), 1);
    assert!(pool.loans.contains_key(&3));
    assert!(!c.insurance_pool.insured_loans.contains_key(&1));
    assert!(!c.insurance_pool.insured_loans.contains_key(&2));
    assert!(c.insurance_pool.insured_loans.contains_key(&3));
    assert_eq!(c.governance.get_reputation(1), 40);
    assert_eq!(c.governance.get_reputation(2), 40);
    assert_eq!(c.governance.get_reputation(3), 50);

    // a second liquidation at the same epoch changes nothing
    pool.liquidate_overdue_loans(BADGE, &mut c, LOAN_DURATION + 1);
    assert_eq!(pool.lending_pools.get(&XRD).unwrap().amount, dec(950));
    assert_eq!(c.governance.get_reputation(1), 40);
}

#[test]
fn overdue_borrowers_are_listed_once_each() {
    let (mut pool, mut c) = platform();
    pool.deposit(dec(1000), XRD);
    pool.request_loan(1, dec(1), XRD, &mut c, 0);
    pool.request_loan(2, dec(1), XRD, &mut c, 5);
    pool.request_loan(3, dec(1), XRD, &mut c, 10);
    let mut overdue = pool.list_overdue_borrowers(LOAN_DURATION + 6);
    overdue.sort();
    assert_eq!(overdue, vec![1, 2]);
    assert!(pool.list_overdue_borrowers(LOAN_DURATION).is_empty());
}

#[test]
fn test_microfinance_platform() {
    // Set up the components: a base rate of 0.05 and a premium rate of 0.01
    let ai_oracle = MockAIOracle::new();
    let economic_oracle = MockEconomicOracle::new();
    let ai_credit_scorer = AICreditScorer::new(10);
    let interest_calculator = DynamicInterestCalculator::new(Decimal::from_attos(50_000_000_000_000_000), 11);
    let insurance_pool = InsurancePool::new(XRD, Decimal::from_attos(10_000_000_000_000_000));
    let governance = ReputationGovernance::new();
    let impact_tracker = ImpactTracker::new();
    let mut c = PlatformComponents {
        ai_oracle,
        economic_oracle,
        ai_credit_scorer,
        interest_calculator,
        insurance_pool,
        governance,
        impact_tracker,
    };
    let (mut pool, admin_badge) = MicrofinancePool::new(XRD, 20, 21, 22, 23, 24, 25, BADGE);

    // Test deposit
    let deposit_amount = dec(1000);
    pool.deposit(deposit_amount, XRD);

    // Test request loan
    let loan_amount = dec(500);
    let (loan, premium) = pool.request_loan(BORROWER, loan_amount, XRD, &mut c, 0);
    assert_eq!(loan.amount, loan_amount);
    // the insurance pool holds nothing, so it pays no premium
    assert!(premium.is_empty());
    assert_eq!(pool.lending_pools.get(&XRD).unwrap().amount, dec(500));
    assert_eq!(
        *pool.loans.get(&BORROWER).unwrap(),
        Loan { currency: XRD, amount: dec(500), interest_rate: Decimal::from_attos(13_125_000_000_000_000), due_epoch: LOAN_DURATION }
    );

    // Test repay loan
    let repayment_amount = dec(550);
    pool.repay_loan(BORROWER, Bucket { resource: XRD, amount: repayment_amount }, &mut c, 0);

    // Test liquidate overdue loans (admin function)
    pool.liquidate_overdue_loans(admin_badge.resource, &mut c, 0);

    // Test impact metrics
    let (total_loans, total_repayments, repayment_rate) = c.impact_tracker.get_impact_metrics();
    assert!(total_loans.is_positive());
    assert!(total_repayments.is_positive());
    assert!(repayment_rate.is_positive());
}
