use microfinance_platform::ai_credit_scorer::AICreditScorer;
use microfinance_platform::decimal::{Decimal, ATTOS_PER_UNIT};
use microfinance_platform::dynamic_interest_calculator::{interest_rate_from, DynamicInterestCalculator};
use microfinance_platform::impact_tracker::ImpactTracker;
use microfinance_platform::insurance_pool::InsurancePool;
use microfinance_platform::mock_ai_oracle::MockAIOracle;
use microfinance_platform::mock_economic_oracle::MockEconomicOracle;
use microfinance_platform::reputation_governance::ReputationGovernance;
use microfinance_platform::vault::Bucket;

fn dec(units: i128) -> Decimal {
    Decimal::from_attos(units * ATTOS_PER_UNIT)
}

#[test]
fn oracles_answer_their_fixed_values() {
    let ai = MockAIOracle::new();
    let (score, loan, term) = ai.get_credit_assessment(42);
    assert_eq!(score, 750);
    assert_eq!(loan, dec(1000));
    assert_eq!(term, 2_592_000);
    let econ = MockEconomicOracle::new();
    assert_eq!(econ.get_economic_factor(), Decimal::from_attos(1_050_000_000_000_000_000));
}

#[test]
fn credit_scorer_forwards_the_oracle() {
    let ai = MockAIOracle::new();
    let scorer = AICreditScorer::new(11);
    assert_eq!(scorer.ai_oracle, 11);
    assert_eq!(scorer.get_credit_score(&ai, 5), (750, dec(1000), 2_592_000));
}

#[test]
fn interest_rate_from_base_factor_and_score() {
    let econ = MockEconomicOracle::new();
    let calc = DynamicInterestCalculator::new(Decimal::from_attos(50_000_000_000_000_000), 3);
    assert_eq!(calc.economic_indicator_oracle, 3);
    // 0.05 * 1.05 * (1000 - 750) / 1000 = 0.013125
    assert_eq!(calc.calculate_interest_rate(&econ, 750), Decimal::from_attos(13_125_000_000_000_000));
    // a perfect score costs nothing
    assert_eq!(calc.calculate_interest_rate(&econ, 1000), Decimal::zero());
    // a zero score pays the full scaled base rate
    assert_eq!(calc.calculate_interest_rate(&econ, 0), Decimal::from_attos(52_500_000_000_000_000));
}

#[test]
fn better_credit_never_costs_more() {
    let base = Decimal::from_attos(80_000_000_000_000_000);
    let factor = Decimal::from_attos(1_050_000_000_000_000_000);
    let mut previous = interest_rate_from(base, factor, 0).unwrap();
    for score in 1..=1000u32 {
        let rate = interest_rate_from(base, factor, score).unwrap();
        assert!(rate.le(&previous));
        assert!(Decimal::zero().le(&rate));
        previous = rate;
    }
    assert_eq!(interest_rate_from(base, factor, 1001), None);
    assert_eq!(interest_rate_from(Decimal { hi: i64::MAX, mid: u64::MAX, lo: u64::MAX }, factor, 0), None);
}

#[test]
fn reputation_starts_at_fifty_and_moves_by_ten() {
    let mut g = ReputationGovernance::new();
    assert_eq!(g.get_reputation(1), 50);
    g.update_reputation(1, true);
    assert_eq!(g.get_reputation(1), 60);
    g.update_reputation(1, false);
    g.update_reputation(1, false);
    assert_eq!(g.get_reputation(1), 40);
    assert_eq!(g.get_reputation(2), 50);
}

#[test]
fn reputation_is_capped_at_one_hundred() {
    let mut g = ReputationGovernance::new();
    for _ in 0..10 {
        g.update_reputation(9, true);
    }
    assert_eq!(g.get_reputation(9), 100);
    g.update_reputation(9, false);
    assert_eq!(g.get_reputation(9), 90);
}

#[test]
fn reputation_can_fall_to_zero() {
    let mut g = ReputationGovernance::new();
    for _ in 0..5 {
        g.update_reputation(4, false);
    }
    assert_eq!(g.get_reputation(4), 0);
}

#[test]
fn impact_metrics_without_loans_have_zero_rate() {
    let t = ImpactTracker::new();
    assert_eq!(t.get_impact_metrics(), (Decimal::zero(), Decimal::zero(), Decimal::zero()));
}

#[test]
fn impact_metrics_divide_repayments_by_loans() {
    let mut t = ImpactTracker::new();
    t.record_loan(1, dec(500));
    t.record_loan(2, dec(300));
    t.record_repayment(1, dec(600));
    let (loans, repaid, rate) = t.get_impact_metrics();
    assert_eq!(loans, dec(800));
    assert_eq!(repaid, dec(600));
    assert_eq!(rate, Decimal::from_attos(750_000_000_000_000_000));
}

#[test]
fn insurance_records_and_claims_a_loan() {
    let mut p = InsurancePool::new(5, Decimal::zero());
    let premium = p.insure_loan(8, dec(500));
    assert_eq!(premium, Bucket { resource: 5, amount: Decimal::zero() });
    let paid = p.claim_insurance(8, Decimal::zero());
    assert_eq!(paid, Bucket { resource: 5, amount: Decimal::zero() });
}

#[test]
fn insurance_premium_and_claim_are_paid_from_the_pool() {
    // a premium rate of 0.01
    let mut p = InsurancePool::new(5, Decimal::from_attos(10_000_000_000_000_000));
    p.pool.amount = dec(1000);
    let premium = p.insure_loan(8, dec(500));
    assert_eq!(premium, Bucket { resource: 5, amount: dec(5) });
    assert_eq!(p.pool.amount, dec(995));
    let paid = p.claim_insurance(8, dec(400));
    assert_eq!(paid, Bucket { resource: 5, amount: dec(400) });
    assert_eq!(p.pool.amount, dec(595));
    assert!(p.insured_loans.is_empty());
}

#[test]
fn an_empty_insurance_pool_pays_no_premium() {
    // a premium rate of 0.01; the premium of 5 is more than the pool holds
    let mut p = InsurancePool::new(5, Decimal::from_attos(10_000_000_000_000_000));
    let premium = p.insure_loan(8, dec(500));
    assert_eq!(premium, Bucket { resource: 5, amount: Decimal::zero() });
    assert_eq!(p.insured_loans.get(&8), Some(&dec(500)));
    // a pool holding less than the premium pays nothing either
    p.pool.amount = dec(4);
    let premium = p.insure_loan(9, dec(500));
    assert!(premium.is_empty());
    assert_eq!(p.pool.amount, dec(4));
}

#[test]
fn impact_totals_do_not_depend_on_the_order_of_records() {
    let mut a = ImpactTracker::new();
    a.record_loan(1, dec(500));
    a.record_repayment(1, dec(200));
    a.record_loan(2, dec(300));
    let mut b = ImpactTracker::new();
    b.record_loan(2, dec(300));
    b.record_loan(1, dec(500));
    b.record_repayment(7, dec(200));
    assert_eq!(a.get_impact_metrics(), b.get_impact_metrics());
    assert_eq!(a.get_impact_metrics().0, dec(800));
    assert_eq!(a.get_impact_metrics().1, dec(200));
}

#[test]
fn reputation_stays_a_multiple_of_ten_within_range() {
    let mut g = ReputationGovernance::new();
    let pattern = [true, true, false, true, true, true, true, true, false, false, true, false];
    for (i, on_time) in pattern.iter().cycle().take(60).enumerate() {
        let borrower = (i % 3) as u64;
        if *on_time || g.get_reputation(borrower) >= 10 {
            g.update_reputation(borrower, *on_time);
        }
        for b in 0..3u64 {
            let score = g.get_reputation(b);
            assert!(score <= 100);
            assert_eq!(score % 10, 0);
        }
    }
}
