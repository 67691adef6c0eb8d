//! Properties of the platform that span its operations, proved over the
//! specifications the operations are stated in.
use vstd::prelude::*;
use crate::cross_chain_liquidity_pool::{ask_from, LiquidityStep};
use crate::decimal::{spec_div, spec_mul, ATTOS_PER_UNIT, Decimal};
use crate::impact_tracker::{repayment_rate, ImpactTracker};
use crate::insurance_pool::{premium, premium_paid};
use crate::dynamic_interest_calculator::{credit_factor, interest_rate, lemma_credit_factor, MAX_CREDIT_SCORE};
use crate::microfinance_pool::{
    loan_amounts, loan_amounts_in, lowered_reputations, overdue_borrowers, repayment_due, Loan, MicrofinancePool,
    PlatformComponents,
};
use crate::reputation_governance::{next_reputation, reputation_in, DEFAULT_REPUTATION, MAX_REPUTATION, REPUTATION_STEP};
use crate::mock_ai_oracle::{mock_assessment, MOCK_CREDIT_SCORE};
use crate::mock_economic_oracle::MOCK_ECONOMIC_FACTOR_ATTOS;
use crate::microfinance_pool::LOAN_DURATION;
use crate::set_sum::{lemma_sum_congruent, lemma_sum_empty, sum_over};
use crate::vault::{ComponentId, ResourceId};

verus! {

broadcast use crate::decimal::group_decimal;

/// A score from 0 to 100 stays from 0 to 100 after any repayment it can take.
pub proof fn law_reputation_stays_in_range(score: u32, on_time: bool)
    requires
        score <= MAX_REPUTATION,
        on_time || score >= REPUTATION_STEP,
    ensures
        next_reputation(score, on_time) <= MAX_REPUTATION,
{
}

/// A score that is a multiple of 10 stays a multiple of 10 after any
/// repayment it can take; so does every score, starting from the default 50.
pub proof fn law_reputation_moves_in_whole_steps(score: u32, on_time: bool)
    requires
        score <= MAX_REPUTATION,
        score % REPUTATION_STEP == 0,
        on_time || score >= REPUTATION_STEP,
    ensures
        next_reputation(score, on_time) % REPUTATION_STEP == 0,
        DEFAULT_REPUTATION % REPUTATION_STEP == 0,
{
}

/// A repayment on time never lowers a score; a late one lowers it by exactly 10.
pub proof fn law_on_time_raises_late_lowers(score: u32)
    requires
        score <= MAX_REPUTATION,
    ensures
        next_reputation(score, true) >= score,
        score < MAX_REPUTATION ==> next_reputation(score, true) > score,
        score >= REPUTATION_STEP ==> next_reputation(score, false) == score - REPUTATION_STEP,
{
}

/// What a reputation update records is what a later read of that borrower
/// gives, and the other borrowers read as before.
pub proof fn law_reputation_read_after_update(
    scores: Map<ComponentId, u32>,
    borrower: ComponentId,
    on_time: bool,
    other: ComponentId,
)
    ensures
        ({
            let updated = scores.insert(borrower, next_reputation(reputation_in(scores, borrower), on_time));
            &&& reputation_in(updated, borrower) == next_reputation(reputation_in(scores, borrower), on_time)
            &&& other != borrower ==> reputation_in(updated, other) == reputation_in(scores, other)
        }),
{
}

/// A better credit score never gives a higher interest rate, as long as the
/// base rate scaled by the economic factor is not negative; and the rate is
/// then not negative either.
pub proof fn law_better_credit_never_costs_more(base_rate: int, economic_factor: int, lower: u32, higher: u32)
    requires
        lower <= higher <= MAX_CREDIT_SCORE,
        spec_mul(base_rate, economic_factor) >= 0,
    ensures
        0 <= interest_rate(base_rate, economic_factor, higher) <= interest_rate(base_rate, economic_factor, lower),
{
    lemma_credit_factor(lower);
    lemma_credit_factor(higher);
    let x = spec_mul(base_rate, economic_factor);
    let c_low = credit_factor(lower);
    let c_high = credit_factor(higher);
    assert(c_high <= c_low);
    vstd::arithmetic::mul::lemma_mul_inequality(c_high, c_low, x);
    vstd::arithmetic::mul::lemma_mul_is_commutative(c_high, x);
    vstd::arithmetic::mul::lemma_mul_is_commutative(c_low, x);
    vstd::arithmetic::mul::lemma_mul_nonnegative(x, c_high);
    vstd::arithmetic::div_mod::lemma_div_is_ordered(x * c_high, x * c_low, ATTOS_PER_UNIT as int);
    vstd::arithmetic::div_mod::lemma_div_pos_is_pos(x * c_high, ATTOS_PER_UNIT as int);
}

/// The best credit score gives a zero interest rate.
pub proof fn law_perfect_credit_is_free(base_rate: int, economic_factor: int)
    ensures
        interest_rate(base_rate, economic_factor, MAX_CREDIT_SCORE) == 0,
{
    lemma_credit_factor(MAX_CREDIT_SCORE);
    let x = spec_mul(base_rate, economic_factor);
    assert(x * 0 == 0) by (nonlinear_arith);
}

/// With a non-negative interest rate, what repays a loan is at least the loan.
pub proof fn law_repayment_covers_loan(loan: Loan)
    requires
        loan.amount.attos() >= 0,
        loan.interest_rate.attos() >= 0,
    ensures
        repayment_due(loan) >= loan.amount.attos(),
{
    let a = loan.amount.attos();
    let f = ATTOS_PER_UNIT + loan.interest_rate.attos();
    let one = ATTOS_PER_UNIT as int;
    assert(a * f >= a * one) by (nonlinear_arith)
        requires
            a >= 0,
            f >= one,
    ;
    assert(a * one / one == a) by (nonlinear_arith)
        requires
            one > 0,
    ;
    vstd::arithmetic::div_mod::lemma_div_is_ordered(a * one, a * f, one);
}

/// A loan that is taken and then repaid leaves the loan book as it was,
/// provided the borrower had no loan before.
pub proof fn law_repaid_loan_leaves_no_trace(loans: Map<ComponentId, Loan>, borrower: ComponentId, loan: Loan)
    requires
        !loans.contains_key(borrower),
    ensures
        loans.insert(borrower, loan).remove(borrower) == loans,
{
    assert(loans.insert(borrower, loan).remove(borrower) =~= loans);
}

/// With a non-negative interest rate, what repays a loan is its amount plus
/// the interest `amount * interest_rate` (rounded toward zero); so a vault that
/// lends a loan and takes its repayment ends up richer by exactly that interest.
pub proof fn law_repayment_is_amount_plus_interest(loan: Loan, vault_before: int)
    requires
        loan.amount.attos() >= 0,
        loan.interest_rate.attos() >= 0,
    ensures
        repayment_due(loan) == loan.amount.attos() + spec_mul(loan.amount.attos(), loan.interest_rate.attos()),
        vault_before - loan.amount.attos() + repayment_due(loan)
            == vault_before + spec_mul(loan.amount.attos(), loan.interest_rate.attos()),
{
    let a = loan.amount.attos();
    let r = loan.interest_rate.attos();
    let one = ATTOS_PER_UNIT as int;
    assert(a * (one + r) == a * r + a * one) by (nonlinear_arith);
    assert(a * r >= 0) by (nonlinear_arith)
        requires
            a >= 0,
            r >= 0,
    ;
    assert(a * (one + r) >= 0) by (nonlinear_arith)
        requires
            a >= 0,
            r >= 0,
            one > 0,
    ;
    vstd::arithmetic::div_mod::lemma_hoist_over_denominator(a * r, a, one as nat);
}

/// Every operation of the lending pool keeps a vault for each currency that
/// had one, the base currency's among them, and a vault for the currency of
/// each open loan.
pub proof fn law_loans_keep_their_vaults(earlier: MicrofinancePool, later: MicrofinancePool)
    requires
        earlier.pools().contains_key(earlier.base_currency()),
        later.wf(),
        later.keeps_vaults_of(&earlier),
        later.same_setup(&earlier),
    ensures
        later.pools().contains_key(later.base_currency()),
        forall|b: ComponentId| #[trigger] later.loans().contains_key(b) ==> later.pools().contains_key(later.loans()[b].currency),
{
}

/// A second liquidation at the same epoch finds no overdue loan: it closes
/// nothing, moves no funds and changes no reputation.
pub proof fn law_second_liquidation_changes_nothing(
    loans: Map<ComponentId, Loan>,
    epoch: u64,
    scores: Map<ComponentId, u32>,
    currency: ResourceId,
)
    ensures
        ({
            let left = loans.remove_keys(overdue_borrowers(loans, epoch));
            let again = overdue_borrowers(left, epoch);
            &&& again == Set::<ComponentId>::empty()
            &&& left.remove_keys(again) == left
            &&& sum_over(again, loan_amounts(left)) == 0
            &&& sum_over(again, loan_amounts_in(left, currency)) == 0
            &&& scores.union_prefer_right(lowered_reputations(scores, again)) == scores
        }),
{
    let left = loans.remove_keys(overdue_borrowers(loans, epoch));
    let again = overdue_borrowers(left, epoch);
    assert(again =~= Set::<ComponentId>::empty());
    assert(left.remove_keys(again) =~= left);
    lemma_sum_empty(loan_amounts(left));
    lemma_sum_empty(loan_amounts_in(left, currency));
    assert(scores.union_prefer_right(lowered_reputations(scores, again)) =~= scores);
}

/// The totals of an impact tracker after a run of records, each a loan (`true`)
/// or a repayment (`false`) of an amount in attos, applied as `record_loan`
/// and `record_repayment` apply them.
pub open spec fn after_records(totals: (int, int), records: Seq<(bool, int)>) -> (int, int)
    decreases records.len(),
{
    if records.len() == 0 {
        totals
    } else {
        let before = after_records(totals, records.drop_last());
        let (is_loan, amount) = records.last();
        if is_loan {
            (before.0 + amount, before.1)
        } else {
            (before.0, before.1 + amount)
        }
    }
}

/// The sum of the amounts of the loan records (`true`) or of the repayment
/// records (`false`).
pub open spec fn recorded_sum(records: Seq<(bool, int)>, loans: bool) -> int
    decreases records.len(),
{
    if records.len() == 0 {
        0
    } else {
        recorded_sum(records.drop_last(), loans) + if records.last().0 == loans { records.last().1 } else { 0 }
    }
}

/// From zero, the totals of an impact tracker are the sums of the recorded
/// loans and repayments.
pub proof fn law_impact_totals_are_sums(records: Seq<(bool, int)>)
    ensures
        after_records((0, 0), records) == (recorded_sum(records, true), recorded_sum(records, false)),
    decreases records.len(),
{
    if records.len() > 0 {
        law_impact_totals_are_sums(records.drop_last());
    }
}

/// A run of an impact tracker: `trackers[0]` has both totals at zero, as
/// `ImpactTracker::new` leaves them, and each `trackers[i + 1]` is what
/// `record_loan` (for a record `(true, a)`) or `record_repayment` (for
/// `(false, a)`) of an amount of `a` attos leaves of `trackers[i]`.
pub open spec fn is_run(trackers: Seq<ImpactTracker>, records: Seq<(bool, int)>) -> bool {
    &&& trackers.len() == records.len() + 1
    &&& trackers[0].loans_total() == 0
    &&& trackers[0].repayments_total() == 0
    &&& forall|i: int| #![trigger records[i]] 0 <= i < records.len() ==> {
        let (is_loan, amount) = records[i];
        if is_loan {
            &&& trackers[i + 1].loans_total() == trackers[i].loans_total() + amount
            &&& trackers[i + 1].repayments_total() == trackers[i].repayments_total()
        } else {
            &&& trackers[i + 1].repayments_total() == trackers[i].repayments_total() + amount
            &&& trackers[i + 1].loans_total() == trackers[i].loans_total()
        }
    }
}

/// Whatever the order of the records and whichever borrowers they name, a
/// tracker made by `new` and then given the records reports as its totals
/// (`get_impact_metrics().0` and `.1`) the sum of the loans recorded and the
/// sum of the repayments recorded.
pub proof fn law_impact_tracker_totals_are_sums(trackers: Seq<ImpactTracker>, records: Seq<(bool, int)>)
    requires
        is_run(trackers, records),
    ensures
        trackers.last().loans_total() == recorded_sum(records, true),
        trackers.last().repayments_total() == recorded_sum(records, false),
    decreases records.len(),
{
    if records.len() > 0 {
        let n = records.len() - 1;
        let earlier = trackers.drop_last();
        let first = records.drop_last();
        assert forall|i: int| #![trigger first[i]] 0 <= i < first.len() implies {
            let (is_loan, amount) = first[i];
            if is_loan {
                &&& earlier[i + 1].loans_total() == earlier[i].loans_total() + amount
                &&& earlier[i + 1].repayments_total() == earlier[i].repayments_total()
            } else {
                &&& earlier[i + 1].repayments_total() == earlier[i].repayments_total() + amount
                &&& earlier[i + 1].loans_total() == earlier[i].loans_total()
            }
        } by {
            assert(first[i] == records[i]);
        }
        law_impact_tracker_totals_are_sums(earlier, first);
        assert(records[n] == records.last());
    }
}

/// Sums of records split over concatenation.
proof fn lemma_recorded_sum_append(a: Seq<(bool, int)>, b: Seq<(bool, int)>, loans: bool)
    ensures
        recorded_sum(a + b, loans) == recorded_sum(a, loans) + recorded_sum(b, loans),
    decreases b.len(),
{
    if b.len() == 0 {
        assert(a + b =~= a);
    } else {
        lemma_recorded_sum_append(a, b.drop_last(), loans);
        assert((a + b).drop_last() =~= a + b.drop_last());
    }
}

/// The totals of an impact tracker do not depend on the order of the records:
/// swapping two neighbouring records gives the same totals.
pub proof fn law_impact_totals_ignore_order(records: Seq<(bool, int)>, i: int)
    requires
        0 <= i,
        i + 1 < records.len(),
    ensures
        after_records((0, 0), records.update(i, records[i + 1]).update(i + 1, records[i]))
            == after_records((0, 0), records),
{
    let swapped = records.update(i, records[i + 1]).update(i + 1, records[i]);
    let head = records.take(i);
    let tail = records.skip(i + 2);
    let pair = seq![records[i], records[i + 1]];
    let rpair = seq![records[i + 1], records[i]];
    assert(records =~= head + pair + tail);
    assert(swapped =~= head + rpair + tail);
    law_impact_totals_are_sums(records);
    law_impact_totals_are_sums(swapped);
    assert forall|loans: bool| recorded_sum(swapped, loans) == recorded_sum(records, loans) by {
        lemma_recorded_sum_append(head + pair, tail, loans);
        lemma_recorded_sum_append(head, pair, loans);
        lemma_recorded_sum_append(head + rpair, tail, loans);
        lemma_recorded_sum_append(head, rpair, loans);
        assert(pair.drop_last() =~= seq![records[i]]);
        assert(rpair.drop_last() =~= seq![records[i + 1]]);
        assert(seq![records[i]].drop_last() =~= Seq::<(bool, int)>::empty());
        assert(seq![records[i + 1]].drop_last() =~= Seq::<(bool, int)>::empty());
        let tx = if records[i].0 == loans { records[i].1 } else { 0 };
        let ty = if records[i + 1].0 == loans { records[i + 1].1 } else { 0 };
        assert(recorded_sum(Seq::<(bool, int)>::empty(), loans) == 0);
        assert(recorded_sum(seq![records[i]], loans) == tx);
        assert(recorded_sum(seq![records[i + 1]], loans) == ty);
        assert(recorded_sum(pair, loans) == tx + ty);
        assert(recorded_sum(rpair, loans) == ty + tx);
    }
}

/// After a liquidation at an epoch, no loan left is due before that epoch,
/// and every loan not yet due is still there, unchanged.
pub proof fn law_no_overdue_loan_survives_liquidation(loans: Map<ComponentId, Loan>, epoch: u64)
    ensures
        ({
            let left = loans.remove_keys(overdue_borrowers(loans, epoch));
            &&& forall|b: ComponentId| #[trigger] left.contains_key(b) ==> left[b].due_epoch >= epoch
            &&& forall|b: ComponentId|
                #[trigger] loans.contains_key(b) && loans[b].due_epoch >= epoch ==> left.contains_key(b) && left[b] == loans[b]
        }),
{
}

/// In a liquidation whose overdue loans are all in the insurance currency,
/// the vault of that currency receives exactly what the insurance pays out,
/// and the vaults of other currencies receive nothing.
pub proof fn law_liquidation_payout_is_received(
    loans: Map<ComponentId, Loan>,
    epoch: u64,
    insured_currency: ResourceId,
    other: ResourceId,
)
    requires
        loans.dom().finite(),
        forall|b: ComponentId| #[trigger] overdue_borrowers(loans, epoch).contains(b) ==> loans[b].currency == insured_currency,
    ensures
        sum_over(overdue_borrowers(loans, epoch), loan_amounts_in(loans, insured_currency))
            == sum_over(overdue_borrowers(loans, epoch), loan_amounts(loans)),
        other != insured_currency ==> sum_over(overdue_borrowers(loans, epoch), loan_amounts_in(loans, other)) == 0,
{
    let s = overdue_borrowers(loans, epoch);
    vstd::set_lib::lemma_set_subset_finite(loans.dom(), s);
    lemma_sum_congruent(s, loan_amounts_in(loans, insured_currency), loan_amounts(loans));
    if other != insured_currency {
        let zero = |b: ComponentId| 0int;
        lemma_sum_congruent(s, loan_amounts_in(loans, other), zero);
        lemma_zero_sum(s);
    }
}

/// A loan just insured can be claimed up to its amount, and the claim
/// removes the insurance as if the loan had never been insured.
pub proof fn law_claim_after_insure(insured: Map<ComponentId, Decimal>, borrower: ComponentId, loan_amount: Decimal)
    ensures
        insured.insert(borrower, loan_amount).contains_key(borrower),
        insured.insert(borrower, loan_amount)[borrower].attos() >= loan_amount.attos(),
        insured.insert(borrower, loan_amount).remove(borrower) == insured.remove(borrower),
{
    assert(insured.insert(borrower, loan_amount).remove(borrower) =~= insured.remove(borrower));
}

/// A liquidity request asks the bridges one after another, in their order,
/// each at most once and each for the whole amount, and fails only after the last one.
pub proof fn law_bridges_asked_in_order(bridges: Seq<(Seq<char>, ComponentId)>, index: int, amount: Decimal)
    requires
        0 <= index,
    ensures
        index < bridges.len() ==> ask_from(bridges, index, amount) == LiquidityStep::AskBridge(index as usize, bridges[index].1, amount),
        index >= bridges.len() ==> ask_from(bridges, index, amount) == LiquidityStep::Exhausted,
{
}

/// Zero terms sum to zero.
proof fn lemma_zero_sum(keys: Set<u64>)
    requires
        keys.finite(),
    ensures
        sum_over(keys, |b: u64| 0int) == 0,
{
    crate::set_sum::lemma_sum_nonneg(keys, |b: u64| 0int);
    let neg = |b: u64| 0int;
    lemma_sum_upper_zero(keys, neg);
}

/// Non-positive terms sum to at most zero.
proof fn lemma_sum_upper_zero(keys: Set<u64>, term: spec_fn(u64) -> int)
    requires
        keys.finite(),
        forall|k: u64| keys.contains(k) ==> term(k) <= 0,
    ensures
        sum_over(keys, term) <= 0,
    decreases keys.len(),
{
    if keys.is_empty() {
        assert(keys =~= Set::<u64>::empty());
        lemma_sum_empty(term);
    } else {
        let x = keys.choose();
        let rest = keys.remove(x);
        lemma_sum_upper_zero(rest, term);
        assert(keys =~= rest.insert(x));
        crate::set_sum::lemma_sum_insert(rest, term, x);
    }
}

/// A borrower with no recorded score has 50; a repayment on time raises a
/// score from 0 to 100 by exactly 10, to at most 100, and a late one lowers a
/// score of at least 10 by exactly 10.
pub proof fn law_reputation_update_is_exact(scores: Map<ComponentId, u32>, borrower: ComponentId, score: u32)
    requires
        score <= 100,
    ensures
        !scores.contains_key(borrower) ==> reputation_in(scores, borrower) == 50,
        scores.contains_key(borrower) ==> reputation_in(scores, borrower) == scores[borrower],
        next_reputation(score, true) == (if score + 10 <= 100 { score + 10 } else { 100 }),
        score >= 10 ==> next_reputation(score, false) == score - 10,
{
}

/// A liquidation lowers the score of each overdue borrower by exactly 10 from
/// the score it had before (50 when none was recorded), and records no score
/// for a borrower that is not overdue.
pub proof fn law_liquidation_lowers_each_score_by_ten(
    scores: Map<ComponentId, u32>,
    overdue: Set<ComponentId>,
    borrower: ComponentId,
    other: ComponentId,
)
    requires
        overdue.contains(borrower),
        !overdue.contains(other),
        (if scores.contains_key(borrower) { scores[borrower] } else { 50 }) >= 10,
    ensures
        lowered_reputations(scores, overdue).contains_key(borrower),
        scores.union_prefer_right(lowered_reputations(scores, overdue))[borrower]
            == (if scores.contains_key(borrower) { scores[borrower] } else { 50 }) - 10,
        !lowered_reputations(scores, overdue).contains_key(other),
        scores.union_prefer_right(lowered_reputations(scores, overdue)).contains_key(other) == scores.contains_key(other),
        scores.contains_key(other) ==> scores.union_prefer_right(lowered_reputations(scores, overdue))[other] == scores[other],
{
}

/// The repayment rate is what was repaid divided by what was lent, rounded
/// toward zero: zero while nothing was repaid, one when all was repaid, and
/// zero while nothing was lent.
pub proof fn law_repayment_rate_is_repaid_over_lent(loans: int, repayments: int)
    ensures
        loans > 0 ==> repayment_rate(loans, repayments) == spec_div(repayments, loans),
        loans > 0 && repayments == 0 ==> repayment_rate(loans, repayments) == 0,
        loans > 0 && repayments == loans ==> repayment_rate(loans, repayments) == ATTOS_PER_UNIT,
        loans <= 0 ==> repayment_rate(loans, repayments) == 0,
{
    if loans > 0 && repayments == loans {
        vstd::arithmetic::div_mod::lemma_div_multiples_vanish(ATTOS_PER_UNIT as int, loans);
        assert(loans * (ATTOS_PER_UNIT as int) == (ATTOS_PER_UNIT as int) * loans) by (nonlinear_arith);
        assert(loans * (ATTOS_PER_UNIT as int) >= 0) by (nonlinear_arith)
            requires
                loans > 0,
        ;
    }
}

/// The premium of a loan is its amount times the premium rate (rounded toward
/// zero); the pool pays exactly that whenever it holds it, and nothing when it
/// does not.
pub proof fn law_premium_is_loan_times_rate(loan_amount: int, premium_rate: int, balance: int)
    ensures
        premium(loan_amount, premium_rate) == spec_mul(loan_amount, premium_rate),
        spec_mul(loan_amount, premium_rate) <= balance
            ==> premium_paid(loan_amount, premium_rate, balance) == spec_mul(loan_amount, premium_rate),
        spec_mul(loan_amount, premium_rate) > balance ==> premium_paid(loan_amount, premium_rate, balance) == 0,
{
}

/// The interest rate for a credit score from 0 to 1000 is the base rate
/// times the economic factor times `(1000 - score) / 1000`, each product
/// rounded toward zero.
pub proof fn law_interest_rate_scales_with_base_and_score(base_rate: int, economic_factor: int, credit_score: u32)
    requires
        credit_score <= 1000,
    ensures
        interest_rate(base_rate, economic_factor, credit_score)
            == spec_mul(spec_mul(base_rate, economic_factor), (1000 - credit_score) * 1_000_000_000_000_000),
{
    lemma_credit_factor(credit_score);
}

/// A new loan is priced at the configured calculator's rate: its base rate
/// times the economic factor 1.05 the oracle reports times the share 0.25 that
/// the credit score 750 the scorer reports leaves.
pub proof fn law_loan_rate_is_calculators_rate(components: PlatformComponents)
    ensures
        components.loan_rate() == spec_mul(
            spec_mul(components.interest_calculator.base_rate.attos(), 1_050_000_000_000_000_000),
            250_000_000_000_000_000,
        ),
{
    lemma_credit_factor(750);
}

/// The stand-in oracles answer a credit score of 750, a recommended loan of
/// 1000 units and a term of 30 days (2592000 seconds), and an economic factor
/// of 1.05; a loan falls due 30 days after it is taken.
pub proof fn law_stand_in_values()
    ensures
        MOCK_CREDIT_SCORE == 750,
        mock_assessment().0 == 750,
        mock_assessment().1.attos() == 1_000_000_000_000_000_000_000,
        mock_assessment().2 == 2_592_000,
        MOCK_ECONOMIC_FACTOR_ATTOS == 1_050_000_000_000_000_000,
        LOAN_DURATION == 30 * 24 * 60 * 60,
{
}

} // verus!
