//! Sums of integer terms over finite sets of keys, whatever order the keys
//! are visited in.
use vstd::prelude::*;

verus! {

/// The step of a sum: adds the term of one key to the running total.
pub open spec fn add_term(term: spec_fn(u64) -> int) -> spec_fn(int, u64) -> int {
    |acc: int, k: u64| acc + term(k)
}

/// The sum of `term(k)` over the keys `k` of a finite set.
pub open spec fn sum_over(keys: Set<u64>, term: spec_fn(u64) -> int) -> int {
    keys.fold(0, add_term(term))
}

/// Adding terms can be done in any order.
pub proof fn lemma_add_term_commutative(term: spec_fn(u64) -> int)
    ensures
        vstd::set::fold::is_fun_commutative(add_term(term)),
{
}

/// The sum over no keys is zero.
pub proof fn lemma_sum_empty(term: spec_fn(u64) -> int)
    ensures
        sum_over(Set::<u64>::empty(), term) == 0,
{
    vstd::set::fold::lemma_fold_empty(0, add_term(term));
}

/// Adding a new key adds its term.
pub proof fn lemma_sum_insert(keys: Set<u64>, term: spec_fn(u64) -> int, k: u64)
    requires
        keys.finite(),
        !keys.contains(k),
    ensures
        sum_over(keys.insert(k), term) == sum_over(keys, term) + term(k),
{
    lemma_add_term_commutative(term);
    vstd::set::fold::lemma_fold_insert(keys, 0, add_term(term), k);
}

/// The sum over two disjoint sets is the sum of the two sums.
pub proof fn lemma_sum_disjoint_union(a: Set<u64>, b: Set<u64>, term: spec_fn(u64) -> int)
    requires
        a.finite(),
        b.finite(),
        a.disjoint(b),
    ensures
        sum_over(a.union(b), term) == sum_over(a, term) + sum_over(b, term),
    decreases b.len(),
{
    if b.is_empty() {
        assert(a.union(b) =~= a);
        assert(b =~= Set::<u64>::empty());
        lemma_sum_empty(term);
    } else {
        let x = b.choose();
        let rest = b.remove(x);
        lemma_sum_disjoint_union(a, rest, term);
        assert(a.union(b) =~= a.union(rest).insert(x));
        assert(b =~= rest.insert(x));
        lemma_sum_insert(a.union(rest), term, x);
        lemma_sum_insert(rest, term, x);
    }
}

/// A sum of non-negative terms is non-negative.
pub proof fn lemma_sum_nonneg(keys: Set<u64>, term: spec_fn(u64) -> int)
    requires
        keys.finite(),
        forall|k: u64| keys.contains(k) ==> term(k) >= 0,
    ensures
        sum_over(keys, term) >= 0,
    decreases keys.len(),
{
    if keys.is_empty() {
        assert(keys =~= Set::<u64>::empty());
        lemma_sum_empty(term);
    } else {
        let x = keys.choose();
        let rest = keys.remove(x);
        lemma_sum_nonneg(rest, term);
        assert(keys =~= rest.insert(x));
        lemma_sum_insert(rest, term, x);
    }
}

/// Over non-negative terms, a subset never sums to more than its superset.
pub proof fn lemma_sum_subset(a: Set<u64>, b: Set<u64>, term: spec_fn(u64) -> int)
    requires
        b.finite(),
        a.subset_of(b),
        forall|k: u64| b.contains(k) ==> term(k) >= 0,
    ensures
        sum_over(a, term) <= sum_over(b, term),
{
    vstd::set_lib::lemma_set_subset_finite(b, a);
    let rest = b.difference(a);
    assert(a.union(rest) =~= b);
    lemma_sum_disjoint_union(a, rest, term);
    lemma_sum_nonneg(rest, term);
}

/// Terms that agree on a set give the same sum over it.
pub proof fn lemma_sum_congruent(keys: Set<u64>, t1: spec_fn(u64) -> int, t2: spec_fn(u64) -> int)
    requires
        keys.finite(),
        forall|k: u64| keys.contains(k) ==> t1(k) == t2(k),
    ensures
        sum_over(keys, t1) == sum_over(keys, t2),
    decreases keys.len(),
{
    if keys.is_empty() {
        assert(keys =~= Set::<u64>::empty());
        lemma_sum_empty(t1);
        lemma_sum_empty(t2);
    } else {
        let x = keys.choose();
        let rest = keys.remove(x);
        lemma_sum_congruent(rest, t1, t2);
        assert(keys =~= rest.insert(x));
        lemma_sum_insert(rest, t1, x);
        lemma_sum_insert(rest, t2, x);
    }
}

} // verus!
