//! First-match search over sequences, and sums of weights: the two
//! notions that every dataset lookup is stated with.

use vstd::prelude::*;

verus! {

/// The position of the first `true` in `flags`, or the length of `flags`
/// when there is none.
pub open spec fn first_true(flags: Seq<bool>) -> int
    decreases flags.len(),
{
    if flags.len() == 0 {
        0
    } else if flags[0] {
        0
    } else {
        1 + first_true(flags.drop_first())
    }
}

/// `first_true` is a position of `flags` or its length, the flag there is
/// set, and no flag before it is.
pub proof fn lemma_first_true(flags: Seq<bool>)
    ensures
        0 <= first_true(flags) <= flags.len(),
        first_true(flags) < flags.len() ==> flags[first_true(flags)],
        forall|j: int| 0 <= j < first_true(flags) ==> !flags[j],
    decreases flags.len(),
{
    if flags.len() != 0 && !flags[0] {
        let rest = flags.drop_first();
        lemma_first_true(rest);
        assert forall|j: int| 0 <= j < first_true(flags) implies !flags[j] by {
            if j > 0 {
                assert(flags[j] == rest[j - 1]);
            }
        }
    }
}

/// A position with no set flag before it, that is set or is the length,
/// is `first_true`.
pub proof fn lemma_first_true_is(flags: Seq<bool>, i: int)
    requires
        0 <= i <= flags.len(),
        forall|j: int| 0 <= j < i ==> !flags[j],
        i < flags.len() ==> flags[i],
    ensures
        first_true(flags) == i,
{
    lemma_first_true(flags);
    let f = first_true(flags);
    if f < i {
        assert(!flags[f]);
    } else if f > i {
        assert(!flags[i]);
    }
}

/// The sum of `weights`.
pub open spec fn total_weight(weights: Seq<u64>) -> int
    decreases weights.len(),
{
    if weights.len() == 0 {
        0
    } else {
        total_weight(weights.drop_last()) + weights.last()
    }
}

/// The sum over a prefix grows by the next weight.
pub proof fn lemma_total_weight_step(weights: Seq<u64>, i: int)
    requires
        0 <= i < weights.len(),
    ensures
        total_weight(weights.take(i + 1)) == total_weight(weights.take(i)) + weights[i],
{
    assert(weights.take(i + 1).drop_last() =~= weights.take(i));
}

/// The sum over a prefix is at most the sum over the whole.
pub proof fn lemma_total_weight_prefix(weights: Seq<u64>, i: int)
    requires
        0 <= i <= weights.len(),
    ensures
        0 <= total_weight(weights.take(i)) <= total_weight(weights),
    decreases weights.len() - i,
{
    if i == weights.len() {
        assert(weights.take(i) =~= weights);
        lemma_total_weight_nonnegative(weights);
    } else {
        lemma_total_weight_step(weights, i);
        lemma_total_weight_prefix(weights, i + 1);
        lemma_total_weight_nonnegative(weights.take(i));
    }
}

/// A sum of weights is not negative.
pub proof fn lemma_total_weight_nonnegative(weights: Seq<u64>)
    ensures
        0 <= total_weight(weights),
    decreases weights.len(),
{
    if weights.len() != 0 {
        lemma_total_weight_nonnegative(weights.drop_last());
    }
}

/// The sum of `amounts`.
pub open spec fn sum_all(amounts: Seq<int>) -> int
    decreases amounts.len(),
{
    if amounts.len() == 0 {
        0
    } else {
        sum_all(amounts.drop_last()) + amounts.last()
    }
}

/// The sum over a prefix grows by the next amount.
pub proof fn lemma_sum_all_step(amounts: Seq<int>, i: int)
    requires
        0 <= i < amounts.len(),
    ensures
        sum_all(amounts.take(i + 1)) == sum_all(amounts.take(i)) + amounts[i],
{
    assert(amounts.take(i + 1).drop_last() =~= amounts.take(i));
}

/// Where no amount is negative, the sum over a prefix is at most the sum
/// over the whole, and neither is negative.
pub proof fn lemma_sum_all_prefix(amounts: Seq<int>, i: int)
    requires
        0 <= i <= amounts.len(),
        forall|j: int| 0 <= j < amounts.len() ==> amounts[j] >= 0,
    ensures
        0 <= sum_all(amounts.take(i)) <= sum_all(amounts),
    decreases amounts.len() - i,
{
    if i == amounts.len() {
        assert(amounts.take(i) =~= amounts);
        lemma_sum_all_nonnegative(amounts);
    } else {
        lemma_sum_all_step(amounts, i);
        lemma_sum_all_prefix(amounts, i + 1);
        lemma_sum_all_nonnegative(amounts.take(i));
    }
}

/// Where no amount is negative, neither is the sum.
pub proof fn lemma_sum_all_nonnegative(amounts: Seq<int>)
    requires
        forall|j: int| 0 <= j < amounts.len() ==> amounts[j] >= 0,
    ensures
        0 <= sum_all(amounts),
    decreases amounts.len(),
{
    if amounts.len() != 0 {
        lemma_sum_all_nonnegative(amounts.drop_last());
    }
}

/// Where no amount is negative, each is at most the sum.
pub proof fn lemma_sum_all_bounds_each(amounts: Seq<int>, i: int)
    requires
        0 <= i < amounts.len(),
        forall|j: int| 0 <= j < amounts.len() ==> amounts[j] >= 0,
    ensures
        amounts[i] <= sum_all(amounts),
{
    lemma_sum_all_step(amounts, i);
    lemma_sum_all_prefix(amounts, i);
    lemma_sum_all_prefix(amounts, i + 1);
}

/// Adds up `weights`, unless the sum does not fit.
pub fn sum_weights(weights: &Vec<u64>) -> (r: Option<u64>)
    ensures
        match r {
            Some(total) => total == total_weight(weights@),
            None => total_weight(weights@) > u64::MAX,
        },
{
    let mut total: u64 = 0;
    let mut i: usize = 0;
    while i < weights.len()
        invariant
            i <= weights.len(),
            total == total_weight(weights@.take(i as int)),
        decreases weights.len() - i,
    {
        proof {
            lemma_total_weight_step(weights@, i as int);
            lemma_total_weight_prefix(weights@, i as int + 1);
        }
        match total.checked_add(weights[i]) {
            Some(next) => {
                total = next;
            },
            None => {
                return None;
            },
        }
        i += 1;
    }
    assert(weights@.take(i as int) =~= weights@);
    Some(total)
}

} // verus!
