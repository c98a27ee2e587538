//! The topic weighting model.
//!
//! A topic's weight is the learner's estimated failure probability in it,
//! by Laplace's rule of succession under a uniform prior:
//! `(incorrect + 1) / (total + 2)`. Weak topics weigh more; a topic never
//! attempted weighs one half.
use vstd::prelude::*;

verus! {

/// The exact weight of one topic, as a fraction.
#[derive(Clone, Copy, Debug, PartialEq, Eq, Structural)]
pub struct TopicWeight {
    pub numerator: u128,
    pub denominator: u128,
}

/// A weight as the weighting model makes it: a positive numerator of at
/// most 2^64 over a denominator of at least 2.
pub open spec fn weight_in_range(w: TopicWeight) -> bool {
    &&& 1 <= w.numerator <= 0x1_0000_0000_0000_0000
    &&& 2 <= w.denominator
}

/// Numerator of the weight of a topic with `incorrect` failed attempts.
pub open spec fn weight_numerator(incorrect: int) -> int {
    incorrect + 1
}

/// Denominator of the weight of a topic with `total` attempts.
pub open spec fn weight_denominator(total: int) -> int {
    total + 2
}

/// The count that `counts` records for `topic_id`: the first entry for that
/// topic, or zero when there is none.
pub open spec fn count_for(counts: Seq<(i32, u64)>, topic_id: i32) -> nat
    decreases counts.len(),
{
    if counts.len() == 0 {
        0
    } else if counts[0].0 == topic_id {
        counts[0].1 as nat
    } else {
        count_for(counts.drop_first(), topic_id)
    }
}

/// The weight of a topic in which the learner failed `incorrect` of `total`
/// attempts.
pub fn laplace_weight(incorrect: u64, total: u64) -> (w: TopicWeight)
    ensures
        w.numerator == weight_numerator(incorrect as int),
        w.denominator == weight_denominator(total as int),
        weight_in_range(w),
{
    TopicWeight { numerator: incorrect as u128 + 1, denominator: total as u128 + 2 }
}

/// The count that `counts` records for `topic_id` (zero when none does).
pub fn lookup_count(counts: &Vec<(i32, u64)>, topic_id: i32) -> (r: u64)
    ensures
        r == count_for(counts@, topic_id),
{
    let mut i: usize = 0;
    assert(counts@.subrange(0, counts@.len() as int) =~= counts@);
    while i < counts.len()
        invariant
            i <= counts.len(),
            count_for(counts@, topic_id) == count_for(counts@.subrange(i as int, counts@.len() as int), topic_id),
        decreases counts.len() - i,
    {
        let ghost rest = counts@.subrange(i as int, counts@.len() as int);
        assert(rest.drop_first() =~= counts@.subrange(i + 1, counts@.len() as int));
        if counts[i].0 == topic_id {
            return counts[i].1;
        }
        i += 1;
    }
    0
}

/// The weights of the topics of `scope`, in order, from the learner's
/// per-topic counts of failed and of all attempts.
pub fn topic_weights(scope: &Vec<i32>, incorrect: &Vec<(i32, u64)>, total: &Vec<(i32, u64)>) -> (r: Vec<TopicWeight>)
    ensures
        r@.len() == scope@.len(),
        forall|k: int|
            0 <= k < scope@.len() ==> (#[trigger] r@[k]).numerator == weight_numerator(count_for(incorrect@, scope@[k]) as int)
                && r@[k].denominator == weight_denominator(count_for(total@, scope@[k]) as int),
        forall|k: int| 0 <= k < r@.len() ==> weight_in_range(#[trigger] r@[k]),
{
    let mut weights: Vec<TopicWeight> = Vec::new();
    let mut k: usize = 0;
    while k < scope.len()
        invariant
            k <= scope.len(),
            weights@.len() == k,
            forall|m: int|
                0 <= m < k ==> (#[trigger] weights@[m]).numerator == weight_numerator(count_for(incorrect@, scope@[m]) as int)
                    && weights@[m].denominator == weight_denominator(count_for(total@, scope@[m]) as int),
            forall|m: int| 0 <= m < k ==> weight_in_range(#[trigger] weights@[m]),
        decreases scope.len() - k,
    {
        let t = scope[k];
        weights.push(laplace_weight(lookup_count(incorrect, t), lookup_count(total, t)));
        k += 1;
    }
    weights
}

/// Weights are proper probabilities: with no more failures than attempts,
/// each weight lies strictly between 0 and 1.
pub proof fn lemma_weight_between_zero_and_one(incorrect: nat, total: nat)
    requires
        incorrect <= total,
    ensures
        0 < weight_numerator(incorrect as int) < weight_denominator(total as int),
{
}

/// A topic never attempted weighs exactly one half.
pub proof fn lemma_untried_weight_is_half()
    ensures
        2 * weight_numerator(0) == weight_denominator(0),
{
}

/// Failing every attempt drives the weight toward 1: once there are at least
/// `k` attempts, `1 - weight(total, total) < 1 / k`.
pub proof fn lemma_all_failed_tends_to_one(total: nat, k: nat)
    requires
        0 < k <= total,
    ensures
        (weight_denominator(total as int) - weight_numerator(total as int)) * k < weight_denominator(total as int),
{
    assert(weight_denominator(total as int) - weight_numerator(total as int) == 1);
}

/// Succeeding at every attempt drives the weight toward 0: once there are at
/// least `k` attempts, `weight(0, total) < 1 / k`.
pub proof fn lemma_none_failed_tends_to_zero(total: nat, k: nat)
    requires
        0 < k <= total,
    ensures
        weight_numerator(0) * k < weight_denominator(total as int),
{
}

} // verus!
