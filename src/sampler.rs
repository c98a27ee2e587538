//! The weighted sampler: draws a topic in proportion to its weight, then a
//! problem uniformly from that topic's pool.
//!
//! Topics whose pool is empty get weight zero before the draw, so the first
//! draw always lands on a topic that can yield a problem. This is the
//! redraw-until-non-empty process with the wasted draws removed: the same
//! outcomes, with the same probabilities, in one step.
use vstd::prelude::*;
use rand::distributions::{Distribution, WeightedError, WeightedIndex};
use rand::Rng;
use crate::eligibility::{TopicPool, pool_contains};
use crate::weighting::{TopicWeight, weight_in_range};

verus! {

/// A categorical distribution over indices, held in rand's `WeightedIndex`
/// (whose declaration Verus cannot take: its bound is a rand trait).
#[verifier::external_body]
pub struct WeightedDraw {
    index: WeightedIndex<u128>,
}

#[verifier::external_type_specification]
#[verifier::external_body]
pub struct ExWeightedError(WeightedError);

/// The weights that a weighted index was built from, in order.
pub uninterp spec fn index_weights(d: WeightedDraw) -> Seq<u128>;

/// Fixed-point scale of the integer weights handed to the draw: a weight of
/// 1 becomes `WEIGHT_SCALE`.
pub const WEIGHT_SCALE: u128 = 4294967296;

/// Sum of a sequence of integer weights.
pub open spec fn weight_sum(s: Seq<u128>) -> int
    decreases s.len(),
{
    if s.len() == 0 {
        0
    } else {
        weight_sum(s.drop_last()) + s.last()
    }
}

/// The fraction `numerator / denominator` in fixed point, kept within
/// `1 ..= WEIGHT_SCALE` so that no topic with candidates is starved and
/// none outweighs certainty.
pub open spec fn scaled_weight(numerator: int, denominator: int) -> int {
    let s = numerator * (WEIGHT_SCALE as int) / denominator;
    if s < 1 {
        1
    } else if s > WEIGHT_SCALE as int {
        WEIGHT_SCALE as int
    } else {
        s
    }
}

/// Some pool of `pools` for topic `topic_id` holds a problem.
pub open spec fn has_candidates(pools: Seq<TopicPool>, topic_id: i32) -> bool {
    exists|k: int| 0 <= k < pools.len() && #[trigger] pools[k].topic_id == topic_id && pools[k].problem_ids@.len() > 0
}

/// Relies on rand's `WeightedIndex::new`: it fails exactly when there is no
/// weight (`NoItem`) or every weight is zero (`AllWeightsZero`); unsigned
/// weights are never invalid. The caller keeps the total within `u128` so
/// that the running sum cannot overflow.
#[verifier::external_body]
fn new_weighted_index(weights: &Vec<u128>) -> (r: Result<WeightedDraw, WeightedError>)
    requires
        weight_sum(weights@) <= u128::MAX,
    ensures
        match r {
            Ok(d) => index_weights(d) == weights@ && exists|k: int| 0 <= k < weights@.len() && weights@[k] > 0,
            Err(_) => forall|k: int| 0 <= k < weights@.len() ==> weights@[k] == 0,
        },
{
    match WeightedIndex::new(weights.iter()) {
        Ok(index) => Ok(WeightedDraw { index }),
        Err(e) => Err(e),
    }
}

/// Relies on rand's `Distribution::sample` for `WeightedIndex`, fed by the
/// thread-local generator: the index drawn is that of a non-zero weight.
#[verifier::external_body]
fn draw_index(d: &WeightedDraw) -> (r: usize)
    ensures
        r < index_weights(*d).len(),
        index_weights(*d)[r as int] > 0,
{
    d.index.sample(&mut rand::thread_rng())
}

/// Relies on rand's `Rng::gen_range` on the thread-local generator: a value
/// of the non-empty range `0..n`.
#[verifier::external_body]
fn draw_below(n: usize) -> (r: usize)
    requires
        n > 0,
    ensures
        r < n,
{
    rand::thread_rng().gen_range(0..n)
}

/// The fixed-point weight of `w`, within `1 ..= WEIGHT_SCALE`.
pub fn scale_weight(w: TopicWeight) -> (r: u128)
    requires
        weight_in_range(w),
    ensures
        r == scaled_weight(w.numerator as int, w.denominator as int),
        1 <= r <= WEIGHT_SCALE,
{
    assert(w.numerator * WEIGHT_SCALE <= 0x1_0000_0000_0000_0000 * 4294967296) by (nonlinear_arith)
        requires w.numerator <= 0x1_0000_0000_0000_0000, WEIGHT_SCALE == 4294967296;
    let s = w.numerator * WEIGHT_SCALE / w.denominator;
    if s < 1 {
        1
    } else if s > WEIGHT_SCALE {
        WEIGHT_SCALE
    } else {
        s
    }
}

/// The first pool of `pools` for topic `topic_id` that holds a problem.
pub fn find_candidates(pools: &Vec<TopicPool>, topic_id: i32) -> (r: Option<usize>)
    ensures
        match r {
            Some(k) => k < pools@.len() && pools@[k as int].topic_id == topic_id && pools@[k as int].problem_ids@.len() > 0,
            None => !has_candidates(pools@, topic_id),
        },
{
    let mut k: usize = 0;
    while k < pools.len()
        invariant
            k <= pools.len(),
            forall|m: int| 0 <= m < k ==> !(#[trigger] pools@[m].topic_id == topic_id && pools@[m].problem_ids@.len() > 0),
        decreases pools.len() - k,
    {
        if pools[k].topic_id == topic_id && pools[k].problem_ids.len() > 0 {
            return Some(k);
        }
        k += 1;
    }
    None
}

/// The integer weights of the draw, aligned with `scope`: a topic's
/// fixed-point weight when it has candidates, zero when it has none.
pub fn sampling_weights(scope: &Vec<i32>, weights: &Vec<TopicWeight>, pools: &Vec<TopicPool>) -> (r: Vec<u128>)
    requires
        weights@.len() == scope@.len(),
        forall|k: int| 0 <= k < weights@.len() ==> weight_in_range(#[trigger] weights@[k]),
    ensures
        r@.len() == scope@.len(),
        forall|k: int|
            0 <= k < scope@.len() ==> #[trigger] r@[k] == if has_candidates(pools@, scope@[k]) {
                scaled_weight(weights@[k].numerator as int, weights@[k].denominator as int)
            } else {
                0
            },
        forall|k: int| 0 <= k < r@.len() ==> #[trigger] r@[k] <= WEIGHT_SCALE,
{
    let mut r: Vec<u128> = Vec::new();
    let mut k: usize = 0;
    while k < scope.len()
        invariant
            k <= scope.len(),
            weights@.len() == scope@.len(),
            forall|m: int| 0 <= m < weights@.len() ==> weight_in_range(#[trigger] weights@[m]),
            r@.len() == k,
            forall|m: int|
                0 <= m < k ==> #[trigger] r@[m] == if has_candidates(pools@, scope@[m]) {
                    scaled_weight(weights@[m].numerator as int, weights@[m].denominator as int)
                } else {
                    0
                },
            forall|m: int| 0 <= m < k ==> #[trigger] r@[m] <= WEIGHT_SCALE,
        decreases scope.len() - k,
    {
        let w: u128 = match find_candidates(pools, scope[k]) {
            Some(_) => scale_weight(weights[k]),
            None => 0,
        };
        r.push(w);
        k += 1;
    }
    r
}

/// A sum of weights none of which exceeds `WEIGHT_SCALE` is at most
/// `WEIGHT_SCALE` times their number.
proof fn lemma_weight_sum_bound(s: Seq<u128>)
    requires
        forall|k: int| 0 <= k < s.len() ==> #[trigger] s[k] <= WEIGHT_SCALE,
    ensures
        0 <= weight_sum(s) <= s.len() * (WEIGHT_SCALE as int),
    decreases s.len(),
{
    if s.len() > 0 {
        let t = s.drop_last();
        assert forall|k: int| 0 <= k < t.len() implies #[trigger] t[k] <= WEIGHT_SCALE by {
            assert(t[k] == s[k]);
        }
        lemma_weight_sum_bound(t);
        assert(s.last() == s[s.len() - 1]);
    }
}

/// Draws one problem id: a topic of `scope` with probability proportional
/// to its weight among the topics that have candidates, then a problem of
/// that topic's pool uniformly.
///
/// The result is absent exactly when no topic of `scope` has a candidate;
/// otherwise it is a problem of the pool of some topic of `scope`.
pub fn draw_problem_id(scope: &Vec<i32>, weights: &Vec<TopicWeight>, pools: &Vec<TopicPool>) -> (r: Option<i32>)
    requires
        weights@.len() == scope@.len(),
        forall|k: int| 0 <= k < weights@.len() ==> weight_in_range(#[trigger] weights@[k]),
    ensures
        r is None <==> forall|k: int| 0 <= k < scope@.len() ==> !has_candidates(pools@, #[trigger] scope@[k]),
        r matches Some(p) ==> exists|k: int| 0 <= k < scope@.len() && pool_contains(pools@, #[trigger] scope@[k], p),
{
    let w = sampling_weights(scope, weights, pools);
    proof {
        lemma_weight_sum_bound(w@);
        assert(w@.len() * (WEIGHT_SCALE as int) <= 0x1_0000_0000_0000_0000 * 4294967296) by (nonlinear_arith)
            requires w@.len() <= 0x1_0000_0000_0000_0000, WEIGHT_SCALE == 4294967296;
    }
    match new_weighted_index(&w) {
        Err(_) => {
            assert forall|k: int| 0 <= k < scope@.len() implies !has_candidates(pools@, #[trigger] scope@[k]) by {
                assert(w@[k] == 0);
                if has_candidates(pools@, scope@[k]) {
                    assert(scaled_weight(weights@[k].numerator as int, weights@[k].denominator as int) >= 1);
                }
            }
            None
        },
        Ok(d) => {
            let k = draw_index(&d);
            assert(w@[k as int] > 0);
            match find_candidates(pools, scope[k]) {
                None => None,
                Some(m) => {
                    let ids = &pools[m].problem_ids;
                    let j = draw_below(ids.len());
                    let p = ids[j];
                    assert(pools@[m as int].problem_ids@.contains(p)) by {
                        assert(pools@[m as int].problem_ids@[j as int] == p);
                    }
                    assert(pool_contains(pools@, scope@[k as int], p));
                    Some(p)
                },
            }
        },
    }
}

} // verus!
