//! The selection engine: one call turns a learner's request and a snapshot
//! of the store into at most one problem to present next.
use vstd::prelude::*;
use crate::eligibility::{
    CandidateRow, contains_id, eligibility_map, is_eligible, linked, pool_contains,
};
use crate::models::{Problem, Topic};
use crate::sampler::{draw_problem_id, has_candidates};
use crate::weighting::topic_weights;

verus! {

/// Topic `topic_id` belongs to the scope of a request: one of the requested
/// topics or, when none is requested, any topic known to the system.
pub open spec fn in_scope(requested: Seq<i32>, known: Seq<Topic>, topic_id: i32) -> bool {
    if requested.len() == 0 {
        exists|k: int| 0 <= k < known.len() && #[trigger] known[k].id == topic_id
    } else {
        requested.contains(topic_id)
    }
}

/// Some problem of a topic in scope may be shown to `learner` at `now`.
pub open spec fn has_eligible_problem(
    requested: Seq<i32>,
    known: Seq<Topic>,
    rows: Seq<CandidateRow>,
    learner: u128,
    now: int,
) -> bool {
    exists|t: i32, p: i32|
        in_scope(requested, known, t) && #[trigger] linked(rows, t, p) && is_eligible(rows, learner, p, now)
}

/// `ids` without repetitions, in order of first appearance.
pub fn distinct_ids(ids: &Vec<i32>) -> (r: Vec<i32>)
    ensures
        r@.no_duplicates(),
        forall|t: i32| r@.contains(t) <==> ids@.contains(t),
{
    let mut r: Vec<i32> = Vec::new();
    let mut i: usize = 0;
    while i < ids.len()
        invariant
            i <= ids.len(),
            r@.no_duplicates(),
            forall|t: i32| r@.contains(t) <==> ids@.subrange(0, i as int).contains(t),
        decreases ids.len() - i,
    {
        let t = ids[i];
        let ghost prev = r@;
        if !contains_id(&r, t) {
            r.push(t);
            assert(r@[r@.len() - 1] == t);
            assert forall|u: i32| u != t implies r@.contains(u) == prev.contains(u) by {
                if r@.contains(u) {
                    let j = choose|j: int| 0 <= j < r@.len() && r@[j] == u;
                    assert(prev[j] == u);
                }
                if prev.contains(u) {
                    let j = choose|j: int| 0 <= j < prev.len() && prev[j] == u;
                    assert(r@[j] == u);
                }
            }
        }
        assert(r@.contains(t));
        assert(forall|u: i32| u != t ==> r@.contains(u) == prev.contains(u));
        assert forall|u: i32| r@.contains(u) <==> ids@.subrange(0, i + 1).contains(u) by {
            let s0 = ids@.subrange(0, i as int);
            let s1 = ids@.subrange(0, i + 1);
            assert(s1[i as int] == t);
            if s0.contains(u) {
                let j = choose|j: int| 0 <= j < s0.len() && s0[j] == u;
                assert(s1[j] == u);
            }
            if s1.contains(u) && u != t {
                let j = choose|j: int| 0 <= j < s1.len() && s1[j] == u;
                assert(s0[j] == u);
            }
            assert(prev.contains(u) <==> s0.contains(u));
            assert(s1.contains(u) <==> (s0.contains(u) || u == t));
            assert(r@.contains(u) <==> (prev.contains(u) || u == t));
        }
        i += 1;
    }
    assert(ids@.subrange(0, ids@.len() as int) =~= ids@);
    r
}

/// The scope of a request, each topic once: the requested topics or, when
/// none is requested, every known topic.
pub fn resolve_scope(requested: &Vec<i32>, known: &Vec<Topic>) -> (r: Vec<i32>)
    ensures
        r@.no_duplicates(),
        forall|t: i32| r@.contains(t) <==> in_scope(requested@, known@, t),
{
    if requested.len() == 0 {
        let mut all: Vec<i32> = Vec::new();
        let mut k: usize = 0;
        while k < known.len()
            invariant
                k <= known.len(),
                all@.len() == k,
                forall|m: int| 0 <= m < k ==> #[trigger] all@[m] == known@[m].id,
            decreases known.len() - k,
        {
            all.push(known[k].id);
            k += 1;
        }
        let r = distinct_ids(&all);
        assert forall|t: i32| r@.contains(t) <==> in_scope(requested@, known@, t) by {
            if all@.contains(t) {
                let m = choose|m: int| 0 <= m < all@.len() && all@[m] == t;
                assert(known@[m].id == t);
            }
            if in_scope(requested@, known@, t) {
                let m = choose|m: int| 0 <= m < known@.len() && #[trigger] known@[m].id == t;
                assert(all@[m] == t);
            }
        }
        r
    } else {
        distinct_ids(requested)
    }
}

/// The first row about problem `problem_id` whose topic is in `scope`.
fn find_row(rows: &Vec<CandidateRow>, scope: &Vec<i32>, problem_id: i32) -> (r: Option<usize>)
    ensures
        match r {
            Some(i) => i < rows@.len() && rows@[i as int].problem.id == problem_id && scope@.contains(
                rows@[i as int].topic_id,
            ),
            None => forall|i: int|
                0 <= i < rows@.len() ==> !(#[trigger] rows@[i].problem.id == problem_id && scope@.contains(
                    rows@[i].topic_id,
                )),
        },
{
    let mut i: usize = 0;
    while i < rows.len()
        invariant
            i <= rows.len(),
            forall|j: int|
                0 <= j < i ==> !(#[trigger] rows@[j].problem.id == problem_id && scope@.contains(rows@[j].topic_id)),
        decreases rows.len() - i,
    {
        if rows[i].problem.id == problem_id && contains_id(scope, rows[i].topic_id) {
            return Some(i);
        }
        i += 1;
    }
    None
}

/// Selects the problem to present next to `learner` at time `now`.
///
/// The scope is the requested topics or, when none is requested, every
/// topic in `known_topics`. `rows` are the candidate rows of the scope's
/// topics; `incorrect` and `total` give, per topic, the learner's failed
/// and all attempts. The result is absent exactly when no topic in scope
/// has a problem that the learner may be shown now; otherwise it is the
/// problem of a row whose topic is in scope and which is eligible. Which
/// one is drawn at random, weighted toward the learner's weak topics.
pub fn select_problem(
    learner: u128,
    requested: &Vec<i32>,
    known_topics: &Vec<Topic>,
    rows: Vec<CandidateRow>,
    incorrect: &Vec<(i32, u64)>,
    total: &Vec<(i32, u64)>,
    now: i64,
) -> (r: Option<Problem>)
    ensures
        r is None <==> !has_eligible_problem(requested@, known_topics@, rows@, learner, now as int),
        r matches Some(p) ==> exists|i: int|
            0 <= i < rows@.len() && #[trigger] rows@[i].problem == p && in_scope(requested@, known_topics@, rows@[i].topic_id)
                && is_eligible(rows@, learner, p.id, now as int),
{
    let scope = resolve_scope(requested, known_topics);
    let pools = eligibility_map(&rows, learner, now);
    let weights = topic_weights(&scope, incorrect, total);
    match draw_problem_id(&scope, &weights, &pools) {
        None => {
            assert forall|t: i32, p: i32|
                in_scope(requested@, known_topics@, t) && #[trigger] linked(rows@, t, p) implies !is_eligible(
                rows@,
                learner,
                p,
                now as int,
            ) by {
                if is_eligible(rows@, learner, p, now as int) {
                    assert(pool_contains(pools@, t, p));
                    let m = choose|m: int|
                        0 <= m < pools@.len() && #[trigger] pools@[m].topic_id == t && pools@[m].problem_ids@.contains(p);
                    assert(pools@[m].problem_ids@.len() > 0);
                    assert(has_candidates(pools@, t));
                    assert(scope@.contains(t));
                    let k = choose|k: int| 0 <= k < scope@.len() && scope@[k] == t;
                    assert(!has_candidates(pools@, scope@[k]));
                }
            }
            None
        },
        Some(p) => {
            let ghost k = choose|k: int| 0 <= k < scope@.len() && pool_contains(pools@, #[trigger] scope@[k], p);
            assert(linked(rows@, scope@[k], p));
            let ghost i0 = choose|i: int| 0 <= i < rows@.len() && #[trigger] rows@[i].topic_id == scope@[k] && rows@[i].problem.id == p;
            assert(scope@.contains(scope@[k]));
            assert(rows@[i0].problem.id == p && scope@.contains(rows@[i0].topic_id));
            match find_row(&rows, &scope, p) {
                None => None,
                Some(i) => {
                    let ghost before = rows@;
                    assert(linked(before, rows@[i as int].topic_id, p));
                    let mut rows = rows;
                    let row = rows.swap_remove(i);
                    assert(before[i as int].problem == row.problem);
                    Some(row.problem)
                },
            }
        },
    }
}

} // verus!
