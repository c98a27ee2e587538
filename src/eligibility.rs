//! The eligibility filter: which problems of which topic may be shown to a
//! learner right now.
//!
//! Candidate rows link a problem to a topic and may carry an attempt record.
//! Only the requesting learner's own record for the row's problem counts; a
//! record of anyone else says nothing about this learner. A problem is
//! eligible when every own record of it has cooled down: four whole weeks
//! after a success, one whole week after a failure.
use vstd::prelude::*;
use crate::models::{Problem, UserProblem};

verus! {

/// Seconds in one week.
pub const SECONDS_PER_WEEK: i64 = 604800;

/// Whole weeks that must pass after a successful attempt.
pub const SUCCESS_COOLDOWN_WEEKS: i64 = 4;

/// Whole weeks that must pass after an unsuccessful attempt.
pub const FAILURE_COOLDOWN_WEEKS: i64 = 1;

/// One candidate: a problem linked to a topic, with the attempt record that
/// the store joined to it, if any.
#[derive(Clone, Debug)]
pub struct CandidateRow {
    pub topic_id: i32,
    pub attempt: Option<UserProblem>,
    pub problem: Problem,
}

/// The eligible problems (by id) of one topic.
#[derive(Clone, Debug)]
pub struct TopicPool {
    pub topic_id: i32,
    pub problem_ids: Vec<i32>,
}

/// Whole weeks from `then` to `now`, truncated toward zero (negative when
/// `then` lies in the future).
pub open spec fn elapsed_weeks(now: int, then: int) -> int {
    if now >= then {
        (now - then) / (SECONDS_PER_WEEK as int)
    } else {
        -((then - now) / (SECONDS_PER_WEEK as int))
    }
}

/// The cool-down, in whole weeks, after an attempt with this outcome.
pub open spec fn cooldown_weeks(successful: bool) -> int {
    if successful {
        SUCCESS_COOLDOWN_WEEKS as int
    } else {
        FAILURE_COOLDOWN_WEEKS as int
    }
}

/// At time `now`, the attempt `rec` no longer holds its problem back.
pub open spec fn cooled_down(rec: UserProblem, now: int) -> bool {
    elapsed_weeks(now, rec.last_solved as int) >= cooldown_weeks(rec.successful)
}

/// The row carries `learner`'s own record of the row's problem.
pub open spec fn own_record(row: CandidateRow, learner: u128) -> bool {
    &&& row.attempt is Some
    &&& row.attempt->Some_0.user_id == learner
    &&& row.attempt->Some_0.problem_id == row.problem.id
}

/// Problem `problem_id` may be shown to `learner` at `now`: every own record
/// of it among `rows` has cooled down (vacuously so when there is none).
pub open spec fn is_eligible(rows: Seq<CandidateRow>, learner: u128, problem_id: i32, now: int) -> bool {
    forall|i: int|
        0 <= i < rows.len() && #[trigger] rows[i].problem.id == problem_id && own_record(rows[i], learner)
            ==> cooled_down(rows[i].attempt->Some_0, now)
}

/// Some row links problem `problem_id` to topic `topic_id`.
pub open spec fn linked(rows: Seq<CandidateRow>, topic_id: i32, problem_id: i32) -> bool {
    exists|i: int| 0 <= i < rows.len() && #[trigger] rows[i].topic_id == topic_id && rows[i].problem.id == problem_id
}

/// Some row names topic `topic_id`.
pub open spec fn mentions_topic(rows: Seq<CandidateRow>, topic_id: i32) -> bool {
    exists|i: int| 0 <= i < rows.len() && #[trigger] rows[i].topic_id == topic_id
}

/// The pool of topic `topic_id` in `pools` holds `problem_id`.
pub open spec fn pool_contains(pools: Seq<TopicPool>, topic_id: i32, problem_id: i32) -> bool {
    exists|k: int|
        0 <= k < pools.len() && #[trigger] pools[k].topic_id == topic_id && pools[k].problem_ids@.contains(problem_id)
}

/// Whole weeks from `then` to `now`, truncated toward zero.
pub fn weeks_between(now: i64, then: i64) -> (r: i64)
    ensures
        r == elapsed_weeks(now as int, then as int),
{
    if now >= then {
        let diff: i128 = now as i128 - then as i128;
        (diff / (SECONDS_PER_WEEK as i128)) as i64
    } else {
        let diff: i128 = then as i128 - now as i128;
        -((diff / (SECONDS_PER_WEEK as i128)) as i64)
    }
}

/// Whether the attempt `rec` has cooled down at `now`.
pub fn has_cooled_down(rec: &UserProblem, now: i64) -> (r: bool)
    ensures
        r == cooled_down(*rec, now as int),
{
    let needed: i64 = if rec.successful {
        SUCCESS_COOLDOWN_WEEKS
    } else {
        FAILURE_COOLDOWN_WEEKS
    };
    weeks_between(now, rec.last_solved) >= needed
}

/// Whether `row` carries `learner`'s own record of its problem.
pub fn is_own_record(row: &CandidateRow, learner: u128) -> (r: bool)
    ensures
        r == own_record(*row, learner),
{
    match &row.attempt {
        Some(rec) => rec.user_id == learner && rec.problem_id == row.problem.id,
        None => false,
    }
}

/// Whether `problem_id` may be shown to `learner` at `now`, judged by the
/// records among `rows`.
pub fn problem_eligible(rows: &Vec<CandidateRow>, learner: u128, problem_id: i32, now: i64) -> (r: bool)
    ensures
        r == is_eligible(rows@, learner, problem_id, now as int),
{
    let mut i: usize = 0;
    while i < rows.len()
        invariant
            i <= rows.len(),
            forall|j: int|
                0 <= j < i && #[trigger] rows@[j].problem.id == problem_id && own_record(rows@[j], learner)
                    ==> cooled_down(rows@[j].attempt->Some_0, now as int),
        decreases rows.len() - i,
    {
        let row = &rows[i];
        if row.problem.id == problem_id && is_own_record(row, learner) {
            let rec = row.attempt.as_ref().unwrap();
            if !has_cooled_down(rec, now) {
                assert(rows@[i as int].problem.id == problem_id);
                return false;
            }
        }
        i += 1;
    }
    true
}

/// Whether `ids` holds `id`.
pub fn contains_id(ids: &Vec<i32>, id: i32) -> (r: bool)
    ensures
        r == ids@.contains(id),
{
    let mut i: usize = 0;
    while i < ids.len()
        invariant
            i <= ids.len(),
            forall|j: int| 0 <= j < i ==> ids@[j] != id,
        decreases ids.len() - i,
    {
        if ids[i] == id {
            assert(ids@[i as int] == id);
            return true;
        }
        i += 1;
    }
    false
}

/// The distinct topic ids that `rows` name, in order of first appearance.
pub fn row_topics(rows: &Vec<CandidateRow>) -> (r: Vec<i32>)
    ensures
        r@.no_duplicates(),
        forall|t: i32| r@.contains(t) <==> mentions_topic(rows@, t),
{
    let mut topics: Vec<i32> = Vec::new();
    let mut i: usize = 0;
    while i < rows.len()
        invariant
            i <= rows.len(),
            topics@.no_duplicates(),
            forall|t: i32| topics@.contains(t) <==> exists|j: int| 0 <= j < i && #[trigger] rows@[j].topic_id == t,
        decreases rows.len() - i,
    {
        let t = rows[i].topic_id;
        let ghost prev = topics@;
        if !contains_id(&topics, t) {
            topics.push(t);
            assert(topics@[topics@.len() - 1] == t);
            assert forall|u: i32| u != t implies topics@.contains(u) == prev.contains(u) by {
                if topics@.contains(u) {
                    let j = choose|j: int| 0 <= j < topics@.len() && topics@[j] == u;
                    assert(prev[j] == u);
                }
                if prev.contains(u) {
                    let j = choose|j: int| 0 <= j < prev.len() && prev[j] == u;
                    assert(topics@[j] == u);
                }
            }
        }
        assert(topics@.contains(t));
        assert(forall|u: i32| u != t ==> topics@.contains(u) == prev.contains(u));
        assert forall|u: i32| topics@.contains(u) <==> exists|j: int| 0 <= j < i + 1 && #[trigger] rows@[j].topic_id == u by {
            if u == t {
                assert(rows@[i as int].topic_id == u);
                assert(topics@.contains(u));
            } else {
                assert(topics@.contains(u) == prev.contains(u));
                assert(prev.contains(u) <==> exists|j: int| 0 <= j < i && #[trigger] rows@[j].topic_id == u);
                if exists|j: int| 0 <= j < i + 1 && #[trigger] rows@[j].topic_id == u {
                    let j = choose|j: int| 0 <= j < i + 1 && #[trigger] rows@[j].topic_id == u;
                    assert(j < i);
                }
            }
        }
        i += 1;
    }
    topics
}

/// The eligible problems of topic `topic_id`: each problem that some row
/// links to the topic and that is eligible, once.
pub fn topic_pool(rows: &Vec<CandidateRow>, learner: u128, topic_id: i32, now: i64) -> (r: Vec<i32>)
    ensures
        r@.no_duplicates(),
        forall|p: i32| r@.contains(p) <==> (linked(rows@, topic_id, p) && is_eligible(rows@, learner, p, now as int)),
{
    let mut pool: Vec<i32> = Vec::new();
    let mut i: usize = 0;
    while i < rows.len()
        invariant
            i <= rows.len(),
            pool@.no_duplicates(),
            forall|p: i32|
                pool@.contains(p) <==> ((exists|j: int|
                    0 <= j < i && #[trigger] rows@[j].topic_id == topic_id && rows@[j].problem.id == p)
                    && is_eligible(rows@, learner, p, now as int)),
        decreases rows.len() - i,
    {
        let row = &rows[i];
        let p = row.problem.id;
        let ghost prev = pool@;
        if row.topic_id == topic_id && !contains_id(&pool, p) && problem_eligible(rows, learner, p, now) {
            pool.push(p);
            assert(pool@[pool@.len() - 1] == p);
            assert forall|u: i32| u != p implies pool@.contains(u) == prev.contains(u) by {
                if pool@.contains(u) {
                    let j = choose|j: int| 0 <= j < pool@.len() && pool@[j] == u;
                    assert(prev[j] == u);
                }
                if prev.contains(u) {
                    let j = choose|j: int| 0 <= j < prev.len() && prev[j] == u;
                    assert(pool@[j] == u);
                }
            }
        }
        assert(forall|u: i32| u != p ==> pool@.contains(u) == prev.contains(u));
        assert forall|q: i32|
            pool@.contains(q) <==> ((exists|j: int|
                0 <= j < i + 1 && #[trigger] rows@[j].topic_id == topic_id && rows@[j].problem.id == q)
                && is_eligible(rows@, learner, q, now as int)) by {
            if q == p && row.topic_id == topic_id {
                assert(rows@[i as int].topic_id == topic_id && rows@[i as int].problem.id == q);
                if is_eligible(rows@, learner, q, now as int) {
                    assert(pool@.contains(q));
                }
            } else if q == p {
                assert(pool@ == prev);
                assert(prev.contains(q) <==> ((exists|j: int|
                    0 <= j < i && #[trigger] rows@[j].topic_id == topic_id && rows@[j].problem.id == q)
                    && is_eligible(rows@, learner, q, now as int)));
                if exists|j: int| 0 <= j < i + 1 && #[trigger] rows@[j].topic_id == topic_id && rows@[j].problem.id == q {
                    let j = choose|j: int| 0 <= j < i + 1 && #[trigger] rows@[j].topic_id == topic_id && rows@[j].problem.id == q;
                    assert(j < i);
                }
            } else {
                assert(pool@.contains(q) == prev.contains(q));
                assert(prev.contains(q) <==> ((exists|j: int|
                    0 <= j < i && #[trigger] rows@[j].topic_id == topic_id && rows@[j].problem.id == q)
                    && is_eligible(rows@, learner, q, now as int)));
                if exists|j: int| 0 <= j < i + 1 && #[trigger] rows@[j].topic_id == topic_id && rows@[j].problem.id == q {
                    let j = choose|j: int| 0 <= j < i + 1 && #[trigger] rows@[j].topic_id == topic_id && rows@[j].problem.id == q;
                    assert(j < i);
                }
            }
        }
        i += 1;
    }
    pool
}

/// The eligibility map: for each topic that `rows` name, the problems of
/// that topic which `learner` may be shown at `now`.
///
/// No topic has two pools and no pool holds a problem twice, however many
/// rows repeat a (topic, problem) pair. A problem linked to several topics
/// stays in the pool of each of them.
pub fn eligibility_map(rows: &Vec<CandidateRow>, learner: u128, now: i64) -> (r: Vec<TopicPool>)
    ensures
        forall|k: int, l: int| 0 <= k < l < r@.len() ==> r@[k].topic_id != r@[l].topic_id,
        forall|k: int| 0 <= k < r@.len() ==> (#[trigger] r@[k]).problem_ids@.no_duplicates(),
        forall|k: int| 0 <= k < r@.len() ==> mentions_topic(rows@, (#[trigger] r@[k]).topic_id),
        forall|t: i32| mentions_topic(rows@, t) ==> exists|k: int| 0 <= k < r@.len() && (#[trigger] r@[k]).topic_id == t,
        forall|t: i32, p: i32|
            pool_contains(r@, t, p) <==> (linked(rows@, t, p) && is_eligible(rows@, learner, p, now as int)),
{
    let topics = row_topics(rows);
    let mut pools: Vec<TopicPool> = Vec::new();
    let mut k: usize = 0;
    while k < topics.len()
        invariant
            k <= topics.len(),
            topics@.no_duplicates(),
            forall|t: i32| topics@.contains(t) <==> mentions_topic(rows@, t),
            pools@.len() == k,
            forall|m: int| 0 <= m < k ==> (#[trigger] pools@[m]).topic_id == topics@[m],
            forall|m: int| 0 <= m < k ==> (#[trigger] pools@[m]).problem_ids@.no_duplicates(),
            forall|m: int, p: i32|
                0 <= m < k ==> (#[trigger] pools@[m].problem_ids@.contains(p) <==> (linked(rows@, pools@[m].topic_id, p)
                    && is_eligible(rows@, learner, p, now as int))),
        decreases topics.len() - k,
    {
        let t = topics[k];
        let ids = topic_pool(rows, learner, t, now);
        pools.push(TopicPool { topic_id: t, problem_ids: ids });
        k += 1;
    }
    assert forall|k1: int, l: int| 0 <= k1 < l < pools@.len() implies pools@[k1].topic_id != pools@[l].topic_id by {
        assert(pools@[k1].topic_id == topics@[k1]);
        assert(pools@[l].topic_id == topics@[l]);
    }
    assert forall|m: int| 0 <= m < pools@.len() implies mentions_topic(rows@, (#[trigger] pools@[m]).topic_id) by {
        assert(pools@[m].topic_id == topics@[m]);
        assert(topics@.contains(topics@[m]));
    }
    assert forall|t: i32| mentions_topic(rows@, t) implies exists|m: int| 0 <= m < pools@.len() && (#[trigger] pools@[m]).topic_id == t by {
        assert(topics@.contains(t));
        let m = choose|m: int| 0 <= m < topics@.len() && topics@[m] == t;
        assert(pools@[m].topic_id == t);
    }
    assert forall|t: i32, p: i32|
        pool_contains(pools@, t, p) <==> (linked(rows@, t, p) && is_eligible(rows@, learner, p, now as int)) by {
        if linked(rows@, t, p) && is_eligible(rows@, learner, p, now as int) {
            let i = choose|i: int| 0 <= i < rows@.len() && #[trigger] rows@[i].topic_id == t && rows@[i].problem.id == p;
            assert(mentions_topic(rows@, t));
            assert(topics@.contains(t));
            let m = choose|m: int| 0 <= m < topics@.len() && topics@[m] == t;
            assert(pools@[m].topic_id == t);
            assert(pools@[m].problem_ids@.contains(p));
        }
    }
    pools
}

/// Cool-down law. When row `i` carries the learner's only record of its
/// problem, made at time T, then from T on the problem stays ineligible
/// until the cool-down has passed in full (four weeks after a success, one
/// week after a failure) and is eligible from that moment on.
pub proof fn lemma_cooldown(rows: Seq<CandidateRow>, learner: u128, i: int, now: int)
    requires
        0 <= i < rows.len(),
        own_record(rows[i], learner),
        forall|j: int|
            0 <= j < rows.len() && #[trigger] rows[j].problem.id == rows[i].problem.id && own_record(rows[j], learner)
                ==> rows[j].attempt == rows[i].attempt,
        rows[i].attempt->Some_0.last_solved <= now,
    ensures
        is_eligible(rows, learner, rows[i].problem.id, now) <==> now >= rows[i].attempt->Some_0.last_solved
            + cooldown_weeks(rows[i].attempt->Some_0.successful) * SECONDS_PER_WEEK,
{
    let rec = rows[i].attempt->Some_0;
    let c = cooldown_weeks(rec.successful);
    let d = now - rec.last_solved;
    assert(d / 604800 >= c <==> d >= c * 604800) by (nonlinear_arith)
        requires d >= 0, c == 1 || c == 4;
    if !is_eligible(rows, learner, rows[i].problem.id, now) {
        let j = choose|j: int|
            0 <= j < rows.len() && #[trigger] rows[j].problem.id == rows[i].problem.id && own_record(rows[j], learner)
                && !cooled_down(rows[j].attempt->Some_0, now);
        assert(rows[j].attempt == rows[i].attempt);
    }
}

/// Cross-topic law. In any eligibility map (a pool list that holds exactly
/// the eligible problems linked to each topic), an eligible problem linked
/// to two topics sits in the pool of each of them: sharing a problem does
/// not collapse one topic's pool into the other's.
pub proof fn lemma_shared_problem_in_each_pool(
    rows: Seq<CandidateRow>,
    learner: u128,
    now: int,
    pools: Seq<TopicPool>,
    a: i32,
    b: i32,
    p: i32,
)
    requires
        forall|t: i32, q: i32| pool_contains(pools, t, q) <==> (linked(rows, t, q) && is_eligible(rows, learner, q, now)),
        linked(rows, a, p),
        linked(rows, b, p),
        is_eligible(rows, learner, p, now),
    ensures
        pool_contains(pools, a, p),
        pool_contains(pools, b, p),
{
}

} // verus!
