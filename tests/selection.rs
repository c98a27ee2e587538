use problem_picker::eligibility::{
    eligibility_map, has_cooled_down, problem_eligible, topic_pool, weeks_between, CandidateRow,
    TopicPool, SECONDS_PER_WEEK,
};
use problem_picker::engine::{distinct_ids, resolve_scope, select_problem};
use problem_picker::models::{Problem, Topic, UserProblem};
use problem_picker::sampler::{draw_problem_id, find_candidates, sampling_weights, scale_weight, WEIGHT_SCALE};
use problem_picker::weighting::{laplace_weight, lookup_count, topic_weights, TopicWeight};

const LEARNER: u128 = 7;
const OTHER: u128 = 9;
const DAY: i64 = 86400;
const T0: i64 = 1_700_000_000;

fn problem(id: i32) -> Problem {
    Problem {
        id,
        body: Some(format!("problem {id}")),
        author: None,
        source: None,
        solnlink: None,
        submitted_at: 0,
        user_id: None,
        img_path: None,
    }
}

fn fresh(topic_id: i32, id: i32) -> CandidateRow {
    CandidateRow { topic_id, attempt: None, problem: problem(id) }
}

fn tried(topic_id: i32, id: i32, user_id: u128, last_solved: i64, successful: bool) -> CandidateRow {
    CandidateRow {
        topic_id,
        attempt: Some(UserProblem { user_id, problem_id: id, last_solved, successful }),
        problem: problem(id),
    }
}

fn topic(id: i32) -> Topic {
    Topic { id, module_id: 1, title: format!("topic {id}") }
}

fn pool_of(pools: &[TopicPool], topic_id: i32) -> Vec<i32> {
    let mut ids: Vec<i32> = pools
        .iter()
        .filter(|p| p.topic_id == topic_id)
        .flat_map(|p| p.problem_ids.iter().copied())
        .collect();
    ids.sort();
    ids
}

#[test]
fn weeks_are_whole_and_truncated_toward_zero() {
    assert_eq!(weeks_between(T0, T0), 0);
    assert_eq!(weeks_between(T0 + SECONDS_PER_WEEK - 1, T0), 0);
    assert_eq!(weeks_between(T0 + SECONDS_PER_WEEK, T0), 1);
    assert_eq!(weeks_between(T0 + 29 * DAY, T0), 4);
    assert_eq!(weeks_between(T0 - 8 * DAY, T0), -1);
    assert_eq!(weeks_between(T0 - 6 * DAY, T0), 0);
    assert_eq!(weeks_between(i64::MAX, i64::MIN), 30500568904943);
}

#[test]
fn success_cools_down_after_four_weeks() {
    let rec = UserProblem { user_id: LEARNER, problem_id: 1, last_solved: T0, successful: true };
    assert!(!has_cooled_down(&rec, T0 + 3 * SECONDS_PER_WEEK));
    assert!(!has_cooled_down(&rec, T0 + 4 * SECONDS_PER_WEEK - 1));
    assert!(has_cooled_down(&rec, T0 + 4 * SECONDS_PER_WEEK));
    let rows = vec![tried(1, 1, LEARNER, T0, true)];
    assert!(!problem_eligible(&rows, LEARNER, 1, T0 + 3 * SECONDS_PER_WEEK));
    assert!(problem_eligible(&rows, LEARNER, 1, T0 + 4 * SECONDS_PER_WEEK));
}

#[test]
fn failure_cools_down_after_one_week() {
    let rows = vec![tried(1, 1, LEARNER, T0, false)];
    assert!(!problem_eligible(&rows, LEARNER, 1, T0 + 6 * DAY));
    assert!(problem_eligible(&rows, LEARNER, 1, T0 + 7 * DAY));
}

#[test]
fn cooldown_governs_selection() {
    let known = vec![topic(1)];
    let rows = || vec![tried(1, 5, LEARNER, T0, true)];
    let none: Vec<(i32, u64)> = vec![];
    assert!(select_problem(LEARNER, &vec![1], &known, rows(), &none, &none, T0 + 3 * SECONDS_PER_WEEK).is_none());
    let got = select_problem(LEARNER, &vec![1], &known, rows(), &none, &none, T0 + 4 * SECONDS_PER_WEEK);
    assert_eq!(got.map(|p| p.id), Some(5));
    let rows = || vec![tried(1, 5, LEARNER, T0, false)];
    assert!(select_problem(LEARNER, &vec![1], &known, rows(), &none, &none, T0 + 6 * DAY).is_none());
    let got = select_problem(LEARNER, &vec![1], &known, rows(), &none, &none, T0 + 7 * DAY);
    assert_eq!(got.map(|p| p.id), Some(5));
}

#[test]
fn records_of_other_learners_are_ignored() {
    let rows = vec![tried(1, 1, OTHER, T0, true)];
    assert!(problem_eligible(&rows, LEARNER, 1, T0 + DAY));
    assert!(!problem_eligible(&rows, OTHER, 1, T0 + DAY));
}

#[test]
fn own_record_wins_over_placeholder_row() {
    let rows = vec![fresh(1, 3), tried(1, 3, LEARNER, T0, false), fresh(1, 4)];
    let pools = eligibility_map(&rows, LEARNER, T0 + 2 * DAY);
    assert_eq!(pool_of(&pools, 1), vec![4]);
}

#[test]
fn pools_never_repeat_a_problem_within_a_topic() {
    let rows = vec![fresh(1, 3), fresh(1, 3), fresh(1, 3), fresh(2, 3), fresh(1, 4)];
    let pools = eligibility_map(&rows, LEARNER, T0);
    assert_eq!(pools.len(), 2);
    assert_eq!(pool_of(&pools, 1), vec![3, 4]);
    assert_eq!(pool_of(&pools, 2), vec![3]);
    for pool in &pools {
        let mut ids = pool.problem_ids.clone();
        ids.sort();
        ids.dedup();
        assert_eq!(ids.len(), pool.problem_ids.len());
    }
}

#[test]
fn shared_problem_stays_in_both_topics() {
    let rows = vec![fresh(10, 1), fresh(20, 1)];
    let pools = eligibility_map(&rows, LEARNER, T0);
    assert_eq!(pool_of(&pools, 10), vec![1]);
    assert_eq!(pool_of(&pools, 20), vec![1]);
}

#[test]
fn recent_failure_excluded_until_day_seven() {
    let rows = vec![tried(1, 100, LEARNER, T0, false), fresh(1, 101)];
    for day in 0..7 {
        assert_eq!(topic_pool(&rows, LEARNER, 1, T0 + day * DAY), vec![101]);
    }
    assert_eq!(topic_pool(&rows, LEARNER, 1, T0 + 2 * DAY), vec![101]);
    let mut pool = topic_pool(&rows, LEARNER, 1, T0 + 7 * DAY);
    pool.sort();
    assert_eq!(pool, vec![100, 101]);
}

#[test]
fn laplace_weights_are_exact() {
    assert_eq!(laplace_weight(0, 0), TopicWeight { numerator: 1, denominator: 2 });
    assert_eq!(laplace_weight(3, 10), TopicWeight { numerator: 4, denominator: 12 });
    assert_eq!(laplace_weight(5, 5), TopicWeight { numerator: 6, denominator: 7 });
    assert_eq!(
        laplace_weight(u64::MAX, u64::MAX),
        TopicWeight { numerator: u64::MAX as u128 + 1, denominator: u64::MAX as u128 + 2 }
    );
}

#[test]
fn weights_stay_strictly_between_zero_and_one() {
    for total in 0..50u64 {
        for incorrect in 0..=total {
            let w = laplace_weight(incorrect, total);
            assert!(0 < w.numerator && w.numerator < w.denominator);
        }
    }
    let hi = laplace_weight(1000, 1000);
    assert!((hi.denominator - hi.numerator) * 1000 < hi.denominator);
    let lo = laplace_weight(0, 1000);
    assert!(lo.numerator * 1000 < lo.denominator);
}

#[test]
fn counts_are_looked_up_by_topic() {
    let counts = vec![(1, 4u64), (2, 9), (1, 100)];
    assert_eq!(lookup_count(&counts, 1), 4);
    assert_eq!(lookup_count(&counts, 2), 9);
    assert_eq!(lookup_count(&counts, 3), 0);
    let weights = topic_weights(&vec![2, 3], &vec![(2, 1)], &counts);
    assert_eq!(
        weights,
        vec![
            TopicWeight { numerator: 2, denominator: 11 },
            TopicWeight { numerator: 1, denominator: 2 }
        ]
    );
}

#[test]
fn fixed_point_weights() {
    assert_eq!(scale_weight(laplace_weight(0, 0)), WEIGHT_SCALE / 2);
    assert_eq!(scale_weight(laplace_weight(1, 2)), WEIGHT_SCALE / 2);
    assert_eq!(scale_weight(laplace_weight(0, u64::MAX)), 1);
    assert_eq!(scale_weight(TopicWeight { numerator: 9, denominator: 2 }), WEIGHT_SCALE);
}

#[test]
fn topics_without_candidates_weigh_nothing() {
    let pools = vec![
        TopicPool { topic_id: 1, problem_ids: vec![] },
        TopicPool { topic_id: 2, problem_ids: vec![5] },
    ];
    let scope = vec![1, 2, 3];
    let weights = vec![laplace_weight(0, 0); 3];
    assert_eq!(sampling_weights(&scope, &weights, &pools), vec![0, WEIGHT_SCALE / 2, 0]);
    assert_eq!(find_candidates(&pools, 1), None);
    assert_eq!(find_candidates(&pools, 2), Some(1));
}

#[test]
fn draw_lands_on_the_only_topic_with_candidates() {
    let pools = vec![
        TopicPool { topic_id: 1, problem_ids: vec![] },
        TopicPool { topic_id: 2, problem_ids: vec![5, 6, 7] },
    ];
    let scope = vec![1, 2];
    let weights = vec![laplace_weight(9, 9), laplace_weight(0, 9)];
    let mut seen = Vec::new();
    for _ in 0..200 {
        let p = draw_problem_id(&scope, &weights, &pools).unwrap();
        assert!([5, 6, 7].contains(&p));
        if !seen.contains(&p) {
            seen.push(p);
        }
    }
    assert_eq!(seen.len(), 3);
    assert_eq!(draw_problem_id(&vec![1], &vec![laplace_weight(0, 0)], &pools), None);
    assert_eq!(draw_problem_id(&vec![], &vec![], &pools), None);
}

#[test]
fn learner_without_history_gets_problems_of_the_stocked_topic() {
    let known = vec![topic(1), topic(2)];
    let requested = vec![1, 2];
    let rows = || vec![fresh(1, 11), fresh(1, 12), fresh(1, 13)];
    let none: Vec<(i32, u64)> = vec![];
    let weights = topic_weights(&requested, &none, &none);
    assert_eq!(weights[0], weights[1]);
    assert_eq!(weights[0], TopicWeight { numerator: 1, denominator: 2 });
    for _ in 0..50 {
        let p = select_problem(LEARNER, &requested, &known, rows(), &none, &none, T0).unwrap();
        assert!([11, 12, 13].contains(&p.id));
    }
}

#[test]
fn empty_request_covers_every_known_topic() {
    let known = vec![topic(1), topic(2), topic(3)];
    let mut scope = resolve_scope(&vec![], &known);
    scope.sort();
    assert_eq!(scope, vec![1, 2, 3]);
    let none: Vec<(i32, u64)> = vec![];
    let got = select_problem(LEARNER, &vec![], &known, vec![fresh(3, 30)], &none, &none, T0);
    assert_eq!(got.map(|p| p.id), Some(30));
}

#[test]
fn requested_scope_is_deduplicated() {
    assert_eq!(resolve_scope(&vec![4, 2, 4, 2], &vec![topic(1)]), vec![4, 2]);
    assert_eq!(distinct_ids(&vec![1, 1, 1]), vec![1]);
    assert_eq!(distinct_ids(&vec![]), Vec::<i32>::new());
}

#[test]
fn topics_outside_scope_are_never_drawn() {
    let known = vec![topic(1), topic(2)];
    let none: Vec<(i32, u64)> = vec![];
    let rows = || vec![fresh(2, 20), fresh(1, 10)];
    for _ in 0..30 {
        let got = select_problem(LEARNER, &vec![1], &known, rows(), &none, &none, T0);
        assert_eq!(got.map(|p| p.id), Some(10));
    }
    let got = select_problem(LEARNER, &vec![3], &known, rows(), &none, &none, T0);
    assert!(got.is_none());
}

#[test]
fn no_candidate_when_every_pool_is_empty() {
    let known = vec![topic(1), topic(2)];
    let none: Vec<(i32, u64)> = vec![];
    assert!(select_problem(LEARNER, &vec![1, 2], &known, vec![], &none, &none, T0).is_none());
    let rows = vec![tried(1, 1, LEARNER, T0, true), tried(2, 2, LEARNER, T0 - DAY, false)];
    assert!(select_problem(LEARNER, &vec![], &known, rows, &none, &none, T0).is_none());
}

#[test]
fn lone_problem_in_cooldown_is_not_selected() {
    let known = vec![topic(1)];
    let none: Vec<(i32, u64)> = vec![];
    let rows = vec![tried(1, 1, LEARNER, T0, false)];
    assert!(select_problem(LEARNER, &vec![1], &known, rows, &none, &none, T0 + DAY).is_none());
}

#[test]
fn selected_problem_is_returned_whole() {
    let known = vec![topic(1)];
    let none: Vec<(i32, u64)> = vec![];
    let mut row = fresh(1, 8);
    row.problem.author = Some("Ada".to_string());
    row.problem.img_path = Some("img.png".to_string());
    let got = select_problem(LEARNER, &vec![1], &known, vec![row], &none, &none, T0).unwrap();
    assert_eq!(got.id, 8);
    assert_eq!(got.body.as_deref(), Some("problem 8"));
    assert_eq!(got.author.as_deref(), Some("Ada"));
    assert_eq!(got.img_path.as_deref(), Some("img.png"));
}
