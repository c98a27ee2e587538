use problem_picker::leaderboard::{leaderboard, LeaderboardEntry, SOLUTIONS_WEIGHT};

fn line(e: &LeaderboardEntry) -> (String, i64, i64) {
    (e.user_name.clone(), e.n_problems, e.n_solutions)
}

#[test]
fn leaderboard_merges_and_orders_by_score() {
    let problems = vec![(1u128, "ada".to_string(), 5i64), (2, "bob".to_string(), 1)];
    let solutions = vec![(2u128, "bob".to_string(), 3i64), (3, "cy".to_string(), 1)];
    let board: Vec<_> = leaderboard(&problems, &solutions).iter().map(line).collect();
    assert_eq!(
        board,
        vec![
            ("cy".to_string(), 0, 1),
            ("ada".to_string(), 5, 0),
            ("bob".to_string(), 1, 3),
        ]
    );
}

#[test]
fn solutions_weigh_twice_as_much() {
    assert_eq!(SOLUTIONS_WEIGHT, 2);
    let problems = vec![(1u128, "ada".to_string(), 3i64)];
    let solutions = vec![(2u128, "bob".to_string(), 2i64)];
    let board: Vec<_> = leaderboard(&problems, &solutions).iter().map(line).collect();
    assert_eq!(board, vec![("ada".to_string(), 3, 0), ("bob".to_string(), 0, 2)]);
}

#[test]
fn empty_leaderboard() {
    assert!(leaderboard(&vec![], &vec![]).is_empty());
}

#[test]
fn each_user_appears_once() {
    let problems = vec![(1u128, "ada".to_string(), 2i64), (1, "ada".to_string(), 9)];
    let solutions = vec![(1u128, "ada".to_string(), 4i64)];
    let board: Vec<_> = leaderboard(&problems, &solutions).iter().map(line).collect();
    assert_eq!(board, vec![("ada".to_string(), 2, 4)]);
}
