//! The leaderboard: one entry per user who has written problems or
//! solutions, ordered by score, where a solution counts twice as much as a
//! problem.
use vstd::prelude::*;
use itertools::Itertools;

verus! {

/// How many problems one solution is worth in the ranking.
pub const SOLUTIONS_WEIGHT: i64 = 2;

/// A user's line on the leaderboard.
#[derive(Clone, Debug)]
pub struct LeaderboardEntry {
    pub user_name: String,
    pub n_problems: i64,
    pub n_solutions: i64,
}

/// Index `i` holds the first entry of `counts` for user `uid`.
pub open spec fn is_first(counts: Seq<(u128, String, i64)>, uid: u128, i: int) -> bool {
    &&& 0 <= i < counts.len()
    &&& counts[i].0 == uid
    &&& forall|j: int| 0 <= j < i ==> (#[trigger] counts[j]).0 != uid
}

/// Some entry of `counts` is for user `uid`.
pub open spec fn listed(counts: Seq<(u128, String, i64)>, uid: u128) -> bool {
    exists|i: int| 0 <= i < counts.len() && (#[trigger] counts[i]).0 == uid
}

/// The first entry of `counts` for user `uid`.
pub open spec fn first_of(counts: Seq<(u128, String, i64)>, uid: u128) -> (String, i64) {
    let i = choose|i: int| is_first(counts, uid, i);
    (counts[i].1, counts[i].2)
}

/// The count that `counts` gives user `uid` (its first entry), or zero.
pub open spec fn count_of(counts: Seq<(u128, String, i64)>, uid: u128) -> i64 {
    if listed(counts, uid) {
        first_of(counts, uid).1
    } else {
        0
    }
}

/// User `uid`'s line, from per-user problem counts and solution counts; the
/// name comes from the problem counts when they list the user.
pub open spec fn entry_for(
    problems: Seq<(u128, String, i64)>,
    solutions: Seq<(u128, String, i64)>,
    uid: u128,
) -> LeaderboardEntry {
    LeaderboardEntry {
        user_name: if listed(problems, uid) {
            first_of(problems, uid).0
        } else {
            first_of(solutions, uid).0
        },
        n_problems: count_of(problems, uid),
        n_solutions: count_of(solutions, uid),
    }
}

/// The ranking score of a line.
pub open spec fn score(e: LeaderboardEntry) -> int {
    e.n_problems + SOLUTIONS_WEIGHT * e.n_solutions
}

/// `perm` rearranges the indices `0 .. n`.
pub open spec fn is_permutation(perm: Seq<int>, n: int) -> bool {
    &&& perm.len() == n
    &&& forall|k: int| 0 <= k < n ==> 0 <= #[trigger] perm[k] < n
    &&& perm.no_duplicates()
    &&& forall|j: int| 0 <= j < n ==> perm.contains(j)
}

/// `sorted` holds the second fields of `pairs`, rearranged into ascending
/// order of the first fields.
pub open spec fn sorted_rearrangement(pairs: Seq<(i128, LeaderboardEntry)>, sorted: Seq<LeaderboardEntry>) -> bool {
    &&& sorted.len() == pairs.len()
    &&& exists|perm: Seq<int>|
        {
            &&& is_permutation(perm, pairs.len() as int)
            &&& forall|k: int| 0 <= k < sorted.len() ==> #[trigger] sorted[k] == pairs[perm[k]].1
            &&& forall|i: int, j: int| 0 <= i < j < sorted.len() ==> pairs[perm[i]].0 <= pairs[perm[j]].0
        }
}

/// Relies on itertools' `Itertools::sorted_by_key`: the items come out
/// rearranged, in ascending order of the key (here the first field); the
/// keys are then dropped.
#[verifier::external_body]
fn sort_by_score(pairs: Vec<(i128, LeaderboardEntry)>) -> (r: Vec<LeaderboardEntry>)
    ensures
        sorted_rearrangement(pairs@, r@),
{
    pairs.into_iter().sorted_by_key(|p| p.0).map(|p| p.1).collect()
}

/// The index of the first entry of `counts` for user `uid`.
fn find_user(counts: &Vec<(u128, String, i64)>, uid: u128) -> (r: Option<usize>)
    ensures
        match r {
            Some(i) => is_first(counts@, uid, i as int),
            None => !listed(counts@, uid),
        },
{
    let mut i: usize = 0;
    while i < counts.len()
        invariant
            i <= counts.len(),
            forall|j: int| 0 <= j < i ==> (#[trigger] counts@[j]).0 != uid,
        decreases counts.len() - i,
    {
        if counts[i].0 == uid {
            return Some(i);
        }
        i += 1;
    }
    None
}

/// The first entry for `uid` is the one at index `i`.
proof fn lemma_first_is_unique(counts: Seq<(u128, String, i64)>, uid: u128, i: int)
    requires
        is_first(counts, uid, i),
    ensures
        first_of(counts, uid) == (counts[i].1, counts[i].2),
{
    let c = choose|c: int| is_first(counts, uid, c);
    if c < i {
        assert(counts[c].0 != uid);
    } else if c > i {
        assert(counts[i].0 != uid);
    }
}

/// User `uid`'s line.
fn make_entry(problems: &Vec<(u128, String, i64)>, solutions: &Vec<(u128, String, i64)>, uid: u128) -> (r:
    LeaderboardEntry)
    requires
        listed(problems@, uid) || listed(solutions@, uid),
    ensures
        r == entry_for(problems@, solutions@, uid),
{
    let in_problems = find_user(problems, uid);
    let in_solutions = find_user(solutions, uid);
    let (name, n_problems) = match in_problems {
        Some(i) => {
            proof {
                lemma_first_is_unique(problems@, uid, i as int);
            }
            (problems[i].1.clone(), problems[i].2)
        },
        None => match in_solutions {
            Some(j) => (solutions[j].1.clone(), 0),
            None => (String::new(), 0),
        },
    };
    let n_solutions = match in_solutions {
        Some(j) => {
            proof {
                lemma_first_is_unique(solutions@, uid, j as int);
            }
            solutions[j].2
        },
        None => 0,
    };
    LeaderboardEntry { user_name: name, n_problems, n_solutions }
}

/// Whether `ids` holds `uid`.
fn holds_user(ids: &Vec<u128>, uid: u128) -> (r: bool)
    ensures
        r == ids@.contains(uid),
{
    let mut m: usize = 0;
    while m < ids.len()
        invariant
            m <= ids.len(),
            forall|q: int| 0 <= q < m ==> ids@[q] != uid,
        decreases ids.len() - m,
    {
        if ids[m] == uid {
            assert(ids@[m as int] == uid);
            return true;
        }
        m += 1;
    }
    false
}

/// Listing in a prefix one entry longer.
proof fn lemma_listed_extend(counts: Seq<(u128, String, i64)>, i: int, uid: u128)
    requires
        0 <= i < counts.len(),
    ensures
        listed(counts.subrange(0, i + 1), uid) <==> (listed(counts.subrange(0, i), uid) || counts[i].0 == uid),
{
    let s0 = counts.subrange(0, i);
    let s1 = counts.subrange(0, i + 1);
    assert(s1[i] == counts[i]);
    if listed(s0, uid) {
        let j = choose|j: int| 0 <= j < s0.len() && (#[trigger] s0[j]).0 == uid;
        assert(s1[j] == s0[j]);
    }
    if listed(s1, uid) && counts[i].0 != uid {
        let j = choose|j: int| 0 <= j < s1.len() && (#[trigger] s1[j]).0 == uid;
        assert(s0[j] == s1[j]);
    }
}

/// Appends to `ids` each user of `counts` that it does not hold yet.
fn add_users(ids: Vec<u128>, counts: &Vec<(u128, String, i64)>) -> (r: Vec<u128>)
    requires
        ids@.no_duplicates(),
    ensures
        r@.no_duplicates(),
        forall|uid: u128| r@.contains(uid) <==> (ids@.contains(uid) || listed(counts@, uid)),
{
    let ghost start = ids@;
    let mut ids = ids;
    let mut i: usize = 0;
    while i < counts.len()
        invariant
            i <= counts.len(),
            ids@.no_duplicates(),
            forall|uid: u128|
                #[trigger] ids@.contains(uid) <==> (start.contains(uid) || listed(counts@.subrange(0, i as int), uid)),
        decreases counts.len() - i,
    {
        let user = counts[i].0;
        let ghost prev = ids@;
        let present = holds_user(&ids, user);
        assert(prev == ids@);
        if !present {
            ids.push(user);
            assert(ids@[ids@.len() - 1] == user);
            assert forall|u: u128| u != user implies ids@.contains(u) == prev.contains(u) by {
                if ids@.contains(u) {
                    let q = choose|q: int| 0 <= q < ids@.len() && ids@[q] == u;
                    assert(prev[q] == u);
                }
                if prev.contains(u) {
                    let q = choose|q: int| 0 <= q < prev.len() && prev[q] == u;
                    assert(ids@[q] == u);
                }
            }
        }
        assert(ids@.contains(user));
        assert(forall|u: u128| u != user ==> ids@.contains(u) == prev.contains(u));
        assert forall|u: u128|
            #[trigger] ids@.contains(u) <==> (start.contains(u) || listed(counts@.subrange(0, i + 1), u)) by {
            lemma_listed_extend(counts@, i as int, u);
            assert(prev.contains(u) <==> (start.contains(u) || listed(counts@.subrange(0, i as int), u)));
        }
        i += 1;
    }
    assert(counts@.subrange(0, counts@.len() as int) =~= counts@);
    ids
}

/// The leaderboard, from per-user counts of problems written and of
/// solutions written: one line for each user that either lists, in
/// ascending order of score.
pub fn leaderboard(problems: &Vec<(u128, String, i64)>, solutions: &Vec<(u128, String, i64)>) -> (r: Vec<
    LeaderboardEntry,
>)
    ensures
        exists|users: Seq<u128>|
            {
                &&& users.no_duplicates()
                &&& forall|uid: u128| users.contains(uid) <==> (listed(problems@, uid) || listed(solutions@, uid))
                &&& users.len() == r@.len()
                &&& forall|k: int| 0 <= k < r@.len() ==> #[trigger] r@[k] == entry_for(problems@, solutions@, users[k])
            },
        forall|i: int, j: int| 0 <= i < j < r@.len() ==> score(r@[i]) <= score(r@[j]),
{
    let ids: Vec<u128> = Vec::new();
    assert(forall|uid: u128| !ids@.contains(uid));
    let ids = add_users(ids, problems);
    let ids = add_users(ids, solutions);
    let mut pairs: Vec<(i128, LeaderboardEntry)> = Vec::new();
    let mut k: usize = 0;
    while k < ids.len()
        invariant
            k <= ids.len(),
            pairs@.len() == k,
            forall|uid: u128| ids@.contains(uid) <==> (listed(problems@, uid) || listed(solutions@, uid)),
            forall|m: int|
                0 <= m < k ==> (#[trigger] pairs@[m]).1 == entry_for(problems@, solutions@, ids@[m]) && pairs@[m].0
                    == score(pairs@[m].1),
        decreases ids.len() - k,
    {
        assert(ids@.contains(ids@[k as int]));
        let entry = make_entry(problems, solutions, ids[k]);
        let key: i128 = entry.n_problems as i128 + (SOLUTIONS_WEIGHT as i128) * (entry.n_solutions as i128);
        pairs.push((key, entry));
        k += 1;
    }
    let r = sort_by_score(pairs);
    let ghost perm = choose|perm: Seq<int>|
        {
            &&& is_permutation(perm, pairs@.len() as int)
            &&& forall|k: int| 0 <= k < r@.len() ==> #[trigger] r@[k] == pairs@[perm[k]].1
            &&& forall|i: int, j: int| 0 <= i < j < r@.len() ==> pairs@[perm[i]].0 <= pairs@[perm[j]].0
        };
    let ghost users = Seq::new(r@.len(), |k: int| ids@[perm[k]]);
    proof {
        assert forall|a: int, b: int| 0 <= a < users.len() && 0 <= b < users.len() && a != b implies users[a]
            != users[b] by {
            assert(perm[a] != perm[b]);
        }
        assert forall|uid: u128| users.contains(uid) <==> (listed(problems@, uid) || listed(solutions@, uid)) by {
            if users.contains(uid) {
                let a = choose|a: int| 0 <= a < users.len() && users[a] == uid;
                assert(ids@.contains(ids@[perm[a]]));
            }
            if listed(problems@, uid) || listed(solutions@, uid) {
                let q = choose|q: int| 0 <= q < ids@.len() && ids@[q] == uid;
                assert(perm.contains(q));
                let a = choose|a: int| 0 <= a < perm.len() && perm[a] == q;
                assert(users[a] == uid);
            }
        }
        assert forall|i: int, j: int| 0 <= i < j < r@.len() implies score(r@[i]) <= score(r@[j]) by {
            assert(r@[i] == pairs@[perm[i]].1);
            assert(r@[j] == pairs@[perm[j]].1);
        }
        assert forall|k: int| 0 <= k < r@.len() implies #[trigger] r@[k] == entry_for(problems@, solutions@, users[k]) by {
            assert(r@[k] == pairs@[perm[k]].1);
        }
        assert(users.no_duplicates());
    }
    r
}

} // verus!
