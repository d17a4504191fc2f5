use leaderboard::scope::{evaluate, user_last_update, ScopeQuery};
use leaderboard::activity::{ActivityStore, Submission, SubmissionResult, Subtask, UserSubtask};
use leaderboard::calendar::{DateRange, Timestamp};
use leaderboard::language::{get_language_leaderboard, get_language_leaderboard_user};
use leaderboard::leaderboard::{LeaderboardEntry, LeaderboardError, Rank};
use leaderboard::task::{get_task_leaderboard, get_task_leaderboard_user};

const TASK: u128 = 7;
const OTHER_TASK: u128 = 8;
const USER_A: u128 = 100;
const USER_B: u128 = 200;
const USER_C: u128 = 300;

fn ts(year: i32, month: u32, day: u32) -> Timestamp {
    Timestamp { year, month, day, hour: 12, minute: 0, second: 0 }
}

fn solved(user_id: u128, subtask_id: u128, at: Option<Timestamp>) -> UserSubtask {
    UserSubtask { user_id, subtask_id, solved_timestamp: at }
}

fn empty_store() -> ActivityStore {
    ActivityStore { subtasks: vec![], user_subtasks: vec![], submissions: vec![], results: vec![] }
}

fn two_user_store() -> ActivityStore {
    let mut store = empty_store();
    store.subtasks = vec![
        Subtask { id: 1, task_id: TASK, xp: 50 },
        Subtask { id: 2, task_id: TASK, xp: 30 },
    ];
    store.user_subtasks = vec![
        solved(USER_A, 1, Some(ts(2024, 2, 1))),
        solved(USER_B, 2, Some(ts(2024, 2, 2))),
    ];
    store
}

fn entry(user_id: u128, xp: u64, rank: u64) -> LeaderboardEntry {
    LeaderboardEntry { user_id, xp, rank }
}

#[test]
fn task_leaderboard_two_users() {
    let lb = get_task_leaderboard(&two_user_store(), TASK, 10, 0, None).unwrap();
    assert_eq!(lb.entries, vec![entry(USER_A, 50, 1), entry(USER_B, 30, 2)]);
    assert_eq!(lb.total, 2);
}

#[test]
fn offset_past_population_is_empty_page() {
    let lb = get_task_leaderboard(&two_user_store(), TASK, 10, 5, None).unwrap();
    assert!(lb.entries.is_empty());
    assert_eq!(lb.total, 2);
}

#[test]
fn user_without_activity_is_not_found() {
    let r = get_task_leaderboard_user(&two_user_store(), TASK, USER_C, None);
    assert_eq!(r, Err(LeaderboardError::NotFound));
    let r = get_task_leaderboard_user(&two_user_store(), OTHER_TASK, USER_A, None);
    assert_eq!(r, Err(LeaderboardError::NotFound));
}

#[test]
fn empty_scope_has_empty_leaderboard() {
    let lb = get_task_leaderboard(&empty_store(), TASK, 10, 0, None).unwrap();
    assert!(lb.entries.is_empty());
    assert_eq!(lb.total, 0);
}

#[test]
fn unsolved_rows_and_other_tasks_do_not_count() {
    let mut store = two_user_store();
    store.subtasks.push(Subtask { id: 3, task_id: OTHER_TASK, xp: 1000 });
    store.user_subtasks.push(solved(USER_C, 1, None));
    store.user_subtasks.push(solved(USER_B, 3, Some(ts(2024, 3, 1))));
    let lb = get_task_leaderboard(&store, TASK, 10, 0, None).unwrap();
    assert_eq!(lb.entries, vec![entry(USER_A, 50, 1), entry(USER_B, 30, 2)]);
    assert_eq!(lb.total, 2);
}

#[test]
fn xp_sums_over_solved_subtasks() {
    let mut store = two_user_store();
    store.user_subtasks.push(solved(USER_B, 1, Some(ts(2024, 2, 3))));
    let lb = get_task_leaderboard(&store, TASK, 10, 0, None).unwrap();
    assert_eq!(lb.entries, vec![entry(USER_B, 80, 1), entry(USER_A, 50, 2)]);
}

#[test]
fn ties_are_broken_by_user_id() {
    let mut store = empty_store();
    store.subtasks = vec![Subtask { id: 1, task_id: TASK, xp: 40 }, Subtask { id: 2, task_id: TASK, xp: 40 }];
    store.user_subtasks = vec![
        solved(USER_C, 1, Some(ts(2024, 1, 5))),
        solved(USER_A, 2, Some(ts(2024, 1, 6))),
        solved(USER_B, 1, Some(ts(2024, 1, 7))),
    ];
    let lb = get_task_leaderboard(&store, TASK, 10, 0, None).unwrap();
    assert_eq!(lb.entries, vec![entry(USER_A, 40, 1), entry(USER_B, 40, 2), entry(USER_C, 40, 3)]);
}

fn ranked_store() -> ActivityStore {
    let mut store = empty_store();
    let mut user_subtasks = vec![];
    let mut subtasks = vec![];
    for s in 0..5u128 {
        subtasks.push(Subtask { id: s + 1, task_id: TASK, xp: 10 * (s as u64 + 1) });
    }
    for u in 0..5u128 {
        for s in 0..=u {
            user_subtasks.push(solved(1000 + u, s + 1, Some(ts(2024, 5, 1))));
        }
    }
    store.subtasks = subtasks;
    store.user_subtasks = user_subtasks;
    store
}

#[test]
fn page_is_slice_of_full_ranking() {
    let store = ranked_store();
    let full = get_task_leaderboard(&store, TASK, 100, 0, None).unwrap();
    assert_eq!(full.entries.len(), 5);
    for offset in 0..7u64 {
        for limit in 0..7u64 {
            let page = get_task_leaderboard(&store, TASK, limit, offset, None).unwrap();
            assert!(page.entries.len() as u64 <= limit);
            let start = (offset as usize).min(5);
            let end = (offset as usize + limit as usize).min(5);
            assert_eq!(page.entries, full.entries[start..end].to_vec());
            assert_eq!(page.total, 5);
        }
    }
    assert_eq!(full.entries[0], entry(1004, 150, 1));
    assert_eq!(full.entries[4], entry(1000, 10, 5));
}

#[test]
fn page_ranks_increase_as_xp_falls() {
    let lb = get_task_leaderboard(&ranked_store(), TASK, 3, 1, None).unwrap();
    assert_eq!(lb.entries.iter().map(|e| e.rank).collect::<Vec<_>>(), vec![2, 3, 4]);
    for w in lb.entries.windows(2) {
        assert!(w[0].xp >= w[1].xp);
        assert!(w[0].rank < w[1].rank);
    }
}

#[test]
fn user_rank_matches_full_scan() {
    let store = ranked_store();
    let full = get_task_leaderboard(&store, TASK, 100, 0, None).unwrap();
    for e in &full.entries {
        let rank = get_task_leaderboard_user(&store, TASK, e.user_id, None).unwrap();
        assert_eq!(rank, Rank { xp: e.xp, rank: e.rank });
    }
}

#[test]
fn window_is_half_open() {
    let mut store = two_user_store();
    let start = Timestamp { year: 2024, month: 1, day: 1, hour: 0, minute: 0, second: 0 };
    let end = Timestamp { year: 2024, month: 4, day: 1, hour: 0, minute: 0, second: 0 };
    store.user_subtasks = vec![solved(USER_A, 1, Some(start)), solved(USER_B, 2, Some(end))];
    let window = Some(DateRange { start, end });
    let lb = get_task_leaderboard(&store, TASK, 10, 0, window).unwrap();
    assert_eq!(lb.entries, vec![entry(USER_A, 50, 1)]);
    assert_eq!(lb.total, 1);
    let r = get_task_leaderboard_user(&store, TASK, USER_B, window);
    assert_eq!(r, Err(LeaderboardError::NotFound));
    let lb = get_task_leaderboard(&store, TASK, 10, 0, None).unwrap();
    assert_eq!(lb.total, 2);
}

#[test]
fn xp_beyond_u64_is_an_overflow() {
    let mut store = empty_store();
    store.subtasks = vec![Subtask { id: 1, task_id: TASK, xp: u64::MAX }, Subtask { id: 2, task_id: TASK, xp: 1 }];
    store.user_subtasks = vec![solved(USER_A, 1, Some(ts(2024, 1, 1))), solved(USER_A, 2, Some(ts(2024, 1, 1)))];
    assert_eq!(get_task_leaderboard(&store, TASK, 10, 0, None).unwrap_err(), LeaderboardError::XpOverflow);
    assert_eq!(get_task_leaderboard_user(&store, TASK, USER_A, None), Err(LeaderboardError::XpOverflow));
}

fn submission(id: u128, creator: u128, subtask_id: u128, env: &str, at: Timestamp) -> Submission {
    Submission { id, creator, subtask_id, environment: env.to_string(), creation_timestamp: at }
}

fn language_store() -> ActivityStore {
    let mut store = empty_store();
    store.subtasks = vec![Subtask { id: 1, task_id: TASK, xp: 20 }, Subtask { id: 2, task_id: TASK, xp: 5 }];
    store.submissions = vec![
        submission(10, USER_A, 1, "rust", ts(2024, 1, 1)),
        submission(11, USER_A, 1, "rust", ts(2024, 1, 2)),
        submission(12, USER_B, 1, "python", ts(2024, 1, 3)),
        submission(13, USER_B, 2, "rust", ts(2024, 1, 4)),
        submission(14, USER_C, 2, "rust", ts(2024, 1, 5)),
    ];
    store.results = vec![
        SubmissionResult { submission_id: 10, accepted: true },
        SubmissionResult { submission_id: 11, accepted: true },
        SubmissionResult { submission_id: 12, accepted: true },
        SubmissionResult { submission_id: 13, accepted: true },
        SubmissionResult { submission_id: 14, accepted: false },
    ];
    store
}

#[test]
fn language_counts_each_subtask_once() {
    let lb = get_language_leaderboard(&language_store(), "rust", 10, 0, None).unwrap();
    assert_eq!(lb.entries, vec![entry(USER_A, 20, 1), entry(USER_B, 5, 2)]);
    assert_eq!(lb.total, 2);
}

#[test]
fn language_ignores_rejected_and_other_languages() {
    let store = language_store();
    assert_eq!(get_language_leaderboard_user(&store, "rust", USER_C, None), Err(LeaderboardError::NotFound));
    assert_eq!(get_language_leaderboard_user(&store, "python", USER_B, None), Ok(Rank { xp: 20, rank: 1 }));
    let lb = get_language_leaderboard(&store, "go", 10, 0, None).unwrap();
    assert_eq!(lb.total, 0);
}

#[test]
fn language_window_filters_submissions() {
    let store = language_store();
    let window = Some(DateRange { start: ts(2024, 1, 2), end: ts(2024, 1, 4) });
    let lb = get_language_leaderboard(&store, "rust", 10, 0, window).unwrap();
    assert_eq!(lb.entries, vec![entry(USER_A, 20, 1)]);
}

#[test]
fn last_update_is_latest_counted_solve() {
    let mut store = two_user_store();
    store.user_subtasks.push(solved(USER_A, 2, Some(ts(2024, 3, 9))));
    store.user_subtasks.push(solved(USER_B, 1, None));
    let q = ScopeQuery::Task { task_id: TASK, window: None };
    assert_eq!(user_last_update(&store, &q, USER_A), Some(ts(2024, 3, 9)));
    assert_eq!(user_last_update(&store, &q, USER_B), Some(ts(2024, 2, 2)));
    assert_eq!(user_last_update(&store, &q, USER_C), None);
    let windowed = ScopeQuery::Task { task_id: TASK, window: Some(DateRange { start: ts(2024, 1, 1), end: ts(2024, 3, 1) }) };
    assert_eq!(user_last_update(&store, &windowed, USER_A), Some(ts(2024, 2, 1)));
    let mut rows = evaluate(&store, &q);
    rows.sort_by_key(|r| r.user_id);
    assert_eq!(rows.len(), 2);
    assert_eq!((rows[0].user_id, rows[0].xp, rows[0].last_update), (USER_A, 80, ts(2024, 3, 9)));
    assert_eq!((rows[1].user_id, rows[1].xp, rows[1].last_update), (USER_B, 30, ts(2024, 2, 2)));
}

#[test]
fn language_last_update_follows_accepted_submissions() {
    let mut store = language_store();
    let q = ScopeQuery::Language { language: "rust".to_string(), window: None };
    assert_eq!(user_last_update(&store, &q, USER_A), Some(ts(2024, 1, 2)));
    assert_eq!(user_last_update(&store, &q, USER_C), None);
    let before = get_language_leaderboard_user(&store, "rust", USER_A, None).unwrap();
    store.submissions.push(submission(15, USER_A, 1, "rust", ts(2024, 1, 20)));
    store.results.push(SubmissionResult { submission_id: 15, accepted: true });
    assert_eq!(get_language_leaderboard_user(&store, "rust", USER_A, None).unwrap(), before);
    assert_eq!(user_last_update(&store, &q, USER_A), Some(ts(2024, 1, 20)));
}
