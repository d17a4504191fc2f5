use leaderboard::cache::{
    language_leaderboard_key, language_rank_key, task_leaderboard_key, task_rank_key, CACHE_TTL_SECONDS,
};
use leaderboard::calendar::{current_quarter_window, DateRange, Timestamp};
use leaderboard::global::{get_global_leaderboard, get_global_leaderboard_user, join_resolved};
use leaderboard::leaderboard::{LeaderboardEntry, LeaderboardError, Rank};
use leaderboard::skills::{
    check_status, AddSkillProgressError, GlobalLeaderboard, GlobalLeaderboardUser, Service, ServiceError,
    SkillsService,
};

#[test]
fn quarter_flag_changes_every_key() {
    for (a, b) in [(None, Some(true)), (Some(false), Some(true)), (None, Some(false))] {
        assert!(!task_leaderboard_key(1, 10, 0, a).same_key(&task_leaderboard_key(1, 10, 0, b)));
        assert!(!task_rank_key(1, 2, a).same_key(&task_rank_key(1, 2, b)));
        assert!(!language_leaderboard_key("rust", 10, 0, a).same_key(&language_leaderboard_key("rust", 10, 0, b)));
        assert!(!language_rank_key("rust", 2, a).same_key(&language_rank_key("rust", 2, b)));
    }
    assert!(task_leaderboard_key(1, 10, 0, Some(true)).same_key(&task_leaderboard_key(1, 10, 0, Some(true))));
    assert!(language_rank_key("rust", 2, None).same_key(&language_rank_key("rust", 2, None)));
    assert!(!language_rank_key("rust", 2, None).same_key(&language_rank_key("go", 2, None)));
    assert!(!task_rank_key(1, 2, None).same_key(&task_leaderboard_key(1, 2, 0, None)));
    assert_eq!(CACHE_TTL_SECONDS, 10);
}

#[test]
fn current_window_follows_flag() {
    assert_eq!(current_quarter_window(None), None);
    assert_eq!(current_quarter_window(Some(false)), None);
    let w = current_quarter_window(Some(true)).unwrap();
    assert_eq!(w.start.day, 1);
    assert!([1, 4, 7, 10].contains(&w.start.month));
    let span = (w.end.year * 12 + w.end.month as i32) - (w.start.year * 12 + w.start.month as i32);
    assert_eq!(span, 3);
}

#[test]
fn global_page_keeps_service_order() {
    let response = GlobalLeaderboard {
        leaderboard: vec![
            GlobalLeaderboardUser { user: 9, rank: Rank { xp: 900, rank: 4 } },
            GlobalLeaderboardUser { user: 3, rank: Rank { xp: 800, rank: 5 } },
        ],
        total: 17,
    };
    let lb = get_global_leaderboard(response).unwrap();
    assert_eq!(
        lb.entries,
        vec![LeaderboardEntry { user_id: 9, xp: 900, rank: 4 }, LeaderboardEntry { user_id: 3, xp: 800, rank: 5 }]
    );
    assert_eq!(lb.total, 17);
}

#[test]
fn join_fails_with_first_error() {
    let e = LeaderboardEntry { user_id: 1, xp: 2, rank: 3 };
    assert_eq!(join_resolved(vec![Ok(e), Ok(e)]), Ok(vec![e, e]));
    assert_eq!(join_resolved(vec![]), Ok(vec![]));
    assert_eq!(
        join_resolved(vec![Ok(e), Err(LeaderboardError::Enrichment), Err(LeaderboardError::NotFound)]),
        Err(LeaderboardError::Enrichment)
    );
}

#[test]
fn global_rank_errors_keep_their_kind() {
    assert_eq!(get_global_leaderboard_user(Ok(Rank { xp: 5, rank: 1 })), Ok(Rank { xp: 5, rank: 1 }));
    assert_eq!(get_global_leaderboard_user(Err(ServiceError::NotFound)), Err(LeaderboardError::NotFound));
    assert_eq!(
        get_global_leaderboard_user(Err(ServiceError::UnexpectedStatusCode(502))),
        Err(LeaderboardError::UnexpectedStatus(502))
    );
}

#[test]
fn statuses_are_classified() {
    assert_eq!(check_status(200), Ok(()));
    assert_eq!(check_status(204), Ok(()));
    assert_eq!(check_status(404), Err(ServiceError::NotFound));
    assert_eq!(check_status(500), Err(ServiceError::UnexpectedStatusCode(500)));
    assert_eq!(check_status(301), Err(ServiceError::UnexpectedStatusCode(301)));
}

#[test]
fn skill_progress_outcomes() {
    assert_eq!(SkillsService::add_skill_progress_outcome(200), Ok(Ok(())));
    assert_eq!(SkillsService::add_skill_progress_outcome(404), Ok(Err(AddSkillProgressError::SkillNotFound)));
    assert_eq!(SkillsService::add_skill_progress_outcome(500), Err(ServiceError::UnexpectedStatusCode(500)));
}

#[test]
fn leaderboard_query_carries_window() {
    let svc = SkillsService::new(Service { base_url: "http://skills".to_string() });
    assert_eq!(svc.0.base_url, "http://skills");
    let start = Timestamp { year: 2024, month: 4, day: 1, hour: 0, minute: 0, second: 0 };
    let end = Timestamp { year: 2024, month: 7, day: 1, hour: 0, minute: 0, second: 0 };
    let q = svc.leaderboard_query(10, 20, Some(DateRange { start, end }));
    assert_eq!((q.limit, q.offset, q.start_date, q.end_date), (10, 20, Some(start), Some(end)));
    let q = svc.leaderboard_query(5, 0, None);
    assert_eq!((q.limit, q.offset, q.start_date, q.end_date), (5, 0, None, None));
}
