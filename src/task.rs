//! Leaderboards of a single task: experience from its solved subtasks.

use vstd::prelude::*;

use crate::activity::ActivityStore;
use crate::calendar::DateRange;
use crate::leaderboard::{Leaderboard, LeaderboardError, Rank};
use crate::ranking::{get_leaderboard, get_leaderboard_user, leaderboard_result, rank_result};
use crate::scope::{Scope, ScopeQuery};

verus! {

/// The query of the task's scope, restricted to the window if one is given.
pub fn get_base_query(task_id: u128, date_range: Option<DateRange>) -> (q: ScopeQuery)
    ensures
        q == (ScopeQuery::Task { task_id, window: date_range }),
{
    ScopeQuery::Task { task_id, window: date_range }
}

/// A page of the task's leaderboard.
pub fn get_task_leaderboard(
    store: &ActivityStore,
    task_id: u128,
    limit: u64,
    offset: u64,
    date_range: Option<DateRange>,
) -> (r: Result<Leaderboard, LeaderboardError>)
    ensures
        leaderboard_result(*store, Scope::Task { task_id, window: date_range }, limit, offset, r),
{
    let q = get_base_query(task_id, date_range);
    get_leaderboard(store, &q, limit, offset)
}

/// A user's rank on the task's leaderboard.
pub fn get_task_leaderboard_user(
    store: &ActivityStore,
    task_id: u128,
    user_id: u128,
    date_range: Option<DateRange>,
) -> (r: Result<Rank, LeaderboardError>)
    ensures
        rank_result(*store, Scope::Task { task_id, window: date_range }, user_id, r),
{
    let q = get_base_query(task_id, date_range);
    get_leaderboard_user(store, &q, user_id)
}

} // verus!
