//! Leaderboards of a language: experience from coding-challenge subtasks
//! solved by an accepted submission in that language environment.

use vstd::prelude::*;

use crate::activity::ActivityStore;
use crate::calendar::DateRange;
use crate::leaderboard::{Leaderboard, LeaderboardError, Rank};
use crate::ranking::{get_leaderboard, get_leaderboard_user, leaderboard_result, rank_result};
use crate::scope::{Scope, ScopeQuery};

verus! {

/// The query of the language's scope, restricted to the window if one is given.
pub fn get_base_query(language: &str, date_range: Option<DateRange>) -> (q: ScopeQuery)
    ensures
        q@ == (Scope::Language { language: language@, window: date_range }),
{
    ScopeQuery::Language { language: language.to_string(), window: date_range }
}

/// A page of the language's leaderboard.
pub fn get_language_leaderboard(
    store: &ActivityStore,
    language: &str,
    limit: u64,
    offset: u64,
    date_range: Option<DateRange>,
) -> (r: Result<Leaderboard, LeaderboardError>)
    ensures
        leaderboard_result(*store, Scope::Language { language: language@, window: date_range }, limit, offset, r),
{
    let q = get_base_query(language, date_range);
    get_leaderboard(store, &q, limit, offset)
}

/// A user's rank on the language's leaderboard.
pub fn get_language_leaderboard_user(
    store: &ActivityStore,
    language: &str,
    user_id: u128,
    date_range: Option<DateRange>,
) -> (r: Result<Rank, LeaderboardError>)
    ensures
        rank_result(*store, Scope::Language { language: language@, window: date_range }, user_id, r),
{
    let q = get_base_query(language, date_range);
    get_leaderboard_user(store, &q, user_id)
}

} // verus!
