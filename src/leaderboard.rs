//! The shapes a leaderboard is returned in, and its errors.

use vstd::prelude::*;

verus! {

/// One ranked user: rank is 1-based over the whole scope, not the page.
#[derive(Clone, Copy, Debug, PartialEq, Eq, Structural)]
pub struct LeaderboardEntry {
    pub user_id: u128,
    pub xp: u64,
    pub rank: u64,
}

/// A page of a ranking, with the number of ranked users in the whole scope.
#[derive(Clone, Debug)]
pub struct Leaderboard {
    pub entries: Vec<LeaderboardEntry>,
    pub total: u64,
}

/// A single user's experience and rank within a scope.
#[derive(Clone, Copy, Debug, PartialEq, Eq, Structural)]
pub struct Rank {
    pub xp: u64,
    pub rank: u64,
}

/// Why a leaderboard or a rank could not be produced.
#[derive(Clone, Copy, Debug, PartialEq, Eq, Structural)]
pub enum LeaderboardError {
    /// The user has no qualifying activity in the scope.
    NotFound,
    /// Some user's experience sum does not fit the result type.
    XpOverflow,
    /// The skills service answered with a status outside its contract.
    UnexpectedStatus(u16),
    /// Resolving one of the entries of a page failed.
    Enrichment,
}

} // verus!
