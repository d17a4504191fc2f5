//! Ranked leaderboards over learning activity: quarter windows, per-scope
//! aggregation and ranking, normalisation of the external global ranking,
//! and the cache keys under which results are memoised.

pub mod calendar;
pub mod activity;
pub mod scope;
pub mod leaderboard;
pub mod ranking;
pub mod task;
pub mod language;
pub mod skills;
pub mod global;
pub mod cache;
pub mod subtasks;
