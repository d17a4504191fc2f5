//! The activity records that local leaderboards are computed from.

use vstd::prelude::*;

use crate::calendar::Timestamp;

verus! {

/// A subtask of a task, worth a fixed amount of experience points.
#[derive(Clone, Copy, Debug, PartialEq, Eq, Structural)]
pub struct Subtask {
    pub id: u128,
    pub task_id: u128,
    pub xp: u64,
}

/// A user's progress on a subtask; `solved_timestamp` is set once it is solved.
#[derive(Clone, Copy, Debug, PartialEq, Eq, Structural)]
pub struct UserSubtask {
    pub user_id: u128,
    pub subtask_id: u128,
    pub solved_timestamp: Option<Timestamp>,
}

/// A submission to a coding-challenge subtask, in one language environment.
#[derive(Clone, Debug)]
pub struct Submission {
    pub id: u128,
    pub creator: u128,
    pub subtask_id: u128,
    pub environment: String,
    pub creation_timestamp: Timestamp,
}

/// The evaluation of a submission; `accepted` holds for a successful verdict.
#[derive(Clone, Copy, Debug, PartialEq, Eq, Structural)]
pub struct SubmissionResult {
    pub submission_id: u128,
    pub accepted: bool,
}

/// A read-only snapshot of the activity tables that rankings are computed from.
#[derive(Clone, Debug)]
pub struct ActivityStore {
    pub subtasks: Vec<Subtask>,
    pub user_subtasks: Vec<UserSubtask>,
    pub submissions: Vec<Submission>,
    pub results: Vec<SubmissionResult>,
}

} // verus!
