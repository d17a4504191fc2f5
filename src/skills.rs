//! The skills service's data and the parts of its client that decide:
//! request parameters and the meaning of response statuses.

use vstd::prelude::*;

use crate::calendar::{DateRange, Timestamp};
use crate::leaderboard::Rank;

verus! {

/// How to reach a backing service.
#[derive(Clone, Debug)]
pub struct Service {
    pub base_url: String,
}

/// The client of the skills service.
#[derive(Clone, Debug)]
pub struct SkillsService(pub Service);

/// A skill, with its parent and the courses that teach it.
#[derive(Clone, Debug)]
pub struct Skill {
    pub id: String,
    pub parent_id: String,
    pub courses: Vec<String>,
}

#[derive(Clone, Debug)]
pub struct Course {
    pub id: String,
    pub sections: Vec<Section>,
}

#[derive(Clone, Debug)]
pub struct Section {
    pub id: String,
    pub lectures: Vec<Lecture>,
}

#[derive(Clone, Debug)]
pub struct Lecture {
    pub id: String,
}

/// Why experience could not be added to a skill.
#[derive(Clone, Copy, Debug, PartialEq, Eq, Structural)]
pub enum AddSkillProgressError {
    SkillNotFound,
}

/// A failed exchange with a backing service.
#[derive(Clone, Copy, Debug, PartialEq, Eq, Structural)]
pub enum ServiceError {
    /// The service answered 404.
    NotFound,
    /// The service answered with a status outside its contract.
    UnexpectedStatusCode(u16),
}

/// The query parameters of a global leaderboard request.
#[derive(Clone, Copy, Debug, PartialEq, Eq, Structural)]
pub struct LeaderboardQuery {
    pub limit: u64,
    pub offset: u64,
    pub start_date: Option<Timestamp>,
    pub end_date: Option<Timestamp>,
}

/// One user of the global leaderboard as the skills service sends it.
#[derive(Clone, Copy, Debug, PartialEq, Eq, Structural)]
pub struct GlobalLeaderboardUser {
    pub user: u128,
    pub rank: Rank,
}

/// A page of the global leaderboard as the skills service sends it.
#[derive(Clone, Debug)]
pub struct GlobalLeaderboard {
    pub leaderboard: Vec<GlobalLeaderboardUser>,
    pub total: u64,
}

pub open spec fn is_success(status: u16) -> bool {
    200 <= status < 300
}

/// Whether a response status fulfils the contract: success, 404 as
/// `NotFound`, anything else as an unexpected status that carries its code.
pub fn check_status(status: u16) -> (r: Result<(), ServiceError>)
    ensures
        is_success(status) <==> r is Ok,
        status == 404 ==> r == Err::<(), ServiceError>(ServiceError::NotFound),
        !is_success(status) && status != 404 ==> r == Err::<(), ServiceError>(
            ServiceError::UnexpectedStatusCode(status),
        ),
{
    if 200 <= status && status < 300 {
        Ok(())
    } else if status == 404 {
        Err(ServiceError::NotFound)
    } else {
        Err(ServiceError::UnexpectedStatusCode(status))
    }
}

impl SkillsService {
    pub fn new(service: Service) -> (r: Self)
        ensures
            r.0 == service,
    {
        Self(service)
    }

    /// The query of a global leaderboard page, with the window's bounds when
    /// one is given.
    pub fn leaderboard_query(&self, limit: u64, offset: u64, date_range: Option<DateRange>) -> (r: LeaderboardQuery)
        ensures
            r.limit == limit,
            r.offset == offset,
            date_range matches Some(d) ==> r.start_date == Some(d.start) && r.end_date == Some(d.end),
            date_range is None ==> r.start_date is None && r.end_date is None,
    {
        let (start_date, end_date) = match date_range {
            Some(d) => (Some(d.start), Some(d.end)),
            None => (None, None),
        };
        LeaderboardQuery { limit, offset, start_date, end_date }
    }

    /// The outcome of adding skill progress, from the response status: 200
    /// adds it, 404 means the skill does not exist, anything else is an
    /// unexpected status.
    pub fn add_skill_progress_outcome(status: u16) -> (r: Result<Result<(), AddSkillProgressError>, ServiceError>)
        ensures
            status == 200 ==> r == Ok::<Result<(), AddSkillProgressError>, ServiceError>(Ok(())),
            status == 404 ==> r == Ok::<Result<(), AddSkillProgressError>, ServiceError>(
                Err(AddSkillProgressError::SkillNotFound),
            ),
            status != 200 && status != 404 ==> r == Err::<Result<(), AddSkillProgressError>, ServiceError>(
                ServiceError::UnexpectedStatusCode(status),
            ),
    {
        if status == 200 {
            Ok(Ok(()))
        } else if status == 404 {
            Ok(Err(AddSkillProgressError::SkillNotFound))
        } else {
            Err(ServiceError::UnexpectedStatusCode(status))
        }
    }
}

} // verus!
