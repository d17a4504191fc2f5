//! The global leaderboard, whose ranking the skills service owns: turning
//! its answers into the common leaderboard shape.

use vstd::prelude::*;

use crate::leaderboard::{Leaderboard, LeaderboardEntry, LeaderboardError, Rank};
use crate::skills::{GlobalLeaderboard, GlobalLeaderboardUser, ServiceError};

verus! {

/// The entry that a ranked user of the service becomes.
pub open spec fn entry_of(u: GlobalLeaderboardUser) -> LeaderboardEntry {
    LeaderboardEntry { user_id: u.user, xp: u.rank.xp, rank: u.rank.rank }
}

/// Resolves a ranked user into a leaderboard entry.
pub fn resolve_user(user: u128, rank: Rank) -> (r: Result<LeaderboardEntry, LeaderboardError>)
    ensures
        r == Ok::<LeaderboardEntry, LeaderboardError>(LeaderboardEntry { user_id: user, xp: rank.xp, rank: rank.rank }),
{
    Ok(LeaderboardEntry { user_id: user, xp: rank.xp, rank: rank.rank })
}

/// Joins resolutions all or nothing: every value in input order when all
/// succeeded, else the first error in input order.
pub fn join_resolved(results: Vec<Result<LeaderboardEntry, LeaderboardError>>) -> (r: Result<
    Vec<LeaderboardEntry>,
    LeaderboardError,
>)
    ensures
        r is Ok <==> forall|i: int| 0 <= i < results@.len() ==> (#[trigger] results@[i]) is Ok,
        r matches Ok(v) ==> v@.len() == results@.len() && forall|i: int|
            0 <= i < v@.len() ==> results@[i] == Ok::<LeaderboardEntry, LeaderboardError>(#[trigger] v@[i]),
        r matches Err(e) ==> exists|i: int|
            0 <= i < results@.len() && results@[i] == Err::<LeaderboardEntry, LeaderboardError>(e) && forall|k: int|
                0 <= k < i ==> (#[trigger] results@[k]) is Ok,
{
    let mut out: Vec<LeaderboardEntry> = Vec::new();
    let mut i: usize = 0;
    while i < results.len()
        invariant
            i <= results@.len(),
            out@.len() == i,
            forall|k: int| 0 <= k < i ==> results@[k] == Ok::<LeaderboardEntry, LeaderboardError>(#[trigger] out@[k]),
        decreases results@.len() - i,
    {
        match &results[i] {
            Ok(e) => out.push(*e),
            Err(e) => {
                assert forall|k: int| 0 <= k < i implies (#[trigger] results@[k]) is Ok by {
                    assert(results@[k] == Ok::<LeaderboardEntry, LeaderboardError>(out@[k]));
                }
                return Err(*e);
            },
        }
        i = i + 1;
    }
    assert forall|k: int| 0 <= k < results@.len() implies (#[trigger] results@[k]) is Ok by {
        assert(results@[k] == Ok::<LeaderboardEntry, LeaderboardError>(out@[k]));
    }
    Ok(out)
}

/// The service's page in the common shape: its users in the order given,
/// with their experience and rank, and its total.
pub fn get_global_leaderboard(response: GlobalLeaderboard) -> (r: Result<Leaderboard, LeaderboardError>)
    ensures
        r matches Ok(lb) && lb.total == response.total && lb.entries@.len() == response.leaderboard@.len()
            && forall|i: int| 0 <= i < lb.entries@.len() ==> #[trigger] lb.entries@[i] == entry_of(response.leaderboard@[i]),
{
    let mut resolved: Vec<Result<LeaderboardEntry, LeaderboardError>> = Vec::new();
    let mut i: usize = 0;
    while i < response.leaderboard.len()
        invariant
            i <= response.leaderboard@.len(),
            resolved@.len() == i,
            forall|k: int|
                0 <= k < i ==> #[trigger] resolved@[k] == Ok::<LeaderboardEntry, LeaderboardError>(
                    entry_of(response.leaderboard@[k]),
                ),
        decreases response.leaderboard@.len() - i,
    {
        let u = response.leaderboard[i];
        resolved.push(resolve_user(u.user, u.rank));
        i = i + 1;
    }
    match join_resolved(resolved) {
        Ok(entries) => {
            assert forall|k: int| 0 <= k < entries@.len() implies #[trigger] entries@[k] == entry_of(
                response.leaderboard@[k],
            ) by {
                assert(resolved@[k] == Ok::<LeaderboardEntry, LeaderboardError>(entries@[k]));
            }
            Ok(Leaderboard { entries, total: response.total })
        },
        Err(e) => {
            proof {
                let j = choose|j: int|
                    0 <= j < resolved@.len() && resolved@[j] == Err::<LeaderboardEntry, LeaderboardError>(e) && forall|k: int|
                        0 <= k < j ==> (#[trigger] resolved@[k]) is Ok;
                assert(resolved@[j] is Ok);
            }
            Err(e)
        },
    }
}

/// The service's errors in the library's terms, unchanged in kind.
pub open spec fn service_error_spec(e: ServiceError) -> LeaderboardError {
    match e {
        ServiceError::NotFound => LeaderboardError::NotFound,
        ServiceError::UnexpectedStatusCode(c) => LeaderboardError::UnexpectedStatus(c),
    }
}


/// The service's errors in the library's terms, unchanged in kind.
pub fn service_error(e: ServiceError) -> (r: LeaderboardError)
    ensures
        r == service_error_spec(e),
{
    match e {
        ServiceError::NotFound => LeaderboardError::NotFound,
        ServiceError::UnexpectedStatusCode(c) => LeaderboardError::UnexpectedStatus(c),
    }
}

/// A user's global rank from the service's answer.
pub fn get_global_leaderboard_user(response: Result<Rank, ServiceError>) -> (r: Result<Rank, LeaderboardError>)
    ensures
        response matches Ok(rank) ==> r == Ok::<Rank, LeaderboardError>(rank),
        response matches Err(e) ==> r == Err::<Rank, LeaderboardError>(service_error_spec(e)),
{
    match response {
        Ok(rank) => Ok(rank),
        Err(e) => Err(service_error(e)),
    }
}

} // verus!
