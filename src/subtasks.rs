//! The decisions of the subtask endpoints: who may see, unlock, change, rate
//! or report a subtask. The endpoints load the facts these take and carry
//! out the outcome.

use vstd::prelude::*;

verus! {

/// The subtask endpoints, with the configured limit on quiz fees.
#[derive(Clone, Copy, Debug, PartialEq, Eq, Structural)]
pub struct Subtasks {
    pub max_fee: u64,
}

/// Who is asking.
#[derive(Clone, Copy, Debug, PartialEq, Eq, Structural)]
pub struct Requester {
    pub id: u128,
    pub admin: bool,
}

/// The facts about a subtask that the decisions read.
#[derive(Clone, Copy, Debug, PartialEq, Eq, Structural)]
pub struct SubtaskFacts {
    pub creator: u128,
    pub enabled: bool,
    pub fee: i64,
}

/// What unlocking a subtask comes to before any payment.
#[derive(Clone, Copy, Debug, PartialEq, Eq, Structural)]
pub enum UnlockStep {
    SubtaskNotFound,
    /// The requester already has access: nothing to pay.
    AlreadyUnlocked,
    /// Add this many coins (the negated fee) to the requester, then unlock.
    Charge { coins: i64 },
}

/// The shop's answer to a charge.
#[derive(Clone, Copy, Debug, PartialEq, Eq, Structural)]
pub enum AddCoinsError {
    NotEnoughCoins,
}

/// How an unlock request ends.
#[derive(Clone, Copy, Debug, PartialEq, Eq, Structural)]
pub enum UnlockOutcome {
    /// The requester already had access (200); nothing is written.
    AlreadyUnlocked,
    /// The fee was paid: record the unlock time and answer 201.
    Unlocked,
    /// The subtask does not exist or is hidden (404); nothing is written.
    SubtaskNotFound,
    /// The requester cannot pay the fee (403); nothing is written.
    NotEnoughCoins,
}

impl UnlockOutcome {
    /// The response status of the outcome.
    pub fn status(&self) -> (r: u16)
        ensures
            r == match *self {
                UnlockOutcome::AlreadyUnlocked => 200u16,
                UnlockOutcome::Unlocked => 201u16,
                UnlockOutcome::SubtaskNotFound => 404u16,
                UnlockOutcome::NotEnoughCoins => 403u16,
            },
    {
        match self {
            UnlockOutcome::AlreadyUnlocked => 200,
            UnlockOutcome::Unlocked => 201,
            UnlockOutcome::SubtaskNotFound => 404,
            UnlockOutcome::NotEnoughCoins => 403,
        }
    }

    /// Whether the outcome records the unlock of the subtask for the requester.
    pub fn records_unlock(&self) -> (r: bool)
        ensures
            r == (*self == UnlockOutcome::Unlocked),
    {
        match self {
            UnlockOutcome::Unlocked => true,
            _ => false,
        }
    }
}

/// What changing a subtask comes to.
#[derive(Clone, Copy, Debug, PartialEq, Eq, Structural)]
pub enum UpdateOutcome {
    /// Store the subtask with this fee.
    Update { fee: u64 },
    SubtaskNotFound,
    PermissionDenied,
    /// The fee is above the limit, which is carried.
    FeeLimitExceeded(u64),
}

/// What posting feedback comes to.
#[derive(Clone, Copy, Debug, PartialEq, Eq, Structural)]
pub enum FeedbackOutcome {
    /// Record the rating; `reward_creator` says whether the creator earns a coin.
    Created { reward_creator: bool },
    SubtaskNotFound,
    PermissionDenied,
}

/// What reporting a subtask comes to.
#[derive(Clone, Copy, Debug, PartialEq, Eq, Structural)]
pub enum RatingOutcome {
    /// Record it.
    Proceed,
    SubtaskNotFound,
    PermissionDenied,
}

/// A subtask is visible to admins, to its creator, and to everyone once enabled.
pub open spec fn visible_to(who: Requester, s: SubtaskFacts) -> bool {
    who.admin || who.id == s.creator || s.enabled
}

/// Whether the requester may see the subtask.
pub fn subtask_visible(who: &Requester, s: &SubtaskFacts) -> (r: bool)
    ensures
        r == visible_to(*who, *s),
{
    !(!who.admin && who.id != s.creator && !s.enabled)
}

impl Subtasks {
    /// Unlocking: a subtask that is missing or hidden is not found; with access
    /// already granted nothing is charged; otherwise the fee is charged.
    pub fn unlock_subtask(&self, subtask: Option<SubtaskFacts>, who: &Requester, has_access: bool) -> (r: UnlockStep)
        requires
            subtask matches Some(s) ==> s.fee > i64::MIN,
        ensures
            subtask matches Some(s) ==> r == if !visible_to(*who, s) {
                UnlockStep::SubtaskNotFound
            } else if has_access {
                UnlockStep::AlreadyUnlocked
            } else {
                UnlockStep::Charge { coins: (-s.fee) as i64 }
            },
            subtask is None ==> r == UnlockStep::SubtaskNotFound,
    {
        match subtask {
            None => UnlockStep::SubtaskNotFound,
            Some(s) => {
                if !subtask_visible(who, &s) {
                    UnlockStep::SubtaskNotFound
                } else if has_access {
                    UnlockStep::AlreadyUnlocked
                } else {
                    UnlockStep::Charge { coins: -s.fee }
                }
            },
        }
    }

    /// How an unlock ends once its first step is known and, for a charge, the
    /// shop has answered: not found and already unlocked end as they are; a
    /// paid charge unlocks, a refused one ends with not enough coins.
    pub fn finish_unlock(&self, step: UnlockStep, payment: Result<(), AddCoinsError>) -> (r: UnlockOutcome)
        ensures
            step == UnlockStep::SubtaskNotFound ==> r == UnlockOutcome::SubtaskNotFound,
            step == UnlockStep::AlreadyUnlocked ==> r == UnlockOutcome::AlreadyUnlocked,
            step is Charge && payment is Ok ==> r == UnlockOutcome::Unlocked,
            step is Charge && payment == Err::<(), AddCoinsError>(AddCoinsError::NotEnoughCoins) ==> r
                == UnlockOutcome::NotEnoughCoins,
    {
        match step {
            UnlockStep::SubtaskNotFound => UnlockOutcome::SubtaskNotFound,
            UnlockStep::AlreadyUnlocked => UnlockOutcome::AlreadyUnlocked,
            UnlockStep::Charge { .. } => match payment {
                Ok(()) => UnlockOutcome::Unlocked,
                Err(AddCoinsError::NotEnoughCoins) => UnlockOutcome::NotEnoughCoins,
            },
        }
    }

    /// Changing a subtask: only its creator or an admin may; the new fee is the
    /// requested one, else the current one; on a course task it may not exceed
    /// the limit unless an admin asks.
    pub fn update_subtask(
        &self,
        subtask: Option<SubtaskFacts>,
        who: &Requester,
        is_course_task: Option<bool>,
        requested_fee: Option<u64>,
    ) -> (r: UpdateOutcome)
        ensures
            subtask is None ==> r == UpdateOutcome::SubtaskNotFound,
            subtask matches Some(s) ==> {
                let fee = match requested_fee {
                    Some(f) => f,
                    None => s.fee as u64,
                };
                r == if !who.admin && who.id != s.creator {
                    UpdateOutcome::PermissionDenied
                } else if is_course_task is None {
                    UpdateOutcome::SubtaskNotFound
                } else if is_course_task == Some(true) && fee > self.max_fee && !who.admin {
                    UpdateOutcome::FeeLimitExceeded(self.max_fee)
                } else {
                    UpdateOutcome::Update { fee }
                }
            },
    {
        let s = match subtask {
            None => return UpdateOutcome::SubtaskNotFound,
            Some(s) => s,
        };
        if !who.admin && who.id != s.creator {
            return UpdateOutcome::PermissionDenied;
        }
        let course = match is_course_task {
            None => return UpdateOutcome::SubtaskNotFound,
            Some(c) => c,
        };
        let fee = match requested_fee {
            Some(f) => f,
            None => s.fee as u64,
        };
        if course && fee > self.max_fee && !who.admin {
            UpdateOutcome::FeeLimitExceeded(self.max_fee)
        } else {
            UpdateOutcome::Update { fee }
        }
    }

    /// Posting feedback: a missing or hidden subtask is not found, a
    /// requester who may not rate it is denied; otherwise the rating is
    /// recorded, and positive feedback on a subtask with a fee earns its
    /// creator a coin.
    pub fn post_feedback(
        &self,
        subtask: Option<SubtaskFacts>,
        who: &Requester,
        can_rate: bool,
        positive: bool,
    ) -> (r: FeedbackOutcome)
        ensures
            r == match subtask {
                None => FeedbackOutcome::SubtaskNotFound,
                Some(s) => if !visible_to(*who, s) {
                    FeedbackOutcome::SubtaskNotFound
                } else if !can_rate {
                    FeedbackOutcome::PermissionDenied
                } else {
                    FeedbackOutcome::Created { reward_creator: positive && s.fee > 0 }
                },
            },
    {
        match self.create_report(subtask, who, can_rate) {
            RatingOutcome::SubtaskNotFound => FeedbackOutcome::SubtaskNotFound,
            RatingOutcome::PermissionDenied => FeedbackOutcome::PermissionDenied,
            RatingOutcome::Proceed => {
                let fee = match subtask {
                    Some(s) => s.fee,
                    None => 0,
                };
                FeedbackOutcome::Created { reward_creator: positive && fee > 0 }
            },
        }
    }

    /// Reporting a subtask: a missing or hidden subtask is not found, a
    /// requester who may not rate it is denied; otherwise the report is
    /// recorded and the subtask disabled.
    pub fn create_report(&self, subtask: Option<SubtaskFacts>, who: &Requester, can_rate: bool) -> (r: RatingOutcome)
        ensures
            r == match subtask {
                None => RatingOutcome::SubtaskNotFound,
                Some(s) => if !visible_to(*who, s) {
                    RatingOutcome::SubtaskNotFound
                } else if !can_rate {
                    RatingOutcome::PermissionDenied
                } else {
                    RatingOutcome::Proceed
                },
            },
    {
        match subtask {
            None => RatingOutcome::SubtaskNotFound,
            Some(s) => {
                if !subtask_visible(who, &s) {
                    RatingOutcome::SubtaskNotFound
                } else if !can_rate {
                    RatingOutcome::PermissionDenied
                } else {
                    RatingOutcome::Proceed
                }
            },
        }
    }

    /// The reports to list, in the order given: those whose subtask still
    /// exists and that match the filter on completion, if one is given.
    pub fn list_reports(&self, reports: &Vec<SubtaskReport>, completed: Option<bool>) -> (r: Vec<SubtaskReport>)
        ensures
            r@ == reports@.filter(listed_under(completed)),
    {
        let mut out: Vec<SubtaskReport> = Vec::new();
        let mut i: usize = 0;
        while i < reports.len()
            invariant
                i <= reports@.len(),
                out@ == reports@.subrange(0, i as int).filter(listed_under(completed)),
            decreases reports@.len() - i,
        {
            let rep = reports[i];
            let keep = match rep.task_id {
                None => false,
                Some(_) => match completed {
                    None => true,
                    Some(c) => c == rep.completed_by.is_some(),
                },
            };
            let ghost next = reports@.subrange(0, i + 1);
            assert(next.drop_last() =~= reports@.subrange(0, i as int));
            assert(next.last() == rep);
            assert(keep == listed_under(completed)(rep));
            proof {
                reveal(Seq::filter);
                assert(next.filter(listed_under(completed)) == if keep {
                    reports@.subrange(0, i as int).filter(listed_under(completed)).push(rep)
                } else {
                    reports@.subrange(0, i as int).filter(listed_under(completed))
                });
            }
            if keep {
                out.push(rep);
            }
            i = i + 1;
        }
        assert(reports@.subrange(0, reports@.len() as int) =~= reports@);
        out
    }
}

/// A subtask report with what listing reads: the task of its subtask, if
/// the subtask still exists, and who completed it, if anyone.
#[derive(Clone, Copy, Debug, PartialEq, Eq, Structural)]
pub struct SubtaskReport {
    pub id: u128,
    pub task_id: Option<u128>,
    pub completed_by: Option<u128>,
}

pub open spec fn listed_under(completed: Option<bool>) -> spec_fn(SubtaskReport) -> bool {
    |x: SubtaskReport| listed(completed, x)
}

/// Whether a report is listed under the completion filter.
pub open spec fn listed(completed: Option<bool>, r: SubtaskReport) -> bool {
    &&& r.task_id is Some
    &&& match completed {
        None => true,
        Some(c) => c == (r.completed_by is Some),
    }
}

} // verus!
