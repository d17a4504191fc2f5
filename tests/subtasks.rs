use leaderboard::subtasks::{
    subtask_visible, AddCoinsError, FeedbackOutcome, RatingOutcome, Requester, SubtaskFacts, SubtaskReport, Subtasks, UnlockStep,
    UnlockOutcome, UpdateOutcome,
};

const CREATOR: u128 = 1;
const OTHER: u128 = 2;

fn facts(enabled: bool, fee: i64) -> SubtaskFacts {
    SubtaskFacts { creator: CREATOR, enabled, fee }
}

fn user(id: u128) -> Requester {
    Requester { id, admin: false }
}

fn admin() -> Requester {
    Requester { id: 99, admin: true }
}

#[test]
fn hidden_subtasks_are_visible_to_creator_and_admins_only() {
    assert!(!subtask_visible(&user(OTHER), &facts(false, 0)));
    assert!(subtask_visible(&user(CREATOR), &facts(false, 0)));
    assert!(subtask_visible(&admin(), &facts(false, 0)));
    assert!(subtask_visible(&user(OTHER), &facts(true, 0)));
}

#[test]
fn unlock_steps() {
    let eps = Subtasks { max_fee: 10 };
    assert_eq!(eps.unlock_subtask(None, &user(OTHER), false), UnlockStep::SubtaskNotFound);
    assert_eq!(eps.unlock_subtask(Some(facts(false, 5)), &user(OTHER), false), UnlockStep::SubtaskNotFound);
    assert_eq!(eps.unlock_subtask(Some(facts(true, 5)), &user(OTHER), true), UnlockStep::AlreadyUnlocked);
    assert_eq!(eps.unlock_subtask(Some(facts(true, 5)), &user(OTHER), false), UnlockStep::Charge { coins: -5 });
}

#[test]
fn update_outcomes() {
    let eps = Subtasks { max_fee: 10 };
    assert_eq!(eps.update_subtask(None, &admin(), Some(true), None), UpdateOutcome::SubtaskNotFound);
    assert_eq!(eps.update_subtask(Some(facts(true, 3)), &user(OTHER), Some(true), Some(4)), UpdateOutcome::PermissionDenied);
    assert_eq!(eps.update_subtask(Some(facts(true, 3)), &user(CREATOR), None, Some(4)), UpdateOutcome::SubtaskNotFound);
    assert_eq!(
        eps.update_subtask(Some(facts(true, 3)), &user(CREATOR), Some(true), Some(11)),
        UpdateOutcome::FeeLimitExceeded(10)
    );
    assert_eq!(eps.update_subtask(Some(facts(true, 3)), &admin(), Some(true), Some(11)), UpdateOutcome::Update { fee: 11 });
    assert_eq!(eps.update_subtask(Some(facts(true, 3)), &user(CREATOR), Some(false), Some(11)), UpdateOutcome::Update { fee: 11 });
    assert_eq!(eps.update_subtask(Some(facts(true, 3)), &user(CREATOR), Some(true), None), UpdateOutcome::Update { fee: 3 });
}

#[test]
fn report_outcomes() {
    let eps = Subtasks { max_fee: 10 };
    assert_eq!(eps.create_report(None, &user(OTHER), true), RatingOutcome::SubtaskNotFound);
    assert_eq!(eps.create_report(Some(facts(false, 0)), &user(OTHER), true), RatingOutcome::SubtaskNotFound);
    assert_eq!(eps.create_report(Some(facts(true, 0)), &user(OTHER), false), RatingOutcome::PermissionDenied);
    assert_eq!(eps.create_report(Some(facts(true, 0)), &user(OTHER), true), RatingOutcome::Proceed);
}

#[test]
fn feedback_outcomes_and_rewards() {
    let eps = Subtasks { max_fee: 10 };
    assert_eq!(eps.post_feedback(None, &user(OTHER), true, true), FeedbackOutcome::SubtaskNotFound);
    assert_eq!(eps.post_feedback(Some(facts(false, 1)), &user(OTHER), true, true), FeedbackOutcome::SubtaskNotFound);
    assert_eq!(eps.post_feedback(Some(facts(true, 1)), &user(OTHER), false, true), FeedbackOutcome::PermissionDenied);
    assert_eq!(
        eps.post_feedback(Some(facts(true, 1)), &user(OTHER), true, true),
        FeedbackOutcome::Created { reward_creator: true }
    );
    assert_eq!(
        eps.post_feedback(Some(facts(true, 0)), &user(OTHER), true, true),
        FeedbackOutcome::Created { reward_creator: false }
    );
    assert_eq!(
        eps.post_feedback(Some(facts(true, 5)), &user(OTHER), true, false),
        FeedbackOutcome::Created { reward_creator: false }
    );
}

#[test]
fn report_listing_filters() {
    let eps = Subtasks { max_fee: 10 };
    let open = SubtaskReport { id: 1, task_id: Some(7), completed_by: None };
    let done = SubtaskReport { id: 2, task_id: Some(7), completed_by: Some(3) };
    let orphan = SubtaskReport { id: 3, task_id: None, completed_by: None };
    let all = vec![open, orphan, done];
    assert_eq!(eps.list_reports(&all, None), vec![open, done]);
    assert_eq!(eps.list_reports(&all, Some(true)), vec![done]);
    assert_eq!(eps.list_reports(&all, Some(false)), vec![open]);
    assert_eq!(eps.list_reports(&vec![], None), vec![]);
}

#[test]
fn unlock_ends_after_payment() {
    let eps = Subtasks { max_fee: 10 };
    let charge = eps.unlock_subtask(Some(facts(true, 5)), &user(OTHER), false);
    let paid = eps.finish_unlock(charge, Ok(()));
    assert_eq!(paid, UnlockOutcome::Unlocked);
    assert_eq!(paid.status(), 201);
    assert!(paid.records_unlock());
    let refused = eps.finish_unlock(charge, Err(AddCoinsError::NotEnoughCoins));
    assert_eq!(refused, UnlockOutcome::NotEnoughCoins);
    assert_eq!(refused.status(), 403);
    assert!(!refused.records_unlock());
    let had = eps.finish_unlock(UnlockStep::AlreadyUnlocked, Ok(()));
    assert_eq!((had, had.status(), had.records_unlock()), (UnlockOutcome::AlreadyUnlocked, 200, false));
    let missing = eps.finish_unlock(UnlockStep::SubtaskNotFound, Ok(()));
    assert_eq!((missing, missing.status(), missing.records_unlock()), (UnlockOutcome::SubtaskNotFound, 404, false));
}
