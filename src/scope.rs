//! Scope queries: which activity counts towards a task or language
//! leaderboard, and how much experience it is worth per user.

use vstd::prelude::*;

use crate::activity::{ActivityStore, Submission, SubmissionResult, Subtask, UserSubtask};
use crate::calendar::{before, in_window, is_before, is_in_window, month_start, DateRange, Timestamp};

verus! {

/// The aggregation behind a local leaderboard: which solved subtasks count,
/// optionally restricted to a time window.
#[derive(Clone, Debug)]
pub enum ScopeQuery {
    /// Subtasks of one task, solved (with a solve time) inside the window.
    Task { task_id: u128, window: Option<DateRange> },
    /// Coding-challenge subtasks with an accepted submission in one language
    /// environment, created inside the window; each subtask counts once.
    Language { language: String, window: Option<DateRange> },
}

/// What a scope query stands for: the scope and window, with the language
/// as its characters.
pub enum Scope {
    Task { task_id: u128, window: Option<DateRange> },
    Language { language: Seq<char>, window: Option<DateRange> },
}

impl View for ScopeQuery {
    type V = Scope;

    open spec fn view(&self) -> Scope {
        match self {
            ScopeQuery::Task { task_id, window } => Scope::Task { task_id: *task_id, window: *window },
            ScopeQuery::Language { language, window } => Scope::Language { language: language@, window: *window },
        }
    }
}

/// Whether a progress row records that `user` solved subtask `subtask_id` inside the window.
pub open spec fn solves_in_window(row: UserSubtask, user: u128, subtask_id: u128, window: Option<DateRange>) -> bool {
    &&& row.user_id == user
    &&& row.subtask_id == subtask_id
    &&& row.solved_timestamp matches Some(t) && in_window(t, window)
}

/// Whether some evaluation of the submission has a successful verdict.
pub open spec fn accepted(store: ActivityStore, submission_id: u128) -> bool {
    exists|j: int|
        0 <= j < store.results@.len() && #[trigger] store.results@[j].submission_id == submission_id
            && store.results@[j].accepted
}

/// Whether a submission by `user` to subtask `subtask_id` qualifies for the language
/// scope, apart from its verdict.
pub open spec fn submits_in_window(
    sub: Submission,
    user: u128,
    subtask_id: u128,
    language: Seq<char>,
    window: Option<DateRange>,
) -> bool {
    &&& sub.creator == user
    &&& sub.subtask_id == subtask_id
    &&& sub.environment@ == language
    &&& in_window(sub.creation_timestamp, window)
}

/// Whether `user` solved subtask `s` of task `task_id` inside the window.
pub open spec fn solved_in_task(
    store: ActivityStore,
    task_id: u128,
    window: Option<DateRange>,
    user: u128,
    s: Subtask,
) -> bool {
    &&& s.task_id == task_id
    &&& exists|i: int|
        0 <= i < store.user_subtasks@.len() && #[trigger] solves_in_window(
            store.user_subtasks@[i],
            user,
            s.id,
            window,
        )
}

/// Whether `user` has an accepted submission to subtask `s` in the language,
/// created inside the window.
pub open spec fn solved_in_language(
    store: ActivityStore,
    language: Seq<char>,
    window: Option<DateRange>,
    user: u128,
    s: Subtask,
) -> bool {
    exists|k: int|
        0 <= k < store.submissions@.len() && #[trigger] submits_in_window(
            store.submissions@[k],
            user,
            s.id,
            language,
            window,
        ) && accepted(store, store.submissions@[k].id)
}

/// Whether `user` has solved subtask `s` in the query's scope.
pub open spec fn solved(store: ActivityStore, q: Scope, user: u128, s: Subtask) -> bool {
    match q {
        Scope::Task { task_id, window } => solved_in_task(store, task_id, window, user, s),
        Scope::Language { language, window } => solved_in_language(store, language, window, user, s),
    }
}

/// The experience `user` earns in scope from the first `n` subtasks of the store.
pub open spec fn xp_over(store: ActivityStore, q: Scope, user: u128, n: nat) -> int
    decreases n,
{
    if n == 0 {
        0
    } else {
        let s = store.subtasks@[n - 1];
        xp_over(store, q, user, (n - 1) as nat) + if solved(store, q, user, s) {
            s.xp as int
        } else {
            0
        }
    }
}

/// The experience `user` earns in scope: the sum of the points of each subtask
/// they solved in scope, each subtask counted once.
pub open spec fn scope_xp(store: ActivityStore, q: Scope, user: u128) -> int {
    xp_over(store, q, user, store.subtasks@.len())
}

/// Whether `user` has solved at least one subtask in scope.
pub open spec fn participant(store: ActivityStore, q: Scope, user: u128) -> bool {
    exists|j: int| 0 <= j < store.subtasks@.len() && #[trigger] solved(store, q, user, store.subtasks@[j])
}

/// The activity rows that name candidate users: progress rows for a task
/// scope, submissions for a language scope.
pub open spec fn fact_count(store: ActivityStore, q: Scope) -> int {
    match q {
        Scope::Task { .. } => store.user_subtasks@.len() as int,
        Scope::Language { .. } => store.submissions@.len() as int,
    }
}

pub open spec fn fact_user(store: ActivityStore, q: Scope, i: int) -> u128 {
    match q {
        Scope::Task { .. } => store.user_subtasks@[i].user_id,
        Scope::Language { .. } => store.submissions@[i].creator,
    }
}

/// Every participant is named by some activity row.
proof fn lemma_participant_has_fact(store: ActivityStore, q: Scope, user: u128)
    requires
        participant(store, q, user),
    ensures
        exists|i: int| 0 <= i < fact_count(store, q) && #[trigger] fact_user(store, q, i) == user,
{
    let j = choose|j: int| 0 <= j < store.subtasks@.len() && #[trigger] solved(store, q, user, store.subtasks@[j]);
    let s = store.subtasks@[j];
    match q {
        Scope::Task { task_id, window } => {
            assert(solved_in_task(store, task_id, window, user, s));
            let i = choose|i: int|
                0 <= i < store.user_subtasks@.len() && #[trigger] solves_in_window(
                    store.user_subtasks@[i],
                    user,
                    s.id,
                    window,
                );
            assert(fact_user(store, q, i) == user);
        },
        Scope::Language { language, window } => {
            assert(solved_in_language(store, language, window, user, s));
            let k = choose|k: int|
                0 <= k < store.submissions@.len() && #[trigger] submits_in_window(
                    store.submissions@[k],
                    user,
                    s.id,
                    language,
                    window,
                ) && accepted(store, store.submissions@[k].id);
            assert(fact_user(store, q, k) == user);
        },
    }
}

/// Whether some evaluation of the submission is accepted.
fn is_accepted(store: &ActivityStore, submission_id: u128) -> (r: bool)
    ensures
        r == accepted(*store, submission_id),
{
    let mut j: usize = 0;
    while j < store.results.len()
        invariant
            j <= store.results@.len(),
            forall|k: int|
                0 <= k < j ==> !(#[trigger] store.results@[k].submission_id == submission_id
                    && store.results@[k].accepted),
        decreases store.results@.len() - j,
    {
        let res = &store.results[j];
        if res.submission_id == submission_id && res.accepted {
            return true;
        }
        j = j + 1;
    }
    false
}

fn is_solved_in_task(
    store: &ActivityStore,
    task_id: u128,
    window: &Option<DateRange>,
    user: u128,
    s: &Subtask,
) -> (r: bool)
    ensures
        r == solved_in_task(*store, task_id, *window, user, *s),
{
    if s.task_id != task_id {
        return false;
    }
    let mut i: usize = 0;
    while i < store.user_subtasks.len()
        invariant
            s.task_id == task_id,
            i <= store.user_subtasks@.len(),
            forall|k: int|
                0 <= k < i ==> !#[trigger] solves_in_window(store.user_subtasks@[k], user, s.id, *window),
        decreases store.user_subtasks@.len() - i,
    {
        let row = &store.user_subtasks[i];
        if row.user_id == user && row.subtask_id == s.id {
            match &row.solved_timestamp {
                Some(t) => {
                    if is_in_window(t, window) {
                        assert(solves_in_window(store.user_subtasks@[i as int], user, s.id, *window));
                        return true;
                    }
                },
                None => {},
            }
        }
        i = i + 1;
    }
    false
}

fn is_solved_in_language(
    store: &ActivityStore,
    language: &String,
    window: &Option<DateRange>,
    user: u128,
    s: &Subtask,
) -> (r: bool)
    ensures
        r == solved_in_language(*store, language@, *window, user, *s),
{
    let mut k: usize = 0;
    while k < store.submissions.len()
        invariant
            k <= store.submissions@.len(),
            forall|m: int|
                0 <= m < k ==> !(#[trigger] submits_in_window(
                    store.submissions@[m],
                    user,
                    s.id,
                    language@,
                    *window,
                ) && accepted(*store, store.submissions@[m].id)),
        decreases store.submissions@.len() - k,
    {
        let sub = &store.submissions[k];
        if sub.creator == user && sub.subtask_id == s.id && sub.environment == *language
            && is_in_window(&sub.creation_timestamp, window) && is_accepted(store, sub.id) {
            assert(submits_in_window(store.submissions@[k as int], user, s.id, language@, *window));
            return true;
        }
        k = k + 1;
    }
    false
}

/// Whether `user` has solved subtask `s` in the query's scope.
pub fn is_solved(store: &ActivityStore, q: &ScopeQuery, user: u128, s: &Subtask) -> (r: bool)
    ensures
        r == solved(*store, q@, user, *s),
{
    match q {
        ScopeQuery::Task { task_id, window } => is_solved_in_task(store, *task_id, window, user, s),
        ScopeQuery::Language { language, window } => is_solved_in_language(store, language, window, user, s),
    }
}

/// The experience `user` earns in the query's scope.
pub fn user_xp(store: &ActivityStore, q: &ScopeQuery, user: u128) -> (r: u128)
    ensures
        r as int == scope_xp(*store, q@, user),
{
    let mut acc: u128 = 0;
    let mut j: usize = 0;
    while j < store.subtasks.len()
        invariant
            j <= store.subtasks@.len(),
            acc as int == xp_over(*store, q@, user, j as nat),
            acc as int <= j * (u64::MAX as int),
        decreases store.subtasks@.len() - j,
    {
        let s = &store.subtasks[j];
        assert(acc as int + u64::MAX <= (j + 1) * (u64::MAX as int)) by (nonlinear_arith)
            requires acc as int <= j * (u64::MAX as int);
        assert((j + 1) * (u64::MAX as int) <= u128::MAX) by (nonlinear_arith)
            requires j < usize::MAX, usize::MAX <= u64::MAX;
        if is_solved(store, q, user, s) {
            acc = acc + s.xp as u128;
        }
        j = j + 1;
    }
    acc
}

/// Whether `user` has solved at least one subtask in the query's scope.
pub fn is_participant(store: &ActivityStore, q: &ScopeQuery, user: u128) -> (r: bool)
    ensures
        r == participant(*store, q@, user),
{
    let mut j: usize = 0;
    while j < store.subtasks.len()
        invariant
            j <= store.subtasks@.len(),
            forall|k: int| 0 <= k < j ==> !#[trigger] solved(*store, q@, user, store.subtasks@[k]),
        decreases store.subtasks@.len() - j,
    {
        if is_solved(store, q, user, &store.subtasks[j]) {
            return true;
        }
        j = j + 1;
    }
    false
}

fn fact_user_at(store: &ActivityStore, q: &ScopeQuery, i: usize) -> (r: u128)
    requires
        i < fact_count(*store, q@),
    ensures
        r == fact_user(*store, q@, i as int),
{
    match q {
        ScopeQuery::Task { .. } => store.user_subtasks[i].user_id,
        ScopeQuery::Language { .. } => store.submissions[i].creator,
    }
}

fn fact_len(store: &ActivityStore, q: &ScopeQuery) -> (r: usize)
    ensures
        r as int == fact_count(*store, q@),
{
    match q {
        ScopeQuery::Task { .. } => store.user_subtasks.len(),
        ScopeQuery::Language { .. } => store.submissions.len(),
    }
}

/// Every user who has solved something in the query's scope, each once.
pub fn participants(store: &ActivityStore, q: &ScopeQuery) -> (r: Vec<u128>)
    ensures
        r@.no_duplicates(),
        forall|u: u128|
            #![trigger r@.contains(u)]
            #![trigger participant(*store, q@, u)]
            r@.contains(u) <==> participant(*store, q@, u),
{
    let mut r: Vec<u128> = Vec::new();
    let n = fact_len(store, q);
    let mut i: usize = 0;
    while i < n
        invariant
            n == fact_count(*store, q@),
            i <= n,
            r@.no_duplicates(),
            forall|u: u128| r@.contains(u) ==> participant(*store, q@, u),
            forall|k: int|
                0 <= k < i && participant(*store, q@, fact_user(*store, q@, k)) ==> r@.contains(
                    #[trigger] fact_user(*store, q@, k),
                ),
        decreases n - i,
    {
        let u = fact_user_at(store, q, i);
        let is_p = is_participant(store, q, u);
        if is_p && !vec_contains(&r, u) {
            assert(participant(*store, q@, u));
            let ghost before = r@;
            r.push(u);
            proof {
                assert forall|x: u128| before.contains(x) implies r@.contains(x) by {
                    let k = choose|k: int| 0 <= k < before.len() && before[k] == x;
                    assert(r@[k] == x);
                }
                assert(r@[r@.len() - 1] == u);
                assert forall|x: u128| r@.contains(x) implies participant(*store, q@, x) by {
                    let k = choose|k: int| 0 <= k < r@.len() && r@[k] == x;
                    if k < before.len() {
                        assert(before[k] == x);
                        assert(before.contains(x));
                    }
                }
            }
        }
        i = i + 1;
    }
    proof {
        assert forall|u: u128| participant(*store, q@, u) implies r@.contains(u) by {
            lemma_participant_has_fact(*store, q@, u);
        }
    }
    r
}

fn vec_contains(v: &Vec<u128>, x: u128) -> (r: bool)
    ensures
        r == v@.contains(x),
{
    let mut i: usize = 0;
    while i < v.len()
        invariant
            i <= v@.len(),
            forall|k: int| 0 <= k < i ==> v@[k] != x,
        decreases v@.len() - i,
    {
        if v[i] == x {
            return true;
        }
        i = i + 1;
    }
    false
}

/// Whether subtask `s` is subtask `subtask_id` and, for a task scope, belongs to the task.
pub open spec fn subtask_matches(s: Subtask, q: Scope, subtask_id: u128) -> bool {
    &&& s.id == subtask_id
    &&& match q {
        Scope::Task { task_id, .. } => s.task_id == task_id,
        Scope::Language { .. } => true,
    }
}

/// Whether subtask `subtask_id` exists and lies in the scope.
pub open spec fn subtask_in_scope(store: ActivityStore, q: Scope, subtask_id: u128) -> bool {
    exists|j: int| 0 <= j < store.subtasks@.len() && #[trigger] subtask_matches(store.subtasks@[j], q, subtask_id)
}

/// Whether activity row `i` is a qualifying solve by `user` in the scope: a
/// solved progress row inside the window, or an accepted submission in the
/// language inside the window, of a subtask in scope.
pub open spec fn counts_for(store: ActivityStore, q: Scope, user: u128, i: int) -> bool {
    match q {
        Scope::Task { window, .. } => {
            let row = store.user_subtasks@[i];
            &&& solves_in_window(row, user, row.subtask_id, window)
            &&& subtask_in_scope(store, q, row.subtask_id)
        },
        Scope::Language { language, window } => {
            let sub = store.submissions@[i];
            &&& submits_in_window(sub, user, sub.subtask_id, language, window)
            &&& accepted(store, sub.id)
            &&& subtask_in_scope(store, q, sub.subtask_id)
        },
    }
}

/// The time of activity row `i`: the solve time of a progress row (midnight
/// of 1 January of year zero for an unsolved one), the creation time of a
/// submission.
pub open spec fn fact_time(store: ActivityStore, q: Scope, i: int) -> Timestamp {
    match q {
        Scope::Task { .. } => match store.user_subtasks@[i].solved_timestamp {
            Some(t) => t,
            None => month_start(0, 1),
        },
        Scope::Language { .. } => store.submissions@[i].creation_timestamp,
    }
}

/// The later of a running latest time and `t`.
pub open spec fn latest(a: Option<Timestamp>, t: Timestamp) -> Option<Timestamp> {
    match a {
        Some(x) => if before(x, t) {
            Some(t)
        } else {
            Some(x)
        },
        None => Some(t),
    }
}

/// The latest time among the first `n` activity rows that count for `user`.
pub open spec fn last_update_over(store: ActivityStore, q: Scope, user: u128, n: nat) -> Option<Timestamp>
    decreases n,
{
    if n == 0 {
        None
    } else {
        let prev = last_update_over(store, q, user, (n - 1) as nat);
        if counts_for(store, q, user, n - 1) {
            latest(prev, fact_time(store, q, n - 1))
        } else {
            prev
        }
    }
}

/// When `user` was last active in the scope: the latest solve time (task
/// scope) or the latest accepted submission time (language scope) among the
/// activity that counts; `None` for a user without any.
pub open spec fn last_update(store: ActivityStore, q: Scope, user: u128) -> Option<Timestamp> {
    last_update_over(store, q, user, fact_count(store, q) as nat)
}

/// A user participates exactly when some activity row counts for them.
pub proof fn lemma_participant_iff_counted_fact(store: ActivityStore, q: Scope, user: u128)
    ensures
        participant(store, q, user) <==> exists|i: int| 0 <= i < fact_count(store, q) && #[trigger] counts_for(store, q, user, i),
{
    if participant(store, q, user) {
        let j = choose|j: int| 0 <= j < store.subtasks@.len() && #[trigger] solved(store, q, user, store.subtasks@[j]);
        let s = store.subtasks@[j];
        assert(subtask_matches(s, q, s.id));
        match q {
            Scope::Task { task_id, window } => {
                assert(solved_in_task(store, task_id, window, user, s));
                let i = choose|i: int|
                    0 <= i < store.user_subtasks@.len() && #[trigger] solves_in_window(store.user_subtasks@[i], user, s.id, window);
                assert(counts_for(store, q, user, i));
            },
            Scope::Language { language, window } => {
                assert(solved_in_language(store, language, window, user, s));
                let k = choose|k: int|
                    0 <= k < store.submissions@.len() && #[trigger] submits_in_window(
                        store.submissions@[k],
                        user,
                        s.id,
                        language,
                        window,
                    ) && accepted(store, store.submissions@[k].id);
                assert(counts_for(store, q, user, k));
            },
        }
    }
    if exists|i: int| 0 <= i < fact_count(store, q) && #[trigger] counts_for(store, q, user, i) {
        let i = choose|i: int| 0 <= i < fact_count(store, q) && #[trigger] counts_for(store, q, user, i);
        match q {
            Scope::Task { task_id, window } => {
                let row = store.user_subtasks@[i];
                let j = choose|j: int| 0 <= j < store.subtasks@.len() && #[trigger] subtask_matches(store.subtasks@[j], q, row.subtask_id);
                assert(solves_in_window(row, user, store.subtasks@[j].id, window));
                assert(solved(store, q, user, store.subtasks@[j]));
            },
            Scope::Language { language, window } => {
                let sub = store.submissions@[i];
                let j = choose|j: int| 0 <= j < store.subtasks@.len() && #[trigger] subtask_matches(store.subtasks@[j], q, sub.subtask_id);
                assert(submits_in_window(sub, user, store.subtasks@[j].id, language, window));
                assert(solved(store, q, user, store.subtasks@[j]));
            },
        }
    }
}

fn is_subtask_in_scope(store: &ActivityStore, q: &ScopeQuery, subtask_id: u128) -> (r: bool)
    ensures
        r == subtask_in_scope(*store, q@, subtask_id),
{
    let mut j: usize = 0;
    while j < store.subtasks.len()
        invariant
            j <= store.subtasks@.len(),
            forall|k: int| 0 <= k < j ==> !#[trigger] subtask_matches(store.subtasks@[k], q@, subtask_id),
        decreases store.subtasks@.len() - j,
    {
        let s = &store.subtasks[j];
        let in_task = match q {
            ScopeQuery::Task { task_id, .. } => s.task_id == *task_id,
            ScopeQuery::Language { .. } => true,
        };
        if s.id == subtask_id && in_task {
            assert(subtask_matches(store.subtasks@[j as int], q@, subtask_id));
            return true;
        }
        j = j + 1;
    }
    false
}

fn fact_counts_at(store: &ActivityStore, q: &ScopeQuery, user: u128, i: usize) -> (r: bool)
    requires
        i < fact_count(*store, q@),
    ensures
        r == counts_for(*store, q@, user, i as int),
{
    match q {
        ScopeQuery::Task { window, .. } => {
            let row = &store.user_subtasks[i];
            match &row.solved_timestamp {
                Some(t) => row.user_id == user && is_in_window(t, window) && is_subtask_in_scope(store, q, row.subtask_id),
                None => false,
            }
        },
        ScopeQuery::Language { language, window } => {
            let sub = &store.submissions[i];
            sub.creator == user && sub.environment == *language && is_in_window(&sub.creation_timestamp, window)
                && is_accepted(store, sub.id) && is_subtask_in_scope(store, q, sub.subtask_id)
        },
    }
}

fn fact_time_at(store: &ActivityStore, q: &ScopeQuery, i: usize) -> (r: Timestamp)
    requires
        i < fact_count(*store, q@),
    ensures
        r == fact_time(*store, q@, i as int),
{
    match q {
        ScopeQuery::Task { .. } => match store.user_subtasks[i].solved_timestamp {
            Some(t) => t,
            None => Timestamp { year: 0, month: 1, day: 1, hour: 0, minute: 0, second: 0 },
        },
        ScopeQuery::Language { .. } => store.submissions[i].creation_timestamp,
    }
}

/// When `user` was last active in the query's scope: `None` exactly for a
/// non-participant, otherwise the time of some qualifying activity that no
/// other qualifying activity is later than.
pub fn user_last_update(store: &ActivityStore, q: &ScopeQuery, user: u128) -> (r: Option<Timestamp>)
    ensures
        r == last_update(*store, q@, user),
        r is Some <==> participant(*store, q@, user),
        r matches Some(t) ==> exists|i: int|
            0 <= i < fact_count(*store, q@) && #[trigger] counts_for(*store, q@, user, i) && fact_time(*store, q@, i) == t,
        r matches Some(t) ==> forall|i: int|
            0 <= i < fact_count(*store, q@) && #[trigger] counts_for(*store, q@, user, i) ==> !before(
                t,
                fact_time(*store, q@, i),
            ),
{
    let n = fact_len(store, q);
    let mut r: Option<Timestamp> = None;
    let mut i: usize = 0;
    while i < n
        invariant
            n == fact_count(*store, q@),
            i <= n,
            r == last_update_over(*store, q@, user, i as nat),
            forall|k: int|
                0 <= k < i && #[trigger] counts_for(*store, q@, user, k) ==> (r matches Some(t) && !before(
                    t,
                    fact_time(*store, q@, k),
                )),
            r matches Some(t) ==> exists|k: int|
                0 <= k < i && #[trigger] counts_for(*store, q@, user, k) && fact_time(*store, q@, k) == t,
        decreases n - i,
    {
        if fact_counts_at(store, q, user, i) {
            let t = fact_time_at(store, q, i);
            r = match r {
                Some(x) => if is_before(&x, &t) {
                    Some(t)
                } else {
                    Some(x)
                },
                None => Some(t),
            };
        }
        i = i + 1;
    }
    proof {
        lemma_participant_iff_counted_fact(*store, q@, user);
    }
    r
}

/// One row of a scope query's result: a participant with their experience
/// and the time of their latest qualifying activity.
#[derive(Clone, Copy, Debug, PartialEq, Eq, Structural)]
pub struct ScopeRow {
    pub user_id: u128,
    pub xp: u128,
    pub last_update: Timestamp,
}

/// The result of a scope query: one row per participant, in no particular
/// order, each with its experience and latest activity time.
pub fn evaluate(store: &ActivityStore, q: &ScopeQuery) -> (r: Vec<ScopeRow>)
    ensures
        forall|i: int, j: int| 0 <= i < j < r@.len() ==> (#[trigger] r@[i]).user_id != (#[trigger] r@[j]).user_id,
        forall|u: u128| participant(*store, q@, u) <==> exists|i: int| 0 <= i < r@.len() && (#[trigger] r@[i]).user_id == u,
        forall|i: int|
            0 <= i < r@.len() ==> (#[trigger] r@[i]).xp as int == scope_xp(*store, q@, r@[i].user_id) && last_update(
                *store,
                q@,
                r@[i].user_id,
            ) == Some(r@[i].last_update),
{
    let users = participants(store, q);
    let mut rows: Vec<ScopeRow> = Vec::new();
    let mut i: usize = 0;
    while i < users.len()
        invariant
            i <= users@.len(),
            users@.no_duplicates(),
            forall|u: u128|
                #![trigger users@.contains(u)]
                #![trigger participant(*store, q@, u)]
                users@.contains(u) <==> participant(*store, q@, u),
            rows@.len() == i,
            forall|k: int| 0 <= k < i ==> (#[trigger] rows@[k]).user_id == users@[k],
            forall|k: int|
                0 <= k < i ==> (#[trigger] rows@[k]).xp as int == scope_xp(*store, q@, rows@[k].user_id) && last_update(
                    *store,
                    q@,
                    rows@[k].user_id,
                ) == Some(rows@[k].last_update),
        decreases users@.len() - i,
    {
        let u = users[i];
        assert(users@.contains(u));
        let xp = user_xp(store, q, u);
        let last = user_last_update(store, q, u);
        let t = match last {
            Some(t) => t,
            None => {
                assert(false);
                return rows;
            },
        };
        rows.push(ScopeRow { user_id: u, xp, last_update: t });
        i = i + 1;
    }
    proof {
        assert forall|u: u128| participant(*store, q@, u) implies exists|a: int|
            0 <= a < rows@.len() && (#[trigger] rows@[a]).user_id == u by {
            let k = choose|k: int| 0 <= k < users@.len() && users@[k] == u;
            assert(rows@[k].user_id == u);
        }
        assert forall|a: int| 0 <= a < rows@.len() implies participant(*store, q@, (#[trigger] rows@[a]).user_id) by {
            assert(users@.contains(users@[a]));
        }
    }
    rows
}

/// `d2` is `d1` with one more submission `sub`, evaluated as accepted by `res`.
pub open spec fn adds_submission(d1: ActivityStore, d2: ActivityStore, sub: Submission, res: SubmissionResult) -> bool {
    &&& d2.subtasks@ == d1.subtasks@
    &&& d2.user_subtasks@ == d1.user_subtasks@
    &&& d2.submissions@ == d1.submissions@.push(sub)
    &&& d2.results@ == d1.results@.push(res)
    &&& res.submission_id == sub.id
    &&& res.accepted
    &&& forall|k: int| 0 <= k < d1.submissions@.len() ==> (#[trigger] d1.submissions@[k]).id != sub.id
}

proof fn lemma_accepted_kept(d1: ActivityStore, d2: ActivityStore, sub: Submission, res: SubmissionResult, x: u128)
    requires
        adds_submission(d1, d2, sub, res),
        x != sub.id,
    ensures
        accepted(d2, x) == accepted(d1, x),
{
    if accepted(d2, x) {
        let j = choose|j: int| 0 <= j < d2.results@.len() && #[trigger] d2.results@[j].submission_id == x && d2.results@[j].accepted;
        assert(j < d1.results@.len());
        assert(d1.results@[j] == d2.results@[j]);
    }
    if accepted(d1, x) {
        let j = choose|j: int| 0 <= j < d1.results@.len() && #[trigger] d1.results@[j].submission_id == x && d1.results@[j].accepted;
        assert(d2.results@[j] == d1.results@[j]);
    }
}

proof fn lemma_solved_kept(
    d1: ActivityStore,
    d2: ActivityStore,
    language: Seq<char>,
    window: Option<DateRange>,
    sub: Submission,
    res: SubmissionResult,
    v: u128,
    s: Subtask,
)
    requires
        adds_submission(d1, d2, sub, res),
        exists|k: int|
            0 <= k < d1.submissions@.len() && #[trigger] submits_in_window(
                d1.submissions@[k],
                sub.creator,
                sub.subtask_id,
                language,
                window,
            ) && accepted(d1, d1.submissions@[k].id),
    ensures
        solved_in_language(d2, language, window, v, s) == solved_in_language(d1, language, window, v, s),
{
    if solved_in_language(d2, language, window, v, s) {
        let k = choose|k: int|
            0 <= k < d2.submissions@.len() && #[trigger] submits_in_window(d2.submissions@[k], v, s.id, language, window)
                && accepted(d2, d2.submissions@[k].id);
        if k < d1.submissions@.len() {
            assert(d2.submissions@[k] == d1.submissions@[k]);
            lemma_accepted_kept(d1, d2, sub, res, d1.submissions@[k].id);
            assert(submits_in_window(d1.submissions@[k], v, s.id, language, window));
        } else {
            assert(d2.submissions@[k] == sub);
        }
    }
    if solved_in_language(d1, language, window, v, s) {
        let k = choose|k: int|
            0 <= k < d1.submissions@.len() && #[trigger] submits_in_window(d1.submissions@[k], v, s.id, language, window)
                && accepted(d1, d1.submissions@[k].id);
        assert(d2.submissions@[k] == d1.submissions@[k]);
        lemma_accepted_kept(d1, d2, sub, res, d1.submissions@[k].id);
        assert(submits_in_window(d2.submissions@[k], v, s.id, language, window));
    }
}

proof fn lemma_xp_over_kept(
    d1: ActivityStore,
    d2: ActivityStore,
    language: Seq<char>,
    window: Option<DateRange>,
    sub: Submission,
    res: SubmissionResult,
    v: u128,
    n: nat,
)
    requires
        adds_submission(d1, d2, sub, res),
        exists|k: int|
            0 <= k < d1.submissions@.len() && #[trigger] submits_in_window(
                d1.submissions@[k],
                sub.creator,
                sub.subtask_id,
                language,
                window,
            ) && accepted(d1, d1.submissions@[k].id),
        n <= d1.subtasks@.len(),
    ensures
        xp_over(d2, Scope::Language { language, window }, v, n) == xp_over(
            d1,
            Scope::Language { language, window },
            v,
            n,
        ),
    decreases n,
{
    if n > 0 {
        lemma_xp_over_kept(d1, d2, language, window, sub, res, v, (n - 1) as nat);
        lemma_solved_kept(d1, d2, language, window, sub, res, v, d1.subtasks@[n - 1]);
    }
}

proof fn lemma_last_update_over_kept(
    d1: ActivityStore,
    d2: ActivityStore,
    language: Seq<char>,
    window: Option<DateRange>,
    sub: Submission,
    res: SubmissionResult,
    v: u128,
    n: nat,
)
    requires
        adds_submission(d1, d2, sub, res),
        n <= d1.submissions@.len(),
    ensures
        last_update_over(d2, Scope::Language { language, window }, v, n) == last_update_over(
            d1,
            Scope::Language { language, window },
            v,
            n,
        ),
    decreases n,
{
    let q = Scope::Language { language, window };
    if n > 0 {
        lemma_last_update_over_kept(d1, d2, language, window, sub, res, v, (n - 1) as nat);
        let i = n - 1;
        assert(d2.submissions@[i] == d1.submissions@[i]);
        lemma_accepted_kept(d1, d2, sub, res, d1.submissions@[i].id);
        assert(subtask_in_scope(d2, q, d1.submissions@[i].subtask_id) == subtask_in_scope(d1, q, d1.submissions@[i].subtask_id));
        assert(counts_for(d2, q, v, i) == counts_for(d1, q, v, i));
        assert(fact_time(d2, q, i) == fact_time(d1, q, i));
    }
}

/// Another accepted submission in the language, inside the window, by a user
/// to a subtask they already solved there, changes nobody's participation or
/// experience, and does not move the user's latest activity back.
pub proof fn lemma_duplicate_submission(
    d1: ActivityStore,
    d2: ActivityStore,
    language: Seq<char>,
    window: Option<DateRange>,
    sub: Submission,
    res: SubmissionResult,
)
    requires
        adds_submission(d1, d2, sub, res),
        subtask_in_scope(d1, Scope::Language { language, window }, sub.subtask_id),
        sub.environment@ == language,
        in_window(sub.creation_timestamp, window),
        exists|k: int|
            0 <= k < d1.submissions@.len() && #[trigger] submits_in_window(
                d1.submissions@[k],
                sub.creator,
                sub.subtask_id,
                language,
                window,
            ) && accepted(d1, d1.submissions@[k].id),
    ensures
        forall|v: u128|
            #![trigger scope_xp(d2, Scope::Language { language, window }, v)]
            scope_xp(d2, Scope::Language { language, window }, v) == scope_xp(
                d1,
                Scope::Language { language, window },
                v,
            ),
        forall|v: u128|
            #![trigger participant(d2, Scope::Language { language, window }, v)]
            participant(d2, Scope::Language { language, window }, v) == participant(
                d1,
                Scope::Language { language, window },
                v,
            ),
        last_update(d1, Scope::Language { language, window }, sub.creator) matches Some(t1) && last_update(
            d2,
            Scope::Language { language, window },
            sub.creator,
        ) matches Some(t2) && !before(t2, t1),
{
    let q = Scope::Language { language, window };
    assert forall|v: u128| #![trigger scope_xp(d2, q, v)] scope_xp(d2, q, v) == scope_xp(d1, q, v) by {
        lemma_xp_over_kept(d1, d2, language, window, sub, res, v, d1.subtasks@.len());
    }
    assert forall|v: u128| #![trigger participant(d2, q, v)] participant(d2, q, v) == participant(d1, q, v) by {
        if participant(d1, q, v) {
            let j = choose|j: int| 0 <= j < d1.subtasks@.len() && #[trigger] solved(d1, q, v, d1.subtasks@[j]);
            lemma_solved_kept(d1, d2, language, window, sub, res, v, d1.subtasks@[j]);
            assert(solved(d2, q, v, d2.subtasks@[j]));
        }
        if participant(d2, q, v) {
            let j = choose|j: int| 0 <= j < d2.subtasks@.len() && #[trigger] solved(d2, q, v, d2.subtasks@[j]);
            lemma_solved_kept(d1, d2, language, window, sub, res, v, d2.subtasks@[j]);
            assert(solved(d1, q, v, d1.subtasks@[j]));
        }
    }
    let u = sub.creator;
    let k = choose|k: int|
        0 <= k < d1.submissions@.len() && #[trigger] submits_in_window(d1.submissions@[k], u, sub.subtask_id, language, window)
            && accepted(d1, d1.submissions@[k].id);
    assert(counts_for(d1, q, u, k));
    lemma_last_update_some(d1, q, u, d1.submissions@.len());
    lemma_last_update_over_kept(d1, d2, language, window, sub, res, u, d1.submissions@.len());
    let n = d1.submissions@.len();
    assert(d2.submissions@[n as int] == sub);
    assert(d2.results@[d1.results@.len() as int] == res);
    assert(accepted(d2, sub.id));
    assert(subtask_in_scope(d2, q, sub.subtask_id));
    assert(counts_for(d2, q, u, n as int));
    assert(last_update(d2, q, u) == latest(last_update(d1, q, u), sub.creation_timestamp));
}

/// The latest activity over a prefix of the rows exists exactly when some row
/// of the prefix counts.
proof fn lemma_last_update_some(store: ActivityStore, q: Scope, user: u128, n: nat)
    ensures
        last_update_over(store, q, user, n) is Some <==> exists|i: int| 0 <= i < n && #[trigger] counts_for(store, q, user, i),
    decreases n,
{
    if n > 0 {
        lemma_last_update_some(store, q, user, (n - 1) as nat);
        if exists|i: int| 0 <= i < n && #[trigger] counts_for(store, q, user, i) {
            let i = choose|i: int| 0 <= i < n && #[trigger] counts_for(store, q, user, i);
            if i < n - 1 {
                assert(exists|i: int| 0 <= i < n - 1 && #[trigger] counts_for(store, q, user, i));
            }
        }
    }
}

} // verus!
