//! Ranking a scope: users ordered by experience, descending, ties broken by
//! user id, ascending; ranks are 1-based positions in that order.

use vstd::prelude::*;

use crate::leaderboard::{Leaderboard, LeaderboardEntry, LeaderboardError, Rank};
use crate::scope::{participant, participants, scope_xp, user_xp, Scope, ScopeQuery};
use crate::activity::ActivityStore;

verus! {

/// Whether the row `a` (user, xp) ranks above the row `b`.
pub open spec fn ranks_above(a: (u128, u128), b: (u128, u128)) -> bool {
    a.1 > b.1 || (a.1 == b.1 && a.0 < b.0)
}

/// Every row ranks above every later row.
pub open spec fn strictly_ordered(s: Seq<(u128, u128)>) -> bool {
    forall|i: int, j: int| 0 <= i < j < s.len() ==> ranks_above(#[trigger] s[i], #[trigger] s[j])
}

/// `r` is the full ranking of the scope: each participant once, with their
/// experience, in ranking order.
pub open spec fn is_ranking(store: ActivityStore, q: Scope, r: Seq<(u128, u128)>) -> bool {
    &&& strictly_ordered(r)
    &&& forall|i: int|
        0 <= i < r.len() ==> participant(store, q, (#[trigger] r[i]).0) && r[i].1 as int
            == scope_xp(store, q, r[i].0)
    &&& forall|u: u128| participant(store, q, u) ==> exists|i: int| 0 <= i < r.len() && (#[trigger] r[i]).0 == u
}

/// The full ranking of the scope (there is at most one sequence that is a ranking).
pub open spec fn ranking(store: ActivityStore, q: Scope) -> Seq<(u128, u128)> {
    choose|r: Seq<(u128, u128)>| is_ranking(store, q, r)
}

/// Every experience sum of the ranking fits in a `u64`.
pub open spec fn xp_fits(r: Seq<(u128, u128)>) -> bool {
    forall|i: int| 0 <= i < r.len() ==> (#[trigger] r[i]).1 <= u64::MAX
}

/// The number of entries of the page at `offset` of at most `limit` entries.
pub open spec fn page_len(n: int, offset: int, limit: int) -> int {
    if offset >= n {
        0
    } else if limit < n - offset {
        limit
    } else {
        n - offset
    }
}

/// `entries` is the slice `[offset, offset + limit)` of the ranking `r`, each
/// row with its rank over the whole ranking.
pub open spec fn is_page(entries: Seq<LeaderboardEntry>, r: Seq<(u128, u128)>, offset: int, limit: int) -> bool {
    &&& entries.len() == page_len(r.len() as int, offset, limit)
    &&& forall|i: int|
        0 <= i < entries.len() ==> (#[trigger] entries[i]).user_id == r[offset + i].0 && entries[i].xp
            == r[offset + i].1 && entries[i].rank == offset + i + 1
}

/// `rank` is the position (from 1) and experience of `user` in the ranking `r`.
pub open spec fn holds_rank(r: Seq<(u128, u128)>, user: u128, rank: Rank) -> bool {
    &&& 1 <= rank.rank <= r.len()
    &&& r[rank.rank - 1].0 == user
    &&& rank.xp == r[rank.rank - 1].1
}

/// What a page request on the scope returns: the page at `offset` of at most
/// `limit` entries of the ranking, with its size; `XpOverflow` exactly when
/// some experience sum does not fit in a `u64`.
pub open spec fn leaderboard_result(
    store: ActivityStore,
    q: Scope,
    limit: u64,
    offset: u64,
    r: Result<Leaderboard, LeaderboardError>,
) -> bool {
    let rk = ranking(store, q);
    &&& is_ranking(store, q, rk)
    &&& r is Err <==> !xp_fits(rk)
    &&& r matches Err(e) ==> e == LeaderboardError::XpOverflow
    &&& r matches Ok(lb) ==> {
        &&& lb.total == rk.len()
        &&& is_page(lb.entries@, rk, offset as int, limit as int)
        &&& lb.entries@.len() <= limit
        &&& forall|i: int|
            0 <= i < lb.entries@.len() - 1 ==> (#[trigger] lb.entries@[i]).xp >= lb.entries@[i + 1].xp
                && lb.entries@[i].rank < lb.entries@[i + 1].rank
    }
}

/// What a rank request for `user` on the scope returns: `XpOverflow` exactly
/// when some experience sum does not fit in a `u64`; otherwise `NotFound`
/// exactly when the user has no qualifying activity, else their rank.
pub open spec fn rank_result(store: ActivityStore, q: Scope, user: u128, r: Result<Rank, LeaderboardError>) -> bool {
    let rk = ranking(store, q);
    &&& is_ranking(store, q, rk)
    &&& !xp_fits(rk) ==> r == Err::<Rank, LeaderboardError>(LeaderboardError::XpOverflow)
    &&& xp_fits(rk) && !participant(store, q, user) ==> r == Err::<Rank, LeaderboardError>(LeaderboardError::NotFound)
    &&& xp_fits(rk) && participant(store, q, user) ==> (r matches Ok(rank) && holds_rank(rk, user, rank)
        && rank.xp == scope_xp(store, q, user))
}

proof fn lemma_ordered_unique(s1: Seq<(u128, u128)>, s2: Seq<(u128, u128)>)
    requires
        strictly_ordered(s1),
        strictly_ordered(s2),
        forall|x: (u128, u128)| s1.contains(x) <==> s2.contains(x),
    ensures
        s1 == s2,
    decreases s1.len(),
{
    if s1.len() == 0 {
        if s2.len() > 0 {
            assert(s2.contains(s2[0]));
        }
        assert(s1 =~= s2);
        return;
    }
    assert(s1.contains(s1[0]));
    let j = choose|j: int| 0 <= j < s2.len() && s2[j] == s1[0];
    assert(s2.contains(s2[0]));
    let k = choose|k: int| 0 <= k < s1.len() && s1[k] == s2[0];
    if j != 0 {
        assert(ranks_above(s2[0], s2[j]));
        assert(k != 0);
        assert(ranks_above(s1[0], s1[k]));
        assert(false);
    }
    let t1 = s1.subrange(1, s1.len() as int);
    let t2 = s2.subrange(1, s2.len() as int);
    assert forall|x: (u128, u128)| t1.contains(x) implies t2.contains(x) by {
        let a = choose|a: int| 0 <= a < t1.len() && t1[a] == x;
        assert(s1[a + 1] == x);
        assert(ranks_above(s1[0], s1[a + 1]));
        assert(s1.contains(x));
        let b = choose|b: int| 0 <= b < s2.len() && s2[b] == x;
        assert(b != 0);
        assert(t2[b - 1] == x);
    }
    assert forall|x: (u128, u128)| t2.contains(x) implies t1.contains(x) by {
        let a = choose|a: int| 0 <= a < t2.len() && t2[a] == x;
        assert(s2[a + 1] == x);
        assert(ranks_above(s2[0], s2[a + 1]));
        assert(s2.contains(x));
        let b = choose|b: int| 0 <= b < s1.len() && s1[b] == x;
        assert(b != 0);
        assert(t1[b - 1] == x);
    }
    assert(strictly_ordered(t1)) by {
        assert forall|a: int, b: int| 0 <= a < b < t1.len() implies ranks_above(#[trigger] t1[a], #[trigger] t1[b]) by {
            assert(ranks_above(s1[a + 1], s1[b + 1]));
        }
    }
    assert(strictly_ordered(t2)) by {
        assert forall|a: int, b: int| 0 <= a < b < t2.len() implies ranks_above(#[trigger] t2[a], #[trigger] t2[b]) by {
            assert(ranks_above(s2[a + 1], s2[b + 1]));
        }
    }
    lemma_ordered_unique(t1, t2);
    assert(s1 =~= s2) by {
        assert forall|i: int| 0 <= i < s1.len() implies s1[i] == s2[i] by {
            if i > 0 {
                assert(s1[i] == t1[i - 1]);
                assert(s2[i] == t2[i - 1]);
            }
        }
    }
}

/// A scope has at most one ranking.
pub proof fn lemma_ranking_unique(store: ActivityStore, q: Scope, r1: Seq<(u128, u128)>, r2: Seq<(u128, u128)>)
    requires
        is_ranking(store, q, r1),
        is_ranking(store, q, r2),
    ensures
        r1 == r2,
{
    assert forall|x: (u128, u128)| r1.contains(x) implies r2.contains(x) by {
        let a = choose|a: int| 0 <= a < r1.len() && r1[a] == x;
        assert(participant(store, q, r1[a].0));
        let b = choose|b: int| 0 <= b < r2.len() && (#[trigger] r2[b]).0 == x.0;
        assert(r2[b] == x);
    }
    assert forall|x: (u128, u128)| r2.contains(x) implies r1.contains(x) by {
        let a = choose|a: int| 0 <= a < r2.len() && r2[a] == x;
        assert(participant(store, q, r2[a].0));
        let b = choose|b: int| 0 <= b < r1.len() && (#[trigger] r1[b]).0 == x.0;
        assert(r1[b] == x);
    }
    lemma_ordered_unique(r1, r2);
}

proof fn lemma_is_the_ranking(store: ActivityStore, q: Scope, r: Seq<(u128, u128)>)
    requires
        is_ranking(store, q, r),
    ensures
        ranking(store, q) == r,
        is_ranking(store, q, ranking(store, q)),
{
    lemma_ranking_unique(store, q, ranking(store, q), r);
}

fn ranks_above_exec(a: (u128, u128), b: (u128, u128)) -> (r: bool)
    ensures
        r == ranks_above(a, b),
{
    a.1 > b.1 || (a.1 == b.1 && a.0 < b.0)
}

/// Inserts a row for a user not yet present at its place in ranking order.
fn insert_ranked(v: &mut Vec<(u128, u128)>, x: (u128, u128))
    requires
        strictly_ordered(old(v)@),
        forall|i: int| 0 <= i < old(v)@.len() ==> (#[trigger] old(v)@[i]).0 != x.0,
        old(v)@.len() < usize::MAX,
    ensures
        strictly_ordered(final(v)@),
        final(v)@.len() == old(v)@.len() + 1,
        forall|y: (u128, u128)| final(v)@.contains(y) <==> (old(v)@.contains(y) || y == x),
{
    let ghost before = v@;
    let mut p: usize = 0;
    while p < v.len() && ranks_above_exec(v[p], x)
        invariant
            v@ == before,
            p <= v@.len(),
            forall|k: int| 0 <= k < p ==> ranks_above(#[trigger] v@[k], x),
        decreases v@.len() - p,
    {
        p = p + 1;
    }
    proof {
        assert forall|k: int| p <= k < before.len() implies ranks_above(x, #[trigger] before[k]) by {
            assert(!ranks_above(before[p as int], x));
            assert(before[p as int].0 != x.0);
            if k > p {
                assert(ranks_above(before[p as int], before[k]));
            }
        }
    }
    v.insert(p, x);
    proof {
        let after = v@;
        assert(after == before.insert(p as int, x));
        assert forall|i: int| 0 <= i < after.len() implies #[trigger] after[i] == if i < p {
            before[i]
        } else if i == p {
            x
        } else {
            before[i - 1]
        } by {}
        assert forall|y: (u128, u128)| after.contains(y) <==> (before.contains(y) || y == x) by {
            if after.contains(y) {
                let a = choose|a: int| 0 <= a < after.len() && after[a] == y;
                if a < p {
                    assert(before[a] == y);
                } else if a > p {
                    assert(before[a - 1] == y);
                }
            }
            if before.contains(y) {
                let b = choose|b: int| 0 <= b < before.len() && before[b] == y;
                if b < p {
                    assert(after[b] == y);
                } else {
                    assert(after[b + 1] == y);
                }
            }
            if y == x {
                assert(after[p as int] == y);
            }
        }
        assert forall|i: int, j: int| 0 <= i < j < after.len() implies ranks_above(#[trigger] after[i], #[trigger] after[j]) by {
            if j < p {
            } else if j == p {
            } else if i < p {
                assert(ranks_above(before[i], x));
                assert(ranks_above(x, before[j - 1]));
            } else if i == p {
            } else {
                assert(ranks_above(before[i - 1], before[j - 1]));
            }
        }
    }
}

/// The full ranking of the scope.
fn build_ranking(store: &ActivityStore, q: &ScopeQuery) -> (r: Vec<(u128, u128)>)
    ensures
        is_ranking(*store, q@, r@),
        r@ == ranking(*store, q@),
{
    let users = participants(store, q);
    let mut v: Vec<(u128, u128)> = Vec::new();
    let mut i: usize = 0;
    while i < users.len()
        invariant
            i <= users@.len(),
            users@.no_duplicates(),
            forall|u: u128|
                #![trigger users@.contains(u)]
                #![trigger participant(*store, q@, u)]
                users@.contains(u) <==> participant(*store, q@, u),
            strictly_ordered(v@),
            v@.len() == i,
            forall|y: (u128, u128)| v@.contains(y) <==> exists|k: int|
                0 <= k < i && y.0 == #[trigger] users@[k] && y.1 as int == scope_xp(*store, q@, users@[k]),
            forall|k: int| 0 <= k < i ==> 0 <= scope_xp(*store, q@, #[trigger] users@[k]) <= u128::MAX,
        decreases users@.len() - i,
    {
        let u = users[i];
        let xp = user_xp(store, q, u);
        proof {
            assert forall|a: int| 0 <= a < v@.len() implies (#[trigger] v@[a]).0 != u by {
                assert(v@.contains(v@[a]));
                let k = choose|k: int|
                    0 <= k < i && v@[a].0 == #[trigger] users@[k] && v@[a].1 as int == scope_xp(*store, q@, users@[k]);
                assert(users@[k] != users@[i as int]);
            }
        }
        let ghost before = v@;
        insert_ranked(&mut v, (u, xp));
        proof {
            assert forall|y: (u128, u128)| v@.contains(y) <==> exists|k: int|
                0 <= k < i + 1 && y.0 == #[trigger] users@[k] && y.1 as int == scope_xp(*store, q@, users@[k]) by {
                if y == (u, xp) {
                    assert(y.0 == users@[i as int]);
                }
                if exists|k: int|
                    0 <= k < i + 1 && y.0 == #[trigger] users@[k] && y.1 as int == scope_xp(*store, q@, users@[k]) {
                    let k = choose|k: int|
                        0 <= k < i + 1 && y.0 == #[trigger] users@[k] && y.1 as int == scope_xp(*store, q@, users@[k]);
                    if k < i {
                        assert(before.contains(y));
                    } else {
                        assert(y == (u, xp));
                    }
                }
            }
        }
        i = i + 1;
    }
    proof {
        assert forall|a: int| 0 <= a < v@.len() implies participant(*store, q@, (#[trigger] v@[a]).0)
            && v@[a].1 as int == scope_xp(*store, q@, v@[a].0) by {
            assert(v@.contains(v@[a]));
            let k = choose|k: int|
                0 <= k < i && v@[a].0 == #[trigger] users@[k] && v@[a].1 as int == scope_xp(*store, q@, users@[k]);
            assert(users@.contains(users@[k]));
        }
        assert forall|u: u128| participant(*store, q@, u) implies exists|a: int|
            0 <= a < v@.len() && (#[trigger] v@[a]).0 == u by {
            let k = choose|k: int| 0 <= k < users@.len() && users@[k] == u;
            let y = (u, scope_xp(*store, q@, u) as u128);
            assert(y.0 == users@[k]);
            assert(v@.contains(y));
        }
        lemma_is_the_ranking(*store, q@, v@);
    }
    v
}

fn all_xp_fit(v: &Vec<(u128, u128)>) -> (r: bool)
    ensures
        r == xp_fits(v@),
{
    let mut i: usize = 0;
    while i < v.len()
        invariant
            i <= v@.len(),
            forall|k: int| 0 <= k < i ==> (#[trigger] v@[k]).1 <= u64::MAX,
        decreases v@.len() - i,
    {
        if v[i].1 > u64::MAX as u128 {
            return false;
        }
        i = i + 1;
    }
    true
}

/// The page of at most `limit` entries of the scope's ranking that starts at
/// position `offset`, with the number of ranked users. A page past the end is
/// empty. Fails with `XpOverflow` exactly when some user's experience does not
/// fit in a `u64`.
pub fn get_leaderboard(store: &ActivityStore, q: &ScopeQuery, limit: u64, offset: u64) -> (r: Result<Leaderboard, LeaderboardError>)
    ensures
        leaderboard_result(*store, q@, limit, offset, r),
{
    let full = build_ranking(store, q);
    if !all_xp_fit(&full) {
        return Err(LeaderboardError::XpOverflow);
    }
    let n = full.len() as u64;
    let mut entries: Vec<LeaderboardEntry> = Vec::new();
    if offset < n {
        let end: u64 = if limit < n - offset { offset + limit } else { n };
        let mut i: usize = offset as usize;
        while i < end as usize
            invariant
                full@ == ranking(*store, q@),
                xp_fits(full@),
                n == full@.len(),
                offset < n,
                end <= n,
                offset <= i <= end,
                end as int == offset + page_len(n as int, offset as int, limit as int),
                entries@.len() == i - offset,
                forall|k: int|
                    0 <= k < entries@.len() ==> (#[trigger] entries@[k]).user_id == full@[offset + k].0
                        && entries@[k].xp == full@[offset + k].1 && entries@[k].rank == offset + k + 1,
            decreases end - i,
        {
            let row = full[i];
            entries.push(LeaderboardEntry { user_id: row.0, xp: row.1 as u64, rank: (i + 1) as u64 });
            i = i + 1;
        }
    }
    let lb = Leaderboard { entries, total: n };
    proof {
        let rk = full@;
        assert forall|i: int| 0 <= i < lb.entries@.len() - 1 implies (#[trigger] lb.entries@[i]).xp
            >= lb.entries@[i + 1].xp && lb.entries@[i].rank < lb.entries@[i + 1].rank by {
            assert(ranks_above(rk[offset + i], rk[offset + i + 1]));
        }
    }
    Ok(lb)
}

/// The experience and rank of `user` in the scope's ranking. Fails with
/// `XpOverflow` exactly when some user's experience does not fit in a `u64`,
/// and otherwise with `NotFound` exactly when the user has no qualifying
/// activity in the scope.
pub fn get_leaderboard_user(store: &ActivityStore, q: &ScopeQuery, user: u128) -> (r: Result<Rank, LeaderboardError>)
    ensures
        rank_result(*store, q@, user, r),
{
    let full = build_ranking(store, q);
    if !all_xp_fit(&full) {
        return Err(LeaderboardError::XpOverflow);
    }
    let mut i: usize = 0;
    while i < full.len()
        invariant
            full@ == ranking(*store, q@),
            is_ranking(*store, q@, full@),
            xp_fits(full@),
            i <= full@.len(),
            forall|k: int| 0 <= k < i ==> (#[trigger] full@[k]).0 != user,
        decreases full@.len() - i,
    {
        if full[i].0 == user {
            return Ok(Rank { xp: full[i].1 as u64, rank: (i + 1) as u64 });
        }
        i = i + 1;
    }
    Err(LeaderboardError::NotFound)
}

/// A user's rank asked on its own equals the rank of the entry that carries
/// that user in any page of the same scope, and so does its experience.
pub proof fn lemma_rank_agrees_with_page(
    store: ActivityStore,
    q: Scope,
    limit: u64,
    offset: u64,
    lb: Leaderboard,
    user: u128,
    rank: Rank,
    p: int,
)
    requires
        leaderboard_result(store, q, limit, offset, Ok(lb)),
        rank_result(store, q, user, Ok(rank)),
        0 <= p < lb.entries@.len(),
        lb.entries@[p].user_id == user,
    ensures
        rank.rank == lb.entries@[p].rank,
        rank.xp == lb.entries@[p].xp,
{
    let rk = ranking(store, q);
    let a = offset + p;
    assert(rk[a].0 == user);
    assert(participant(store, q, user));
    let b = rank.rank - 1;
    assert(rk[b].0 == user);
    if a < b {
        assert(ranks_above(rk[a], rk[b]));
    } else if b < a {
        assert(ranks_above(rk[b], rk[a]));
    }
}

/// A page that starts at or past the number of ranked users is empty, and
/// still carries that number, whenever every experience sum fits in a `u64`.
pub proof fn lemma_page_past_end_is_empty(
    store: ActivityStore,
    q: Scope,
    limit: u64,
    offset: u64,
    r: Result<Leaderboard, LeaderboardError>,
)
    requires
        leaderboard_result(store, q, limit, offset, r),
        offset >= ranking(store, q).len(),
        xp_fits(ranking(store, q)),
    ensures
        r matches Ok(lb) && lb.entries@.len() == 0 && lb.total == ranking(store, q).len(),
{
}

/// A user without qualifying activity in the scope is not found, whenever
/// every experience sum fits in a `u64`.
pub proof fn lemma_inactive_user_not_found(store: ActivityStore, q: Scope, user: u128, r: Result<Rank, LeaderboardError>)
    requires
        rank_result(store, q, user, r),
        !participant(store, q, user),
        xp_fits(ranking(store, q)),
    ensures
        r == Err::<Rank, LeaderboardError>(LeaderboardError::NotFound),
{
}

/// The ranking holds each participant exactly once, so its length is the
/// number of users with qualifying activity in the scope.
pub proof fn lemma_ranking_lists_participants(store: ActivityStore, q: Scope, u: u128)
    requires
        is_ranking(store, q, ranking(store, q)),
    ensures
        participant(store, q, u) <==> exists|i: int| 0 <= i < ranking(store, q).len() && (#[trigger] ranking(store, q)[i]).0 == u,
        forall|i: int, j: int|
            0 <= i < j < ranking(store, q).len() ==> (#[trigger] ranking(store, q)[i]).0 != (#[trigger] ranking(store, q)[j]).0,
{
    let rk = ranking(store, q);
    assert forall|i: int, j: int| 0 <= i < j < rk.len() implies (#[trigger] rk[i]).0 != (#[trigger] rk[j]).0 by {
        assert(ranks_above(rk[i], rk[j]));
    }
}

} // verus!
