//! The keys under which local leaderboard results are memoised. A key names
//! its scope and every parameter that affects the result, the quarter flag
//! included, so that results of different requests never share a key.

use vstd::prelude::*;

verus! {

/// How long a memoised result stays valid, in seconds.
pub const CACHE_TTL_SECONDS: u64 = 10;

/// The memoisation key of a local leaderboard request.
#[derive(Clone, Debug)]
pub enum CacheKey {
    TaskLeaderboard { task_id: u128, limit: u64, offset: u64, current_quarter: Option<bool> },
    TaskRank { task_id: u128, user_id: u128, current_quarter: Option<bool> },
    LanguageLeaderboard { language: String, limit: u64, offset: u64, current_quarter: Option<bool> },
    LanguageRank { language: String, user_id: u128, current_quarter: Option<bool> },
}

/// A cache key with the language as its characters.
pub enum KeyView {
    TaskLeaderboard { task_id: u128, limit: u64, offset: u64, current_quarter: Option<bool> },
    TaskRank { task_id: u128, user_id: u128, current_quarter: Option<bool> },
    LanguageLeaderboard { language: Seq<char>, limit: u64, offset: u64, current_quarter: Option<bool> },
    LanguageRank { language: Seq<char>, user_id: u128, current_quarter: Option<bool> },
}

impl View for CacheKey {
    type V = KeyView;

    open spec fn view(&self) -> KeyView {
        match self {
            CacheKey::TaskLeaderboard { task_id, limit, offset, current_quarter } => KeyView::TaskLeaderboard {
                task_id: *task_id,
                limit: *limit,
                offset: *offset,
                current_quarter: *current_quarter,
            },
            CacheKey::TaskRank { task_id, user_id, current_quarter } => KeyView::TaskRank {
                task_id: *task_id,
                user_id: *user_id,
                current_quarter: *current_quarter,
            },
            CacheKey::LanguageLeaderboard { language, limit, offset, current_quarter } => KeyView::LanguageLeaderboard {
                language: language@,
                limit: *limit,
                offset: *offset,
                current_quarter: *current_quarter,
            },
            CacheKey::LanguageRank { language, user_id, current_quarter } => KeyView::LanguageRank {
                language: language@,
                user_id: *user_id,
                current_quarter: *current_quarter,
            },
        }
    }
}

/// The key of a page of a task's leaderboard.
pub fn task_leaderboard_key(task_id: u128, limit: u64, offset: u64, current_quarter: Option<bool>) -> (k: CacheKey)
    ensures
        k@ == (KeyView::TaskLeaderboard { task_id, limit, offset, current_quarter }),
{
    CacheKey::TaskLeaderboard { task_id, limit, offset, current_quarter }
}

/// The key of a user's rank on a task's leaderboard.
pub fn task_rank_key(task_id: u128, user_id: u128, current_quarter: Option<bool>) -> (k: CacheKey)
    ensures
        k@ == (KeyView::TaskRank { task_id, user_id, current_quarter }),
{
    CacheKey::TaskRank { task_id, user_id, current_quarter }
}

/// The key of a page of a language's leaderboard.
pub fn language_leaderboard_key(language: &str, limit: u64, offset: u64, current_quarter: Option<bool>) -> (k: CacheKey)
    ensures
        k@ == (KeyView::LanguageLeaderboard { language: language@, limit, offset, current_quarter }),
{
    CacheKey::LanguageLeaderboard { language: language.to_string(), limit, offset, current_quarter }
}

/// The key of a user's rank on a language's leaderboard.
pub fn language_rank_key(language: &str, user_id: u128, current_quarter: Option<bool>) -> (k: CacheKey)
    ensures
        k@ == (KeyView::LanguageRank { language: language@, user_id, current_quarter }),
{
    CacheKey::LanguageRank { language: language.to_string(), user_id, current_quarter }
}

impl CacheKey {
    /// Whether two keys name the same request.
    pub fn same_key(&self, other: &CacheKey) -> (r: bool)
        ensures
            r == (self@ == other@),
    {
        match (self, other) {
            (
                CacheKey::TaskLeaderboard { task_id: t1, limit: l1, offset: o1, current_quarter: q1 },
                CacheKey::TaskLeaderboard { task_id: t2, limit: l2, offset: o2, current_quarter: q2 },
            ) => *t1 == *t2 && *l1 == *l2 && *o1 == *o2 && same_flag(*q1, *q2),
            (
                CacheKey::TaskRank { task_id: t1, user_id: u1, current_quarter: q1 },
                CacheKey::TaskRank { task_id: t2, user_id: u2, current_quarter: q2 },
            ) => *t1 == *t2 && *u1 == *u2 && same_flag(*q1, *q2),
            (
                CacheKey::LanguageLeaderboard { language: g1, limit: l1, offset: o1, current_quarter: q1 },
                CacheKey::LanguageLeaderboard { language: g2, limit: l2, offset: o2, current_quarter: q2 },
            ) => *g1 == *g2 && *l1 == *l2 && *o1 == *o2 && same_flag(*q1, *q2),
            (
                CacheKey::LanguageRank { language: g1, user_id: u1, current_quarter: q1 },
                CacheKey::LanguageRank { language: g2, user_id: u2, current_quarter: q2 },
            ) => *g1 == *g2 && *u1 == *u2 && same_flag(*q1, *q2),
            _ => false,
        }
    }
}

fn same_flag(a: Option<bool>, b: Option<bool>) -> (r: bool)
    ensures
        r == (a == b),
{
    match (a, b) {
        (Some(x), Some(y)) => x == y,
        (None, None) => true,
        _ => false,
    }
}

/// Requests that differ only in the quarter flag have different keys, for
/// every kind of key, so neither can be answered with the other's result.
pub proof fn lemma_quarter_flag_separates_keys(
    task_id: u128,
    language: Seq<char>,
    user_id: u128,
    limit: u64,
    offset: u64,
    q1: Option<bool>,
    q2: Option<bool>,
)
    requires
        q1 != q2,
    ensures
        (KeyView::TaskLeaderboard { task_id, limit, offset, current_quarter: q1 }) != (KeyView::TaskLeaderboard {
            task_id,
            limit,
            offset,
            current_quarter: q2,
        }),
        (KeyView::TaskRank { task_id, user_id, current_quarter: q1 }) != (KeyView::TaskRank {
            task_id,
            user_id,
            current_quarter: q2,
        }),
        (KeyView::LanguageLeaderboard { language, limit, offset, current_quarter: q1 })
            != (KeyView::LanguageLeaderboard { language, limit, offset, current_quarter: q2 }),
        (KeyView::LanguageRank { language, user_id, current_quarter: q1 }) != (KeyView::LanguageRank {
            language,
            user_id,
            current_quarter: q2,
        }),
{
}

} // verus!
