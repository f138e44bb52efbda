//! The application's state, the rights that it grants, and how live events change it.
use vstd::prelude::*;
use vstd::string::*;
use crate::i18n::{tr, tr_spec};
use crate::lists::{
    contains_key, has_key, remove_key, upsert, upsert_spec, without_key,
};
use crate::models::{
    AdminLevel, ContestEvent, ContestPost, Keyed, LeaderboardRow, PrivateUserData,
    ProblemQuestion, PublicContestConfig, PublicProblemConfig, Submission,
};
use crate::text::{decimal_int, push_decimal_i64};
use crate::models::Timestamp;
use crate::time::{instant_before, now_timestamp, timestamp_before};

verus! {

/// Where a contest stands at some instant.
#[derive(Clone, Copy, Debug, PartialEq, Eq, Structural)]
pub enum ContestStatus {
    BeforeStart,
    Ongoing,
    Finished,
    Upsolving,
}

/// The status of a contest at the instant `now`: before its start, running until and including
/// its finish, then open for upsolving or finished.
pub open spec fn status_at(
    now: Timestamp,
    starts_at: Timestamp,
    finishes_at: Timestamp,
    upsolving: bool,
) -> ContestStatus {
    if instant_before(now, starts_at) {
        ContestStatus::BeforeStart
    } else if !instant_before(finishes_at, now) {
        ContestStatus::Ongoing
    } else if upsolving {
        ContestStatus::Upsolving
    } else {
        ContestStatus::Finished
    }
}

/// The status of `contest` at the instant `now`.
pub fn contest_status_at(now: Timestamp, contest: &PublicContestConfig) -> (r: ContestStatus)
    ensures
        r == status_at(now, contest.starts_at, contest.finishes_at, contest.upsolving_enabled),
{
    if timestamp_before(now, contest.starts_at) {
        ContestStatus::BeforeStart
    } else if !timestamp_before(contest.finishes_at, now) {
        ContestStatus::Ongoing
    } else if contest.upsolving_enabled {
        ContestStatus::Upsolving
    } else {
        ContestStatus::Finished
    }
}

/// The status of `contest` now. The clock decides which status comes back; whichever it is,
/// it is the status of the contest at some instant.
pub fn contest_status(contest: &PublicContestConfig) -> (r: ContestStatus)
    ensures
        exists|now: Timestamp|
            r == status_at(now, contest.starts_at, contest.finishes_at, contest.upsolving_enabled),
{
    let now = now_timestamp();
    contest_status_at(now, contest)
}

/// The background class of a contest card.
pub open spec fn css_bg_spec(s: ContestStatus) -> Seq<char> {
    match s {
        ContestStatus::BeforeStart => "bg-accent"@,
        ContestStatus::Ongoing => "bg-success"@,
        ContestStatus::Finished => "bg-primary"@,
        ContestStatus::Upsolving => "bg-secondary"@,
    }
}

/// The text class of a contest card.
pub open spec fn css_text_spec(s: ContestStatus) -> Seq<char> {
    match s {
        ContestStatus::BeforeStart => "text-accent-content"@,
        ContestStatus::Ongoing => "text-success-content"@,
        ContestStatus::Finished => "text-primary-content"@,
        ContestStatus::Upsolving => "text-secondary-content"@,
    }
}

impl ContestStatus {
    /// The background class of a card of a contest with this status.
    pub fn css_bg(&self) -> (r: &'static str)
        ensures
            r@ == css_bg_spec(*self),
    {
        match self {
            ContestStatus::BeforeStart => "bg-accent",
            ContestStatus::Ongoing => "bg-success",
            ContestStatus::Finished => "bg-primary",
            ContestStatus::Upsolving => "bg-secondary",
        }
    }

    /// The text class of a card of a contest with this status.
    pub fn css_text(&self) -> (r: &'static str)
        ensures
            r@ == css_text_spec(*self),
    {
        match self {
            ContestStatus::BeforeStart => "text-accent-content",
            ContestStatus::Ongoing => "text-success-content",
            ContestStatus::Finished => "text-primary-content",
            ContestStatus::Upsolving => "text-secondary-content",
        }
    }
}

/// The position that the search of `x` in `s[base..base + size]` settles on, halving the
/// range as `slice::binary_search` does: the upper half is kept unless its first element is
/// greater than `x`.
pub open spec fn search_base(s: Seq<i64>, x: i64, base: int, size: int) -> int
    decreases size,
{
    if size <= 1 {
        base
    } else {
        let half = size / 2;
        let mid = base + half;
        let next = if s[mid] > x {
            base
        } else {
            mid
        };
        search_base(s, x, next, size - half)
    }
}

/// Whether the binary search of `x` in `s` finds it.
pub open spec fn search_finds(s: Seq<i64>, x: i64) -> bool {
    s.len() > 0 && s[search_base(s, x, 0, s.len() as int)] == x
}

/// `s` is in ascending order.
pub open spec fn sorted(s: Seq<i64>) -> bool {
    forall|i: int, j: int| 0 <= i <= j < s.len() ==> s[i] <= s[j]
}

proof fn lemma_search_base(s: Seq<i64>, x: i64, base: int, size: int)
    requires
        0 <= base,
        1 <= size,
        base + size <= s.len(),
    ensures
        base <= search_base(s, x, base, size) < base + size,
        sorted(s) && (exists|j: int| base <= j < base + size && s[j] == x) ==> s[search_base(
            s,
            x,
            base,
            size,
        )] == x,
    decreases size,
{
    if size > 1 {
        let half = size / 2;
        let mid = base + half;
        let next = if s[mid] > x {
            base
        } else {
            mid
        };
        if sorted(s) && (exists|j: int| base <= j < base + size && s[j] == x) {
            let j = choose|j: int| base <= j < base + size && s[j] == x;
            if s[mid] > x {
                assert(j < mid) by {
                    if j >= mid {
                        assert(s[mid] <= s[j]);
                    }
                }
                assert(base <= j < next + (size - half));
            } else {
                if j < mid {
                    assert(s[j] <= s[mid]);
                    assert(s[mid] == x);
                    assert(mid <= mid < next + (size - half));
                } else {
                    assert(next <= j < next + (size - half));
                }
            }
        }
        lemma_search_base(s, x, next, size - half);
    }
}

/// On a list in ascending order, the search finds exactly what the list holds.
pub proof fn lemma_search_sorted(s: Seq<i64>, x: i64)
    requires
        sorted(s),
    ensures
        search_finds(s, x) <==> s.contains(x),
{
    if s.len() > 0 {
        lemma_search_base(s, x, 0, s.len() as int);
        if s.contains(x) {
            let j = choose|j: int| 0 <= j < s.len() && s[j] == x;
            assert(0 <= j < s.len() && s[j] == x);
        }
    }
}

/// Whether a binary search of `x` in `v` succeeds (as `v.binary_search(&x).is_ok()` on a sorted
/// list: then exactly when `v` holds `x`).
pub fn binary_search_finds(v: &Vec<i64>, x: i64) -> (r: bool)
    ensures
        r == search_finds(v@, x),
        r ==> v@.contains(x),
{
    let n = v.len();
    if n == 0 {
        return false;
    }
    let mut base: usize = 0;
    let mut size: usize = n;
    while size > 1
        invariant
            n == v.len(),
            1 <= size,
            base + size <= n,
            search_base(v@, x, 0, n as int) == search_base(v@, x, base as int, size as int),
        decreases size,
    {
        let half = size / 2;
        let mid = base + half;
        if v[mid] > x {
        } else {
            base = mid;
        }
        size = size - half;
    }
    let r = v[base] == x;
    proof {
        if r {
            assert(v@[base as int] == x);
        }
    }
    r
}

/// The state of the application: the session, the interface language and what was fetched.
#[derive(Clone, Debug)]
pub struct GlobalState {
    pub token: Option<String>,
    pub user: Option<PrivateUserData>,
    pub language: String,
    pub contests: Vec<PublicContestConfig>,
    pub my_contests: Vec<PublicContestConfig>,
    pub contests_is_all: bool,
    pub contest_problems: Vec<PublicProblemConfig>,
    pub posts: Vec<ContestPost>,
    pub questions: Vec<ProblemQuestion>,
    pub submissions: Vec<Submission>,
    pub all_submissions: bool,
    pub leaderboard: Vec<LeaderboardRow>,
    pub problems: Vec<PublicProblemConfig>,
    pub users: Vec<PrivateUserData>,
}

/// The signed-in user is an admin or an owner.
pub open spec fn is_admin_spec(s: &GlobalState) -> bool {
    s.user matches Some(u) && u.admin_level != AdminLevel::User
}

/// The signed-in user is an owner.
pub open spec fn is_owner_spec(s: &GlobalState) -> bool {
    s.user matches Some(u) && u.admin_level == AdminLevel::Owner
}

/// The signed-in user owns a record owned by `owner_id`, or is an owner.
pub open spec fn manages_spec(s: &GlobalState, owner_id: Option<i64>) -> bool {
    s.user matches Some(u) && (owner_id == Some(u.id) || u.admin_level == AdminLevel::Owner)
}

impl GlobalState {
    /// A fresh state for the stored session `token` and interface language `language`:
    /// nothing fetched, the list of all contests chosen.
    pub fn new(token: Option<String>, language: String) -> (s: Self)
        ensures
            s.token == token,
            s.language == language,
            s.user is None,
            s.contests@.len() == 0,
            s.my_contests@.len() == 0,
            s.contests_is_all,
            s.contest_problems@.len() == 0,
            s.posts@.len() == 0,
            s.questions@.len() == 0,
            s.submissions@.len() == 0,
            !s.all_submissions,
            s.leaderboard@.len() == 0,
            s.problems@.len() == 0,
            s.users@.len() == 0,
    {
        GlobalState {
            token,
            user: None,
            language,
            contests: Vec::new(),
            my_contests: Vec::new(),
            contests_is_all: true,
            contest_problems: Vec::new(),
            posts: Vec::new(),
            questions: Vec::new(),
            submissions: Vec::new(),
            all_submissions: false,
            leaderboard: Vec::new(),
            problems: Vec::new(),
            users: Vec::new(),
        }
    }

    /// Whether the signed-in user is an admin or an owner.
    pub fn is_admin(&self) -> (r: bool)
        ensures
            r == is_admin_spec(self),
    {
        match &self.user {
            Some(u) => u.admin_level != AdminLevel::User,
            None => false,
        }
    }

    /// Whether the signed-in user is an owner.
    pub fn is_owner(&self) -> (r: bool)
        ensures
            r == is_owner_spec(self),
    {
        match &self.user {
            Some(u) => u.admin_level == AdminLevel::Owner,
            None => false,
        }
    }

    /// Whether the signed-in user may edit and delete `contest`: its owner, or an owner.
    pub fn can_manage_contest(&self, contest: &PublicContestConfig) -> (r: bool)
        ensures
            r == manages_spec(self, contest.owner_id),
    {
        match &self.user {
            Some(u) => {
                let owns = match contest.owner_id {
                    Some(o) => o == u.id,
                    None => false,
                };
                owns || u.admin_level == AdminLevel::Owner
            },
            None => false,
        }
    }

    /// Whether the signed-in user may enter `contest` before its start: its owner, a co-author
    /// found by a binary search of its (ascending) co-author list, or an owner.
    pub fn can_enter_contest(&self, contest: &PublicContestConfig) -> (r: bool)
        ensures
            r == (self.user matches Some(u) && (contest.owner_id == Some(u.id) || search_finds(
                contest.co_authors@,
                u.id,
            ) || u.admin_level == AdminLevel::Owner)),
    {
        match &self.user {
            Some(u) => {
                let owns = match contest.owner_id {
                    Some(o) => o == u.id,
                    None => false,
                };
                owns || binary_search_finds(&contest.co_authors, u.id) || u.admin_level
                    == AdminLevel::Owner
            },
            None => false,
        }
    }

    /// Whether the signed-in user may edit and delete `problem`: its owner, or an owner.
    pub fn can_manage_problem(&self, problem: &PublicProblemConfig) -> (r: bool)
        ensures
            r == manages_spec(self, problem.owner_id),
    {
        match &self.user {
            Some(u) => {
                let owns = match problem.owner_id {
                    Some(o) => o == u.id,
                    None => false,
                };
                owns || u.admin_level == AdminLevel::Owner
            },
            None => false,
        }
    }
}

} // verus!
