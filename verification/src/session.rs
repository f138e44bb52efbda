//! What the state decides about the session, and about who may do what with the records of a
//! contest.
use vstd::prelude::*;
use crate::i18n::{problem_title, title_spec};
use crate::lists::{find_key, first_key, lemma_first_key};
use crate::errors::{
    describe_error, describe_error_spec, ends_session, ends_session_spec,
    lemma_only_invalid_token_ends_session, AdaJudgeError,
};
use crate::navigation::{guarded, redirect_spec, Page};
use crate::models::{AdminLevel, ContestPost, PrivateUserData, ProblemQuestion};
use crate::state::{is_owner_spec, manages_spec, GlobalState};
use crate::views::{numbered_title, numbered_title_text};

verus! {

/// `b` is `a` with another session (token and user); everything fetched stays.
pub open spec fn same_but_session(a: GlobalState, b: GlobalState) -> bool {
    &&& b.language == a.language
    &&& b.contests == a.contests
    &&& b.my_contests == a.my_contests
    &&& b.contests_is_all == a.contests_is_all
    &&& b.contest_problems == a.contest_problems
    &&& b.posts == a.posts
    &&& b.questions == a.questions
    &&& b.submissions == a.submissions
    &&& b.all_submissions == a.all_submissions
    &&& b.leaderboard == a.leaderboard
    &&& b.problems == a.problems
    &&& b.users == a.users
}

/// The signed-in user manages the contest of the list that has the id `contest_id`.
pub open spec fn contest_managed(s: GlobalState, contest_id: i64) -> bool {
    let i = first_key(s.contests@, contest_id);
    i >= 0 && manages_spec(&s, s.contests@[i].owner_id)
}

/// The signed-in user manages the contest's problem that has the id `problem_id`.
pub open spec fn problem_managed(s: GlobalState, problem_id: i64) -> bool {
    let i = first_key(s.contest_problems@, problem_id);
    i >= 0 && manages_spec(&s, s.contest_problems@[i].owner_id)
}

/// The number of questions of `s` that have an answer.
pub open spec fn answered_in(s: Seq<ProblemQuestion>) -> nat
    decreases s.len(),
{
    if s.len() == 0 {
        0
    } else {
        answered_in(s.drop_last()) + if s.last().answer@.len() > 0 {
            1nat
        } else {
            0nat
        }
    }
}

/// The name under which a question shows its problem: "#position title" of the contest's
/// problem with that id, "?" when there is none.
pub open spec fn question_problem_name_spec(s: GlobalState, lang: Seq<char>, problem_id: i64) -> Seq<
    char,
> {
    let i = first_key(s.contest_problems@, problem_id);
    if i >= 0 {
        let p = s.contest_problems@[i];
        numbered_title(p.index + 1, title_spec(lang, p.name_ru@, p.name_en@))
    } else {
        "?"@
    }
}

impl GlobalState {
    /// Signs out: forgets the token and the user; everything else stays.
    pub fn sign_out(&mut self)
        ensures
            final(self).token is None,
            final(self).user is None,
            same_but_session(*old(self), *final(self)),
    {
        self.token = None;
        self.user = None;
    }

    /// After the level of user `user_id` was changed to `level`: the signed-in user takes the
    /// new level when that user is them; nothing else changes.
    pub fn level_changed(&mut self, user_id: i64, level: AdminLevel)
        ensures
            final(self).token == old(self).token,
            same_but_session(*old(self), *final(self)),
            match old(self).user {
                Some(u) => final(self).user == Some(
                    if u.id == user_id {
                        PrivateUserData { admin_level: level, ..u }
                    } else {
                        u
                    },
                ),
                None => final(self).user is None,
            },
    {
        let is_me = match &self.user {
            Some(u) => u.id == user_id,
            None => false,
        };
        if is_me {
            let u = self.user.take().unwrap();
            self.user = Some(PrivateUserData { admin_level: level, ..u });
        }
    }

    /// After the account of user `user_id` was deleted: signs out when it was the signed-in
    /// user's own, and says whether it did.
    pub fn account_deleted(&mut self, user_id: i64) -> (r: bool)
        ensures
            r == (old(self).user matches Some(u) && u.id == user_id),
            r ==> final(self).token is None && final(self).user is None,
            !r ==> final(self).token == old(self).token && final(self).user == old(self).user,
            same_but_session(*old(self), *final(self)),
    {
        let is_me = match &self.user {
            Some(u) => u.id == user_id,
            None => false,
        };
        if is_me {
            self.sign_out();
        }
        is_me
    }

    /// Whether the signed-in user manages the contest of the list with the id `contest_id`.
    pub fn manages_contest_id(&self, contest_id: i64) -> (r: bool)
        ensures
            r == contest_managed(*self, contest_id),
    {
        match find_key(&self.contests, contest_id) {
            Some(i) => {
                proof {
                    lemma_first_key(self.contests@, contest_id);
                }
                self.can_manage_contest(&self.contests[i])
            },
            None => false,
        }
    }

    /// Whether the signed-in user manages the contest's problem with the id `problem_id`.
    pub fn manages_problem_id(&self, problem_id: i64) -> (r: bool)
        ensures
            r == problem_managed(*self, problem_id),
    {
        match find_key(&self.contest_problems, problem_id) {
            Some(i) => {
                proof {
                    lemma_first_key(self.contest_problems@, problem_id);
                }
                self.can_manage_problem(&self.contest_problems[i])
            },
            None => false,
        }
    }

    /// Who may answer and who may delete `question`, asked in contest `contest_id`: answering
    /// is for those who manage the contest or the problem, and for owners; deleting also for
    /// the question's author.
    pub fn question_rights(&self, contest_id: i64, question: &ProblemQuestion) -> (r: (bool, bool))
        ensures
            r.0 == (contest_managed(*self, contest_id) || is_owner_spec(self) || problem_managed(
                *self,
                question.problem_id,
            )),
            r.1 == ((self.user matches Some(u) && u.id == question.owner_id) || is_owner_spec(self)
                || contest_managed(*self, contest_id) || problem_managed(
                *self,
                question.problem_id,
            )),
    {
        let contest_owned = self.manages_contest_id(contest_id);
        let is_owner = self.is_owner();
        let problem_owned = self.manages_problem_id(question.problem_id);
        let authored = match &self.user {
            Some(u) => u.id == question.owner_id,
            None => false,
        };
        let can_answer = contest_owned || is_owner || problem_owned;
        let can_delete = authored || is_owner || contest_owned || problem_owned;
        (can_answer, can_delete)
    }

    /// Whether the signed-in user may edit and delete `post`: its author or an owner. With no
    /// one signed in, the id compared with is 0.
    pub fn can_manage_post(&self, post: &ContestPost) -> (r: bool)
        ensures
            r == (post.owner_id == (match self.user {
                Some(u) => u.id,
                None => 0,
            }) || is_owner_spec(self)),
    {
        let me = match &self.user {
            Some(u) => u.id,
            None => 0,
        };
        post.owner_id == me || self.is_owner()
    }

    /// The number of questions that have an answer.
    pub fn answered_count(&self) -> (r: usize)
        ensures
            r == answered_in(self.questions@),
    {
        let mut n: usize = 0;
        let mut i: usize = 0;
        while i < self.questions.len()
            invariant
                i <= self.questions.len(),
                n == answered_in(self.questions@.take(i as int)),
                n <= i,
            decreases self.questions.len() - i,
        {
            assert(self.questions@.take(i + 1).drop_last() =~= self.questions@.take(i as int));
            if !self.questions[i].answer.as_str().is_empty() {
                n = n + 1;
            }
            i = i + 1;
        }
        assert(self.questions@.take(i as int) =~= self.questions@);
        n
    }

    /// The name under which a question shows the problem `problem_id`.
    pub fn question_problem_name(&self, lang: &str, problem_id: i64) -> (r: String)
        requires
            forall|i: int|
                0 <= i < self.contest_problems@.len() ==> #[trigger] self.contest_problems@[i].index
                    < i64::MAX,
        ensures
            r@ == question_problem_name_spec(*self, lang@, problem_id),
    {
        match find_key(&self.contest_problems, problem_id) {
            Some(i) => {
                proof {
                    lemma_first_key(self.contest_problems@, problem_id);
                }
                let p = &self.contest_problems[i];
                let name = problem_title(lang, p.name_ru.as_str(), p.name_en.as_str());
                numbered_title_text(p.index + 1, name.as_str())
            },
            None => String::from_str("?"),
        }
    }

    /// The id of the problem at position `index` of the contest's problems, if there is one.
    pub fn problem_id_at(&self, index: usize) -> (r: Option<i64>)
        ensures
            r == (if index < self.contest_problems@.len() {
                Some(self.contest_problems@[index as int].id)
            } else {
                None
            }),
    {
        if index < self.contest_problems.len() {
            Some(self.contest_problems[index].id)
        } else {
            None
        }
    }
}

/// What the contests page fetches: the contests (all of them, or the user's own), the
/// problems, the users.
#[derive(Clone, Copy, Debug, PartialEq, Eq, Structural)]
pub struct HomeFetches {
    pub contests: Option<bool>,
    pub problems: bool,
    pub users: bool,
}

impl GlobalState {
    /// What the contests page fetches when it loads: the contests when asked, all of them or
    /// the user's own as `all_contests` says; all problems when asked and the user is an admin;
    /// all users when asked and the user is an owner.
    pub fn home_fetches(
        &self,
        all_contests: bool,
        force_contests: bool,
        force_problems: bool,
        force_users: bool,
    ) -> (r: HomeFetches)
        ensures
            r.contests == (if force_contests {
                Some(all_contests)
            } else {
                None
            }),
            r.problems == (force_problems && crate::state::is_admin_spec(self)),
            r.users == (force_users && is_owner_spec(self)),
    {
        HomeFetches {
            contests: if force_contests {
                Some(all_contests)
            } else {
                None
            },
            problems: force_problems && self.is_admin(),
            users: force_users && self.is_owner(),
        }
    }
}

impl GlobalState {
    /// The profile page that a user's name leads to: the private one for owners, the public
    /// one for everyone else.
    pub fn profile_page(&self, user_id: i64) -> (r: Page)
        ensures
            r == (if is_owner_spec(self) {
                Page::UserPrivateProfile { user_id }
            } else {
                Page::UserProfile { user_id }
            }),
    {
        if self.is_owner() {
            Page::UserPrivateProfile { user_id }
        } else {
            Page::UserProfile { user_id }
        }
    }
}

impl GlobalState {
    /// Follows an error that the backend answered: when it refuses the session, signs out, so
    /// that every page that needs a signed-in user leads back to the welcome page. Returns the
    /// message to show, in the interface language.
    pub fn follow_error(&mut self, error: &AdaJudgeError) -> (r: String)
        ensures
            r@ == describe_error_spec(old(self).language@, *error),
            same_but_session(*old(self), *final(self)),
            ends_session_spec(*error) ==> final(self).token is None && final(self).user is None,
            ends_session_spec(*error) ==> forall|p: Page|
                guarded(p) ==> redirect_spec(p, final(self).token is Some) == Some(Page::Welcome),
            !ends_session_spec(*error) ==> final(self).token == old(self).token && final(self).user
                == old(self).user,
            *error is InvalidJwt ==> final(self).token is None && final(self).user is None,
            !(*error is InvalidJwt) ==> final(self).token == old(self).token && final(self).user
                == old(self).user,
    {
        proof {
            lemma_only_invalid_token_ends_session(*error);
        }
        let message = describe_error(self.language.as_str(), error);
        if ends_session(error) {
            self.sign_out();
        }
        message
    }
}

/// A request that loading the contest page makes.
#[derive(Clone, Copy, Debug, PartialEq, Eq, Structural)]
pub enum ContestFetch {
    /// The contest's problems.
    Problems,
    /// The submissions of a problem: everyone's or the user's own.
    Submissions { problem_id: i64, all: bool },
    /// The contest's leaderboard.
    Leaderboard,
    /// The contest's announcements.
    Posts,
    /// The contest itself.
    Contest,
    /// The contest's questions: all of them or the user's own.
    Questions { all: bool },
}

/// The next request of the contest page's loading at `stage` (0 at the start), and the stage
/// after it; `None` when the loading is done. With `force`, the problems come first; then the
/// submissions of the problem at `problem_index`, when there is one; then, with `force`, the
/// leaderboard, the announcements, the contest and its questions (all of them for those who
/// manage the contest). The state is read at each step, so what earlier requests stored counts.
pub open spec fn contest_load_spec(
    s: GlobalState,
    contest_id: i64,
    problem_index: int,
    all_submissions: bool,
    force: bool,
    stage: int,
) -> Option<(ContestFetch, int)>
    decreases 6 - stage,
{
    if stage <= 0 {
        if force {
            Some((ContestFetch::Problems, 1))
        } else {
            contest_load_spec(s, contest_id, problem_index, all_submissions, force, 1)
        }
    } else if stage == 1 {
        if 0 <= problem_index < s.contest_problems@.len() {
            Some(
                (
                    ContestFetch::Submissions {
                        problem_id: s.contest_problems@[problem_index].id,
                        all: all_submissions,
                    },
                    2,
                ),
            )
        } else {
            contest_load_spec(s, contest_id, problem_index, all_submissions, force, 2)
        }
    } else if stage == 2 {
        if force {
            Some((ContestFetch::Leaderboard, 3))
        } else {
            None
        }
    } else if stage == 3 {
        Some((ContestFetch::Posts, 4))
    } else if stage == 4 {
        Some((ContestFetch::Contest, 5))
    } else if stage == 5 {
        Some((ContestFetch::Questions { all: contest_managed(s, contest_id) }, 6))
    } else {
        None
    }
}

impl GlobalState {
    /// The next request of the contest page's loading, and the stage after it. The stage
    /// only grows, so the loading makes each request at most once and ends.
    pub fn contest_load_step(
        &self,
        contest_id: i64,
        problem_index: usize,
        all_submissions: bool,
        force: bool,
        stage: u8,
    ) -> (r: Option<(ContestFetch, u8)>)
        ensures
            match contest_load_spec(
                *self,
                contest_id,
                problem_index as int,
                all_submissions,
                force,
                stage as int,
            ) {
                Some((f, next)) => r == Some((f, next as u8)),
                None => r is None,
            },
            r matches Some((_, next)) ==> stage < next <= 6,
        decreases 6 - stage,
    {
        if stage == 0 {
            if force {
                Some((ContestFetch::Problems, 1))
            } else {
                self.contest_load_step(contest_id, problem_index, all_submissions, force, 1)
            }
        } else if stage == 1 {
            match self.problem_id_at(problem_index) {
                Some(problem_id) => Some(
                    (ContestFetch::Submissions { problem_id, all: all_submissions }, 2),
                ),
                None => self.contest_load_step(contest_id, problem_index, all_submissions, force, 2),
            }
        } else if stage == 2 {
            if force {
                Some((ContestFetch::Leaderboard, 3))
            } else {
                None
            }
        } else if stage == 3 {
            Some((ContestFetch::Posts, 4))
        } else if stage == 4 {
            Some((ContestFetch::Contest, 5))
        } else if stage == 5 {
            Some((ContestFetch::Questions { all: self.manages_contest_id(contest_id) }, 6))
        } else {
            None
        }
    }
}

} // verus!
