//! What the live feeds of contests report, and how the state follows them.
use vstd::prelude::*;
use vstd::string::*;
use crate::i18n::{tr, tr_spec};
use crate::lists::{
    contains_key, first_key, has_key, lemma_remove_then_absent, lemma_upsert_then_find, remove_key,
    upsert, upsert_spec, without_key,
};
use crate::models::{ContestEvent, Keyed, PublicContestConfig};
use crate::state::GlobalState;
use crate::text::{decimal_int, push_decimal_i64};

verus! {

/// What the application has to do after the state followed an event.
#[derive(Clone, Debug)]
pub enum FollowUp {
    /// Nothing.
    Nothing,
    /// Fetch the contest again and store what comes back under its id, or this record when
    /// the fetch fails.
    RefreshContest(PublicContestConfig),
    /// Close the live feed of the contest with this id.
    Unsubscribe(i64),
}

/// `before` + the number `n` + `after`, in the interface language.
pub open spec fn numbered(
    lang: Seq<char>,
    ru_before: Seq<char>,
    ru_after: Seq<char>,
    en_before: Seq<char>,
    en_after: Seq<char>,
    n: int,
) -> Seq<char> {
    tr_spec(lang, ru_before + decimal_int(n) + ru_after, en_before + decimal_int(n) + en_after)
}

/// A text with a number in it, in the interface language.
pub fn numbered_text(
    lang: &str,
    ru_before: &str,
    ru_after: &str,
    en_before: &str,
    en_after: &str,
    n: i64,
) -> (r: String)
    ensures
        r@ == numbered(lang@, ru_before@, ru_after@, en_before@, en_after@, n as int),
{
    let mut ru = String::from_str(ru_before);
    push_decimal_i64(&mut ru, n);
    ru.append(ru_after);
    let mut en = String::from_str(en_before);
    push_decimal_i64(&mut en, n);
    en.append(en_after);
    tr(lang, ru.as_str(), en.as_str())
}

/// The event numbers no problem by a position that overflows when counted from one.
pub open spec fn event_numbers_fit(e: ContestEvent) -> bool {
    match e {
        ContestEvent::NewProblem(p) => p.index < i64::MAX,
        ContestEvent::ProblemUpdated(p) => p.index < i64::MAX,
        ContestEvent::ProblemDeleted(idx) => idx < i64::MAX,
        _ => true,
    }
}

/// The notice that a contest's feed shows for an event. Problems are numbered from one.
pub open spec fn contest_event_notice(lang: Seq<char>, e: ContestEvent) -> Seq<char> {
    match e {
        ContestEvent::NewPost(p) => numbered(
            lang,
            "Новое объявление #"@,
            ""@,
            "New announcement #"@,
            ""@,
            p.id as int,
        ),
        ContestEvent::PostUpdated(p) => numbered(
            lang,
            "Объявление #"@,
            " обновлено"@,
            "Announcement #"@,
            " updated"@,
            p.id as int,
        ),
        ContestEvent::PostDeleted(idx) => numbered(
            lang,
            "Объявление #"@,
            " удалено"@,
            "Announcement #"@,
            " deleted"@,
            idx as int,
        ),
        ContestEvent::ContestUpdated(c) => numbered(
            lang,
            "Контест #"@,
            " обновлён"@,
            "Contest #"@,
            " updated"@,
            c.id as int,
        ),
        ContestEvent::ContestDeleted(id) => numbered(
            lang,
            "Контест #"@,
            " удалён"@,
            "Contest #"@,
            " deleted"@,
            id as int,
        ),
        ContestEvent::NewContest(c) => numbered(
            lang,
            "Контест #"@,
            " создан"@,
            "Contest #"@,
            " created"@,
            c.id as int,
        ),
        ContestEvent::NewProblem(p) => numbered(
            lang,
            "Новая задача #"@,
            ""@,
            "New problem #"@,
            ""@,
            p.index + 1,
        ),
        ContestEvent::ProblemUpdated(p) => numbered(
            lang,
            "Задача #"@,
            " обновлена"@,
            "Problem #"@,
            " updated"@,
            p.index + 1,
        ),
        ContestEvent::ProblemDeleted(idx) => numbered(
            lang,
            "Задача #"@,
            " удалена"@,
            "Problem #"@,
            " deleted"@,
            idx + 1,
        ),
        ContestEvent::NewProblemQuestion(q) => numbered(
            lang,
            "Новый вопрос #"@,
            ""@,
            "New question #"@,
            ""@,
            q.id as int,
        ),
        ContestEvent::ProblemQuestionDeleted(idx) => numbered(
            lang,
            "Вопрос #"@,
            " удалён"@,
            "Question #"@,
            " deleted"@,
            idx as int,
        ),
        ContestEvent::ProblemQuestionAnswered(q) => numbered(
            lang,
            "Ответ на вопрос #"@,
            ""@,
            "Question #"@,
            " answered"@,
            q.id as int,
        ),
    }
}

/// The notice that a contest's feed shows for `event`.
pub fn contest_event_notice_text(lang: &str, event: &ContestEvent) -> (r: String)
    requires
        event_numbers_fit(*event),
    ensures
        r@ == contest_event_notice(lang@, *event),
{
    match event {
        ContestEvent::NewPost(p) => numbered_text(
            lang,
            "Новое объявление #",
            "",
            "New announcement #",
            "",
            p.id,
        ),
        ContestEvent::PostUpdated(p) => numbered_text(
            lang,
            "Объявление #",
            " обновлено",
            "Announcement #",
            " updated",
            p.id,
        ),
        ContestEvent::PostDeleted(idx) => numbered_text(
            lang,
            "Объявление #",
            " удалено",
            "Announcement #",
            " deleted",
            *idx,
        ),
        ContestEvent::ContestUpdated(c) => numbered_text(
            lang,
            "Контест #",
            " обновлён",
            "Contest #",
            " updated",
            c.id,
        ),
        ContestEvent::ContestDeleted(id) => numbered_text(
            lang,
            "Контест #",
            " удалён",
            "Contest #",
            " deleted",
            *id,
        ),
        ContestEvent::NewContest(c) => numbered_text(
            lang,
            "Контест #",
            " создан",
            "Contest #",
            " created",
            c.id,
        ),
        ContestEvent::NewProblem(p) => numbered_text(
            lang,
            "Новая задача #",
            "",
            "New problem #",
            "",
            p.index + 1,
        ),
        ContestEvent::ProblemUpdated(p) => numbered_text(
            lang,
            "Задача #",
            " обновлена",
            "Problem #",
            " updated",
            p.index + 1,
        ),
        ContestEvent::ProblemDeleted(idx) => numbered_text(
            lang,
            "Задача #",
            " удалена",
            "Problem #",
            " deleted",
            *idx + 1,
        ),
        ContestEvent::NewProblemQuestion(q) => numbered_text(
            lang,
            "Новый вопрос #",
            "",
            "New question #",
            "",
            q.id,
        ),
        ContestEvent::ProblemQuestionDeleted(idx) => numbered_text(
            lang,
            "Вопрос #",
            " удалён",
            "Question #",
            " deleted",
            *idx,
        ),
        ContestEvent::ProblemQuestionAnswered(q) => numbered_text(
            lang,
            "Ответ на вопрос #",
            "",
            "Question #",
            " answered",
            q.id,
        ),
    }
}

/// `a` and `b` agree on everything but the contests, the contest's problems, posts and
/// questions.
pub open spec fn same_but_feed_lists(a: GlobalState, b: GlobalState) -> bool {
    &&& a.token == b.token
    &&& a.user == b.user
    &&& a.language == b.language
    &&& a.my_contests == b.my_contests
    &&& a.contests_is_all == b.contests_is_all
    &&& a.submissions == b.submissions
    &&& a.all_submissions == b.all_submissions
    &&& a.leaderboard == b.leaderboard
    &&& a.problems == b.problems
    &&& a.users == b.users
}

/// How a contest's feed changes the four lists that it feeds: posts and questions are
/// replaced in place or added in front, problems replaced in place or added at the end,
/// deleted records dropped, new contests added in front unless they are listed already.
pub open spec fn contest_event_lists(a: GlobalState, b: GlobalState, e: ContestEvent) -> bool {
    match e {
        ContestEvent::NewPost(p) | ContestEvent::PostUpdated(p) => {
            &&& b.posts@ == upsert_spec(a.posts@, p.id, p, true)
            &&& b.contests == a.contests && b.contest_problems == a.contest_problems
            &&& b.questions == a.questions
        },
        ContestEvent::PostDeleted(id) => {
            &&& b.posts@ == without_key(a.posts@, id)
            &&& b.contests == a.contests && b.contest_problems == a.contest_problems
            &&& b.questions == a.questions
        },
        ContestEvent::NewProblem(p) | ContestEvent::ProblemUpdated(p) => {
            &&& b.contest_problems@ == upsert_spec(a.contest_problems@, p.id, p, false)
            &&& b.contests == a.contests && b.posts == a.posts && b.questions == a.questions
        },
        ContestEvent::ProblemDeleted(id) => {
            &&& b.contest_problems@ == without_key(a.contest_problems@, id)
            &&& b.contests == a.contests && b.posts == a.posts && b.questions == a.questions
        },
        ContestEvent::NewProblemQuestion(q) | ContestEvent::ProblemQuestionAnswered(q) => {
            &&& b.questions@ == upsert_spec(a.questions@, q.id, q, true)
            &&& b.contests == a.contests && b.posts == a.posts
            &&& b.contest_problems == a.contest_problems
        },
        ContestEvent::ProblemQuestionDeleted(id) => {
            &&& b.questions@ == without_key(a.questions@, id)
            &&& b.contests == a.contests && b.posts == a.posts
            &&& b.contest_problems == a.contest_problems
        },
        ContestEvent::ContestUpdated(_) => {
            &&& b.contests == a.contests && b.posts == a.posts && b.questions == a.questions
            &&& b.contest_problems == a.contest_problems
        },
        ContestEvent::ContestDeleted(id) => {
            &&& b.contests@ == without_key(a.contests@, id)
            &&& b.posts == a.posts && b.questions == a.questions
            &&& b.contest_problems == a.contest_problems
        },
        ContestEvent::NewContest(c) => {
            &&& b.contests@ == if has_key(a.contests@, c.id) {
                a.contests@
            } else {
                seq![c] + a.contests@
            }
            &&& b.posts == a.posts && b.questions == a.questions
            &&& b.contest_problems == a.contest_problems
        },
    }
}

/// What a contest's feed reports is what the lists hold afterwards: a new or changed
/// announcement, problem or question is the record found under its id, a deleted one is no
/// longer found, and a new contest is listed.
pub proof fn lemma_feed_read_after_write(a: GlobalState, b: GlobalState, e: ContestEvent)
    requires
        contest_event_lists(a, b, e),
    ensures
        match e {
            ContestEvent::NewPost(p) | ContestEvent::PostUpdated(p) => {
                let i = first_key(b.posts@, p.id);
                0 <= i < b.posts@.len() && b.posts@[i] == p
            },
            ContestEvent::PostDeleted(id) => !has_key(b.posts@, id),
            ContestEvent::NewProblem(p) | ContestEvent::ProblemUpdated(p) => {
                let i = first_key(b.contest_problems@, p.id);
                0 <= i < b.contest_problems@.len() && b.contest_problems@[i] == p
            },
            ContestEvent::ProblemDeleted(id) => !has_key(b.contest_problems@, id),
            ContestEvent::NewProblemQuestion(q) | ContestEvent::ProblemQuestionAnswered(q) => {
                let i = first_key(b.questions@, q.id);
                0 <= i < b.questions@.len() && b.questions@[i] == q
            },
            ContestEvent::ProblemQuestionDeleted(id) => !has_key(b.questions@, id),
            ContestEvent::ContestDeleted(id) => !has_key(b.contests@, id),
            ContestEvent::NewContest(c) => has_key(b.contests@, c.id),
            ContestEvent::ContestUpdated(_) => b.contests == a.contests,
        },
{
    match e {
        ContestEvent::NewPost(p) | ContestEvent::PostUpdated(p) => {
            lemma_upsert_then_find(a.posts@, p.id, p, true);
        },
        ContestEvent::PostDeleted(id) => {
            lemma_remove_then_absent(a.posts@, id);
        },
        ContestEvent::NewProblem(p) | ContestEvent::ProblemUpdated(p) => {
            lemma_upsert_then_find(a.contest_problems@, p.id, p, false);
        },
        ContestEvent::ProblemDeleted(id) => {
            lemma_remove_then_absent(a.contest_problems@, id);
        },
        ContestEvent::NewProblemQuestion(q) | ContestEvent::ProblemQuestionAnswered(q) => {
            lemma_upsert_then_find(a.questions@, q.id, q, true);
        },
        ContestEvent::ProblemQuestionDeleted(id) => {
            lemma_remove_then_absent(a.questions@, id);
        },
        ContestEvent::ContestDeleted(id) => {
            lemma_remove_then_absent(a.contests@, id);
        },
        ContestEvent::NewContest(c) => {
            if !has_key(a.contests@, c.id) {
                assert(b.contests@[0] == c);
                assert(b.contests@[0].key() == c.id);
            }
        },
        ContestEvent::ContestUpdated(_) => {},
    }
}

/// What is left to do after a contest's feed reported `e`.
pub open spec fn contest_event_follow_up(e: ContestEvent) -> FollowUp {
    match e {
        ContestEvent::ContestUpdated(c) => FollowUp::RefreshContest(c),
        ContestEvent::ContestDeleted(id) => FollowUp::Unsubscribe(id),
        _ => FollowUp::Nothing,
    }
}

impl GlobalState {
    /// Replaces the first contest with the id `id` by `contest`, or adds it at the end.
    pub fn upsert_contest(&mut self, id: i64, contest: PublicContestConfig)
        ensures
            final(self).contests@ == upsert_spec(old(self).contests@, id, contest, false),
            final(self).posts == old(self).posts,
            final(self).questions == old(self).questions,
            final(self).contest_problems == old(self).contest_problems,
            same_but_feed_lists(*old(self), *final(self)),
    {
        upsert(&mut self.contests, id, contest, false);
    }

    /// Follows an event of a contest's live feed: returns the notice to show, in the state's
    /// language, and what is left to do.
    pub fn apply_contest_event(&mut self, event: ContestEvent) -> (r: (String, FollowUp))
        requires
            event_numbers_fit(event),
        ensures
            r.0@ == contest_event_notice(old(self).language@, event),
            r.1 == contest_event_follow_up(event),
            contest_event_lists(*old(self), *final(self), event),
            same_but_feed_lists(*old(self), *final(self)),
    {
        let notice = contest_event_notice_text(self.language.as_str(), &event);
        let follow_up = match event {
            ContestEvent::NewPost(p) => {
                let k = p.id;
                upsert(&mut self.posts, k, p, true);
                FollowUp::Nothing
            },
            ContestEvent::PostUpdated(p) => {
                let k = p.id;
                upsert(&mut self.posts, k, p, true);
                FollowUp::Nothing
            },
            ContestEvent::PostDeleted(id) => {
                remove_key(&mut self.posts, id);
                FollowUp::Nothing
            },
            ContestEvent::NewProblem(p) => {
                let k = p.id;
                upsert(&mut self.contest_problems, k, p, false);
                FollowUp::Nothing
            },
            ContestEvent::ProblemUpdated(p) => {
                let k = p.id;
                upsert(&mut self.contest_problems, k, p, false);
                FollowUp::Nothing
            },
            ContestEvent::ProblemDeleted(id) => {
                remove_key(&mut self.contest_problems, id);
                FollowUp::Nothing
            },
            ContestEvent::NewProblemQuestion(q) => {
                let k = q.id;
                upsert(&mut self.questions, k, q, true);
                FollowUp::Nothing
            },
            ContestEvent::ProblemQuestionAnswered(q) => {
                let k = q.id;
                upsert(&mut self.questions, k, q, true);
                FollowUp::Nothing
            },
            ContestEvent::ProblemQuestionDeleted(id) => {
                remove_key(&mut self.questions, id);
                FollowUp::Nothing
            },
            ContestEvent::ContestUpdated(c) => FollowUp::RefreshContest(c),
            ContestEvent::ContestDeleted(id) => {
                remove_key(&mut self.contests, id);
                FollowUp::Unsubscribe(id)
            },
            ContestEvent::NewContest(c) => {
                if !contains_key(&self.contests, c.id) {
                    self.contests.insert(0, c);
                    assert(self.contests@ =~= seq![c] + old(self).contests@);
                }
                FollowUp::Nothing
            },
        };
        (notice, follow_up)
    }

    /// Follows an event of the feed of the contest list, which only tracks which contests
    /// exist: a new contest not listed yet is added in front with a notice, an updated one is
    /// to be fetched again, a deleted one is dropped with a notice; other events change nothing.
    pub fn apply_feed_event(&mut self, event: ContestEvent) -> (r: (Option<String>, FollowUp))
        ensures
            same_but_feed_lists(*old(self), *final(self)),
            final(self).posts == old(self).posts,
            final(self).questions == old(self).questions,
            final(self).contest_problems == old(self).contest_problems,
            match event {
                ContestEvent::NewContest(c) => if has_key(old(self).contests@, c.id) {
                    final(self).contests == old(self).contests && r.0 is None && r.1 is Nothing
                } else {
                    &&& final(self).contests@ == seq![c] + old(self).contests@
                    &&& r.0 matches Some(n) && n@ == contest_event_notice(
                        old(self).language@,
                        event,
                    )
                    &&& r.1 is Nothing
                },
                ContestEvent::ContestUpdated(c) => final(self).contests == old(self).contests
                    && r.0 is None && r.1 == FollowUp::RefreshContest(c),
                ContestEvent::ContestDeleted(id) => {
                    &&& final(self).contests@ == without_key(old(self).contests@, id)
                    &&& r.0 matches Some(n) && n@ == contest_event_notice(
                        old(self).language@,
                        event,
                    )
                    &&& r.1 is Nothing
                },
                _ => final(self).contests == old(self).contests && r.0 is None && r.1 is Nothing,
            },
    {
        match event {
            ContestEvent::NewContest(c) => {
                if !contains_key(&self.contests, c.id) {
                    let notice = numbered_text(
                        self.language.as_str(),
                        "Контест #",
                        " создан",
                        "Contest #",
                        " created",
                        c.id,
                    );
                    self.contests.insert(0, c);
                    assert(self.contests@ =~= seq![c] + old(self).contests@);
                    (Some(notice), FollowUp::Nothing)
                } else {
                    (None, FollowUp::Nothing)
                }
            },
            ContestEvent::ContestUpdated(c) => (None, FollowUp::RefreshContest(c)),
            ContestEvent::ContestDeleted(id) => {
                remove_key(&mut self.contests, id);
                let notice = numbered_text(
                    self.language.as_str(),
                    "Контест #",
                    " удалён",
                    "Contest #",
                    " deleted",
                    id,
                );
                (Some(notice), FollowUp::Nothing)
            },
            _ => (None, FollowUp::Nothing),
        }
    }
}

} // verus!
