use aj_web::events::{contest_event_notice_text, numbered_text, FollowUp};
use aj_web::models::{
    ContestEvent, ContestPost, ProblemQuestion, ProblemTestingType, ProblemType,
    PublicContestConfig, PublicProblemConfig, Timestamp,
};
use aj_web::state::GlobalState;

fn contest(id: i64) -> PublicContestConfig {
    PublicContestConfig {
        id,
        owner_id: None,
        owner_login: None,
        name_ru: format!("к{id}"),
        name_en: String::new(),
        starts_at: Timestamp { secs: 0, nanos: 0 },
        finishes_at: Timestamp { secs: 0, nanos: 1 },
        statements_url_ru: String::new(),
        statements_url_en: String::new(),
        editorial_url_ru: String::new(),
        editorial_url_en: String::new(),
        hidden: false,
        upsolving_enabled: false,
        solutions_hidden: false,
        leaderboard_hidden: false,
        co_authors: vec![],
        created_at: Timestamp { secs: 0, nanos: 0 },
    }
}

fn post(id: i64, title: &str) -> ContestPost {
    ContestPost {
        id,
        owner_id: 1,
        owner_login: "a".to_string(),
        contest_id: 1,
        title_ru: title.to_string(),
        title_en: String::new(),
        text_ru: String::new(),
        text_en: String::new(),
        created_at: Timestamp { secs: 0, nanos: 0 },
    }
}

fn problem(id: i64, index: i64) -> PublicProblemConfig {
    PublicProblemConfig {
        id,
        owner_id: None,
        owner_login: None,
        name_ru: String::new(),
        name_en: String::new(),
        problem_type: ProblemType::Default,
        testing_type: ProblemTestingType::Ioi,
        contest_id: 1,
        index,
        time_limit_ms: 1,
        memory_limit_mb: 1,
        subgroups: vec![],
        created_at: Timestamp { secs: 0, nanos: 0 },
    }
}

fn question(id: i64, answer: &str) -> ProblemQuestion {
    ProblemQuestion {
        id,
        owner_id: 1,
        owner_login: "a".to_string(),
        problem_id: 1,
        title: String::new(),
        text: String::new(),
        answer: answer.to_string(),
        created_at: Timestamp { secs: 0, nanos: 0 },
    }
}

#[test]
fn numbered_texts() {
    assert_eq!(numbered_text("en", "А #", "", "A #", " b", 5), "A #5 b");
    assert_eq!(numbered_text("ru", "А #", "", "A #", " b", -5), "А #-5");
}

#[test]
fn notices() {
    assert_eq!(contest_event_notice_text("ru", &ContestEvent::NewPost(post(3, "x"))), "Новое объявление #3");
    assert_eq!(contest_event_notice_text("en", &ContestEvent::PostDeleted(4)), "Announcement #4 deleted");
    assert_eq!(contest_event_notice_text("en", &ContestEvent::NewProblem(problem(9, 0))), "New problem #1");
    assert_eq!(contest_event_notice_text("ru", &ContestEvent::ProblemDeleted(2)), "Задача #3 удалена");
    assert_eq!(
        contest_event_notice_text("en", &ContestEvent::ProblemQuestionAnswered(question(8, "y"))),
        "Question #8 answered"
    );
    assert_eq!(contest_event_notice_text("ru", &ContestEvent::ContestDeleted(6)), "Контест #6 удалён");
}

#[test]
fn posts_are_replaced_or_put_in_front() {
    let mut s = GlobalState::new(None, "en".to_string());
    s.posts.push(post(1, "one"));
    s.posts.push(post(2, "two"));
    let (n, f) = s.apply_contest_event(ContestEvent::NewPost(post(3, "three")));
    assert_eq!(n, "New announcement #3");
    assert!(matches!(f, FollowUp::Nothing));
    let ids: Vec<i64> = s.posts.iter().map(|p| p.id).collect();
    assert_eq!(ids, vec![3, 1, 2]);
    s.apply_contest_event(ContestEvent::PostUpdated(post(1, "uno")));
    assert_eq!(s.posts[1].title_ru, "uno");
    assert_eq!(s.posts.len(), 3);
    s.apply_contest_event(ContestEvent::PostDeleted(3));
    let ids: Vec<i64> = s.posts.iter().map(|p| p.id).collect();
    assert_eq!(ids, vec![1, 2]);
}

#[test]
fn problems_are_replaced_or_appended() {
    let mut s = GlobalState::new(None, "ru".to_string());
    s.apply_contest_event(ContestEvent::NewProblem(problem(10, 0)));
    s.apply_contest_event(ContestEvent::NewProblem(problem(11, 1)));
    s.apply_contest_event(ContestEvent::ProblemUpdated(problem(10, 5)));
    let ids: Vec<(i64, i64)> = s.contest_problems.iter().map(|p| (p.id, p.index)).collect();
    assert_eq!(ids, vec![(10, 5), (11, 1)]);
    s.apply_contest_event(ContestEvent::ProblemDeleted(10));
    assert_eq!(s.contest_problems.len(), 1);
}

#[test]
fn questions_follow_answers() {
    let mut s = GlobalState::new(None, "ru".to_string());
    s.apply_contest_event(ContestEvent::NewProblemQuestion(question(1, "")));
    s.apply_contest_event(ContestEvent::ProblemQuestionAnswered(question(1, "да")));
    assert_eq!(s.questions.len(), 1);
    assert_eq!(s.questions[0].answer, "да");
    s.apply_contest_event(ContestEvent::ProblemQuestionDeleted(1));
    assert!(s.questions.is_empty());
}

#[test]
fn contest_events_follow_up() {
    let mut s = GlobalState::new(None, "ru".to_string());
    s.contests.push(contest(1));
    let (_, f) = s.apply_contest_event(ContestEvent::ContestUpdated(contest(1)));
    assert!(matches!(f, FollowUp::RefreshContest(c) if c.id == 1));
    let (_, f) = s.apply_contest_event(ContestEvent::NewContest(contest(2)));
    assert!(matches!(f, FollowUp::Nothing));
    assert_eq!(s.contests[0].id, 2);
    s.apply_contest_event(ContestEvent::NewContest(contest(2)));
    assert_eq!(s.contests.len(), 2);
    let (_, f) = s.apply_contest_event(ContestEvent::ContestDeleted(1));
    assert!(matches!(f, FollowUp::Unsubscribe(1)));
    assert_eq!(s.contests.len(), 1);
}

#[test]
fn refresh_stores_the_contest() {
    let mut s = GlobalState::new(None, "ru".to_string());
    s.contests.push(contest(1));
    let mut fresh = contest(1);
    fresh.name_ru = "новый".to_string();
    s.upsert_contest(1, fresh);
    assert_eq!(s.contests.len(), 1);
    assert_eq!(s.contests[0].name_ru, "новый");
    s.upsert_contest(5, contest(5));
    assert_eq!(s.contests[1].id, 5);
}

#[test]
fn feed_tracks_contest_list() {
    let mut s = GlobalState::new(None, "en".to_string());
    let (n, _) = s.apply_feed_event(ContestEvent::NewContest(contest(3)));
    assert_eq!(n.as_deref(), Some("Contest #3 created"));
    let (n, _) = s.apply_feed_event(ContestEvent::NewContest(contest(3)));
    assert!(n.is_none());
    assert_eq!(s.contests.len(), 1);
    let (n, f) = s.apply_feed_event(ContestEvent::ContestUpdated(contest(3)));
    assert!(n.is_none());
    assert!(matches!(f, FollowUp::RefreshContest(_)));
    let (n, f) = s.apply_feed_event(ContestEvent::ContestDeleted(3));
    assert_eq!(n.as_deref(), Some("Contest #3 deleted"));
    assert!(matches!(f, FollowUp::Nothing));
    assert!(s.contests.is_empty());
    let (n, _) = s.apply_feed_event(ContestEvent::NewPost(post(1, "x")));
    assert!(n.is_none());
    assert!(s.posts.is_empty());
}
