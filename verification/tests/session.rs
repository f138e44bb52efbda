use aj_web::models::{
    AdminLevel, ContestPost, PrivateUserData, ProblemQuestion, ProblemTestingType, ProblemType,
    PublicContestConfig, PublicProblemConfig, Timestamp,
};
use aj_web::errors::AdaJudgeError;
use aj_web::navigation::{redirect, Page};
use aj_web::session::{ContestFetch, HomeFetches};
use aj_web::state::GlobalState;

fn user(id: i64, level: AdminLevel) -> PrivateUserData {
    PrivateUserData { id, login: format!("u{id}"), admin_level: level, created_at: Timestamp { secs: 0, nanos: 0 } }
}

fn contest(id: i64, owner: Option<i64>) -> PublicContestConfig {
    PublicContestConfig {
        id,
        owner_id: owner,
        owner_login: None,
        name_ru: "К".to_string(),
        name_en: "C".to_string(),
        starts_at: Timestamp { secs: 0, nanos: 0 },
        finishes_at: Timestamp { secs: 0, nanos: 1 },
        statements_url_ru: String::new(),
        statements_url_en: String::new(),
        editorial_url_ru: String::new(),
        editorial_url_en: String::new(),
        hidden: false,
        upsolving_enabled: false,
        solutions_hidden: false,
        leaderboard_hidden: false,
        co_authors: vec![],
        created_at: Timestamp { secs: 0, nanos: 0 },
    }
}

fn problem(id: i64, owner: Option<i64>, index: i64) -> PublicProblemConfig {
    PublicProblemConfig {
        id,
        owner_id: owner,
        owner_login: None,
        name_ru: "Сумма".to_string(),
        name_en: "Sum".to_string(),
        problem_type: ProblemType::Default,
        testing_type: ProblemTestingType::Ioi,
        contest_id: 1,
        index,
        time_limit_ms: 1000,
        memory_limit_mb: 256,
        subgroups: vec![],
        created_at: Timestamp { secs: 0, nanos: 0 },
    }
}

fn question(id: i64, owner: i64, problem_id: i64, answer: &str) -> ProblemQuestion {
    ProblemQuestion {
        id,
        owner_id: owner,
        owner_login: "q".to_string(),
        problem_id,
        title: "t".to_string(),
        text: "x".to_string(),
        answer: answer.to_string(),
        created_at: Timestamp { secs: 0, nanos: 0 },
    }
}

fn post(owner: i64) -> ContestPost {
    ContestPost {
        id: 1,
        owner_id: owner,
        owner_login: "p".to_string(),
        contest_id: 1,
        title_ru: String::new(),
        title_en: String::new(),
        text_ru: String::new(),
        text_en: String::new(),
        created_at: Timestamp { secs: 0, nanos: 0 },
    }
}

fn signed_in(u: PrivateUserData) -> GlobalState {
    let mut s = GlobalState::new(Some("tok".to_string()), "ru".to_string());
    s.user = Some(u);
    s
}

#[test]
fn sign_out_forgets_session_only() {
    let mut s = signed_in(user(1, AdminLevel::User));
    s.contests.push(contest(5, None));
    s.sign_out();
    assert!(s.token.is_none());
    assert!(s.user.is_none());
    assert_eq!(s.contests.len(), 1);
    assert_eq!(s.language, "ru");
}

#[test]
fn level_change_follows_own_account() {
    let mut s = signed_in(user(1, AdminLevel::User));
    s.level_changed(2, AdminLevel::Owner);
    assert_eq!(s.user.as_ref().unwrap().admin_level, AdminLevel::User);
    s.level_changed(1, AdminLevel::Admin);
    assert_eq!(s.user.as_ref().unwrap().admin_level, AdminLevel::Admin);
    assert_eq!(s.user.as_ref().unwrap().id, 1);
    assert_eq!(s.token.as_deref(), Some("tok"));
}

#[test]
fn deleting_own_account_signs_out() {
    let mut s = signed_in(user(1, AdminLevel::Owner));
    assert!(!s.account_deleted(9));
    assert!(s.user.is_some());
    assert!(s.account_deleted(1));
    assert!(s.user.is_none());
    assert!(s.token.is_none());
}

#[test]
fn question_rights_by_role() {
    let mut s = signed_in(user(1, AdminLevel::User));
    s.contests.push(contest(10, Some(2)));
    s.contest_problems.push(problem(100, Some(3), 0));
    let q = question(1, 1, 100, "");
    assert_eq!(s.question_rights(10, &q), (false, true));
    let other = question(2, 4, 100, "");
    assert_eq!(s.question_rights(10, &other), (false, false));
    s.user = Some(user(3, AdminLevel::User));
    assert_eq!(s.question_rights(10, &other), (true, true));
    s.user = Some(user(2, AdminLevel::User));
    assert_eq!(s.question_rights(10, &other), (true, true));
    assert_eq!(s.question_rights(11, &other), (false, false));
    s.user = Some(user(8, AdminLevel::Owner));
    assert_eq!(s.question_rights(11, &other), (true, true));
}

#[test]
fn manages_by_id() {
    let mut s = signed_in(user(2, AdminLevel::Admin));
    s.contests.push(contest(10, Some(2)));
    s.contests.push(contest(10, Some(5)));
    s.contest_problems.push(problem(100, Some(5), 0));
    assert!(s.manages_contest_id(10));
    assert!(!s.manages_contest_id(11));
    assert!(!s.manages_problem_id(100));
}

#[test]
fn post_rights() {
    let s = signed_in(user(4, AdminLevel::User));
    assert!(s.can_manage_post(&post(4)));
    assert!(!s.can_manage_post(&post(5)));
    let o = signed_in(user(4, AdminLevel::Owner));
    assert!(o.can_manage_post(&post(5)));
    let anon = GlobalState::new(None, "ru".to_string());
    assert!(anon.can_manage_post(&post(0)));
    assert!(!anon.can_manage_post(&post(1)));
}

#[test]
fn answered_questions_counted() {
    let mut s = GlobalState::new(None, "en".to_string());
    assert_eq!(s.answered_count(), 0);
    s.questions.push(question(1, 1, 1, ""));
    s.questions.push(question(2, 1, 1, "yes"));
    s.questions.push(question(3, 1, 1, "no"));
    assert_eq!(s.answered_count(), 2);
}

#[test]
fn question_problem_names() {
    let mut s = GlobalState::new(None, "en".to_string());
    s.contest_problems.push(problem(100, None, 2));
    assert_eq!(s.question_problem_name("en", 100), "#3 Sum");
    assert_eq!(s.question_problem_name("ru", 100), "#3 Сумма");
    assert_eq!(s.question_problem_name("en", 5), "?");
}

#[test]
fn problem_positions() {
    let mut s = GlobalState::new(None, "ru".to_string());
    s.contest_problems.push(problem(100, None, 0));
    s.contest_problems.push(problem(200, None, 1));
    assert_eq!(s.problem_id_at(1), Some(200));
    assert_eq!(s.problem_id_at(2), None);
}

#[test]
fn home_fetch_plan() {
    let s = signed_in(user(1, AdminLevel::Admin));
    assert_eq!(
        s.home_fetches(true, true, true, true),
        HomeFetches { contests: Some(true), problems: true, users: false }
    );
    assert_eq!(
        s.home_fetches(false, false, false, true),
        HomeFetches { contests: None, problems: false, users: false }
    );
    let o = signed_in(user(1, AdminLevel::Owner));
    assert_eq!(
        o.home_fetches(false, true, false, true),
        HomeFetches { contests: Some(false), problems: false, users: true }
    );
}

#[test]
fn profile_links() {
    let s = signed_in(user(1, AdminLevel::Admin));
    assert_eq!(s.profile_page(9), Page::UserProfile { user_id: 9 });
    let o = signed_in(user(1, AdminLevel::Owner));
    assert_eq!(o.profile_page(9), Page::UserPrivateProfile { user_id: 9 });
}

#[test]
fn refused_session_signs_out() {
    let mut s = signed_in(user(1, AdminLevel::User));
    let msg = s.follow_error(&AdaJudgeError::Forbidden);
    assert_eq!(msg, "Доступ запрещён");
    assert!(s.token.is_some());
    let msg = s.follow_error(&AdaJudgeError::InvalidJwt);
    assert_eq!(msg, "Неверный токен");
    assert!(s.token.is_none());
    assert!(s.user.is_none());
    assert_eq!(redirect(&Page::Home, s.token.is_some()), Some(Page::Welcome));
}

#[test]
fn contest_loading_plan() {
    use_plan_helpers();
}

fn plan(s: &GlobalState, index: usize, all: bool, force: bool) -> Vec<ContestFetch> {
    let mut out = Vec::new();
    let mut stage = 0u8;
    while let Some((f, next)) = s.contest_load_step(10, index, all, force, stage) {
        assert!(next > stage);
        out.push(f);
        stage = next;
    }
    out
}

fn use_plan_helpers() {
    let mut s = signed_in(user(2, AdminLevel::User));
    assert_eq!(
        plan(&s, 0, false, true),
        vec![
            ContestFetch::Problems,
            ContestFetch::Leaderboard,
            ContestFetch::Posts,
            ContestFetch::Contest,
            ContestFetch::Questions { all: false }
        ]
    );
    s.contest_problems.push(problem(100, None, 0));
    s.contests.push(contest(10, Some(2)));
    assert_eq!(
        plan(&s, 0, true, true),
        vec![
            ContestFetch::Problems,
            ContestFetch::Submissions { problem_id: 100, all: true },
            ContestFetch::Leaderboard,
            ContestFetch::Posts,
            ContestFetch::Contest,
            ContestFetch::Questions { all: true }
        ]
    );
    assert_eq!(plan(&s, 0, false, false), vec![ContestFetch::Submissions { problem_id: 100, all: false }]);
    assert_eq!(plan(&s, 3, false, false), vec![]);
}
