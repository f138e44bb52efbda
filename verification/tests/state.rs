use aj_web::models::{
    AdminLevel, PrivateUserData, ProblemTestingType, ProblemType, PublicContestConfig,
    PublicProblemConfig, Timestamp,
};

fn ts(secs: i64, nanos: u32) -> Timestamp {
    Timestamp { secs, nanos }
}
use aj_web::state::{binary_search_finds, contest_status, contest_status_at, ContestStatus, GlobalState};

fn contest(owner: Option<i64>, co_authors: Vec<i64>, upsolving: bool) -> PublicContestConfig {
    PublicContestConfig {
        id: 1,
        owner_id: owner,
        owner_login: None,
        name_ru: String::new(),
        name_en: String::new(),
        starts_at: ts(100, 500),
        finishes_at: ts(200, 500),
        statements_url_ru: String::new(),
        statements_url_en: String::new(),
        editorial_url_ru: String::new(),
        editorial_url_en: String::new(),
        hidden: false,
        upsolving_enabled: upsolving,
        solutions_hidden: false,
        leaderboard_hidden: false,
        co_authors,
        created_at: ts(0, 0),
    }
}

fn with_user(id: i64, level: AdminLevel) -> GlobalState {
    let mut s = GlobalState::new(Some("t".to_string()), "ru".to_string());
    s.user = Some(PrivateUserData { id, login: "u".to_string(), admin_level: level, created_at: ts(0, 0) });
    s
}

#[test]
fn fresh_state() {
    let s = GlobalState::new(None, "en".to_string());
    assert!(s.token.is_none());
    assert!(s.user.is_none());
    assert!(s.contests_is_all);
    assert!(!s.all_submissions);
    assert!(s.contests.is_empty());
    assert_eq!(s.language, "en");
    assert!(!s.is_admin());
    assert!(!s.is_owner());
}

#[test]
fn status_over_time() {
    let c = contest(None, vec![], false);
    assert_eq!(contest_status_at(ts(99, 900), &c), ContestStatus::BeforeStart);
    assert_eq!(contest_status_at(ts(100, 499), &c), ContestStatus::BeforeStart);
    assert_eq!(contest_status_at(ts(100, 500), &c), ContestStatus::Ongoing);
    assert_eq!(contest_status_at(ts(200, 500), &c), ContestStatus::Ongoing);
    assert_eq!(contest_status_at(ts(200, 501), &c), ContestStatus::Finished);
    assert_eq!(contest_status_at(ts(201, 0), &c), ContestStatus::Finished);
    let u = contest(None, vec![], true);
    assert_eq!(contest_status_at(ts(200, 501), &u), ContestStatus::Upsolving);
    assert_eq!(contest_status(&u), ContestStatus::Upsolving);
}

#[test]
fn status_colors() {
    assert_eq!(ContestStatus::Ongoing.css_bg(), "bg-success");
    assert_eq!(ContestStatus::Finished.css_text(), "text-primary-content");
}

#[test]
fn roles() {
    assert!(with_user(1, AdminLevel::Admin).is_admin());
    assert!(!with_user(1, AdminLevel::Admin).is_owner());
    assert!(with_user(1, AdminLevel::Owner).is_admin());
    assert!(!with_user(1, AdminLevel::User).is_admin());
}

#[test]
fn contest_rights() {
    let c = contest(Some(2), vec![3, 5, 8], false);
    assert!(with_user(2, AdminLevel::User).can_manage_contest(&c));
    assert!(!with_user(3, AdminLevel::Admin).can_manage_contest(&c));
    assert!(with_user(9, AdminLevel::Owner).can_manage_contest(&c));
    assert!(with_user(5, AdminLevel::User).can_enter_contest(&c));
    assert!(with_user(2, AdminLevel::User).can_enter_contest(&c));
    assert!(!with_user(4, AdminLevel::Admin).can_enter_contest(&c));
    assert!(!GlobalState::new(None, "ru".to_string()).can_enter_contest(&c));
}

#[test]
fn problem_rights() {
    let p = PublicProblemConfig {
        id: 1,
        owner_id: Some(7),
        owner_login: None,
        name_ru: String::new(),
        name_en: String::new(),
        problem_type: ProblemType::Default,
        testing_type: ProblemTestingType::Ioi,
        contest_id: 1,
        index: 0,
        time_limit_ms: 1,
        memory_limit_mb: 1,
        subgroups: vec![],
        created_at: ts(0, 0),
    };
    assert!(with_user(7, AdminLevel::User).can_manage_problem(&p));
    assert!(!with_user(8, AdminLevel::Admin).can_manage_problem(&p));
    assert!(with_user(8, AdminLevel::Owner).can_manage_problem(&p));
}

#[test]
fn binary_search_like_slices() {
    let cases: Vec<(Vec<i64>, i64)> = vec![
        (vec![], 1),
        (vec![1], 1),
        (vec![1, 3, 5, 7], 5),
        (vec![1, 3, 5, 7], 4),
        (vec![1, 3, 5, 7], 8),
        (vec![5, 1, 9], 1),
        (vec![2, 2, 2], 2),
    ];
    for (v, x) in cases {
        assert_eq!(binary_search_finds(&v, x), v.binary_search(&x).is_ok(), "{v:?} {x}");
    }
}
