use aj_web::models::{
    AdminLevel, ContestPost, Language, PrivateUserData, ProblemTestingType, ProblemType,
    PublicContestConfig, PublicProblemConfig, Subgroup, SubgroupType, TestingVerdict, Timestamp,
};
use aj_web::state::{ContestStatus, GlobalState};
use aj_web::views::{
    admin_badge_color, archive_label, avatar_initial, code_block, contest_card_view, is_full_score,
    leaderboard_empty_text, limit_text, numbered_title_text, post_title_and_text,
    problem_card_title, problem_type_notice, profile_banner, show_download, solution_file_name,
    status_label, subgroup_view, verdict_badge, yes_no, CardValue,
};

fn contest() -> PublicContestConfig {
    PublicContestConfig {
        id: 12,
        owner_id: Some(2),
        owner_login: Some("boss".to_string()),
        name_ru: "Кубок".to_string(),
        name_en: "Cup".to_string(),
        starts_at: Timestamp { secs: 1_000, nanos: 0 },
        finishes_at: Timestamp { secs: 8_200, nanos: 0 },
        statements_url_ru: "https://ru/s".to_string(),
        statements_url_en: "https://en/s".to_string(),
        editorial_url_ru: String::new(),
        editorial_url_en: "https://en/e".to_string(),
        hidden: false,
        upsolving_enabled: false,
        solutions_hidden: true,
        leaderboard_hidden: false,
        co_authors: vec![5],
        created_at: Timestamp { secs: 0, nanos: 0 },
    }
}

fn state(lang: &str, user: Option<(i64, AdminLevel)>) -> GlobalState {
    let mut s = GlobalState::new(Some("t".to_string()), lang.to_string());
    s.user = user.map(|(id, admin_level)| PrivateUserData {
        id,
        login: "me".to_string(),
        admin_level,
        created_at: Timestamp { secs: 0, nanos: 0 },
    });
    s
}

fn problem(owner: Option<i64>) -> PublicProblemConfig {
    PublicProblemConfig {
        id: 77,
        owner_id: owner,
        owner_login: None,
        name_ru: "Сумма".to_string(),
        name_en: String::new(),
        problem_type: ProblemType::Interactive,
        testing_type: ProblemTestingType::Ioi,
        contest_id: 12,
        index: 1,
        time_limit_ms: 1000,
        memory_limit_mb: 256,
        subgroups: vec![],
        created_at: Timestamp { secs: 0, nanos: 0 },
    }
}

#[test]
fn card_before_start() {
    let c = contest();
    let v = contest_card_view(&state("en", Some((9, AdminLevel::User))), &c, Timestamp { secs: 0, nanos: 0 }, true, false);
    assert_eq!(v.title, "#12 Cup");
    assert_eq!(v.status, ContestStatus::BeforeStart);
    assert!(v.has_url);
    assert_eq!(
        v.links,
        vec![
            ("statements".to_string(), "https://en/s".to_string()),
            ("editorial".to_string(), "https://en/e".to_string())
        ]
    );
    assert_eq!(v.owner, Some((2, "boss".to_string())));
    assert!(!v.show_enter);
    assert!(!v.can_manage);
    assert_eq!(v.time_rows.len(), 2);
    assert_eq!(v.time_rows[0].0, "start");
    assert!(matches!(v.time_rows[0].1, CardValue::Instant(t) if t == c.starts_at));
    assert!(matches!(&v.time_rows[1].1, CardValue::Text(s) if s == "2 h"));
}

#[test]
fn card_for_co_author_and_running() {
    let c = contest();
    let co = state("ru", Some((5, AdminLevel::User)));
    let before = contest_card_view(&co, &c, Timestamp { secs: 0, nanos: 0 }, true, true);
    assert!(before.show_enter);
    assert_eq!(before.time_rows.len(), 1);
    assert_eq!(before.time_rows[0].0, "продолжительность");
    let now = Timestamp { secs: c.starts_at.secs + 3_605, nanos: 0 };
    let running = contest_card_view(&co, &c, now, false, true);
    assert_eq!(running.status, ContestStatus::Ongoing);
    assert!(!running.show_enter);
    assert_eq!(running.links, vec![("условия задач".to_string(), "https://ru/s".to_string())]);
    assert_eq!(running.time_rows[1].0, "осталось");
    assert!(matches!(&running.time_rows[1].1, CardValue::Text(s) if s == "59 мин 55 с"));
    let owner = contest_card_view(&state("ru", Some((2, AdminLevel::User))), &c, now, true, false);
    assert!(owner.can_manage);
    assert!(owner.show_enter);
}

#[test]
fn small_labels() {
    assert_eq!(yes_no("en", true), "yes");
    assert_eq!(yes_no("ru", false), "нет");
    assert_eq!(numbered_title_text(-3, "x"), "#-3 x");
    assert_eq!(status_label("ru", ContestStatus::Upsolving), "дорешка");
    assert_eq!(limit_text(1000, "мс"), "1000мс");
    assert_eq!(archive_label("en", None), "pick archive");
    assert_eq!(archive_label("ru", Some("p.zip")), "выбрать архив (p.zip)");
}

#[test]
fn problem_cards() {
    let p = problem(Some(3));
    assert_eq!(problem_card_title("en", &p, true), "#77 Сумма");
    assert_eq!(problem_card_title("en", &p, false), "#2 Сумма");
    assert_eq!(
        problem_type_notice("en", &ProblemType::Interactive),
        Some("This is an interactive problem.".to_string())
    );
    assert_eq!(problem_type_notice("ru", &ProblemType::Default), None);
    assert_eq!(problem_type_notice("ru", &ProblemType::InteractiveRunTwice), None);
}

#[test]
fn subgroup_cards() {
    let main = Subgroup {
        subgroup_type: SubgroupType::Main,
        tests: vec![1, 2, 3],
        score: Some("40".to_string()),
        score_per_test: None,
        depends_on: vec![0, 2],
    };
    let v = subgroup_view("en", &main);
    assert_eq!(v.type_text, "main");
    assert_eq!(v.tests, "1, 2, 3");
    assert_eq!(v.depends_on, "0, 2");
    assert_eq!(v.score, Some("40".to_string()));
    let sample = Subgroup {
        subgroup_type: SubgroupType::Sample,
        tests: vec![],
        score: Some("0".to_string()),
        score_per_test: Some("1".to_string()),
        depends_on: vec![],
    };
    let v = subgroup_view("ru", &sample);
    assert_eq!(v.type_text, "примеры");
    assert_eq!(v.tests, "");
    assert_eq!(v.depends_on, "-");
    assert_eq!(v.score, None);
    assert_eq!(v.score_per_test, Some("1".to_string()));
}

#[test]
fn badges() {
    assert_eq!(
        verdict_badge("en", &TestingVerdict::Accepted),
        ("badge badge-success px-4 rounded-lg whitespace-nowrap", "Ok".to_string(), false)
    );
    assert_eq!(verdict_badge("en", &TestingVerdict::Pending).2, true);
    assert_eq!(verdict_badge("en", &TestingVerdict::Fail).1, "Bug");
    assert_eq!(admin_badge_color(&AdminLevel::Owner), "#ffbf11");
    assert_eq!(profile_banner(&AdminLevel::Admin), "h-24 bg-gradient-to-r from-secondary to-accent");
}

#[test]
fn avatars_upper_case() {
    assert_eq!(avatar_initial("alice"), "A");
    assert_eq!(avatar_initial("ёж"), "Ё");
    assert_eq!(avatar_initial("ßig"), "SS");
    assert_eq!(avatar_initial(""), "");
    assert_eq!(avatar_initial("9lives"), "9");
}

#[test]
fn solutions() {
    assert_eq!(solution_file_name(&Language::Cpp), "solution.cpp");
    assert_eq!(solution_file_name(&Language::Unknown), "solution.!!");
    assert_eq!(code_block(&Language::Rust, "fn main() {}"), "```rs\nfn main() {}\n```");
    assert_eq!(code_block(&Language::Unknown, "x"), "```\nx\n```");
}

#[test]
fn download_rights() {
    let p = problem(Some(3));
    let s = state("ru", Some((3, AdminLevel::User)));
    assert!(show_download(&s, &p, false, true));
    let other = state("ru", Some((4, AdminLevel::User)));
    assert!(!show_download(&other, &p, false, true));
    assert!(show_download(&other, &p, false, false));
    assert!(show_download(&other, &p, true, true));
}

#[test]
fn posts_and_leaderboards() {
    let post = ContestPost {
        id: 1,
        owner_id: 1,
        owner_login: "a".to_string(),
        contest_id: 1,
        title_ru: "Т".to_string(),
        title_en: "T".to_string(),
        text_ru: "текст".to_string(),
        text_en: String::new(),
        created_at: Timestamp { secs: 0, nanos: 0 },
    };
    assert_eq!(post_title_and_text("en", &post), ("T".to_string(), "текст".to_string()));
    assert_eq!(leaderboard_empty_text("en", true), "Leaderboard is empty");
    assert_eq!(
        leaderboard_empty_text("ru", false),
        "Таблица лидеров недоступна до конца контеста"
    );
    assert!(is_full_score(&Some("100".to_string())));
    assert!(!is_full_score(&Some("100.0".to_string())));
    assert!(!is_full_score(&None));
}
