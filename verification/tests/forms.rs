use aj_web::forms::{
    admin_level_from_index, admin_level_index, answer_valid, deletion_allowed, duration_field,
    initial_seconds, language_from_index, number_text, parse_co_authors, post_request_valid,
    question_can_submit, registration_valid, create_disabled, selection_index, submit_disabled, ContestForm,
};
use aj_web::models::{AdminLevel, Language, PublicContestConfig, Timestamp};

fn ts(secs: i64, nanos: u32) -> Timestamp {
    Timestamp { secs, nanos }
}

fn contest(starts_at: Timestamp, finishes_at: Timestamp, co_authors: Vec<i64>) -> PublicContestConfig {
    PublicContestConfig {
        id: 7,
        owner_id: Some(3),
        owner_login: Some("boss".to_string()),
        name_ru: "Контест".to_string(),
        name_en: "Contest".to_string(),
        starts_at,
        finishes_at,
        statements_url_ru: "https://s.ru".to_string(),
        statements_url_en: String::new(),
        editorial_url_ru: String::new(),
        editorial_url_en: "https://e.en".to_string(),
        hidden: true,
        upsolving_enabled: false,
        solutions_hidden: true,
        leaderboard_hidden: false,
        co_authors,
        created_at: ts(0, 0),
    }
}

#[test]
fn new_contest_form_lasts_two_hours() {
    let f = ContestForm::new(None, ts(1, 0));
    assert_eq!(f.days, "0");
    assert_eq!(f.hours, "2");
    assert_eq!(f.minutes, "0");
    assert_eq!(f.seconds, "0");
    assert_eq!(f.starts_at, ts(1, 0));
    assert_eq!(f.name_ru, "");
    assert_eq!(f.co_authors, "");
    assert!(!f.hidden);
    assert_eq!(f.duration_seconds(), Some(7200));
    assert!(!f.can_submit());
}

#[test]
fn edit_form_splits_duration() {
    // 1 day, 2 hours, 3 minutes, 4 seconds and half a second.
    let secs: i64 = 86400 + 2 * 3600 + 3 * 60 + 4;
    let c = contest(ts(10, 0), ts(10 + secs, 500_000_000), vec![4, 15, 9]);
    let f = ContestForm::new(Some(&c), ts(0, 0));
    assert_eq!(f.days, "1");
    assert_eq!(f.hours, "2");
    assert_eq!(f.minutes, "3");
    assert_eq!(f.seconds, "4");
    assert_eq!(f.name_ru, "Контест");
    assert_eq!(f.name_en, "Contest");
    assert_eq!(f.starts_at, ts(10, 0));
    assert_eq!(f.statements_url_ru, "https://s.ru");
    assert_eq!(f.editorial_url_en, "https://e.en");
    assert!(f.hidden);
    assert!(f.solutions_hidden);
    assert_eq!(f.co_authors, "4,15,9");
    assert_eq!(f.duration_seconds(), Some(secs));
    assert!(f.can_submit());
}

#[test]
fn edit_form_round_trip_keeps_contest() {
    let c = contest(ts(5, 250), ts(3605, 250), vec![-2, 0, 77]);
    let f = ContestForm::new(Some(&c), ts(0, 0));
    let q = f.to_request().unwrap();
    assert_eq!(q.starts_at, c.starts_at);
    assert_eq!(q.finishes_at, c.finishes_at);
    assert_eq!(q.co_authors, c.co_authors);
    assert_eq!(q.name_ru, c.name_ru);
    assert_eq!(q.statements_url_ru, c.statements_url_ru);
    assert_eq!(q.hidden, c.hidden);
    assert_eq!(q.leaderboard_hidden, c.leaderboard_hidden);
}

#[test]
fn finished_before_start_counts_zero() {
    let c = contest(ts(10, 0), ts(1, 0), vec![]);
    assert_eq!(initial_seconds(Some(&c)), 0);
    let f = ContestForm::new(Some(&c), ts(0, 0));
    assert_eq!(f.days, "0");
    assert_eq!(f.seconds, "0");
    assert!(!f.can_submit());
}

#[test]
fn initial_seconds_of_nothing() {
    assert_eq!(initial_seconds(None), 7200);
}

#[test]
fn duration_field_values() {
    assert_eq!(duration_field("12"), 12);
    assert_eq!(duration_field("+7"), 7);
    assert_eq!(duration_field("-5"), 0);
    assert_eq!(duration_field(""), 0);
    assert_eq!(duration_field("1.5"), 0);
    assert_eq!(duration_field(" 3"), 0);
}

#[test]
fn form_duration_adds_fields() {
    let mut f = ContestForm::new(None, ts(0, 0));
    f.days = "2".to_string();
    f.hours = "x".to_string();
    f.minutes = "90".to_string();
    f.seconds = "-1".to_string();
    assert_eq!(f.duration_seconds(), Some(2 * 86400 + 90 * 60));
    f.days = "9223372036854775807".to_string();
    assert_eq!(f.duration_seconds(), None);
    assert!(f.to_request().is_none());
}

#[test]
fn form_needs_a_name_and_a_duration() {
    let mut f = ContestForm::new(None, ts(0, 0));
    assert!(!f.is_named());
    f.name_en = "Cup".to_string();
    assert!(f.is_named());
    assert!(f.can_submit());
    f.hours = "0".to_string();
    assert!(!f.can_submit());
}

#[test]
fn request_finishes_after_duration() {
    let mut f = ContestForm::new(None, ts(0, 1_000_000));
    f.name_ru = "Кубок".to_string();
    f.minutes = "1".to_string();
    f.hours = "0".to_string();
    f.co_authors = " 5, x,,-3 ,7".to_string();
    let q = f.to_request().unwrap();
    assert_eq!(q.starts_at, ts(0, 1_000_000));
    assert_eq!(q.finishes_at, ts(60, 1_000_000));
    assert_eq!(q.co_authors, vec![5, -3, 7]);
    assert_eq!(q.name_ru, "Кубок");
}

#[test]
fn co_authors_parse_pieces() {
    assert_eq!(parse_co_authors(""), Vec::<i64>::new());
    assert_eq!(parse_co_authors("1,2,3"), vec![1, 2, 3]);
    assert_eq!(parse_co_authors(" 10 ,abc, 20"), vec![10, 20]);
    assert_eq!(parse_co_authors(",,"), Vec::<i64>::new());
    assert_eq!(parse_co_authors("+4"), vec![4]);
}

#[test]
fn number_text_writes_decimal() {
    assert_eq!(number_text(0), "0");
    assert_eq!(number_text(-42), "-42");
    assert_eq!(number_text(i64::MIN), "-9223372036854775808");
}

#[test]
fn post_form_needs_one_language() {
    assert!(post_request_valid("t", "x", "", ""));
    assert!(post_request_valid("", "", "t", "x"));
    assert!(!post_request_valid("t", "", "", "x"));
    assert!(!post_request_valid("", "", "", ""));
}

#[test]
fn registration_needs_matching_passwords() {
    assert!(registration_valid("me", "pw", "pw"));
    assert!(!registration_valid("me", "pw", "pW"));
    assert!(!registration_valid("", "pw", "pw"));
    assert!(!registration_valid("me", "", ""));
}

#[test]
fn deletion_needs_confirmation() {
    assert!(deletion_allowed("root", "pw", true));
    assert!(!deletion_allowed("root", "pw", false));
    assert!(!deletion_allowed("", "pw", true));
    assert!(!deletion_allowed("root", "", true));
}

#[test]
fn answers_and_questions() {
    assert!(answer_valid("yes"));
    assert!(!answer_valid(""));
    assert!(question_can_submit("t", "x", 2));
    assert!(!question_can_submit("t", "x", 0));
    assert!(!question_can_submit("", "x", 1));
}

#[test]
fn send_button_rules() {
    assert!(submit_disabled(true, false, "", true));
    assert!(!submit_disabled(false, false, "", true));
    assert!(submit_disabled(false, false, "code", false));
    assert!(submit_disabled(false, true, " \n\t ", true));
    assert!(!submit_disabled(false, true, "  x ", false));
}

#[test]
fn language_positions() {
    assert_eq!(language_from_index(0), Language::Rust);
    assert_eq!(language_from_index(1), Language::C);
    assert_eq!(language_from_index(2), Language::Cpp);
    assert_eq!(language_from_index(3), Language::Go);
    assert_eq!(language_from_index(4), Language::Python);
    assert_eq!(language_from_index(5), Language::FreePascal);
    assert_eq!(language_from_index(99), Language::FreePascal);
}

#[test]
fn admin_level_positions_round_trip() {
    for level in [AdminLevel::User, AdminLevel::Admin, AdminLevel::Owner] {
        assert_eq!(admin_level_from_index(admin_level_index(&level)), level);
    }
    assert_eq!(admin_level_index(&AdminLevel::Admin), 1);
    assert_eq!(admin_level_from_index(7), AdminLevel::Owner);
}

#[test]
fn selection_positions() {
    assert_eq!(selection_index("3"), 3);
    assert_eq!(selection_index("abc"), 0);
    assert_eq!(selection_index("-1"), 0);
    assert_eq!(selection_index(""), 0);
}

#[test]
fn duration_under_a_second_is_zero() {
    // Half a nanosecond short of a whole second: chrono counts zero whole seconds.
    let c = contest(ts(100, 500), ts(101, 400), vec![]);
    assert_eq!(initial_seconds(Some(&c)), 0);
    let f = ContestForm::new(Some(&c), ts(0, 0));
    assert_eq!(f.seconds, "0");
    assert!(!f.can_submit());
}

#[test]
fn finish_leaves_a_leap_second() {
    // 23:59:60.5 UTC on the first day after the epoch, plus one minute.
    let mut f = ContestForm::new(None, ts(86_399, 1_500_000_000));
    f.name_en = "Leap".to_string();
    f.hours = "0".to_string();
    f.minutes = "1".to_string();
    let q = f.to_request().unwrap();
    assert_eq!(q.starts_at, ts(86_399, 1_500_000_000));
    assert_eq!(q.finishes_at, ts(86_459, 500_000_000));
}

#[test]
fn duration_beyond_chrono_is_refused() {
    let mut f = ContestForm::new(None, ts(0, 0));
    f.name_en = "Long".to_string();
    f.hours = "0".to_string();
    f.seconds = "9223372036854776".to_string();
    assert!(f.can_submit());
    assert!(f.to_request().is_none());
}

#[test]
fn create_button_needs_an_archive() {
    assert!(create_disabled(true, true));
    assert!(create_disabled(false, false));
    assert!(!create_disabled(false, true));
}
