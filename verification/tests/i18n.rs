use aj_web::errors::{
    describe_error, ends_session, AdaJudgeError, AuthError, ContestError, Deletion, InvalidProblem,
};
use aj_web::i18n::{
    admin_level_text, language_text, problem_title, problem_type_text, status_text_before_start,
    status_text_finished, status_text_ongoing, status_text_upsolving, subgroup_verdict_text,
    test_verdict_text, testing_type_text, total_verdict_text, tr, tr_ru,
};
use aj_web::models::{AdminLevel, Language, ProblemTestingType, ProblemType, TestingVerdict, Verdict};

#[test]
fn tr_picks_english_only_for_en() {
    assert_eq!(tr("en", "да", "yes"), "yes");
    assert_eq!(tr("ru", "да", "yes"), "да");
    assert_eq!(tr("EN", "да", "yes"), "да");
    assert_eq!(tr("", "да", "yes"), "да");
    assert_eq!(tr_ru("en", "только"), "только");
}

#[test]
fn titles_fall_back_to_russian() {
    assert_eq!(problem_title("en", "Сумма", "Sum"), "Sum");
    assert_eq!(problem_title("en", "Сумма", ""), "Сумма");
    assert_eq!(problem_title("ru", "Сумма", "Sum"), "Сумма");
}

#[test]
fn status_texts() {
    assert_eq!(status_text_before_start(), "до начала");
    assert_eq!(status_text_ongoing(), "идёт сейчас");
    assert_eq!(status_text_finished(), "завершён");
    assert_eq!(status_text_upsolving(), "дорешка");
}

#[test]
fn level_and_language_texts() {
    assert_eq!(admin_level_text("ru", &AdminLevel::Owner), "владелец");
    assert_eq!(admin_level_text("en", &AdminLevel::Admin), "admin");
    assert_eq!(language_text("ru", &Language::Cpp), "C++");
    assert_eq!(language_text("en", &Language::FreePascal), "Pascal");
    assert_eq!(language_text("ru", &Language::Unknown), "Неизвестно");
    assert_eq!(language_text("en", &Language::Unknown), "Unknown");
}

#[test]
fn problem_texts() {
    assert_eq!(problem_type_text("ru", &ProblemType::RunTwice), "Запусти дважды");
    assert_eq!(
        problem_type_text("en", &ProblemType::RunTwiceSecondInteractive),
        "Run twice, second interactive"
    );
    assert_eq!(testing_type_text("en", &ProblemTestingType::IoiMergeSubgroups), "IOI (merge subgroups)");
    assert_eq!(testing_type_text("ru", &ProblemTestingType::Ioi), "IOI (группы)");
}

#[test]
fn verdict_texts() {
    assert_eq!(total_verdict_text("ru", &TestingVerdict::Accepted), "полное решение");
    assert_eq!(total_verdict_text("en", &TestingVerdict::CompilationError), "compilation error");
    assert_eq!(subgroup_verdict_text("ru", &Verdict::Accepted), "пройдена");
    assert_eq!(subgroup_verdict_text("en", &Verdict::TimeLimitExceeded), "time limit exceeded");
    assert_eq!(test_verdict_text("ru", &Verdict::Accepted), "пройден");
    assert_eq!(test_verdict_text("ru", &Verdict::Skipped), "пропущен");
    assert_eq!(test_verdict_text("ru", &Verdict::WrongAnswer), "неправильный ответ");
}

#[test]
fn error_messages() {
    assert_eq!(describe_error("ru", &AdaJudgeError::NotFound), "Не найдено");
    assert_eq!(describe_error("en", &AdaJudgeError::Internal), "Internal error");
    assert_eq!(
        describe_error(
            "ru",
            &AdaJudgeError::InvalidProblem(InvalidProblem::SubgroupConflict { subgroup: 2, depends_on: 5 })
        ),
        "Группа 2 зависит от группы 5"
    );
    assert_eq!(
        describe_error(
            "en",
            &AdaJudgeError::InvalidProblem(InvalidProblem::InvalidSubgroupScoring { subgroup: 1 })
        ),
        "Subgroup 1: both score and score_per_test are set (or neither)"
    );
    assert_eq!(
        describe_error("en", &AdaJudgeError::InvalidProblem(InvalidProblem::MissingConfig)),
        "Problem config not found"
    );
    assert_eq!(
        describe_error(
            "ru",
            &AdaJudgeError::InvalidProblem(InvalidProblem::TomlError { message: "bad".to_string() })
        ),
        "Ошибка TOML: bad"
    );
    assert_eq!(
        describe_error("en", &AdaJudgeError::InvalidProblem(InvalidProblem::OwnerId)),
        "Invalid or missing owner"
    );
    assert_eq!(
        describe_error("ru", &AdaJudgeError::InvalidProblem(InvalidProblem::CheckerCompilationError)),
        "Ошибка компиляции чекера"
    );
    assert_eq!(describe_error("en", &AdaJudgeError::InvalidJwt), "Invalid token");
    assert_eq!(
        describe_error("ru", &AdaJudgeError::Auth(AuthError::InvalidLoginOrPassword)),
        "Неверный логин или пароль"
    );
    assert_eq!(describe_error("en", &AdaJudgeError::Auth(AuthError::AlreadyExists)), "User already exists");
    assert_eq!(
        describe_error("en", &AdaJudgeError::Auth(AuthError::PasswordsDontMatch)),
        "Passwords do not match"
    );
    assert_eq!(
        describe_error("en", &AdaJudgeError::Deletion(Deletion::InvalidLoginOrPassword)),
        "Invalid login or password"
    );
    assert_eq!(
        describe_error("ru", &AdaJudgeError::Deletion(Deletion::MissingDeletionConfirmation)),
        "Нет подтверждения удаления"
    );
    assert_eq!(describe_error("ru", &AdaJudgeError::Forbidden), "Доступ запрещён");
    assert_eq!(
        describe_error("en", &AdaJudgeError::Contest(ContestError::Time)),
        "Start time is >= finish time"
    );
    assert_eq!(describe_error("en", &AdaJudgeError::BadRequest), "Bad request");
}

#[test]
fn only_invalid_token_ends_session() {
    assert!(ends_session(&AdaJudgeError::InvalidJwt));
    assert!(!ends_session(&AdaJudgeError::Forbidden));
    assert!(!ends_session(&AdaJudgeError::NotFound));
}
