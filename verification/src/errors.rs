//! The errors that the backend reports, and how they are told to the user.
use vstd::prelude::*;
use vstd::string::*;
use crate::i18n::{tr, tr_spec};
use crate::text::{decimal_nat, push_decimal_u64, str_eq};

verus! {

/// What is wrong with an uploaded problem.
#[derive(Clone, Debug)]
pub enum InvalidProblem {
    SubgroupConflict { subgroup: usize, depends_on: usize },
    InvalidSubgroupScoring { subgroup: usize },
    MissingConfig,
    TomlError { message: String },
    OwnerId,
    CheckerCompilationError,
}

/// Why signing in or up failed.
#[derive(Clone, Copy, Debug, PartialEq, Eq, Structural)]
pub enum AuthError {
    InvalidLoginOrPassword,
    AlreadyExists,
    PasswordsDontMatch,
}

/// Why a deletion was refused.
#[derive(Clone, Copy, Debug, PartialEq, Eq, Structural)]
pub enum Deletion {
    InvalidLoginOrPassword,
    MissingDeletionConfirmation,
}

/// What is wrong with a contest.
#[derive(Clone, Copy, Debug, PartialEq, Eq, Structural)]
pub enum ContestError {
    Time,
}

/// An error reported by the backend.
#[derive(Clone, Debug)]
pub enum AdaJudgeError {
    NotFound,
    Internal,
    InvalidProblem(InvalidProblem),
    InvalidJwt,
    Auth(AuthError),
    Deletion(Deletion),
    Forbidden,
    Contest(ContestError),
    BadRequest,
}

/// The message shown for an error.
pub open spec fn describe_error_spec(lang: Seq<char>, e: AdaJudgeError) -> Seq<char> {
    match e {
        AdaJudgeError::NotFound => tr_spec(lang, "Не найдено"@, "Not found"@),
        AdaJudgeError::Internal => tr_spec(lang, "Внутренняя ошибка"@, "Internal error"@),
        AdaJudgeError::InvalidProblem(p) => match p {
            InvalidProblem::SubgroupConflict { subgroup, depends_on } => tr_spec(
                lang,
                "Группа "@ + decimal_nat(subgroup as nat) + " зависит от группы "@ + decimal_nat(
                    depends_on as nat,
                ),
                "Subgroup "@ + decimal_nat(subgroup as nat) + " depends on subgroup "@
                    + decimal_nat(depends_on as nat),
            ),
            InvalidProblem::InvalidSubgroupScoring { subgroup } => tr_spec(
                lang,
                "Группа "@ + decimal_nat(subgroup as nat)
                    + ": заданы и score, и score_per_test (или ни одно)"@,
                "Subgroup "@ + decimal_nat(subgroup as nat)
                    + ": both score and score_per_test are set (or neither)"@,
            ),
            InvalidProblem::MissingConfig => tr_spec(
                lang,
                "Конфигурация задачи не найдена"@,
                "Problem config not found"@,
            ),
            InvalidProblem::TomlError { message } => tr_spec(
                lang,
                "Ошибка TOML: "@ + message@,
                "TOML error: "@ + message@,
            ),
            InvalidProblem::OwnerId => tr_spec(
                lang,
                "Неверный или отсутствующий владелец"@,
                "Invalid or missing owner"@,
            ),
            InvalidProblem::CheckerCompilationError => tr_spec(
                lang,
                "Ошибка компиляции чекера"@,
                "Checker compilation error"@,
            ),
        },
        AdaJudgeError::InvalidJwt => tr_spec(lang, "Неверный токен"@, "Invalid token"@),
        AdaJudgeError::Auth(a) => match a {
            AuthError::InvalidLoginOrPassword => tr_spec(
                lang,
                "Неверный логин или пароль"@,
                "Invalid login or password"@,
            ),
            AuthError::AlreadyExists => tr_spec(
                lang,
                "Пользователь уже существует"@,
                "User already exists"@,
            ),
            AuthError::PasswordsDontMatch => tr_spec(
                lang,
                "Пароли не совпадают"@,
                "Passwords do not match"@,
            ),
        },
        AdaJudgeError::Deletion(d) => match d {
            Deletion::InvalidLoginOrPassword => tr_spec(
                lang,
                "Неверный логин или пароль"@,
                "Invalid login or password"@,
            ),
            Deletion::MissingDeletionConfirmation => tr_spec(
                lang,
                "Нет подтверждения удаления"@,
                "Missing deletion confirmation"@,
            ),
        },
        AdaJudgeError::Forbidden => tr_spec(lang, "Доступ запрещён"@, "Forbidden"@),
        AdaJudgeError::Contest(c) => match c {
            ContestError::Time => tr_spec(
                lang,
                "Время начала >= времени конца"@,
                "Start time is >= finish time"@,
            ),
        },
        AdaJudgeError::BadRequest => tr_spec(lang, "Неверный запрос"@, "Bad request"@),
    }
}

/// The message shown for a backend error, in the interface language `lang`.
pub fn describe_error(lang: &str, error: &AdaJudgeError) -> (r: String)
    ensures
        r@ == describe_error_spec(lang@, *error),
{
    match error {
        AdaJudgeError::NotFound => tr(lang, "Не найдено", "Not found"),
        AdaJudgeError::Internal => tr(lang, "Внутренняя ошибка", "Internal error"),
        AdaJudgeError::InvalidProblem(problem) => match problem {
            InvalidProblem::SubgroupConflict { subgroup, depends_on } => {
                if str_eq(lang, "en") {
                    let mut s = String::from_str("Subgroup ");
                    push_decimal_u64(&mut s, *subgroup as u64);
                    s.append(" depends on subgroup ");
                    push_decimal_u64(&mut s, *depends_on as u64);
                    s
                } else {
                    let mut s = String::from_str("Группа ");
                    push_decimal_u64(&mut s, *subgroup as u64);
                    s.append(" зависит от группы ");
                    push_decimal_u64(&mut s, *depends_on as u64);
                    s
                }
            },
            InvalidProblem::InvalidSubgroupScoring { subgroup } => {
                if str_eq(lang, "en") {
                    let mut s = String::from_str("Subgroup ");
                    push_decimal_u64(&mut s, *subgroup as u64);
                    s.append(": both score and score_per_test are set (or neither)");
                    s
                } else {
                    let mut s = String::from_str("Группа ");
                    push_decimal_u64(&mut s, *subgroup as u64);
                    s.append(": заданы и score, и score_per_test (или ни одно)");
                    s
                }
            },
            InvalidProblem::MissingConfig => tr(
                lang,
                "Конфигурация задачи не найдена",
                "Problem config not found",
            ),
            InvalidProblem::TomlError { message } => {
                if str_eq(lang, "en") {
                    String::from_str("TOML error: ").concat(message.as_str())
                } else {
                    String::from_str("Ошибка TOML: ").concat(message.as_str())
                }
            },
            InvalidProblem::OwnerId => tr(
                lang,
                "Неверный или отсутствующий владелец",
                "Invalid or missing owner",
            ),
            InvalidProblem::CheckerCompilationError => tr(
                lang,
                "Ошибка компиляции чекера",
                "Checker compilation error",
            ),
        },
        AdaJudgeError::InvalidJwt => tr(lang, "Неверный токен", "Invalid token"),
        AdaJudgeError::Auth(auth) => match auth {
            AuthError::InvalidLoginOrPassword => tr(
                lang,
                "Неверный логин или пароль",
                "Invalid login or password",
            ),
            AuthError::AlreadyExists => tr(lang, "Пользователь уже существует", "User already exists"),
            AuthError::PasswordsDontMatch => tr(lang, "Пароли не совпадают", "Passwords do not match"),
        },
        AdaJudgeError::Deletion(deletion) => match deletion {
            Deletion::InvalidLoginOrPassword => tr(
                lang,
                "Неверный логин или пароль",
                "Invalid login or password",
            ),
            Deletion::MissingDeletionConfirmation => tr(
                lang,
                "Нет подтверждения удаления",
                "Missing deletion confirmation",
            ),
        },
        AdaJudgeError::Forbidden => tr(lang, "Доступ запрещён", "Forbidden"),
        AdaJudgeError::Contest(contest) => match contest {
            ContestError::Time => tr(
                lang,
                "Время начала >= времени конца",
                "Start time is >= finish time",
            ),
        },
        AdaJudgeError::BadRequest => tr(lang, "Неверный запрос", "Bad request"),
    }
}

/// The backend refused the session: the user is to be signed out.
pub open spec fn ends_session_spec(e: AdaJudgeError) -> bool {
    e is InvalidJwt
}

/// Whether the error means that the session token is no longer valid.
pub fn ends_session(error: &AdaJudgeError) -> (r: bool)
    ensures
        r == ends_session_spec(*error),
{
    match error {
        AdaJudgeError::InvalidJwt => true,
        _ => false,
    }
}

/// Only a refused token ends the session: an invalid-token error signs the user out, and
/// every other error the backend reports leaves them signed in.
pub proof fn lemma_only_invalid_token_ends_session(e: AdaJudgeError)
    ensures
        ends_session_spec(e) <==> e is InvalidJwt,
        ends_session_spec(AdaJudgeError::InvalidJwt),
        !ends_session_spec(AdaJudgeError::NotFound),
        !ends_session_spec(AdaJudgeError::Internal),
        !ends_session_spec(AdaJudgeError::Forbidden),
        !ends_session_spec(AdaJudgeError::BadRequest),
        forall|p: InvalidProblem| !#[trigger] ends_session_spec(AdaJudgeError::InvalidProblem(p)),
        forall|a: AuthError| !#[trigger] ends_session_spec(AdaJudgeError::Auth(a)),
        forall|d: Deletion| !#[trigger] ends_session_spec(AdaJudgeError::Deletion(d)),
        forall|c: ContestError| !#[trigger] ends_session_spec(AdaJudgeError::Contest(c)),
{
}

} // verus!
