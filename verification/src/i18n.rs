//! Interface texts in Russian (the default) and English.
use vstd::prelude::*;
use vstd::string::*;
use crate::models::{
    AdminLevel, Language, ProblemTestingType, ProblemType, TestingVerdict, Verdict,
};
use crate::text::str_eq;

verus! {

/// The text for the interface language `lang`: English for "en", Russian otherwise.
pub open spec fn tr_spec(lang: Seq<char>, ru: Seq<char>, en: Seq<char>) -> Seq<char> {
    if lang == "en"@ {
        en
    } else {
        ru
    }
}

/// Picks the English text when the interface language is "en", the Russian one otherwise.
pub fn tr(lang: &str, ru: &str, en: &str) -> (r: String)
    ensures
        r@ == tr_spec(lang@, ru@, en@),
{
    if str_eq(lang, "en") {
        String::from_str(en)
    } else {
        String::from_str(ru)
    }
}

/// A text that exists in Russian only.
pub fn tr_ru(_lang: &str, ru: &str) -> (r: String)
    ensures
        r@ == ru@,
{
    String::from_str(ru)
}

/// A localized title: the English one for "en" when it is not empty, else the Russian one.
pub open spec fn title_spec(lang: Seq<char>, name_ru: Seq<char>, name_en: Seq<char>) -> Seq<char> {
    if lang == "en"@ && name_en.len() > 0 {
        name_en
    } else {
        name_ru
    }
}

/// The title of a problem (or contest, or post) in the interface language.
pub fn problem_title(lang: &str, name_ru: &str, name_en: &str) -> (r: String)
    ensures
        r@ == title_spec(lang@, name_ru@, name_en@),
{
    if str_eq(lang, "en") && !name_en.is_empty() {
        String::from_str(name_en)
    } else {
        String::from_str(name_ru)
    }
}

/// The status text of a contest that has not started.
pub fn status_text_before_start() -> (r: &'static str)
    ensures
        r@ == "до начала"@,
{
    "до начала"
}

/// The status text of a running contest.
pub fn status_text_ongoing() -> (r: &'static str)
    ensures
        r@ == "идёт сейчас"@,
{
    "идёт сейчас"
}

/// The status text of a finished contest.
pub fn status_text_finished() -> (r: &'static str)
    ensures
        r@ == "завершён"@,
{
    "завершён"
}

/// The status text of a contest open for upsolving.
pub fn status_text_upsolving() -> (r: &'static str)
    ensures
        r@ == "дорешка"@,
{
    "дорешка"
}

/// The name of an admin level.
pub open spec fn admin_level_text_spec(lang: Seq<char>, level: AdminLevel) -> Seq<char> {
    match level {
        AdminLevel::User => tr_spec(lang, "пользователь"@, "user"@),
        AdminLevel::Admin => tr_spec(lang, "админ"@, "admin"@),
        AdminLevel::Owner => tr_spec(lang, "владелец"@, "owner"@),
    }
}

/// The name of an admin level.
pub fn admin_level_text(lang: &str, level: &AdminLevel) -> (r: String)
    ensures
        r@ == admin_level_text_spec(lang@, *level),
{
    match level {
        AdminLevel::User => tr(lang, "пользователь", "user"),
        AdminLevel::Admin => tr(lang, "админ", "admin"),
        AdminLevel::Owner => tr(lang, "владелец", "owner"),
    }
}

/// The name of a language.
pub open spec fn language_text_spec(lang: Seq<char>, language: Language) -> Seq<char> {
    match language {
        Language::C => "C"@,
        Language::Cpp => "C++"@,
        Language::Go => "Go"@,
        Language::Rust => "Rust"@,
        Language::Python => "Python"@,
        Language::FreePascal => "Pascal"@,
        Language::Unknown => tr_spec(lang, "Неизвестно"@, "Unknown"@),
    }
}

/// The name of a language.
pub fn language_text(lang: &str, language: &Language) -> (r: String)
    ensures
        r@ == language_text_spec(lang@, *language),
{
    match language {
        Language::C => String::from_str("C"),
        Language::Cpp => String::from_str("C++"),
        Language::Go => String::from_str("Go"),
        Language::Rust => String::from_str("Rust"),
        Language::Python => String::from_str("Python"),
        Language::FreePascal => String::from_str("Pascal"),
        Language::Unknown => tr(lang, "Неизвестно", "Unknown"),
    }
}

/// The Russian name of a problem type.
pub open spec fn problem_type_ru(t: ProblemType) -> Seq<char> {
    match t {
        ProblemType::Default => "Обычная"@,
        ProblemType::Interactive => "Интерактивная"@,
        ProblemType::RunTwice => "Запусти дважды"@,
        ProblemType::InteractiveRunTwice => "Интерактивная, запуск дважды"@,
        ProblemType::RunTwiceFirstInteractive => "Дважды, интерактивный первый"@,
        ProblemType::RunTwiceSecondInteractive => "Дважды, интерактивный второй"@,
    }
}

/// The English name of a problem type.
pub open spec fn problem_type_en(t: ProblemType) -> Seq<char> {
    match t {
        ProblemType::Default => "Default"@,
        ProblemType::Interactive => "Interactive"@,
        ProblemType::RunTwice => "Run twice"@,
        ProblemType::InteractiveRunTwice => "Interactive, run twice"@,
        ProblemType::RunTwiceFirstInteractive => "Run twice, first interactive"@,
        ProblemType::RunTwiceSecondInteractive => "Run twice, second interactive"@,
    }
}

/// The name of a problem type.
pub fn problem_type_text(lang: &str, problem_type: &ProblemType) -> (r: String)
    ensures
        r@ == tr_spec(lang@, problem_type_ru(*problem_type), problem_type_en(*problem_type)),
{
    let ru = match problem_type {
        ProblemType::Default => "Обычная",
        ProblemType::Interactive => "Интерактивная",
        ProblemType::RunTwice => "Запусти дважды",
        ProblemType::InteractiveRunTwice => "Интерактивная, запуск дважды",
        ProblemType::RunTwiceFirstInteractive => "Дважды, интерактивный первый",
        ProblemType::RunTwiceSecondInteractive => "Дважды, интерактивный второй",
    };
    let en = match problem_type {
        ProblemType::Default => "Default",
        ProblemType::Interactive => "Interactive",
        ProblemType::RunTwice => "Run twice",
        ProblemType::InteractiveRunTwice => "Interactive, run twice",
        ProblemType::RunTwiceFirstInteractive => "Run twice, first interactive",
        ProblemType::RunTwiceSecondInteractive => "Run twice, second interactive",
    };
    tr(lang, ru, en)
}

/// The name of a testing type.
pub open spec fn testing_type_text_spec(lang: Seq<char>, t: ProblemTestingType) -> Seq<char> {
    match t {
        ProblemTestingType::Ioi => tr_spec(lang, "IOI (группы)"@, "IOI (subgroups)"@),
        ProblemTestingType::IoiMergeSubgroups => tr_spec(
            lang,
            "IOI (объединять группы)"@,
            "IOI (merge subgroups)"@,
        ),
    }
}

/// The name of a testing type.
pub fn testing_type_text(lang: &str, t: &ProblemTestingType) -> (r: String)
    ensures
        r@ == testing_type_text_spec(lang@, *t),
{
    match t {
        ProblemTestingType::Ioi => tr(lang, "IOI (группы)", "IOI (subgroups)"),
        ProblemTestingType::IoiMergeSubgroups => tr(
            lang,
            "IOI (объединять группы)",
            "IOI (merge subgroups)",
        ),
    }
}

/// The human text of a submission's verdict.
pub open spec fn total_verdict_text_spec(lang: Seq<char>, v: TestingVerdict) -> Seq<char> {
    match v {
        TestingVerdict::Accepted => tr_spec(lang, "полное решение"@, "full solution"@),
        TestingVerdict::PartialSolution => tr_spec(lang, "частичное решение"@, "partial solution"@),
        TestingVerdict::Pending => tr_spec(lang, "в очереди"@, "pending"@),
        TestingVerdict::Compiling => tr_spec(lang, "компилируется"@, "compiling"@),
        TestingVerdict::CompilationError => tr_spec(
            lang,
            "ошибка компиляции"@,
            "compilation error"@,
        ),
        TestingVerdict::Testing => tr_spec(lang, "тестируется"@, "testing"@),
        TestingVerdict::Fail => tr_spec(lang, "баг"@, "bug"@),
    }
}

/// The human text of a submission's verdict.
pub fn total_verdict_text(lang: &str, v: &TestingVerdict) -> (r: String)
    ensures
        r@ == total_verdict_text_spec(lang@, *v),
{
    match v {
        TestingVerdict::Accepted => tr(lang, "полное решение", "full solution"),
        TestingVerdict::PartialSolution => tr(lang, "частичное решение", "partial solution"),
        TestingVerdict::Pending => tr(lang, "в очереди", "pending"),
        TestingVerdict::Compiling => tr(lang, "компилируется", "compiling"),
        TestingVerdict::CompilationError => tr(lang, "ошибка компиляции", "compilation error"),
        TestingVerdict::Testing => tr(lang, "тестируется", "testing"),
        TestingVerdict::Fail => tr(lang, "баг", "bug"),
    }
}

/// The human text of a subgroup's verdict (Russian in the feminine, after «подгруппа»).
pub open spec fn subgroup_verdict_text_spec(lang: Seq<char>, v: Verdict) -> Seq<char> {
    match v {
        Verdict::Accepted => tr_spec(lang, "пройдена"@, "passed"@),
        Verdict::RuntimeError => tr_spec(lang, "ошибка выполнения"@, "runtime error"@),
        Verdict::TimeLimitExceeded => tr_spec(
            lang,
            "превышено ограничение по времени"@,
            "time limit exceeded"@,
        ),
        Verdict::MemoryLimitExceeded => tr_spec(
            lang,
            "превышено ограничение по памяти"@,
            "memory limit exceeded"@,
        ),
        Verdict::SecurityError => tr_spec(lang, "ошибка безопасности"@, "security error"@),
        Verdict::WrongAnswer => tr_spec(lang, "неправильный ответ"@, "wrong answer"@),
        Verdict::PresentationError => tr_spec(
            lang,
            "неправильный формат вывода"@,
            "presentation error"@,
        ),
        Verdict::Skipped => tr_spec(lang, "пропущена"@, "skipped"@),
        Verdict::Testing => tr_spec(lang, "тестируется"@, "testing"@),
        Verdict::Fail => tr_spec(lang, "баг"@, "bug"@),
    }
}

/// The human text of a subgroup's verdict.
pub fn subgroup_verdict_text(lang: &str, v: &Verdict) -> (r: String)
    ensures
        r@ == subgroup_verdict_text_spec(lang@, *v),
{
    match v {
        Verdict::Accepted => tr(lang, "пройдена", "passed"),
        Verdict::RuntimeError => tr(lang, "ошибка выполнения", "runtime error"),
        Verdict::TimeLimitExceeded => tr(
            lang,
            "превышено ограничение по времени",
            "time limit exceeded",
        ),
        Verdict::MemoryLimitExceeded => tr(
            lang,
            "превышено ограничение по памяти",
            "memory limit exceeded",
        ),
        Verdict::SecurityError => tr(lang, "ошибка безопасности", "security error"),
        Verdict::WrongAnswer => tr(lang, "неправильный ответ", "wrong answer"),
        Verdict::PresentationError => tr(lang, "неправильный формат вывода", "presentation error"),
        Verdict::Skipped => tr(lang, "пропущена", "skipped"),
        Verdict::Testing => tr(lang, "тестируется", "testing"),
        Verdict::Fail => tr(lang, "баг", "bug"),
    }
}

/// The human text of a test's verdict (Russian in the masculine, after «тест»).
pub open spec fn test_verdict_text_spec(lang: Seq<char>, v: Verdict) -> Seq<char> {
    match v {
        Verdict::Accepted => tr_spec(lang, "пройден"@, "passed"@),
        Verdict::Skipped => tr_spec(lang, "пропущен"@, "skipped"@),
        _ => subgroup_verdict_text_spec(lang, v),
    }
}

/// The human text of a test's verdict.
pub fn test_verdict_text(lang: &str, v: &Verdict) -> (r: String)
    ensures
        r@ == test_verdict_text_spec(lang@, *v),
{
    match v {
        Verdict::Accepted => tr(lang, "пройден", "passed"),
        Verdict::Skipped => tr(lang, "пропущен", "skipped"),
        _ => subgroup_verdict_text(lang, v),
    }
}

/// Distinct verdicts of a submission read differently, in either language.
pub proof fn lemma_total_verdict_texts_differ(lang: Seq<char>, v: TestingVerdict, w: TestingVerdict)
    requires
        v != w,
    ensures
        total_verdict_text_spec(lang, v) != total_verdict_text_spec(lang, w),
{
    reveal_strlit("полное решение");
    reveal_strlit("full solution");
    reveal_strlit("частичное решение");
    reveal_strlit("partial solution");
    reveal_strlit("в очереди");
    reveal_strlit("pending");
    reveal_strlit("компилируется");
    reveal_strlit("compiling");
    reveal_strlit("ошибка компиляции");
    reveal_strlit("compilation error");
    reveal_strlit("тестируется");
    reveal_strlit("testing");
    reveal_strlit("баг");
    reveal_strlit("bug");
    let a = total_verdict_text_spec(lang, v);
    let b = total_verdict_text_spec(lang, w);
    if a == b {
        assert(a.len() == b.len());
        assert(a[0] == b[0]);
        assert(false);
    }
}

/// Distinct verdicts of a subgroup read differently, and so do distinct verdicts of a test, in
/// either language.
pub proof fn lemma_verdict_texts_differ(lang: Seq<char>, v: Verdict, w: Verdict)
    requires
        v != w,
    ensures
        subgroup_verdict_text_spec(lang, v) != subgroup_verdict_text_spec(lang, w),
        test_verdict_text_spec(lang, v) != test_verdict_text_spec(lang, w),
{
    reveal_strlit("пройдена");
    reveal_strlit("passed");
    reveal_strlit("ошибка выполнения");
    reveal_strlit("runtime error");
    reveal_strlit("превышено ограничение по времени");
    reveal_strlit("time limit exceeded");
    reveal_strlit("превышено ограничение по памяти");
    reveal_strlit("memory limit exceeded");
    reveal_strlit("ошибка безопасности");
    reveal_strlit("security error");
    reveal_strlit("неправильный ответ");
    reveal_strlit("wrong answer");
    reveal_strlit("неправильный формат вывода");
    reveal_strlit("presentation error");
    reveal_strlit("пропущена");
    reveal_strlit("skipped");
    reveal_strlit("тестируется");
    reveal_strlit("testing");
    reveal_strlit("баг");
    reveal_strlit("bug");
    reveal_strlit("пройден");
    reveal_strlit("пропущен");
    let a = subgroup_verdict_text_spec(lang, v);
    let b = subgroup_verdict_text_spec(lang, w);
    if a == b {
        assert(a.len() == b.len());
        assert(a[0] == b[0]);
        assert(false);
    }
    let c = test_verdict_text_spec(lang, v);
    let d = test_verdict_text_spec(lang, w);
    if c == d {
        assert(c.len() == d.len());
        assert(c[0] == d[0]);
        assert(false);
    }
}

/// Distinct admin levels read differently, in either language.
pub proof fn lemma_admin_level_texts_differ(lang: Seq<char>, v: AdminLevel, w: AdminLevel)
    requires
        v != w,
    ensures
        admin_level_text_spec(lang, v) != admin_level_text_spec(lang, w),
{
    reveal_strlit("пользователь");
    reveal_strlit("user");
    reveal_strlit("админ");
    reveal_strlit("admin");
    reveal_strlit("владелец");
    reveal_strlit("owner");
    let a0 = admin_level_text_spec(lang, v);
    let b0 = admin_level_text_spec(lang, w);
    if a0 == b0 {
        assert(a0.len() == b0.len());
        assert(a0[0] == b0[0]);
        assert(false);
    }
}

/// Distinct programming languages read differently, in either language.
pub proof fn lemma_language_texts_differ(lang: Seq<char>, v: Language, w: Language)
    requires
        v != w,
    ensures
        language_text_spec(lang, v) != language_text_spec(lang, w),
{
    reveal_strlit("C");
    reveal_strlit("C++");
    reveal_strlit("Go");
    reveal_strlit("Rust");
    reveal_strlit("Python");
    reveal_strlit("Pascal");
    reveal_strlit("Неизвестно");
    reveal_strlit("Unknown");
    let a0 = language_text_spec(lang, v);
    let b0 = language_text_spec(lang, w);
    if a0 == b0 {
        assert(a0.len() == b0.len());
        assert(a0[0] == b0[0]);
        assert(a0[1] == b0[1]);
        assert(false);
    }
}

/// Distinct problem types read differently, in Russian and in English.
pub proof fn lemma_problem_type_texts_differ(lang: Seq<char>, v: ProblemType, w: ProblemType)
    requires
        v != w,
    ensures
        problem_type_ru(v) != problem_type_ru(w),
        problem_type_en(v) != problem_type_en(w),
{
    reveal_strlit("Обычная");
    reveal_strlit("Интерактивная");
    reveal_strlit("Запусти дважды");
    reveal_strlit("Интерактивная, запуск дважды");
    reveal_strlit("Дважды, интерактивный первый");
    reveal_strlit("Дважды, интерактивный второй");
    reveal_strlit("Default");
    reveal_strlit("Interactive");
    reveal_strlit("Run twice");
    reveal_strlit("Interactive, run twice");
    reveal_strlit("Run twice, first interactive");
    reveal_strlit("Run twice, second interactive");
    let a0 = problem_type_ru(v);
    let b0 = problem_type_ru(w);
    if a0 == b0 {
        assert(a0.len() == b0.len());
        assert(a0[0] == b0[0]);
        assert(a0[22] == b0[22]);
        assert(false);
    }
    let a1 = problem_type_en(v);
    let b1 = problem_type_en(w);
    if a1 == b1 {
        assert(a1.len() == b1.len());
        assert(a1[0] == b1[0]);
        assert(a1[22] == b1[22]);
        assert(false);
    }
}

/// Distinct testing types read differently, in either language.
pub proof fn lemma_testing_type_texts_differ(lang: Seq<char>, v: ProblemTestingType, w: ProblemTestingType)
    requires
        v != w,
    ensures
        testing_type_text_spec(lang, v) != testing_type_text_spec(lang, w),
{
    reveal_strlit("IOI (группы)");
    reveal_strlit("IOI (subgroups)");
    reveal_strlit("IOI (объединять группы)");
    reveal_strlit("IOI (merge subgroups)");
    let a0 = testing_type_text_spec(lang, v);
    let b0 = testing_type_text_spec(lang, w);
    if a0 == b0 {
        assert(a0.len() == b0.len());
        assert(a0[0] == b0[0]);
        assert(false);
    }
}

} // verus!
