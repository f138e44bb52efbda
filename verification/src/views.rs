//! What the cards and badges of the interface show.
use vstd::prelude::*;
use vstd::string::*;
use crate::i18n::{problem_title, title_spec, tr, tr_spec};
use crate::models::{
    AdminLevel, ContestPost, Language, ProblemType, PublicContestConfig, PublicProblemConfig,
    Subgroup, SubgroupType, TestingVerdict, Timestamp, file_ext_spec, testing_verdict_name,
};
use crate::state::{ContestStatus, GlobalState, contest_status_at, manages_spec, search_finds, status_at};
use crate::text::{
    chars_of, decimal_int, decimal_views_i32, decimal_views_usize, join_i32, join_seq, join_usize,
    push_decimal_i64, str_eq,
};
use crate::time::{
    duration_text, format_duration, format_remaining, remaining_text, seconds_between,
    whole_seconds_between,
};

verus! {

/// "да" or "нет".
pub open spec fn yes_no_spec(lang: Seq<char>, value: bool) -> Seq<char> {
    if value {
        tr_spec(lang, "да"@, "yes"@)
    } else {
        tr_spec(lang, "нет"@, "no"@)
    }
}

/// "да" or "нет" in the interface language.
pub fn yes_no(lang: &str, value: bool) -> (r: String)
    ensures
        r@ == yes_no_spec(lang@, value),
{
    if value {
        tr(lang, "да", "yes")
    } else {
        tr(lang, "нет", "no")
    }
}

/// "#", a number, a space and a title.
pub open spec fn numbered_title(n: int, title: Seq<char>) -> Seq<char> {
    "#"@ + decimal_int(n) + " "@ + title
}

/// "#", the number `n`, a space and `title`.
pub fn numbered_title_text(n: i64, title: &str) -> (r: String)
    ensures
        r@ == numbered_title(n as int, title@),
{
    let mut s = String::from_str("#");
    push_decimal_i64(&mut s, n);
    s.append(" ");
    s.append(title);
    s
}

/// The status shown on a contest card.
pub open spec fn status_label_spec(lang: Seq<char>, s: ContestStatus) -> Seq<char> {
    match s {
        ContestStatus::BeforeStart => tr_spec(lang, "не начался"@, "has not started"@),
        ContestStatus::Ongoing => tr_spec(lang, "идёт"@, "ongoing"@),
        ContestStatus::Finished => tr_spec(lang, "завершён"@, "finished"@),
        ContestStatus::Upsolving => tr_spec(lang, "дорешка"@, "upsolving"@),
    }
}

/// Distinct statuses of a contest read differently on its card, in either language.
pub proof fn lemma_status_labels_differ(lang: Seq<char>, v: ContestStatus, w: ContestStatus)
    requires
        v != w,
    ensures
        status_label_spec(lang, v) != status_label_spec(lang, w),
{
    reveal_strlit("не начался");
    reveal_strlit("has not started");
    reveal_strlit("идёт");
    reveal_strlit("ongoing");
    reveal_strlit("завершён");
    reveal_strlit("finished");
    reveal_strlit("дорешка");
    reveal_strlit("upsolving");
    let a0 = status_label_spec(lang, v);
    let b0 = status_label_spec(lang, w);
    if a0 == b0 {
        assert(a0.len() == b0.len());
        assert(a0[0] == b0[0]);
        assert(false);
    }
}

/// The status shown on a contest card.
pub fn status_label(lang: &str, s: ContestStatus) -> (r: String)
    ensures
        r@ == status_label_spec(lang@, s),
{
    match s {
        ContestStatus::BeforeStart => tr(lang, "не начался", "has not started"),
        ContestStatus::Ongoing => tr(lang, "идёт", "ongoing"),
        ContestStatus::Finished => tr(lang, "завершён", "finished"),
        ContestStatus::Upsolving => tr(lang, "дорешка", "upsolving"),
    }
}

/// The value of a row of a contest card.
#[derive(Clone, Debug)]
pub enum CardValue {
    /// An instant, shown in local time.
    Instant(Timestamp),
    /// A text.
    Text(String),
}

/// What a contest card shows and offers.
pub struct ContestCardView {
    /// "#id name".
    pub title: String,
    pub status: ContestStatus,
    pub status_text: String,
    /// Whether the contest has any statement or editorial link (in either language).
    pub has_url: bool,
    /// The link buttons for the interface language: label and URL.
    pub links: Vec<(String, String)>,
    /// The owner's id and login, when the contest has an owner.
    pub owner: Option<(i64, String)>,
    /// The time rows: label and value.
    pub time_rows: Vec<(String, CardValue)>,
    /// Whether the button that enters the contest is shown.
    pub show_enter: bool,
    /// Whether edit and delete are offered (else an info button).
    pub can_manage: bool,
}

/// The link buttons of a contest card: for "ru" the Russian statements and editorial, for "en"
/// the English ones, each only when its URL is not empty.
pub open spec fn card_links(lang: Seq<char>, c: PublicContestConfig) -> Seq<(Seq<char>, Seq<char>)> {
    let ru = lang == "ru"@;
    let en = lang == "en"@;
    let st = tr_spec(lang, "условия задач"@, "statements"@);
    let ed = tr_spec(lang, "разбор задач"@, "editorial"@);
    (if ru && c.statements_url_ru@.len() > 0 {
        seq![(st, c.statements_url_ru@)]
    } else {
        Seq::empty()
    }) + (if ru && c.editorial_url_ru@.len() > 0 {
        seq![(ed, c.editorial_url_ru@)]
    } else {
        Seq::empty()
    }) + (if en && c.statements_url_en@.len() > 0 {
        seq![(st, c.statements_url_en@)]
    } else {
        Seq::empty()
    }) + (if en && c.editorial_url_en@.len() > 0 {
        seq![(ed, c.editorial_url_en@)]
    } else {
        Seq::empty()
    })
}

/// The views of label and URL pairs.
pub open spec fn pair_views(v: Seq<(String, String)>) -> Seq<(Seq<char>, Seq<char>)> {
    v.map_values(|p: (String, String)| (p.0@, p.1@))
}

/// The views of the time rows.
pub open spec fn row_views(v: Seq<(String, CardValue)>) -> Seq<(Seq<char>, Option<Timestamp>, Seq<char>)> {
    v.map_values(
        |p: (String, CardValue)|
            match p.1 {
                CardValue::Instant(t) => (p.0@, Some(t), Seq::<char>::empty()),
                CardValue::Text(s) => (p.0@, None, s@),
            },
    )
}

/// The time rows of a contest card at `now`: a running contest shows its start and the time
/// left; otherwise its start (unless `compact`) and its duration.
pub open spec fn card_time_rows(
    lang: Seq<char>,
    c: PublicContestConfig,
    now: Timestamp,
    compact: bool,
) -> Seq<(Seq<char>, Option<Timestamp>, Seq<char>)> {
    let start = (tr_spec(lang, "начало"@, "start"@), Some(c.starts_at), Seq::<char>::empty());
    let dur = (
        tr_spec(lang, "продолжительность"@, "duration"@),
        None::<Timestamp>,
        duration_text(lang, seconds_between(c.finishes_at, c.starts_at)),
    );
    if status_at(now, c.starts_at, c.finishes_at, c.upsolving_enabled) == ContestStatus::Ongoing {
        seq![
            start,
            (
                tr_spec(lang, "осталось"@, "remaining"@),
                None::<Timestamp>,
                remaining_text(lang, seconds_between(c.finishes_at, now)),
            ),
        ]
    } else if !compact {
        seq![start, dur]
    } else {
        seq![dur]
    }
}

fn push_link(links: &mut Vec<(String, String)>, label: &str, url: &String)
    ensures
        pair_views(final(links)@) == pair_views(old(links)@).push((label@, url@)),
{
    let ghost prev = links@;
    links.push((String::from_str(label), url.clone()));
    assert(pair_views(links@) =~= pair_views(prev).push((label@, url@)));
}

fn push_row(rows: &mut Vec<(String, CardValue)>, label: String, value: CardValue)
    ensures
        row_views(final(rows)@) == row_views(old(rows)@).push(
            match value {
                CardValue::Instant(t) => (label@, Some(t), Seq::<char>::empty()),
                CardValue::Text(s) => (label@, None, s@),
            },
        ),
{
    let ghost prev = rows@;
    rows.push((label, value));
    assert(row_views(rows@) =~= row_views(prev).push(
        match value {
            CardValue::Instant(t) => (label@, Some(t), Seq::<char>::empty()),
            CardValue::Text(s) => (label@, None, s@),
        },
    ));
}

/// What the card of `contest` shows at the instant `now` to the user of
/// `state`: its numbered title, status, links, owner, time rows, whether it can be entered
/// (`show_enter` and either started or enterable by the user) and managed.
pub fn contest_card_view(
    state: &GlobalState,
    contest: &PublicContestConfig,
    now: Timestamp,
    show_enter: bool,
    compact: bool,
) -> (r: ContestCardView)
    ensures
        ({
            let lang = state.language@;
            let status = status_at(
                now,
                contest.starts_at,
                contest.finishes_at,
                contest.upsolving_enabled,
            );
            let can_enter = state.user matches Some(u) && (contest.owner_id == Some(u.id)
                || search_finds(contest.co_authors@, u.id) || u.admin_level == AdminLevel::Owner);
            &&& r.title@ == numbered_title(
                contest.id as int,
                title_spec(lang, contest.name_ru@, contest.name_en@),
            )
            &&& r.status == status
            &&& r.status_text@ == status_label_spec(lang, status)
            &&& r.has_url == (contest.statements_url_ru@.len() > 0
                || contest.editorial_url_ru@.len() > 0 || contest.statements_url_en@.len() > 0
                || contest.editorial_url_en@.len() > 0)
            &&& pair_views(r.links@) == card_links(lang, *contest)
            &&& match contest.owner_id {
                Some(o) => r.owner matches Some(p) && p.0 == o && p.1@ == match contest.owner_login {
                    Some(l) => l@,
                    None => Seq::<char>::empty(),
                },
                None => r.owner is None,
            }
            &&& row_views(r.time_rows@) == card_time_rows(lang, *contest, now, compact)
            &&& r.show_enter == ((status != ContestStatus::BeforeStart || can_enter)
                && show_enter)
            &&& r.can_manage == manages_spec(state, contest.owner_id)
        }),
{
    let lang = state.language.as_str();
    let status = contest_status_at(now, contest);
    let name = problem_title(lang, contest.name_ru.as_str(), contest.name_en.as_str());
    let title = numbered_title_text(contest.id, name.as_str());
    let status_text = status_label(lang, status);
    let has_url = !contest.statements_url_ru.as_str().is_empty() || !contest.editorial_url_ru.as_str().is_empty()
        || !contest.statements_url_en.as_str().is_empty() || !contest.editorial_url_en.as_str().is_empty();
    let ru = str_eq(lang, "ru");
    let en = str_eq(lang, "en");
    let st = tr(lang, "условия задач", "statements");
    let ed = tr(lang, "разбор задач", "editorial");
    let mut links: Vec<(String, String)> = Vec::new();
    let ghost l0 = pair_views(links@);
    if ru && !contest.statements_url_ru.as_str().is_empty() {
        push_link(&mut links, st.as_str(), &contest.statements_url_ru);
    }
    let ghost l1 = pair_views(links@);
    if ru && !contest.editorial_url_ru.as_str().is_empty() {
        push_link(&mut links, ed.as_str(), &contest.editorial_url_ru);
    }
    let ghost l2 = pair_views(links@);
    if en && !contest.statements_url_en.as_str().is_empty() {
        push_link(&mut links, st.as_str(), &contest.statements_url_en);
    }
    let ghost l3 = pair_views(links@);
    if en && !contest.editorial_url_en.as_str().is_empty() {
        push_link(&mut links, ed.as_str(), &contest.editorial_url_en);
    }
    assert(pair_views(links@) =~= card_links(state.language@, *contest));
    let owner = match contest.owner_id {
        Some(o) => {
            let login = match &contest.owner_login {
                Some(l) => l.clone(),
                None => String::new(),
            };
            Some((o, login))
        },
        None => None,
    };
    let mut rows: Vec<(String, CardValue)> = Vec::new();
    let duration_secs = whole_seconds_between(contest.finishes_at, contest.starts_at);
    if status == ContestStatus::Ongoing {
        push_row(&mut rows, tr(lang, "начало", "start"), CardValue::Instant(contest.starts_at));
        let left = whole_seconds_between(contest.finishes_at, now);
        push_row(
            &mut rows,
            tr(lang, "осталось", "remaining"),
            CardValue::Text(format_remaining(lang, left)),
        );
    } else if !compact {
        push_row(&mut rows, tr(lang, "начало", "start"), CardValue::Instant(contest.starts_at));
        push_row(
            &mut rows,
            tr(lang, "продолжительность", "duration"),
            CardValue::Text(format_duration(lang, duration_secs)),
        );
    } else {
        push_row(
            &mut rows,
            tr(lang, "продолжительность", "duration"),
            CardValue::Text(format_duration(lang, duration_secs)),
        );
    }
    assert(row_views(rows@) =~= card_time_rows(state.language@, *contest, now, compact));
    let can_enter = state.can_enter_contest(contest);
    let can_manage = state.can_manage_contest(contest);
    ContestCardView {
        title,
        status,
        status_text,
        has_url,
        links,
        owner,
        time_rows: rows,
        show_enter: (status != ContestStatus::BeforeStart || can_enter) && show_enter,
        can_manage,
    }
}

} // verus!

verus! {

/// The title of a problem card: "#id name" when ids are shown, else "#position name" with the
/// position counted from one.
pub open spec fn problem_card_title_spec(lang: Seq<char>, p: PublicProblemConfig, show_id: bool) -> Seq<char> {
    let name = title_spec(lang, p.name_ru@, p.name_en@);
    if show_id {
        numbered_title(p.id as int, name)
    } else {
        numbered_title(p.index + 1, name)
    }
}

/// The title of a problem card.
pub fn problem_card_title(lang: &str, problem: &PublicProblemConfig, show_id: bool) -> (r: String)
    requires
        problem.index < i64::MAX,
    ensures
        r@ == problem_card_title_spec(lang@, *problem, show_id),
{
    let name = problem_title(lang, problem.name_ru.as_str(), problem.name_en.as_str());
    if show_id {
        numbered_title_text(problem.id, name.as_str())
    } else {
        numbered_title_text(problem.index + 1, name.as_str())
    }
}

/// The note on a problem card about how the problem runs; plain and interactive-run-twice
/// problems have none.
pub open spec fn problem_type_notice_spec(lang: Seq<char>, t: ProblemType) -> Option<Seq<char>> {
    match t {
        ProblemType::Interactive => Some(
            tr_spec(lang, "Это интерактивная задача."@, "This is an interactive problem."@),
        ),
        ProblemType::RunTwice => Some(
            tr_spec(lang, "Это задача с двойным запуском."@, "This problem is run twice."@),
        ),
        ProblemType::RunTwiceFirstInteractive | ProblemType::RunTwiceSecondInteractive => Some(
            tr_spec(
                lang,
                "Это интерактивная задача с двойным запуском."@,
                "This is an interactive problem run twice."@,
            ),
        ),
        _ => None,
    }
}

/// The note on a problem card about how the problem runs.
pub fn problem_type_notice(lang: &str, t: &ProblemType) -> (r: Option<String>)
    ensures
        match problem_type_notice_spec(lang@, *t) {
            Some(n) => r matches Some(s) && s@ == n,
            None => r is None,
        },
{
    match t {
        ProblemType::Interactive => Some(
            tr(lang, "Это интерактивная задача.", "This is an interactive problem."),
        ),
        ProblemType::RunTwice => Some(
            tr(lang, "Это задача с двойным запуском.", "This problem is run twice."),
        ),
        ProblemType::RunTwiceFirstInteractive | ProblemType::RunTwiceSecondInteractive => Some(
            tr(
                lang,
                "Это интерактивная задача с двойным запуском.",
                "This is an interactive problem run twice.",
            ),
        ),
        _ => None,
    }
}

/// A limit with its unit, such as "1000мс" or "256МБ".
pub fn limit_text(value: i32, unit: &str) -> (r: String)
    ensures
        r@ == decimal_int(value as int) + unit@,
{
    let mut s = String::new();
    push_decimal_i64(&mut s, value as i64);
    s.append(unit);
    s
}

/// The label of the archive picker: with the picked file's name in brackets, when there is one.
pub open spec fn archive_label_spec(lang: Seq<char>, picked: Option<Seq<char>>) -> Seq<char> {
    let base = tr_spec(lang, "выбрать архив"@, "pick archive"@);
    match picked {
        Some(name) => base + " ("@ + name + ")"@,
        None => base,
    }
}

/// The label of the archive picker.
pub fn archive_label(lang: &str, picked: Option<&str>) -> (r: String)
    ensures
        r@ == archive_label_spec(
            lang@,
            match picked {
                Some(n) => Some(n@),
                None => None,
            },
        ),
{
    let mut s = tr(lang, "выбрать архив", "pick archive");
    match picked {
        Some(name) => {
            s.append(" (");
            s.append(name);
            s.append(")");
        },
        None => {},
    }
    s
}

/// What a subgroup card shows.
pub struct SubgroupView {
    pub type_text: String,
    /// The tests, separated by ", ".
    pub tests: String,
    /// The required subgroups, separated by ", ", or "-" when there are none.
    pub depends_on: String,
    /// The score, shown for a scored main subgroup.
    pub score: Option<String>,
    /// The score per test, when there is one.
    pub score_per_test: Option<String>,
}

/// What the card of a subgroup shows.
pub fn subgroup_view(lang: &str, subgroup: &Subgroup) -> (r: SubgroupView)
    ensures
        r.type_text@ == match subgroup.subgroup_type {
            SubgroupType::Main => tr_spec(lang@, "основная"@, "main"@),
            SubgroupType::Sample => tr_spec(lang@, "примеры"@, "samples"@),
        },
        r.tests@ == join_seq(decimal_views_i32(subgroup.tests@), ", "@),
        r.depends_on@ == if subgroup.depends_on@.len() == 0 {
            "-"@
        } else {
            join_seq(decimal_views_usize(subgroup.depends_on@), ", "@)
        },
        r.score == if subgroup.score is Some && subgroup.subgroup_type == SubgroupType::Main {
            subgroup.score
        } else {
            None
        },
        r.score_per_test == subgroup.score_per_test,
{
    let type_text = match subgroup.subgroup_type {
        SubgroupType::Main => tr(lang, "основная", "main"),
        SubgroupType::Sample => tr(lang, "примеры", "samples"),
    };
    let tests = join_i32(&subgroup.tests, ", ");
    let depends_on = if subgroup.depends_on.len() == 0 {
        String::from_str("-")
    } else {
        join_usize(&subgroup.depends_on, ", ")
    };
    let score = if subgroup.subgroup_type == SubgroupType::Main {
        subgroup.score.clone()
    } else {
        None
    };
    SubgroupView {
        type_text,
        tests,
        depends_on,
        score,
        score_per_test: subgroup.score_per_test.clone(),
    }
}

/// The badge that shows how a submission fared, with its classes, its label, and whether it
/// spins (while the submission is queued, compiled or tested).
pub open spec fn verdict_badge_spec(lang: Seq<char>, v: TestingVerdict) -> (Seq<char>, Seq<char>, bool) {
    match v {
        TestingVerdict::Pending => (
            "badge badge-warning px-4 whitespace-nowrap"@,
            "В очереди"@,
            true,
        ),
        TestingVerdict::Compiling => ("badge badge-info px-4 whitespace-nowrap"@, "Компиляция"@, true),
        TestingVerdict::Testing => ("badge badge-info px-4 whitespace-nowrap"@, "Тестирование"@, true),
        TestingVerdict::Accepted => (
            "badge badge-success px-4 rounded-lg whitespace-nowrap"@,
            testing_verdict_name(v),
            false,
        ),
        TestingVerdict::PartialSolution => (
            "badge badge-warning px-4 whitespace-nowrap"@,
            "Частичное решение"@,
            false,
        ),
        TestingVerdict::CompilationError => (
            "badge badge-error px-4 whitespace-nowrap"@,
            "Ошибка компиляции"@,
            false,
        ),
        TestingVerdict::Fail => (
            "badge badge-error px-4 whitespace-nowrap"@,
            tr_spec(lang, "Баг"@, "Bug"@),
            false,
        ),
    }
}

/// The badge of a submission's verdict.
pub fn verdict_badge(lang: &str, v: &TestingVerdict) -> (r: (&'static str, String, bool))
    ensures
        (r.0@, r.1@, r.2) == verdict_badge_spec(lang@, *v),
{
    match v {
        TestingVerdict::Pending => (
            "badge badge-warning px-4 whitespace-nowrap",
            String::from_str("В очереди"),
            true,
        ),
        TestingVerdict::Compiling => (
            "badge badge-info px-4 whitespace-nowrap",
            String::from_str("Компиляция"),
            true,
        ),
        TestingVerdict::Testing => (
            "badge badge-info px-4 whitespace-nowrap",
            String::from_str("Тестирование"),
            true,
        ),
        TestingVerdict::Accepted => (
            "badge badge-success px-4 rounded-lg whitespace-nowrap",
            v.to_text(),
            false,
        ),
        TestingVerdict::PartialSolution => (
            "badge badge-warning px-4 whitespace-nowrap",
            String::from_str("Частичное решение"),
            false,
        ),
        TestingVerdict::CompilationError => (
            "badge badge-error px-4 whitespace-nowrap",
            String::from_str("Ошибка компиляции"),
            false,
        ),
        TestingVerdict::Fail => (
            "badge badge-error px-4 whitespace-nowrap",
            tr(lang, "Баг", "Bug"),
            false,
        ),
    }
}

/// The color of an admin level's badge.
pub open spec fn admin_badge_color_spec(level: AdminLevel) -> Seq<char> {
    match level {
        AdminLevel::User => "#b7b0e7"@,
        AdminLevel::Admin => "#ff7302"@,
        AdminLevel::Owner => "#ffbf11"@,
    }
}

/// The color of an admin level's badge.
pub fn admin_badge_color(level: &AdminLevel) -> (r: &'static str)
    ensures
        r@ == admin_badge_color_spec(*level),
{
    match level {
        AdminLevel::User => "#b7b0e7",
        AdminLevel::Admin => "#ff7302",
        AdminLevel::Owner => "#ffbf11",
    }
}

/// The banner class of a profile, by admin level.
pub open spec fn profile_banner_spec(level: AdminLevel) -> Seq<char> {
    match level {
        AdminLevel::User => "h-24 bg-gradient-to-r from-info to-primary"@,
        AdminLevel::Admin => "h-24 bg-gradient-to-r from-secondary to-accent"@,
        AdminLevel::Owner => "h-24 bg-gradient-to-r from-warning to-error"@,
    }
}

/// The banner class of a profile.
pub fn profile_banner(level: &AdminLevel) -> (r: &'static str)
    ensures
        r@ == profile_banner_spec(*level),
{
    match level {
        AdminLevel::User => "h-24 bg-gradient-to-r from-info to-primary",
        AdminLevel::Admin => "h-24 bg-gradient-to-r from-secondary to-accent",
        AdminLevel::Owner => "h-24 bg-gradient-to-r from-warning to-error",
    }
}

/// The characters that `char::to_uppercase` maps `c` to.
pub uninterp spec fn uppercase_of(c: char) -> Seq<char>;

/// `c.to_uppercase()` collected into a string. The mapping is Unicode's, named by `uppercase_of`.
#[verifier::external_body]
fn char_to_uppercase(c: char) -> (r: String)
    ensures
        r@ == uppercase_of(c),
{
    c.to_uppercase().collect()
}

/// The letter on a profile's avatar: the login's first character in upper case, or nothing.
pub fn avatar_initial(login: &str) -> (r: String)
    ensures
        r@ == if login@.len() > 0 {
            uppercase_of(login@[0])
        } else {
            Seq::<char>::empty()
        },
{
    let v = chars_of(login);
    if v.len() > 0 {
        char_to_uppercase(v[0])
    } else {
        String::new()
    }
}

/// The name of a downloaded solution: "solution." and the language's extension.
pub fn solution_file_name(language: &Language) -> (r: String)
    ensures
        r@ == "solution."@ + file_ext_spec(*language),
{
    String::from_str("solution.").concat(language.file_ext())
}

/// The source of a submission as a fenced Markdown code block, tagged with the language's
/// extension (untagged for an unknown language).
pub open spec fn code_block_spec(language: Language, source: Seq<char>) -> Seq<char> {
    let fence = if file_ext_spec(language) == "!!"@ {
        Seq::<char>::empty()
    } else {
        file_ext_spec(language)
    };
    "```"@ + fence + "\n"@ + source + "\n```"@
}

/// The source of a submission as a Markdown code block.
pub fn code_block(language: &Language, source: &str) -> (r: String)
    ensures
        r@ == code_block_spec(*language, source@),
{
    let ext = language.file_ext();
    let mut s = String::from_str("```");
    if !str_eq(ext, "!!") {
        s.append(ext);
    }
    s.append("\n");
    s.append(source);
    s.append("\n```");
    proof {
        reveal_strlit("```");
    }
    s
}

/// Whether a submission's file may be downloaded: by the contest's or the problem's managers,
/// and by everyone while the contest does not hide solutions.
pub fn show_download(
    state: &GlobalState,
    problem: &PublicProblemConfig,
    contest_can_manage: bool,
    contest_hide_solutions: bool,
) -> (r: bool)
    ensures
        r == (contest_can_manage || manages_spec(state, problem.owner_id)
            || !contest_hide_solutions),
{
    contest_can_manage || state.can_manage_problem(problem) || !contest_hide_solutions
}

/// The localized title and text of an announcement: the English ones for "en" when not empty.
pub fn post_title_and_text(lang: &str, post: &ContestPost) -> (r: (String, String))
    ensures
        r.0@ == title_spec(lang@, post.title_ru@, post.title_en@),
        r.1@ == title_spec(lang@, post.text_ru@, post.text_en@),
{
    (
        problem_title(lang, post.title_ru.as_str(), post.title_en.as_str()),
        problem_title(lang, post.text_ru.as_str(), post.text_en.as_str()),
    )
}

/// The message of an empty leaderboard: empty for its managers, hidden until the end for others.
pub fn leaderboard_empty_text(lang: &str, can_manage: bool) -> (r: String)
    ensures
        r@ == if can_manage {
            tr_spec(lang@, "В таблице лидеров пока ничего нет"@, "Leaderboard is empty"@)
        } else {
            tr_spec(
                lang@,
                "Таблица лидеров недоступна до конца контеста"@,
                "Leaderboard unavailable until the contest finishes"@,
            )
        },
{
    if can_manage {
        tr(lang, "В таблице лидеров пока ничего нет", "Leaderboard is empty")
    } else {
        tr(
            lang,
            "Таблица лидеров недоступна до конца контеста",
            "Leaderboard unavailable until the contest finishes",
        )
    }
}

/// A score cell is bold when it shows a full score of 100.
pub fn is_full_score(score: &Option<String>) -> (r: bool)
    ensures
        r == (score matches Some(s) && s@ == "100"@),
{
    match score {
        Some(s) => str_eq(s.as_str(), "100"),
        None => false,
    }
}

} // verus!
