//! The forms of the interface: what their fields turn into, and when they may be sent.
use vstd::prelude::*;
use vstd::string::*;
use crate::models::{AdminLevel, Language, PublicContestConfig, Timestamp};
use crate::text::{
    chars_of, decimal_int, decimal_views_i64, join_i64, join_seq, parse_i64, parse_in_range,
    parse_usize, string_of, trim_chars, trim_seq,
};
use crate::time::{plus_seconds, seconds_between, timestamp_plus_seconds, whole_seconds_between};

verus! {

/// What the contest form sends: a contest as its author set it up.
#[derive(Clone, Debug)]
pub struct ContestRequest {
    pub name_ru: String,
    pub name_en: String,
    pub starts_at: Timestamp,
    pub finishes_at: Timestamp,
    pub statements_url_ru: String,
    pub editorial_url_ru: String,
    pub statements_url_en: String,
    pub editorial_url_en: String,
    pub hidden: bool,
    pub upsolving_enabled: bool,
    pub solutions_hidden: bool,
    pub leaderboard_hidden: bool,
    pub co_authors: Vec<i64>,
}

/// The fields of the contest form, as typed: the duration in four number fields
/// (days, hours, minutes, seconds) and the co-authors' ids as one comma-separated text.
#[derive(Clone, Debug)]
pub struct ContestForm {
    pub name_ru: String,
    pub name_en: String,
    pub starts_at: Timestamp,
    pub days: String,
    pub hours: String,
    pub minutes: String,
    pub seconds: String,
    pub statements_url_ru: String,
    pub editorial_url_ru: String,
    pub statements_url_en: String,
    pub editorial_url_en: String,
    pub hidden: bool,
    pub upsolving_enabled: bool,
    pub solutions_hidden: bool,
    pub leaderboard_hidden: bool,
    pub co_authors: String,
}

/// The duration, in seconds, that the form starts with: two hours for a new contest, the
/// contest's length (never below zero) for an existing one.
pub open spec fn initial_seconds_spec(initial: Option<PublicContestConfig>) -> int {
    match initial {
        Some(c) => if seconds_between(c.finishes_at, c.starts_at) > 0 {
            seconds_between(c.finishes_at, c.starts_at)
        } else {
            0
        },
        None => 7200,
    }
}

/// The length of a contest in whole seconds, or two hours when there is no contest yet.
pub fn initial_seconds(initial: Option<&PublicContestConfig>) -> (r: i128)
    ensures
        r == initial_seconds_spec(
            match initial {
                Some(c) => Some(*c),
                None => None,
            },
        ),
        0 <= r <= 0x3_0000_0000_0000_0000,
{
    match initial {
        Some(c) => {
            let s = whole_seconds_between(c.finishes_at, c.starts_at);
            if s > 0 {
                s
            } else {
                0
            }
        },
        None => 7200,
    }
}

/// The value a duration field counts for: the integer it holds, zero when it holds none
/// or a negative one.
pub open spec fn field_value(s: Seq<char>) -> int {
    match parse_in_range(s, i64::MIN as int, i64::MAX as int) {
        Some(v) => if v > 0 {
            v
        } else {
            0
        },
        None => 0,
    }
}

/// The duration that the four fields give, in seconds.
pub open spec fn duration_total(d: Seq<char>, h: Seq<char>, m: Seq<char>, s: Seq<char>) -> int {
    field_value(d) * 86400 + field_value(h) * 3600 + field_value(m) * 60 + field_value(s)
}

/// What a duration field counts for.
pub fn duration_field(s: &str) -> (r: i64)
    ensures
        r == field_value(s@),
        r >= 0,
{
    match parse_i64(s) {
        Some(v) => if v > 0 {
            v
        } else {
            0
        },
        None => 0,
    }
}

/// The text a form shows for the number `n`.
pub fn number_text(n: i64) -> (r: String)
    ensures
        r@ == decimal_int(n as int),
{
    crate::text::decimal_i64(n)
}

impl ContestForm {
    /// The form as it opens: filled from `initial` when a contest is edited, else empty with
    /// the start at `now` and a duration of two hours. The duration is split into whole days,
    /// hours, minutes and seconds; the co-authors' ids are joined with commas.
    pub fn new(initial: Option<&PublicContestConfig>, now: Timestamp) -> (f: Self)
        ensures
            ({
                let init = match initial {
                    Some(c) => Some(*c),
                    None => None,
                };
                let secs = initial_seconds_spec(init);
                &&& f.days@ == decimal_int(secs / 86400)
                &&& f.hours@ == decimal_int((secs % 86400) / 3600)
                &&& f.minutes@ == decimal_int((secs % 3600) / 60)
                &&& f.seconds@ == decimal_int(secs % 60)
                &&& f.total_seconds() == secs
            }),
            match initial {
                Some(c) => {
                    &&& f.name_ru@ == c.name_ru@
                    &&& f.name_en@ == c.name_en@
                    &&& f.starts_at == c.starts_at
                    &&& f.statements_url_ru@ == c.statements_url_ru@
                    &&& f.editorial_url_ru@ == c.editorial_url_ru@
                    &&& f.statements_url_en@ == c.statements_url_en@
                    &&& f.editorial_url_en@ == c.editorial_url_en@
                    &&& f.hidden == c.hidden
                    &&& f.upsolving_enabled == c.upsolving_enabled
                    &&& f.solutions_hidden == c.solutions_hidden
                    &&& f.leaderboard_hidden == c.leaderboard_hidden
                    &&& f.co_authors@ == join_seq(decimal_views_i64(c.co_authors@), ","@)
                    &&& co_author_ids(f.co_authors@) == c.co_authors@
                },
                None => {
                    &&& f.name_ru@.len() == 0
                    &&& f.name_en@.len() == 0
                    &&& f.starts_at == now
                    &&& f.statements_url_ru@.len() == 0
                    &&& f.editorial_url_ru@.len() == 0
                    &&& f.statements_url_en@.len() == 0
                    &&& f.editorial_url_en@.len() == 0
                    &&& !f.hidden
                    &&& !f.upsolving_enabled
                    &&& !f.solutions_hidden
                    &&& !f.leaderboard_hidden
                    &&& f.co_authors@.len() == 0
                },
            },
    {
        let secs = initial_seconds(initial);
        let days = number_text((secs / 86400) as i64);
        let hours = number_text(((secs % 86400) / 3600) as i64);
        let minutes = number_text(((secs % 3600) / 60) as i64);
        let seconds = number_text((secs % 60) as i64);
        proof {
            let t = secs as int;
            lemma_field_value_decimal(t / 86400);
            lemma_field_value_decimal((t % 86400) / 3600);
            lemma_field_value_decimal((t % 3600) / 60);
            lemma_field_value_decimal(t % 60);
            lemma_split_duration(t);
            if let Some(c) = initial {
                lemma_co_authors_round_trip(c.co_authors@);
            }
        }
        match initial {
            Some(c) => ContestForm {
                name_ru: c.name_ru.clone(),
                name_en: c.name_en.clone(),
                starts_at: c.starts_at,
                days,
                hours,
                minutes,
                seconds,
                statements_url_ru: c.statements_url_ru.clone(),
                editorial_url_ru: c.editorial_url_ru.clone(),
                statements_url_en: c.statements_url_en.clone(),
                editorial_url_en: c.editorial_url_en.clone(),
                hidden: c.hidden,
                upsolving_enabled: c.upsolving_enabled,
                solutions_hidden: c.solutions_hidden,
                leaderboard_hidden: c.leaderboard_hidden,
                co_authors: join_i64(&c.co_authors, ","),
            },
            None => ContestForm {
                name_ru: String::new(),
                name_en: String::new(),
                starts_at: now,
                days,
                hours,
                minutes,
                seconds,
                statements_url_ru: String::new(),
                editorial_url_ru: String::new(),
                statements_url_en: String::new(),
                editorial_url_en: String::new(),
                hidden: false,
                upsolving_enabled: false,
                solutions_hidden: false,
                leaderboard_hidden: false,
                co_authors: String::new(),
            },
        }
    }

    /// The duration the four fields give, in seconds.
    pub open spec fn total_seconds(&self) -> int {
        duration_total(self.days@, self.hours@, self.minutes@, self.seconds@)
    }

    /// A name is given in one language at least.
    pub open spec fn named(&self) -> bool {
        self.name_ru@.len() > 0 || self.name_en@.len() > 0
    }

    /// The duration the fields give, in seconds; `None` where it does not fit in an `i64`.
    pub fn duration_seconds(&self) -> (r: Option<i64>)
        ensures
            match r {
                Some(v) => v == self.total_seconds(),
                None => self.total_seconds() > i64::MAX,
            },
    {
        let d = duration_field(self.days.as_str());
        let h = duration_field(self.hours.as_str());
        let m = duration_field(self.minutes.as_str());
        let s = duration_field(self.seconds.as_str());
        let total: i128 = (d as i128) * 86400 + (h as i128) * 3600 + (m as i128) * 60 + (s as i128);
        if total <= i64::MAX as i128 {
            Some(total as i64)
        } else {
            None
        }
    }

    /// Whether a name is given in one language at least.
    pub fn is_named(&self) -> (r: bool)
        ensures
            r == self.named(),
    {
        !self.name_ru.as_str().is_empty() || !self.name_en.as_str().is_empty()
    }

    /// Whether the form may be sent: a name is given and the duration is positive (and fits
    /// in an `i64`).
    pub fn can_submit(&self) -> (r: bool)
        ensures
            r == (self.named() && 0 < self.total_seconds() <= i64::MAX),
    {
        if !self.is_named() {
            return false;
        }
        match self.duration_seconds() {
            Some(v) => v > 0,
            None => false,
        }
    }
}

/// The pieces of `s` between the separators `sep` (what `str::split` with a character gives):
/// one piece more than there are separators, the empty text giving one empty piece.
pub open spec fn split_on(s: Seq<char>, sep: char) -> Seq<Seq<char>>
    decreases s.len(),
{
    if s.len() == 0 {
        seq![Seq::empty()]
    } else {
        let rest = split_on(s.drop_last(), sep);
        if s.last() == sep {
            rest.push(Seq::empty())
        } else {
            rest.update(rest.len() - 1, rest.last().push(s.last()))
        }
    }
}

/// The integers that the pieces hold once trimmed, in order; pieces that hold none are skipped.
pub open spec fn parsed_ids(parts: Seq<Seq<char>>) -> Seq<i64>
    decreases parts.len(),
{
    if parts.len() == 0 {
        Seq::empty()
    } else {
        let prev = parsed_ids(parts.drop_last());
        match parse_in_range(trim_seq(parts.last()), i64::MIN as int, i64::MAX as int) {
            Some(v) => prev.push(v as i64),
            None => prev,
        }
    }
}

/// The co-authors' ids typed as one text: split at the commas, each piece trimmed and read as
/// an integer; pieces that are not one are left out.
pub open spec fn co_author_ids(text: Seq<char>) -> Seq<i64> {
    parsed_ids(split_on(text, ','))
}

/// The id that one trimmed piece holds, if any.
fn piece_id(piece: &Vec<char>) -> (r: Option<i64>)
    ensures
        match r {
            Some(v) => parse_in_range(trim_seq(piece@), i64::MIN as int, i64::MAX as int) == Some(
                v as int,
            ),
            None => parse_in_range(trim_seq(piece@), i64::MIN as int, i64::MAX as int) is None,
        },
{
    let t = trim_chars(piece);
    let s = string_of(&t);
    parse_i64(s.as_str())
}

/// Reads the co-authors' ids from the comma-separated text of the form.
pub fn parse_co_authors(text: &str) -> (r: Vec<i64>)
    ensures
        r@ == co_author_ids(text@),
{
    let v = chars_of(text);
    let mut ids: Vec<i64> = Vec::new();
    let mut cur: Vec<char> = Vec::new();
    let ghost mut done: Seq<Seq<char>> = Seq::empty();
    let mut i: usize = 0;
    assert(v@.take(0) =~= Seq::<char>::empty());
    while i < v.len()
        invariant
            i <= v.len(),
            v@ == text@,
            split_on(v@.take(i as int), ',') == done.push(cur@),
            ids@ == parsed_ids(done),
        decreases v.len() - i,
    {
        let c = v[i];
        let ghost pre = v@.take(i as int);
        assert(v@.take(i + 1).drop_last() =~= pre);
        assert(v@.take(i + 1).last() == c);
        if c == ',' {
            let p = piece_id(&cur);
            proof {
                let nd = done.push(cur@);
                assert(nd.drop_last() =~= done);
                assert(nd.last() == cur@);
                done = nd;
            }
            match p {
                Some(x) => ids.push(x),
                None => {},
            }
            cur = Vec::new();
            assert(split_on(v@.take(i + 1), ',') =~= done.push(cur@));
        } else {
            cur.push(c);
            assert(split_on(v@.take(i + 1), ',') =~= done.push(cur@));
        }
        i = i + 1;
    }
    let p = piece_id(&cur);
    proof {
        assert(v@.take(v.len() as int) =~= v@);
        let nd = done.push(cur@);
        assert(nd.drop_last() =~= done);
        assert(nd.last() == cur@);
    }
    match p {
        Some(x) => ids.push(x),
        None => {},
    }
    ids
}

/// Text without the separator is one piece.
pub(crate) proof fn lemma_split_single(x: Seq<char>, sep: char)
    requires
        forall|i: int| 0 <= i < x.len() ==> x[i] != sep,
    ensures
        split_on(x, sep) == seq![x],
    decreases x.len(),
{
    if x.len() == 0 {
        assert(x =~= Seq::<char>::empty());
    } else {
        lemma_split_single(x.drop_last(), sep);
        assert(x.last() != sep);
        assert(x.drop_last().push(x.last()) =~= x);
        assert(seq![x.drop_last()].update(0, x.drop_last().push(x.last())) =~= seq![x]);
    }
}

/// Appending a separator and then text without it adds that text as one more piece.
pub(crate) proof fn lemma_split_append(p: Seq<char>, x: Seq<char>, sep: char)
    requires
        forall|i: int| 0 <= i < x.len() ==> x[i] != sep,
    ensures
        split_on(p + seq![sep] + x, sep) == split_on(p, sep).push(x),
    decreases x.len(),
{
    let whole = p + seq![sep] + x;
    if x.len() == 0 {
        assert(x =~= Seq::<char>::empty());
        assert(whole.drop_last() =~= p);
        assert(whole =~= p + seq![sep]);
    } else {
        let x0 = x.drop_last();
        lemma_split_append(p, x0, sep);
        assert(whole.drop_last() =~= p + seq![sep] + x0);
        assert(whole.last() == x.last());
        assert(x.last() != sep);
        let rest = split_on(p, sep).push(x0);
        assert(x0.push(x.last()) =~= x);
        assert(rest.last() == x0);
        assert(rest.update(rest.len() - 1, x0.push(x.last())) =~= split_on(p, sep).push(x));
    }
}

/// Reading back ids joined with commas gives the ids: a contest's co-authors come back from
/// the text the form shows for them.
pub proof fn lemma_co_authors_round_trip(ids: Seq<i64>)
    ensures
        co_author_ids(join_seq(decimal_views_i64(ids), ","@)) == ids,
    decreases ids.len(),
{
    reveal_strlit(",");
    let parts = decimal_views_i64(ids);
    let e = Seq::<char>::empty();
    if ids.len() == 0 {
        assert(join_seq(parts, ","@) == e);
        assert(split_on(e, ',') == seq![e]);
        assert(seq![e].drop_last() =~= Seq::<Seq<char>>::empty());
        assert(trim_seq(e) =~= e);
        assert(parse_in_range(e, i64::MIN as int, i64::MAX as int) is None);
        assert(parsed_ids(Seq::<Seq<char>>::empty()) =~= Seq::<i64>::empty());
        assert(parsed_ids(seq![e]) =~= Seq::<i64>::empty());
    } else {
        let last = ids.last();
        crate::text::lemma_decimal_int_no_ws(last as int);
        crate::text::lemma_trim_without_ws(decimal_int(last as int));
        crate::text::lemma_decimal_int_reads_back(last as int, i64::MIN as int, i64::MAX as int);
        assert(parts.last() == decimal_int(last as int));
        if ids.len() == 1 {
            assert(join_seq(parts, ","@) == parts[0]);
            lemma_split_single(parts[0], ',');
            assert(seq![parts[0]].drop_last() =~= Seq::<Seq<char>>::empty());
            assert(seq![parts[0]].last() == parts.last());
            assert(parsed_ids(Seq::<Seq<char>>::empty()) =~= Seq::<i64>::empty());
            assert(parsed_ids(seq![parts[0]]) == Seq::<i64>::empty().push(last));
            assert(ids =~= Seq::<i64>::empty().push(last));
        } else {
            let prev = ids.drop_last();
            lemma_co_authors_round_trip(prev);
            assert(parts.drop_last() =~= decimal_views_i64(prev));
            let jp = join_seq(parts.drop_last(), ","@);
            assert(join_seq(parts, ","@) == jp + ","@ + parts.last());
            assert(","@ =~= seq![',']);
            lemma_split_append(jp, parts.last(), ',');
            let sp = split_on(jp, ',').push(parts.last());
            assert(sp.drop_last() =~= split_on(jp, ','));
            assert(sp.last() == parts.last());
            assert(parsed_ids(sp) == prev.push(last));
            assert(prev.push(last) =~= ids);
        }
    }
}

/// Splitting a number of seconds into days, hours, minutes and seconds loses none of them.
pub(crate) proof fn lemma_split_duration(secs: int)
    requires
        secs >= 0,
    ensures
        (secs / 86400) * 86400 + ((secs % 86400) / 3600) * 3600 + ((secs % 3600) / 60) * 60 + secs
            % 60 == secs,
{
    let d = secs / 86400;
    let r1 = secs % 86400;
    let h = r1 / 3600;
    let r2 = r1 % 3600;
    assert(secs == 86400 * d + r1);
    assert(r1 == 3600 * h + r2);
    assert(secs % 3600 == r2) by (nonlinear_arith)
        requires
            secs == 86400 * d + 3600 * h + r2,
            0 <= r2 < 3600,
    ;
    assert(secs % 60 == r2 % 60) by (nonlinear_arith)
        requires
            secs == 86400 * d + 3600 * h + r2,
            0 <= r2,
    ;
}

/// A field holding the decimal text of a number that is not negative counts for that number.
proof fn lemma_field_value_decimal(n: int)
    requires
        0 <= n <= i64::MAX,
    ensures
        field_value(decimal_int(n)) == n,
{
    crate::text::lemma_decimal_int_reads_back(n, i64::MIN as int, i64::MAX as int);
}

/// The most whole seconds that chrono's `TimeDelta::seconds` takes.
pub const MAX_DELTA_SECONDS: i64 = 9_223_372_036_854_775;

/// The duration can be sent: chrono's `TimeDelta::seconds` takes it, and the finish it gives
/// has its seconds in an `i64`.
pub open spec fn finish_fits(starts_at: Timestamp, seconds: int) -> bool {
    &&& seconds <= MAX_DELTA_SECONDS
    &&& i64::MIN <= plus_seconds(starts_at, seconds).0 <= i64::MAX
}

impl ContestForm {
    /// The request that the form sends: its texts and flags as they are, the finish its
    /// duration after its start (as chrono adds whole seconds), and the co-authors read from
    /// their text. `None` where chrono's `TimeDelta::seconds` does not take the duration or the
    /// finish's seconds do not fit in an `i64`.
    pub fn to_request(&self) -> (r: Option<ContestRequest>)
        ensures
            match r {
                Some(q) => {
                    &&& q.name_ru@ == self.name_ru@
                    &&& q.name_en@ == self.name_en@
                    &&& q.starts_at == self.starts_at
                    &&& q.finishes_at.secs == plus_seconds(self.starts_at, self.total_seconds()).0
                    &&& q.finishes_at.nanos == plus_seconds(self.starts_at, self.total_seconds()).1
                    &&& q.statements_url_ru@ == self.statements_url_ru@
                    &&& q.editorial_url_ru@ == self.editorial_url_ru@
                    &&& q.statements_url_en@ == self.statements_url_en@
                    &&& q.editorial_url_en@ == self.editorial_url_en@
                    &&& q.hidden == self.hidden
                    &&& q.upsolving_enabled == self.upsolving_enabled
                    &&& q.solutions_hidden == self.solutions_hidden
                    &&& q.leaderboard_hidden == self.leaderboard_hidden
                    &&& q.co_authors@ == co_author_ids(self.co_authors@)
                },
                None => !finish_fits(self.starts_at, self.total_seconds()),
            },
    {
        let secs = match self.duration_seconds() {
            Some(v) => v,
            None => return None,
        };
        if secs > MAX_DELTA_SECONDS {
            return None;
        }
        let fin = match timestamp_plus_seconds(self.starts_at, secs) {
            Some(t) => t,
            None => return None,
        };
        Some(
            ContestRequest {
                name_ru: self.name_ru.clone(),
                name_en: self.name_en.clone(),
                starts_at: self.starts_at,
                finishes_at: fin,
                statements_url_ru: self.statements_url_ru.clone(),
                editorial_url_ru: self.editorial_url_ru.clone(),
                statements_url_en: self.statements_url_en.clone(),
                editorial_url_en: self.editorial_url_en.clone(),
                hidden: self.hidden,
                upsolving_enabled: self.upsolving_enabled,
                solutions_hidden: self.solutions_hidden,
                leaderboard_hidden: self.leaderboard_hidden,
                co_authors: parse_co_authors(self.co_authors.as_str()),
            },
        )
    }
}

/// The announcement form may be sent: it has a title and a text in Russian, or both in English.
pub fn post_request_valid(title_ru: &str, text_ru: &str, title_en: &str, text_en: &str) -> (r: bool)
    ensures
        r == ((title_ru@.len() > 0 && text_ru@.len() > 0) || (title_en@.len() > 0 && text_en@.len()
            > 0)),
{
    (!title_ru.is_empty() && !text_ru.is_empty()) || (!title_en.is_empty() && !text_en.is_empty())
}

/// The registration form may be sent: a login and a password are given, and the password is
/// typed twice alike.
pub fn registration_valid(login: &str, password: &str, confirm: &str) -> (r: bool)
    ensures
        r == (login@.len() > 0 && password@.len() > 0 && password@ == confirm@),
{
    !login.is_empty() && !password.is_empty() && crate::text::str_eq(password, confirm)
}

/// The deletion form may be sent: a login and a password are given and the deletion is
/// confirmed.
pub fn deletion_allowed(login: &str, password: &str, confirmed: bool) -> (r: bool)
    ensures
        r == (login@.len() > 0 && password@.len() > 0 && confirmed),
{
    !login.is_empty() && !password.is_empty() && confirmed
}

/// An answer to a question may be sent when it is not empty.
pub fn answer_valid(answer: &str) -> (r: bool)
    ensures
        r == (answer@.len() > 0),
{
    !answer.is_empty()
}

/// A question may be asked: it has a title and a text, and the contest has a problem to ask
/// about.
pub fn question_can_submit(title: &str, text: &str, problem_count: usize) -> (r: bool)
    ensures
        r == (title@.len() > 0 && text@.len() > 0 && problem_count > 0),
{
    !title.is_empty() && !text.is_empty() && problem_count > 0
}

/// Whether the button that creates a problem is disabled: while a creation is under way, or
/// when no archive is picked.
pub fn create_disabled(busy: bool, has_archive: bool) -> (r: bool)
    ensures
        r == (busy || !has_archive),
{
    busy || !has_archive
}

/// Whether the send button of a solution is disabled: while a sending is under way, or when
/// there is nothing to send (pasted code that is only white space, or no file picked).
pub fn submit_disabled(busy: bool, paste_mode: bool, paste_code: &str, has_file: bool) -> (r: bool)
    ensures
        r == (busy || if paste_mode {
            trim_seq(paste_code@).len() == 0
        } else {
            !has_file
        }),
{
    if busy {
        return true;
    }
    if paste_mode {
        let v = chars_of(paste_code);
        let t = trim_chars(&v);
        t.len() == 0
    } else {
        !has_file
    }
}

/// The language picked at position `i` of the list Rust, C, C++, Go, Python, Pascal; any
/// other position gives Pascal.
pub open spec fn language_at(i: int) -> Language {
    if i == 0 {
        Language::Rust
    } else if i == 1 {
        Language::C
    } else if i == 2 {
        Language::Cpp
    } else if i == 3 {
        Language::Go
    } else if i == 4 {
        Language::Python
    } else {
        Language::FreePascal
    }
}

/// The language picked at position `i` of the language list.
pub fn language_from_index(i: usize) -> (r: Language)
    ensures
        r == language_at(i as int),
{
    match i {
        0 => Language::Rust,
        1 => Language::C,
        2 => Language::Cpp,
        3 => Language::Go,
        4 => Language::Python,
        _ => Language::FreePascal,
    }
}

/// The position of a level in the list user, admin, owner.
pub open spec fn level_position(level: AdminLevel) -> int {
    match level {
        AdminLevel::User => 0,
        AdminLevel::Admin => 1,
        AdminLevel::Owner => 2,
    }
}

/// The level at position `i` of the list user, admin, owner; any later position gives owner.
pub open spec fn level_at(i: int) -> AdminLevel {
    if i == 0 {
        AdminLevel::User
    } else if i == 1 {
        AdminLevel::Admin
    } else {
        AdminLevel::Owner
    }
}

/// The position at which the level list shows `level`.
pub fn admin_level_index(level: &AdminLevel) -> (r: usize)
    ensures
        r == level_position(*level),
{
    match level {
        AdminLevel::User => 0,
        AdminLevel::Admin => 1,
        AdminLevel::Owner => 2,
    }
}

/// The level picked at position `i` of the level list.
pub fn admin_level_from_index(i: usize) -> (r: AdminLevel)
    ensures
        r == level_at(i as int),
{
    match i {
        0 => AdminLevel::User,
        1 => AdminLevel::Admin,
        _ => AdminLevel::Owner,
    }
}

/// The level list picks back the level it was opened on: a profile's level is unchanged when
/// it is sent without a new pick.
pub proof fn lemma_admin_level_round_trip(level: AdminLevel)
    ensures
        level_at(level_position(level)) == level,
{
}

/// The position that a selection list reports as text: the number it holds, 0 when it holds
/// none.
pub open spec fn selection_at(text: Seq<char>) -> int {
    match parse_in_range(text, 0, usize::MAX as int) {
        Some(v) => v,
        None => 0,
    }
}

/// Reads the position that a selection list reports.
pub fn selection_index(text: &str) -> (r: usize)
    ensures
        r == selection_at(text@),
{
    match parse_usize(text) {
        Some(v) => v,
        None => 0,
    }
}

} // verus!
