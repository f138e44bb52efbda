//! Instants, durations and how they are shown.
use vstd::prelude::*;
use vstd::string::*;
use chrono::{Datelike, Timelike};
use crate::i18n::tr_spec;
use crate::models::Timestamp;
use crate::forms::{lemma_split_append, lemma_split_duration, lemma_split_single, split_on};
use crate::text::{
    decimal_int, decimal_nat, digits_value, lemma_decimal_int_no_ws, lemma_decimal_nat_reads_back,
    push_char, push_decimal_u128, push_decimal_u64, str_eq,
};

verus! {

/// `chrono::Utc::now()`, as its `timestamp()` and `timestamp_subsec_nanos()`: the current
/// time. It depends on the clock, so nothing is stated of it.
#[verifier::external_body]
pub(crate) fn now_timestamp() -> Timestamp {
    let now = chrono::Utc::now();
    Timestamp { secs: now.timestamp(), nanos: now.timestamp_subsec_nanos() }
}

/// `a` comes before `b`: chrono orders instants by their seconds, then by the nanoseconds past
/// them (a leap second after the second it extends).
pub open spec fn instant_before(a: Timestamp, b: Timestamp) -> bool {
    a.secs < b.secs || (a.secs == b.secs && a.nanos < b.nanos)
}

/// Whether `a` comes before `b`.
pub fn timestamp_before(a: Timestamp, b: Timestamp) -> (r: bool)
    ensures
        r == instant_before(a, b),
{
    a.secs < b.secs || (a.secs == b.secs && a.nanos < b.nanos)
}

/// The second of the day (UTC) at which the instant `t` stands.
pub open spec fn second_of_day(t: Timestamp) -> int {
    (t.secs % 86400) as int
}

/// The nanoseconds from `earlier` to `later`, as chrono's `later - earlier` counts them: the
/// difference of the seconds and of the nanoseconds past them, where a leap second that lies
/// between two times of day counts once more.
pub open spec fn span_nanos(later: Timestamp, earlier: Timestamp) -> int {
    let adjust = if second_of_day(later) > second_of_day(earlier) && earlier.nanos
        >= 1_000_000_000 {
        1int
    } else if second_of_day(later) < second_of_day(earlier) && later.nanos >= 1_000_000_000 {
        -1int
    } else {
        0int
    };
    (later.secs - earlier.secs + adjust) * 1_000_000_000 + (later.nanos - earlier.nanos)
}

/// Whole seconds of a span of `nanos` nanoseconds, rounded toward zero, as chrono's
/// `TimeDelta::num_seconds` gives them.
pub open spec fn whole_seconds(nanos: int) -> int {
    if nanos >= 0 {
        nanos / 1_000_000_000
    } else {
        -((-nanos) / 1_000_000_000)
    }
}

fn second_of_day_exec(t: Timestamp) -> (r: i128)
    ensures
        r == second_of_day(t),
{
    match t.secs.checked_rem_euclid(86400) {
        Some(r) => r as i128,
        None => 0,
    }
}

/// The nanoseconds from `earlier` to `later`, as chrono counts them.
pub fn nanos_between(later: Timestamp, earlier: Timestamp) -> (r: i128)
    ensures
        r == span_nanos(later, earlier),
{
    let dl = second_of_day_exec(later);
    let de = second_of_day_exec(earlier);
    let adjust: i128 = if dl > de && earlier.nanos >= 1_000_000_000 {
        1
    } else if dl < de && later.nanos >= 1_000_000_000 {
        -1
    } else {
        0
    };
    let secs: i128 = (later.secs as i128) - (earlier.secs as i128) + adjust;
    assert(-0x2_0000_0000_0000_0000 <= secs <= 0x2_0000_0000_0000_0000);
    assert(-0x2_0000_0000_0000_0000 * 1_000_000_000 <= secs * 1_000_000_000
        <= 0x2_0000_0000_0000_0000 * 1_000_000_000) by (nonlinear_arith)
        requires
            -0x2_0000_0000_0000_0000 <= secs <= 0x2_0000_0000_0000_0000,
    ;
    secs * 1_000_000_000 + ((later.nanos as i128) - (earlier.nanos as i128))
}

/// The calendar fields (year, month, day, hour, minute, second) that chrono gives for the
/// instant `micros` microseconds after the Unix epoch, in UTC, or `None` where chrono cannot
/// represent it.
pub uninterp spec fn civil_time(micros: i64) -> Option<(i32, u32, u32, u32, u32, u32)>;

/// `chrono::DateTime::from_timestamp_micros(micros)` and its `year()`, `month()`, `day()`,
/// `hour()`, `minute()` and `second()`. The fields are named by `civil_time`; chrono documents
/// that the month is 1 to 12, the day 1 to 31, the hour 0 to 23, the minute and second 0 to 59.
#[verifier::external_body]
fn civil_fields(micros: i64) -> (r: Option<(i32, u32, u32, u32, u32, u32)>)
    ensures
        r == civil_time(micros),
        r matches Some(f) ==> 1 <= f.1 <= 12 && 1 <= f.2 <= 31 && f.3 <= 23 && f.4 <= 59 && f.5
            <= 59,
{
    match chrono::DateTime::from_timestamp_micros(micros) {
        Some(dt) => Some((dt.year(), dt.month(), dt.day(), dt.hour(), dt.minute(), dt.second())),
        None => None,
    }
}

/// `digits` padded on the left with zeros to at least `width` characters.
pub open spec fn zero_padded(digits: Seq<char>, width: nat) -> Seq<char> {
    if digits.len() >= width {
        digits
    } else {
        Seq::new((width - digits.len()) as nat, |i: int| '0') + digits
    }
}

/// An integer written as `{:0w$}` writes it: the sign, then the digits padded with zeros so
/// that the whole is at least `width` characters.
pub open spec fn zero_padded_int(n: int, width: nat) -> Seq<char> {
    if n < 0 {
        seq!['-'] + zero_padded(decimal_nat((-n) as nat), if width > 0 {
            (width - 1) as nat
        } else {
            0
        })
    } else {
        zero_padded(decimal_nat(n as nat), width)
    }
}

/// The decimal digits of `n` have at least one character.
pub proof fn lemma_decimal_len(n: nat)
    ensures
        decimal_nat(n).len() >= 1,
        n < 10 ==> decimal_nat(n).len() == 1,
        n < 100 ==> decimal_nat(n).len() <= 2,
    decreases n,
{
    if n >= 10 {
        lemma_decimal_len(n / 10);
    }
}

/// Appends `n` padded with zeros to `width` characters.
fn push_padded(s: &mut String, n: u64, width: usize)
    ensures
        final(s)@ == old(s)@ + zero_padded(decimal_nat(n as nat), width as nat),
{
    let mut digits = String::new();
    push_decimal_u64(&mut digits, n);
    let len = digits.unicode_len();
    let mut k = len;
    let ghost start = s@;
    while k < width
        invariant
            len <= k <= width || (k == len && len >= width),
            len == decimal_nat(n as nat).len(),
            digits@ == decimal_nat(n as nat),
            s@ == start + Seq::new((k - len) as nat, |i: int| '0'),
        decreases width - k,
    {
        push_char(s, '0');
        assert(s@ =~= start + Seq::new((k + 1 - len) as nat, |i: int| '0'));
        k = k + 1;
    }
    s.append(digits.as_str());
    if len >= width {
        assert(s@ =~= old(s)@ + zero_padded(decimal_nat(n as nat), width as nat));
    } else {
        assert(s@ =~= old(s)@ + zero_padded(decimal_nat(n as nat), width as nat));
    }
}

/// `dd.MM.yyyy HH:mm:ss`, each field padded with zeros.
pub open spec fn civil_text(f: (i32, u32, u32, u32, u32, u32)) -> Seq<char> {
    zero_padded(decimal_nat(f.2 as nat), 2) + "."@ + zero_padded(decimal_nat(f.1 as nat), 2)
        + "."@ + zero_padded_int(f.0 as int, 4) + " "@ + zero_padded(decimal_nat(f.3 as nat), 2)
        + ":"@ + zero_padded(decimal_nat(f.4 as nat), 2) + ":"@ + zero_padded(
        decimal_nat(f.5 as nat),
        2,
    )
}

/// Writes calendar fields (year, month, day, hour, minute, second) as `dd.MM.yyyy HH:mm:ss`.
pub fn format_civil_time(f: (i32, u32, u32, u32, u32, u32)) -> (r: String)
    ensures
        r@ == civil_text(f),
{
    let mut s = String::new();
    push_padded(&mut s, f.2 as u64, 2);
    s.append(".");
    push_padded(&mut s, f.1 as u64, 2);
    s.append(".");
    if f.0 < 0 {
        push_char(&mut s, '-');
        let m: u64 = ((-(f.0 as i64)) as u64);
        push_padded(&mut s, m, 3);
    } else {
        push_padded(&mut s, f.0 as u64, 4);
    }
    s.append(" ");
    push_padded(&mut s, f.3 as u64, 2);
    s.append(":");
    push_padded(&mut s, f.4 as u64, 2);
    s.append(":");
    push_padded(&mut s, f.5 as u64, 2);
    proof {
        reveal_strlit(".");
        reveal_strlit(" ");
        reveal_strlit(":");
    }
    assert(s@ =~= civil_text(f));
    s
}

/// The second (since the Unix epoch) that the instant `t` shows in a time zone that is
/// `offset_minutes` minutes west of UTC, as chrono's `t + TimeDelta::minutes(-offset_minutes)`
/// gives it: the seconds moved by the offset, where an instant within a leap second that is
/// moved back counts from the end of that leap second.
pub open spec fn local_second(t: Timestamp, offset_minutes: i64) -> int {
    let n = -offset_minutes * 60;
    if t.nanos >= 1_000_000_000 && n < 0 {
        t.secs + 1 + n
    } else {
        t.secs + n
    }
}

/// The calendar fields that the instant `t` shows in a time zone `offset_minutes` minutes west
/// of UTC; `None` where chrono cannot represent the shifted instant.
pub open spec fn local_civil_time(t: Timestamp, offset_minutes: i64) -> Option<
    (i32, u32, u32, u32, u32, u32),
> {
    let m = local_second(t, offset_minutes) * 1_000_000;
    if i64::MIN <= m <= i64::MAX {
        civil_time(m as i64)
    } else {
        None
    }
}

/// An instant shown in local time as `dd.MM.yyyy HH:mm:ss`, where the browser's time zone is
/// `offset_minutes` minutes west of UTC (as JavaScript's `getTimezoneOffset` reports it).
/// `None` where chrono cannot represent the shifted instant. The offset is one that chrono's
/// `TimeDelta::minutes` takes.
pub fn format_datetime(t: Timestamp, offset_minutes: i64) -> (r: Option<String>)
    requires
        -(i64::MAX / 60_000) <= offset_minutes <= i64::MAX / 60_000,
    ensures
        match local_civil_time(t, offset_minutes) {
            Some(f) => r matches Some(s) && s@ == civil_text(f),
            None => r is None,
        },
{
    let n: i128 = -(offset_minutes as i128) * 60;
    let local: i128 = if t.nanos >= 1_000_000_000 && n < 0 {
        (t.secs as i128) + 1 + n
    } else {
        (t.secs as i128) + n
    };
    assert(-0x1_0000_0000_0000_0000 <= local <= 0x1_0000_0000_0000_0000);
    let m: i128 = local * 1_000_000;
    if m < i64::MIN as i128 || m > i64::MAX as i128 {
        return None;
    }
    match civil_fields(m as i64) {
        Some(f) => Some(format_civil_time(f)),
        None => None,
    }
}

/// Whole minutes of a duration of `seconds` seconds, or 0 for a negative one.
pub open spec fn whole_minutes(seconds: int) -> int {
    if seconds <= 0 {
        0
    } else {
        seconds / 60
    }
}

/// A number and its unit: "3 дн".
pub open spec fn amount(n: int, unit: Seq<char>) -> Seq<char> {
    decimal_int(n) + " "@ + unit
}

/// A last part after larger units: " 14 мин", or nothing when it is zero.
pub open spec fn last_part(n: int, unit: Seq<char>) -> Seq<char> {
    if n > 0 {
        " "@ + amount(n, unit)
    } else {
        Seq::<char>::empty()
    }
}

/// A duration in days, hours and minutes, without the larger units that are zero and without
/// minutes that are zero after larger units ("3 дн 2 ч"); under an hour the minutes always
/// show.
pub open spec fn duration_text(lang: Seq<char>, seconds: int) -> Seq<char> {
    let m = whole_minutes(seconds);
    let d = m / 1440;
    let h = m % 1440 / 60;
    let mm = m % 60;
    let du = tr_spec(lang, "дн"@, "d"@);
    let hu = tr_spec(lang, "ч"@, "h"@);
    let mu = tr_spec(lang, "мин"@, "min"@);
    if d > 0 {
        amount(d, du) + " "@ + amount(h, hu) + last_part(mm, mu)
    } else if h > 0 {
        amount(h, hu) + last_part(mm, mu)
    } else {
        amount(mm, mu)
    }
}

/// The seconds that a unit word of a duration text stands for: a day ("дн", "d"), an hour
/// ("ч", "h"), a minute ("мин", "min") or a second ("с", "s"); 0 for any other word.
pub open spec fn unit_seconds(word: Seq<char>) -> int {
    if word == "дн"@ || word == "d"@ {
        86400
    } else if word == "ч"@ || word == "h"@ {
        3600
    } else if word == "мин"@ || word == "min"@ {
        60
    } else if word == "с"@ || word == "s"@ {
        1
    } else {
        0
    }
}

/// What the words of a duration text add up to, in seconds, read as pairs of a number and its
/// unit (the last two words are the last pair).
pub open spec fn words_seconds(words: Seq<Seq<char>>) -> int
    decreases words.len(),
{
    if words.len() < 2 {
        0
    } else {
        words_seconds(words.drop_last().drop_last()) + digits_value(words[words.len() - 2])
            * unit_seconds(words.last())
    }
}

/// The units of the texts hold no space, and each stands for its number of seconds.
proof fn lemma_units(lang: Seq<char>)
    ensures
        forall|i: int|
            0 <= i < tr_spec(lang, "дн"@, "d"@).len() ==> #[trigger] tr_spec(lang, "дн"@, "d"@)[i]
                != ' ',
        forall|i: int|
            0 <= i < tr_spec(lang, "ч"@, "h"@).len() ==> #[trigger] tr_spec(lang, "ч"@, "h"@)[i]
                != ' ',
        forall|i: int|
            0 <= i < tr_spec(lang, "мин"@, "min"@).len() ==> #[trigger] tr_spec(
                lang,
                "мин"@,
                "min"@,
            )[i] != ' ',
        forall|i: int|
            0 <= i < tr_spec(lang, "с"@, "s"@).len() ==> #[trigger] tr_spec(lang, "с"@, "s"@)[i]
                != ' ',
        unit_seconds(tr_spec(lang, "дн"@, "d"@)) == 86400,
        unit_seconds(tr_spec(lang, "ч"@, "h"@)) == 3600,
        unit_seconds(tr_spec(lang, "мин"@, "min"@)) == 60,
        unit_seconds(tr_spec(lang, "с"@, "s"@)) == 1,
{
    reveal_strlit("дн");
    reveal_strlit("d");
    reveal_strlit("ч");
    reveal_strlit("h");
    reveal_strlit("мин");
    reveal_strlit("min");
    reveal_strlit("с");
    reveal_strlit("s");
    assert("ч"@ != "дн"@ && "ч"@ != "d"@) by {
        assert("ч"@.len() != "дн"@.len());
        assert("ч"@[0] != "d"@[0]);
    }
    assert("h"@ != "дн"@ && "h"@ != "d"@) by {
        assert("h"@.len() != "дн"@.len());
        assert("h"@[0] != "d"@[0]);
    }
    assert("мин"@ != "дн"@ && "мин"@ != "d"@ && "мин"@ != "ч"@ && "мин"@ != "h"@) by {
        assert("мин"@.len() != "дн"@.len());
        assert("мин"@.len() != "d"@.len());
        assert("мин"@.len() != "ч"@.len());
        assert("мин"@.len() != "h"@.len());
    }
    assert("min"@ != "дн"@ && "min"@ != "d"@ && "min"@ != "ч"@ && "min"@ != "h"@) by {
        assert("min"@.len() != "дн"@.len());
        assert("min"@.len() != "d"@.len());
        assert("min"@.len() != "ч"@.len());
        assert("min"@.len() != "h"@.len());
    }
    assert("с"@ != "дн"@ && "с"@ != "d"@ && "с"@ != "ч"@ && "с"@ != "h"@ && "с"@ != "мин"@
        && "с"@ != "min"@) by {
        assert("с"@.len() != "дн"@.len());
        assert("с"@[0] != "d"@[0]);
        assert("с"@[0] != "ч"@[0]);
        assert("с"@[0] != "h"@[0]);
        assert("с"@.len() != "мин"@.len());
        assert("с"@.len() != "min"@.len());
    }
    assert("s"@ != "дн"@ && "s"@ != "d"@ && "s"@ != "ч"@ && "s"@ != "h"@ && "s"@ != "мин"@
        && "s"@ != "min"@) by {
        assert("s"@.len() != "дн"@.len());
        assert("s"@[0] != "d"@[0]);
        assert("s"@[0] != "ч"@[0]);
        assert("s"@[0] != "h"@[0]);
        assert("s"@.len() != "мин"@.len());
        assert("s"@.len() != "min"@.len());
    }
}

/// A number and its unit are two words.
proof fn lemma_split_amount(n: int, u: Seq<char>)
    requires
        n >= 0,
        forall|i: int| 0 <= i < u.len() ==> u[i] != ' ',
    ensures
        split_on(amount(n, u), ' ') == seq![decimal_int(n), u],
{
    reveal_strlit(" ");
    lemma_decimal_int_no_ws(n);
    assert forall|i: int| 0 <= i < decimal_int(n).len() implies decimal_int(n)[i] != ' ' by {
        assert(!crate::text::is_ws(decimal_int(n)[i]));
    }
    lemma_split_single(decimal_int(n), ' ');
    assert(amount(n, u) =~= decimal_int(n) + seq![' '] + u);
    lemma_split_append(decimal_int(n), u, ' ');
    assert(seq![decimal_int(n)].push(u) =~= seq![decimal_int(n), u]);
}

/// A space and a number with its unit after a text add those two words.
proof fn lemma_split_more(p: Seq<char>, n: int, u: Seq<char>)
    requires
        n >= 0,
        forall|i: int| 0 <= i < u.len() ==> u[i] != ' ',
    ensures
        split_on(p + " "@ + amount(n, u), ' ') == split_on(p, ' ').push(decimal_int(n)).push(u),
{
    reveal_strlit(" ");
    lemma_decimal_int_no_ws(n);
    assert forall|i: int| 0 <= i < decimal_int(n).len() implies decimal_int(n)[i] != ' ' by {
        assert(!crate::text::is_ws(decimal_int(n)[i]));
    }
    let q = p + seq![' '] + decimal_int(n);
    assert(p + " "@ + amount(n, u) =~= q + seq![' '] + u);
    lemma_split_append(p, decimal_int(n), ' ');
    lemma_split_append(q, u, ' ');
}

/// A number and its unit at the end of the words add that many units.
proof fn lemma_words_push(ws: Seq<Seq<char>>, n: int, u: Seq<char>)
    requires
        n >= 0,
    ensures
        words_seconds(ws.push(decimal_int(n)).push(u)) == words_seconds(ws) + n * unit_seconds(u),
{
    let w = ws.push(decimal_int(n)).push(u);
    lemma_decimal_nat_reads_back(n as nat);
    assert(w.drop_last().drop_last() =~= ws);
    assert(w[w.len() - 2] == decimal_int(n));
}

/// A duration text accounts for every whole minute of the duration: read back as numbers and
/// their units, it adds up to the duration's whole minutes (none for a negative duration).
pub proof fn lemma_duration_text_reads_back(lang: Seq<char>, seconds: int)
    ensures
        words_seconds(split_on(duration_text(lang, seconds), ' ')) == whole_minutes(seconds) * 60,
{
    reveal_strlit(" ");
    let m = whole_minutes(seconds);
    let d = m / 1440;
    let h = m % 1440 / 60;
    let mm = m % 60;
    let du = tr_spec(lang, "дн"@, "d"@);
    let hu = tr_spec(lang, "ч"@, "h"@);
    let mu = tr_spec(lang, "мин"@, "min"@);
    lemma_units(lang);
    assert(m >= 0);
    lemma_split_duration(m * 60);
    assert(d * 1440 + h * 60 + mm == m) by (nonlinear_arith)
        requires
            m >= 0,
            d == m / 1440,
            h == m % 1440 / 60,
            mm == m % 60,
            ((m * 60) / 86400) * 86400 + (((m * 60) % 86400) / 3600) * 3600 + (((m * 60) % 3600)
                / 60) * 60 + (m * 60) % 60 == m * 60,
    ;
    let e = Seq::<Seq<char>>::empty();
    assert(words_seconds(e) == 0);
    if d > 0 {
        let head = amount(d, du) + " "@ + amount(h, hu);
        lemma_split_amount(d, du);
        lemma_split_more(amount(d, du), h, hu);
        lemma_words_push(e, d, du);
        assert(seq![decimal_int(d), du] =~= e.push(decimal_int(d)).push(du));
        lemma_words_push(seq![decimal_int(d), du], h, hu);
        if mm > 0 {
            lemma_split_more(head, mm, mu);
            assert(duration_text(lang, seconds) =~= head + " "@ + amount(mm, mu));
            lemma_words_push(seq![decimal_int(d), du].push(decimal_int(h)).push(hu), mm, mu);
        } else {
            assert(duration_text(lang, seconds) =~= head);
        }
    } else if h > 0 {
        lemma_split_amount(h, hu);
        lemma_words_push(e, h, hu);
        assert(seq![decimal_int(h), hu] =~= e.push(decimal_int(h)).push(hu));
        if mm > 0 {
            lemma_split_more(amount(h, hu), mm, mu);
            assert(duration_text(lang, seconds) =~= amount(h, hu) + " "@ + amount(mm, mu));
            lemma_words_push(seq![decimal_int(h), hu], mm, mu);
        } else {
            assert(duration_text(lang, seconds) =~= amount(h, hu));
        }
    } else {
        lemma_split_amount(mm, mu);
        lemma_words_push(e, mm, mu);
        assert(seq![decimal_int(mm), mu] =~= e.push(decimal_int(mm)).push(mu));
    }
}

fn push_amount(s: &mut String, n: u128, unit: &str)
    ensures
        final(s)@ == old(s)@ + amount(n as int, unit@),
{
    push_decimal_u128(s, n);
    s.append(" ");
    s.append(unit);
    proof {
        reveal_strlit(" ");
    }
    assert(final(s)@ =~= old(s)@ + amount(n as int, unit@));
}

fn push_last_part(s: &mut String, n: u128, unit: &str)
    ensures
        final(s)@ == old(s)@ + last_part(n as int, unit@),
{
    if n > 0 {
        s.append(" ");
        push_amount(s, n, unit);
        proof {
            reveal_strlit(" ");
        }
        assert(final(s)@ =~= old(s)@ + last_part(n as int, unit@));
    } else {
        assert(final(s)@ =~= old(s)@ + last_part(n as int, unit@));
    }
}

/// A duration of `seconds` seconds in days, hours and minutes ("3 дн 2 ч", "3 дн 2 ч 5 мин",
/// "45 мин"), without seconds; a negative duration shows as zero minutes.
pub fn format_duration(lang: &str, seconds: i128) -> (r: String)
    ensures
        r@ == duration_text(lang@, seconds as int),
{
    let m: u128 = if seconds <= 0 {
        0
    } else {
        (seconds / 60) as u128
    };
    let d = m / 1440;
    let h = m % 1440 / 60;
    let mm = m % 60;
    let en = str_eq(lang, "en");
    let (du, hu, mu) = if en {
        ("d", "h", "min")
    } else {
        ("дн", "ч", "мин")
    };
    let mut s = String::new();
    if d > 0 {
        push_amount(&mut s, d, du);
        s.append(" ");
        push_amount(&mut s, h, hu);
        push_last_part(&mut s, mm, mu);
    } else if h > 0 {
        push_amount(&mut s, h, hu);
        push_last_part(&mut s, mm, mu);
    } else {
        push_amount(&mut s, mm, mu);
    }
    assert(s@ =~= duration_text(lang@, seconds as int));
    s
}

/// The time left, `seconds` seconds, in days, hours, minutes and seconds, without the larger
/// units that are zero and without seconds that are zero after larger units ("1 дн 2 ч 14 мин");
/// a negative time shows as zero seconds.
pub open spec fn remaining_text(lang: Seq<char>, seconds: int) -> Seq<char> {
    let s = if seconds < 0 {
        0
    } else {
        seconds
    };
    let d = s / 86400;
    let h = s % 86400 / 3600;
    let m = s % 3600 / 60;
    let sec = s % 60;
    let du = tr_spec(lang, "дн"@, "d"@);
    let hu = tr_spec(lang, "ч"@, "h"@);
    let mu = tr_spec(lang, "мин"@, "min"@);
    let su = tr_spec(lang, "с"@, "s"@);
    if d > 0 {
        amount(d, du) + " "@ + amount(h, hu) + " "@ + amount(m, mu) + last_part(sec, su)
    } else if h > 0 {
        amount(h, hu) + " "@ + amount(m, mu) + last_part(sec, su)
    } else if m > 0 {
        amount(m, mu) + last_part(sec, su)
    } else {
        amount(sec, su)
    }
}

/// A time-left text accounts for every second left: read back as numbers and their units, it
/// adds up to the seconds left (none when the time is over).
pub proof fn lemma_remaining_text_reads_back(lang: Seq<char>, seconds: int)
    ensures
        words_seconds(split_on(remaining_text(lang, seconds), ' ')) == if seconds < 0 {
            0
        } else {
            seconds
        },
{
    reveal_strlit(" ");
    let t = if seconds < 0 {
        0
    } else {
        seconds
    };
    let d = t / 86400;
    let h = t % 86400 / 3600;
    let m = t % 3600 / 60;
    let sec = t % 60;
    let du = tr_spec(lang, "дн"@, "d"@);
    let hu = tr_spec(lang, "ч"@, "h"@);
    let mu = tr_spec(lang, "мин"@, "min"@);
    let su = tr_spec(lang, "с"@, "s"@);
    lemma_units(lang);
    lemma_split_duration(t);
    let e = Seq::<Seq<char>>::empty();
    assert(words_seconds(e) == 0);
    if d > 0 {
        let two = amount(d, du) + " "@ + amount(h, hu);
        let three = two + " "@ + amount(m, mu);
        lemma_split_amount(d, du);
        lemma_split_more(amount(d, du), h, hu);
        lemma_split_more(two, m, mu);
        let w1 = seq![decimal_int(d), du];
        assert(w1 =~= e.push(decimal_int(d)).push(du));
        lemma_words_push(e, d, du);
        lemma_words_push(w1, h, hu);
        let w2 = w1.push(decimal_int(h)).push(hu);
        lemma_words_push(w2, m, mu);
        if sec > 0 {
            lemma_split_more(three, sec, su);
            assert(remaining_text(lang, seconds) =~= three + " "@ + amount(sec, su));
            lemma_words_push(w2.push(decimal_int(m)).push(mu), sec, su);
        } else {
            assert(remaining_text(lang, seconds) =~= three);
        }
    } else if h > 0 {
        let two = amount(h, hu) + " "@ + amount(m, mu);
        lemma_split_amount(h, hu);
        lemma_split_more(amount(h, hu), m, mu);
        let w1 = seq![decimal_int(h), hu];
        assert(w1 =~= e.push(decimal_int(h)).push(hu));
        lemma_words_push(e, h, hu);
        lemma_words_push(w1, m, mu);
        if sec > 0 {
            lemma_split_more(two, sec, su);
            assert(remaining_text(lang, seconds) =~= two + " "@ + amount(sec, su));
            lemma_words_push(w1.push(decimal_int(m)).push(mu), sec, su);
        } else {
            assert(remaining_text(lang, seconds) =~= two);
        }
    } else if m > 0 {
        lemma_split_amount(m, mu);
        let w1 = seq![decimal_int(m), mu];
        assert(w1 =~= e.push(decimal_int(m)).push(mu));
        lemma_words_push(e, m, mu);
        if sec > 0 {
            lemma_split_more(amount(m, mu), sec, su);
            assert(remaining_text(lang, seconds) =~= amount(m, mu) + " "@ + amount(sec, su));
            lemma_words_push(w1, sec, su);
        } else {
            assert(remaining_text(lang, seconds) =~= amount(m, mu));
        }
    } else {
        lemma_split_amount(sec, su);
        lemma_words_push(e, sec, su);
        assert(seq![decimal_int(sec), su] =~= e.push(decimal_int(sec)).push(su));
    }
}

/// The time left, `seconds` seconds, as "1 дн 2 ч 14 мин 5 с", or "1 дн 2 ч 14 мин" on a
/// whole minute.
pub fn format_remaining(lang: &str, seconds: i128) -> (r: String)
    ensures
        r@ == remaining_text(lang@, seconds as int),
{
    let s: u128 = if seconds < 0 {
        0
    } else {
        seconds as u128
    };
    let d = s / 86400;
    let h = s % 86400 / 3600;
    let m = s % 3600 / 60;
    let sec = s % 60;
    let en = str_eq(lang, "en");
    let (du, hu, mu, su) = if en {
        ("d", "h", "min", "s")
    } else {
        ("дн", "ч", "мин", "с")
    };
    let mut out = String::new();
    if d > 0 {
        push_amount(&mut out, d, du);
        out.append(" ");
        push_amount(&mut out, h, hu);
        out.append(" ");
        push_amount(&mut out, m, mu);
        push_last_part(&mut out, sec, su);
    } else if h > 0 {
        push_amount(&mut out, h, hu);
        out.append(" ");
        push_amount(&mut out, m, mu);
        push_last_part(&mut out, sec, su);
    } else if m > 0 {
        push_amount(&mut out, m, mu);
        push_last_part(&mut out, sec, su);
    } else {
        push_amount(&mut out, sec, su);
    }
    assert(out@ =~= remaining_text(lang@, seconds as int));
    out
}

/// The instant `n` whole seconds after `t` (seconds, nanoseconds), as chrono's
/// `t + TimeDelta::seconds(n)` gives it: an instant within a leap second leaves it when whole
/// seconds are added, forward from its start, backward from its end.
pub open spec fn plus_seconds(t: Timestamp, n: int) -> (int, int) {
    if t.nanos >= 1_000_000_000 && n > 0 {
        (t.secs + n, t.nanos - 1_000_000_000)
    } else if t.nanos >= 1_000_000_000 && n < 0 {
        (t.secs + 1 + n, t.nanos - 1_000_000_000)
    } else {
        (t.secs + n, t.nanos as int)
    }
}

/// The instant `n` whole seconds after `t`; `None` where its seconds do not fit in an `i64`.
pub fn timestamp_plus_seconds(t: Timestamp, n: i64) -> (r: Option<Timestamp>)
    ensures
        match r {
            Some(u) => u.secs == plus_seconds(t, n as int).0 && u.nanos == plus_seconds(
                t,
                n as int,
            ).1,
            None => !(i64::MIN <= plus_seconds(t, n as int).0 <= i64::MAX),
        },
{
    let leap = t.nanos >= 1_000_000_000;
    let secs: i128 = if leap && n < 0 {
        (t.secs as i128) + 1 + (n as i128)
    } else {
        (t.secs as i128) + (n as i128)
    };
    if secs < i64::MIN as i128 || secs > i64::MAX as i128 {
        return None;
    }
    let nanos: u32 = if leap && n != 0 {
        t.nanos - 1_000_000_000
    } else {
        t.nanos
    };
    Some(Timestamp { secs: secs as i64, nanos })
}

/// Whole seconds from `earlier` to `later`, rounded toward zero: what chrono's
/// `(later - earlier).num_seconds()` gives.
pub open spec fn seconds_between(later: Timestamp, earlier: Timestamp) -> int {
    whole_seconds(span_nanos(later, earlier))
}

/// Whole seconds from `earlier` to `later`, rounded toward zero.
pub fn whole_seconds_between(later: Timestamp, earlier: Timestamp) -> (r: i128)
    ensures
        r == seconds_between(later, earlier),
        -0x3_0000_0000_0000_0000 <= r <= 0x3_0000_0000_0000_0000,
{
    let d = nanos_between(later, earlier);
    if d >= 0 {
        d / 1_000_000_000
    } else {
        -((-d) / 1_000_000_000)
    }
}

/// The instant that a local date and time stand for: the earliest instant that shows them in
/// the local time zone, or, where none does (a time skipped by a change of the clocks), the
/// instant that shows them in UTC.
pub fn local_instant(earliest: Option<Timestamp>, as_utc: Timestamp) -> (r: Timestamp)
    ensures
        r == match earliest {
            Some(e) => e,
            None => as_utc,
        },
{
    match earliest {
        Some(e) => e,
        None => as_utc,
    }
}

/// The date (year, month, day) that chrono reads from `text` in the form `%Y-%m-%d`, or
/// `None` where it reads none.
pub uninterp spec fn parsed_date(text: Seq<char>) -> Option<(i32, u32, u32)>;

/// `chrono::NaiveDate::parse_from_str(text, "%Y-%m-%d")` and the date's `year()`, `month()`
/// and `day()`. The result is named by `parsed_date`; chrono documents that a date's month is
/// 1 to 12 and its day 1 to 31.
#[verifier::external_body]
fn parse_date(text: &str) -> (r: Option<(i32, u32, u32)>)
    ensures
        r == parsed_date(text@),
        r matches Some(d) ==> 1 <= d.1 <= 12 && 1 <= d.2 <= 31,
{
    match chrono::NaiveDate::parse_from_str(text, "%Y-%m-%d") {
        Ok(d) => Some((d.year(), d.month(), d.day())),
        Err(_) => None,
    }
}

/// The time of day (hour, minute) that chrono reads from `text` in the form `%H:%M`, or
/// `None` where it reads none.
pub uninterp spec fn parsed_time(text: Seq<char>) -> Option<(u32, u32)>;

/// `chrono::NaiveTime::parse_from_str(text, "%H:%M")` and the time's `hour()` and
/// `minute()`. The result is named by `parsed_time`; chrono documents that out-of-bound times
/// are errors, so the hour is 0 to 23 and the minute 0 to 59.
#[verifier::external_body]
fn parse_time(text: &str) -> (r: Option<(u32, u32)>)
    ensures
        r == parsed_time(text@),
        r matches Some(t) ==> t.0 <= 23 && t.1 <= 59,
{
    match chrono::NaiveTime::parse_from_str(text, "%H:%M") {
        Ok(t) => Some((t.hour(), t.minute())),
        Err(_) => None,
    }
}

/// The local date and time that a date field and a time field give together: year, month,
/// day, hour, minute; `None` unless both fields read.
pub open spec fn datetime_fields_spec(date: Seq<char>, time: Seq<char>) -> Option<
    (i32, u32, u32, u32, u32),
> {
    match (parsed_date(date), parsed_time(time)) {
        (Some(d), Some(t)) => Some((d.0, d.1, d.2, t.0, t.1)),
        _ => None,
    }
}

/// Reads the date field (`%Y-%m-%d`) and the time field (`%H:%M`) of a date-and-time input.
/// While either does not read, the input keeps its value.
pub fn datetime_fields(date: &str, time: &str) -> (r: Option<(i32, u32, u32, u32, u32)>)
    ensures
        r == datetime_fields_spec(date@, time@),
        r matches Some(f) ==> 1 <= f.1 <= 12 && 1 <= f.2 <= 31 && f.3 <= 23 && f.4 <= 59,
{
    let d = match parse_date(date) {
        Some(d) => d,
        None => return None,
    };
    let t = match parse_time(time) {
        Some(t) => t,
        None => return None,
    };
    Some((d.0, d.1, d.2, t.0, t.1))
}

} // verus!
