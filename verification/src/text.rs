use vstd::prelude::*;
use vstd::string::*;
use vstd::std_specs::iter::IteratorSpec;

verus! {

/// The character of a decimal digit `d` (0 through 9).
pub open spec fn digit_char(d: int) -> char {
    (d + 48) as char
}

/// Decimal digits of a natural number, most significant first, no leading zeros.
pub open spec fn decimal_nat(n: nat) -> Seq<char>
    decreases n,
{
    if n < 10 {
        seq![digit_char(n as int)]
    } else {
        decimal_nat(n / 10).push(digit_char((n % 10) as int))
    }
}

/// Decimal text of an integer, with a leading '-' when it is negative.
pub open spec fn decimal_int(n: int) -> Seq<char> {
    if n < 0 {
        seq!['-'] + decimal_nat((-n) as nat)
    } else {
        decimal_nat(n as nat)
    }
}

/// `String::push`.
#[verifier::external_body]
pub(crate) fn push_char(s: &mut String, c: char)
    ensures
        final(s)@ == old(s)@.push(c),
{
    s.push(c);
}

/// `str` equality.
#[verifier::external_body]
pub(crate) fn str_eq(a: &str, b: &str) -> (r: bool)
    ensures
        r == (a@ == b@),
{
    a == b
}

fn digit(d: u64) -> (c: char)
    requires
        d < 10,
    ensures
        c == digit_char(d as int),
{
    let b: u8 = (d as u8) + 48;
    b as char
}

/// Appends the decimal digits of `n` to `s`.
pub fn push_decimal_u64(s: &mut String, n: u64)
    ensures
        final(s)@ == old(s)@ + decimal_nat(n as nat),
    decreases n,
{
    if n < 10 {
        push_char(s, digit(n));
    } else {
        push_decimal_u64(s, n / 10);
        push_char(s, digit(n % 10));
    }
}

/// Appends the decimal digits of `n` to `s`.
pub fn push_decimal_u128(s: &mut String, n: u128)
    ensures
        final(s)@ == old(s)@ + decimal_nat(n as nat),
    decreases n,
{
    if n < 10 {
        push_char(s, digit(n as u64));
    } else {
        push_decimal_u128(s, n / 10);
        push_char(s, digit((n % 10) as u64));
    }
}

} // verus!

verus! {

/// The characters of `s`, in order.
pub fn chars_of(s: &str) -> (v: Vec<char>)
    ensures
        v@ == s@,
{
    broadcast use vstd::string::group_string_axioms;
    let mut v: Vec<char> = Vec::new();
    let mut it = s.chars();
    loop
        invariant
            v@ + it.remaining() == s@,
            it.obeys_prophetic_iter_laws(),
        ensures
            v@ == s@,
        decreases s@.len() - v@.len(),
    {
        match it.next() {
            Some(c) => {
                v.push(c);
            },
            None => {
                assert(v@ =~= s@);
                break;
            },
        }
    }
    v
}

/// The string made of the characters of `v`, in order.
pub fn string_of(v: &Vec<char>) -> (s: String)
    ensures
        s@ == v@,
{
    let mut s = String::new();
    let mut i: usize = 0;
    while i < v.len()
        invariant
            i <= v.len(),
            s@ == v@.take(i as int),
        decreases v.len() - i,
    {
        push_char(&mut s, v[i]);
        assert(v@.take(i + 1) =~= v@.take(i as int).push(v@[i as int]));
        i = i + 1;
    }
    assert(v@.take(v.len() as int) =~= v@);
    s
}

} // verus!

verus! {

/// Appends the decimal text of `n` to `s`.
pub fn push_decimal_i64(s: &mut String, n: i64)
    ensures
        final(s)@ == old(s)@ + decimal_int(n as int),
{
    if n < 0 {
        push_char(s, '-');
        let m: u64 = ((-(n + 1)) as u64) + 1;
        push_decimal_u64(s, m);
        assert(final(s)@ =~= old(s)@ + decimal_int(n as int));
    } else {
        push_decimal_u64(s, n as u64);
    }
}

/// The decimal text of `n`.
pub fn decimal_i64(n: i64) -> (s: String)
    ensures
        s@ == decimal_int(n as int),
{
    let mut s = String::new();
    push_decimal_i64(&mut s, n);
    assert(s@ =~= decimal_int(n as int));
    s
}

/// The decimal text of `n`.
pub fn decimal_u64(n: u64) -> (s: String)
    ensures
        s@ == decimal_nat(n as nat),
{
    let mut s = String::new();
    push_decimal_u64(&mut s, n);
    assert(s@ =~= decimal_nat(n as nat));
    s
}

/// `p` stands in `s` at index `i`.
pub open spec fn occurs_at(s: Seq<char>, p: Seq<char>, i: int) -> bool {
    0 <= i && i + p.len() <= s.len() && s.subrange(i, i + p.len()) == p
}

/// The index of the first occurrence of `p` in `s` at or after `from`.
pub open spec fn find_from(s: Seq<char>, p: Seq<char>, from: int) -> Option<int>
    decreases s.len() - from,
{
    if from < 0 || from + p.len() > s.len() {
        None
    } else if occurs_at(s, p, from) {
        Some(from)
    } else if from >= s.len() {
        None
    } else {
        find_from(s, p, from + 1)
    }
}

/// `p` occurs somewhere in `s`.
pub open spec fn contains_seq(s: Seq<char>, p: Seq<char>) -> bool {
    exists|i: int| occurs_at(s, p, i)
}

/// What `find_from` gives is the first occurrence at or after `from`.
pub proof fn lemma_find_from(s: Seq<char>, p: Seq<char>, from: int)
    requires
        0 <= from,
    ensures
        match find_from(s, p, from) {
            Some(i) => from <= i && occurs_at(s, p, i) && forall|j: int|
                from <= j < i ==> !occurs_at(s, p, j),
            None => forall|j: int| from <= j ==> !occurs_at(s, p, j),
        },
    decreases s.len() - from,
{
    if from + p.len() > s.len() {
    } else if occurs_at(s, p, from) {
    } else if from >= s.len() {
        assert forall|j: int| from <= j implies !occurs_at(s, p, j) by {
            if j == from {
            } else {
                assert(p.len() == 0);
                assert(s.subrange(from, from + p.len()) =~= p);
            }
        }
    } else {
        lemma_find_from(s, p, from + 1);
    }
}

/// `find_from(s, p, 0)` finds an occurrence exactly when `p` occurs in `s`.
pub proof fn lemma_contains_find(s: Seq<char>, p: Seq<char>)
    ensures
        contains_seq(s, p) <==> find_from(s, p, 0) is Some,
{
    lemma_find_from(s, p, 0);
    if find_from(s, p, 0) is Some {
        let i = find_from(s, p, 0)->0;
        assert(occurs_at(s, p, i));
    }
}

/// Whether `p` stands in `s` at index `i`.
pub fn matches_at(s: &Vec<char>, p: &Vec<char>, i: usize) -> (r: bool)
    ensures
        r == occurs_at(s@, p@, i as int),
{
    if i > s.len() || p.len() > s.len() - i {
        return false;
    }
    let mut j: usize = 0;
    while j < p.len()
        invariant
            i + p.len() <= s.len(),
            j <= p.len(),
            forall|k: int| 0 <= k < j ==> s@[i + k] == p@[k],
        decreases p.len() - j,
    {
        if s[i + j] != p[j] {
            assert(s@.subrange(i as int, i + p.len())[j as int] != p@[j as int]);
            return false;
        }
        j = j + 1;
    }
    assert(s@.subrange(i as int, i + p.len()) =~= p@);
    true
}

/// The index of the first occurrence of `p` in `s` at or after `from`.
pub fn find_chars(s: &Vec<char>, p: &Vec<char>, from: usize) -> (r: Option<usize>)
    ensures
        match r {
            Some(i) => find_from(s@, p@, from as int) == Some(i as int),
            None => find_from(s@, p@, from as int) is None,
        },
{
    let mut i = from;
    while i <= s.len()
        invariant
            from <= i,
            find_from(s@, p@, from as int) == find_from(s@, p@, i as int),
        decreases s.len() + 1 - i,
    {
        if p.len() > s.len() - i {
            return None;
        }
        if matches_at(s, p, i) {
            return Some(i);
        }
        if i == s.len() {
            return None;
        }
        i = i + 1;
    }
    None
}

/// Whether `p` occurs in `s`.
pub fn contains_chars(s: &Vec<char>, p: &Vec<char>) -> (r: bool)
    ensures
        r == contains_seq(s@, p@),
{
    proof {
        lemma_contains_find(s@, p@);
    }
    find_chars(s, p, 0).is_some()
}

/// `s` begins with `p`.
pub open spec fn starts_with_seq(s: Seq<char>, p: Seq<char>) -> bool {
    p.len() <= s.len() && s.take(p.len() as int) == p
}

/// Whether `s` begins with `p`.
pub fn starts_with_chars(s: &Vec<char>, p: &Vec<char>) -> (r: bool)
    ensures
        r == starts_with_seq(s@, p@),
{
    let r = matches_at(s, p, 0);
    proof {
        if p@.len() <= s@.len() {
            assert(s@.take(p@.len() as int) =~= s@.subrange(0, p@.len() as int));
        }
    }
    r
}

/// Whether `s` contains `p`.
pub fn str_contains(s: &str, p: &str) -> (r: bool)
    ensures
        r == contains_seq(s@, p@),
{
    let sv = chars_of(s);
    let pv = chars_of(p);
    contains_chars(&sv, &pv)
}

/// Whether `s` begins with `p`.
pub fn str_starts_with(s: &str, p: &str) -> (r: bool)
    ensures
        r == starts_with_seq(s@, p@),
{
    let sv = chars_of(s);
    let pv = chars_of(p);
    starts_with_chars(&sv, &pv)
}

} // verus!

verus! {

/// The characters with the Unicode `White_Space` property (what `char::is_whitespace` tests).
pub open spec fn is_ws(c: char) -> bool {
    ||| ('\u{9}' <= c && c <= '\u{d}')
    ||| c == ' '
    ||| c == '\u{85}'
    ||| c == '\u{a0}'
    ||| c == '\u{1680}'
    ||| ('\u{2000}' <= c && c <= '\u{200a}')
    ||| c == '\u{2028}'
    ||| c == '\u{2029}'
    ||| c == '\u{202f}'
    ||| c == '\u{205f}'
    ||| c == '\u{3000}'
}

/// Whether `c` is white space.
pub fn char_is_ws(c: char) -> (r: bool)
    ensures
        r == is_ws(c),
{
    ('\u{9}' <= c && c <= '\u{d}') || c == ' ' || c == '\u{85}' || c == '\u{a0}' || c
        == '\u{1680}' || ('\u{2000}' <= c && c <= '\u{200a}') || c == '\u{2028}' || c
        == '\u{2029}' || c == '\u{202f}' || c == '\u{205f}' || c == '\u{3000}'
}

/// `s` without its leading white space.
pub open spec fn trim_start_seq(s: Seq<char>) -> Seq<char>
    decreases s.len(),
{
    if s.len() > 0 && is_ws(s[0]) {
        trim_start_seq(s.drop_first())
    } else {
        s
    }
}

/// `s` without its trailing white space.
pub open spec fn trim_end_seq(s: Seq<char>) -> Seq<char>
    decreases s.len(),
{
    if s.len() > 0 && is_ws(s.last()) {
        trim_end_seq(s.drop_last())
    } else {
        s
    }
}

/// `s` without leading and trailing white space (what `str::trim` gives).
pub open spec fn trim_seq(s: Seq<char>) -> Seq<char> {
    trim_end_seq(trim_start_seq(s))
}

/// `s` without its trailing white space (what `str::trim_end` gives).
pub fn trim_end_chars(s: &Vec<char>) -> (r: Vec<char>)
    ensures
        r@ == trim_end_seq(s@),
{
    let mut e = s.len();
    assert(s@.take(e as int) =~= s@);
    while e > 0 && char_is_ws(s[e - 1])
        invariant
            e <= s.len(),
            trim_end_seq(s@) == trim_end_seq(s@.take(e as int)),
        decreases e,
    {
        assert(s@.take(e as int).drop_last() =~= s@.take(e - 1));
        e = e - 1;
    }
    let r = copy_range(s, 0, e);
    assert(r@ =~= s@.take(e as int));
    r
}

/// `s` without leading and trailing white space.
pub fn trim_chars(s: &Vec<char>) -> (r: Vec<char>)
    ensures
        r@ == trim_seq(s@),
{
    let mut b: usize = 0;
    assert(s@.skip(0) =~= s@);
    while b < s.len() && char_is_ws(s[b])
        invariant
            b <= s.len(),
            trim_start_seq(s@) == trim_start_seq(s@.skip(b as int)),
        decreases s.len() - b,
    {
        assert(s@.skip(b as int).drop_first() =~= s@.skip(b + 1));
        b = b + 1;
    }
    let mid = copy_range(s, b, s.len());
    assert(mid@ =~= s@.skip(b as int));
    trim_end_chars(&mid)
}

/// The characters `s[from..to]`.
pub fn copy_range(s: &Vec<char>, from: usize, to: usize) -> (r: Vec<char>)
    requires
        from <= to <= s.len(),
    ensures
        r@ == s@.subrange(from as int, to as int),
{
    let mut r: Vec<char> = Vec::new();
    let mut i = from;
    while i < to
        invariant
            from <= i <= to <= s.len(),
            r@ == s@.subrange(from as int, i as int),
        decreases to - i,
    {
        r.push(s[i]);
        assert(r@ =~= s@.subrange(from as int, i + 1));
        i = i + 1;
    }
    r
}

/// Appends the characters `t` to `v`.
pub fn append_chars(v: &mut Vec<char>, t: &Vec<char>)
    ensures
        final(v)@ == old(v)@ + t@,
{
    let mut i: usize = 0;
    while i < t.len()
        invariant
            i <= t.len(),
            v@ == old(v)@ + t@.take(i as int),
        decreases t.len() - i,
    {
        v.push(t[i]);
        assert(t@.take(i + 1) =~= t@.take(i as int).push(t@[i as int]));
        i = i + 1;
    }
    assert(t@.take(t.len() as int) =~= t@);
}

/// Appends the characters of `t` to `v`.
pub fn append_str(v: &mut Vec<char>, t: &str)
    ensures
        final(v)@ == old(v)@ + t@,
{
    let tv = chars_of(t);
    append_chars(v, &tv);
}

/// `c` is an ASCII decimal digit.
pub open spec fn is_digit(c: char) -> bool {
    '0' <= c && c <= '9'
}

/// The value of a decimal digit character.
pub open spec fn digit_value(c: char) -> int {
    (c as int) - 48
}

/// Every character of `s` is a decimal digit.
pub open spec fn all_digits(s: Seq<char>) -> bool {
    forall|i: int| 0 <= i < s.len() ==> is_digit(#[trigger] s[i])
}

/// The value of the decimal digits `s`.
pub open spec fn digits_value(s: Seq<char>) -> int
    decreases s.len(),
{
    if s.len() == 0 {
        0
    } else {
        digits_value(s.drop_last()) * 10 + digit_value(s.last())
    }
}

/// What `FromStr` of an unsigned integer type reads: an optional '+', then one or more digits.
pub open spec fn parse_unsigned(s: Seq<char>) -> Option<int> {
    let body = if s.len() > 0 && s[0] == '+' {
        s.drop_first()
    } else {
        s
    };
    if body.len() > 0 && all_digits(body) {
        Some(digits_value(body))
    } else {
        None
    }
}

/// What `FromStr` of a signed integer type reads: an optional '+' or '-', then one or more digits.
pub open spec fn parse_signed(s: Seq<char>) -> Option<int> {
    if s.len() > 0 && s[0] == '-' {
        let body = s.drop_first();
        if body.len() > 0 && all_digits(body) {
            Some(-digits_value(body))
        } else {
            None
        }
    } else {
        parse_unsigned(s)
    }
}

/// What `s.parse::<T>().ok()` gives for an integer type whose values are `lo..=hi`.
pub open spec fn parse_in_range(s: Seq<char>, lo: int, hi: int) -> Option<int> {
    match parse_signed(s) {
        Some(v) => if lo >= 0 && s.len() > 0 && s[0] == '-' {
            None
        } else if lo <= v && v <= hi {
            Some(v)
        } else {
            None
        },
        None => None,
    }
}

/// A value of digits is never smaller than the value of a prefix of them.
pub proof fn lemma_digits_value_prefix(s: Seq<char>, i: int)
    requires
        all_digits(s),
        0 <= i <= s.len(),
    ensures
        digits_value(s.take(i)) <= digits_value(s),
        0 <= digits_value(s.take(i)),
    decreases s.len() - i,
{
    if i == s.len() {
        assert(s.take(i) =~= s);
        lemma_digits_value_nonneg(s);
    } else {
        lemma_digits_value_prefix(s, i + 1);
        assert(s.take(i + 1).drop_last() =~= s.take(i));
        assert(is_digit(s[i]));
        assert(s.take(i + 1).last() == s[i]);
        assert(all_digits(s.take(i + 1)));
        lemma_digits_value_nonneg(s.take(i));
    }
}

/// The value of digits is not negative.
pub proof fn lemma_digits_value_nonneg(s: Seq<char>)
    requires
        all_digits(s),
    ensures
        0 <= digits_value(s),
    decreases s.len(),
{
    if s.len() > 0 {
        assert(all_digits(s.drop_last()));
        assert(is_digit(s[s.len() - 1]));
        lemma_digits_value_nonneg(s.drop_last());
    }
}

/// The decimal digits of `n` are digits, none of them white space, and read back as `n`.
pub proof fn lemma_decimal_nat_reads_back(n: nat)
    ensures
        decimal_nat(n).len() >= 1,
        all_digits(decimal_nat(n)),
        digits_value(decimal_nat(n)) == n,
    decreases n,
{
    let s = decimal_nat(n);
    if n < 10 {
        assert(s.drop_last() =~= Seq::<char>::empty());
        assert(digit_value(digit_char(n as int)) == n);
        assert(s.last() == digit_char(n as int));
        assert(digits_value(s) == digits_value(s.drop_last()) * 10 + digit_value(s.last()));
    } else {
        lemma_decimal_nat_reads_back(n / 10);
        let d = (n % 10) as int;
        assert(s.drop_last() =~= decimal_nat(n / 10));
        assert(digit_value(digit_char(d)) == d);
        assert(s.last() == digit_char(d));
        assert(digits_value(s) == digits_value(s.drop_last()) * 10 + digit_value(s.last()));
        assert(all_digits(s)) by {
            assert forall|i: int| 0 <= i < s.len() implies is_digit(#[trigger] s[i]) by {
                if i < s.len() - 1 {
                    assert(s[i] == decimal_nat(n / 10)[i]);
                }
            }
        }
    }
}

/// Reading the decimal text of an integer of the range `lo..=hi` gives it back.
pub proof fn lemma_decimal_int_reads_back(n: int, lo: int, hi: int)
    requires
        lo <= n <= hi,
        lo < 0 || n >= 0,
    ensures
        parse_in_range(decimal_int(n), lo, hi) == Some(n),
{
    if n < 0 {
        let body = decimal_nat((-n) as nat);
        lemma_decimal_nat_reads_back((-n) as nat);
        assert(decimal_int(n).drop_first() =~= body);
    } else {
        let body = decimal_nat(n as nat);
        lemma_decimal_nat_reads_back(n as nat);
        assert(is_digit(body[0]));
    }
}

/// Text that holds no white space is its own trimmed form.
pub proof fn lemma_trim_without_ws(s: Seq<char>)
    requires
        forall|i: int| 0 <= i < s.len() ==> !is_ws(#[trigger] s[i]),
    ensures
        trim_seq(s) == s,
{
    if s.len() > 0 {
        assert(!is_ws(s[0]));
        assert(!is_ws(s[s.len() - 1]));
    }
}

/// Decimal text holds no white space.
pub proof fn lemma_decimal_int_no_ws(n: int)
    ensures
        forall|i: int| 0 <= i < decimal_int(n).len() ==> !is_ws(#[trigger] decimal_int(n)[i]),
        forall|i: int| 0 <= i < decimal_int(n).len() ==> decimal_int(n)[i] != ',',
{
    let m: nat = if n < 0 {
        (-n) as nat
    } else {
        n as nat
    };
    lemma_decimal_nat_reads_back(m);
    let body = decimal_nat(m);
    assert forall|i: int| 0 <= i < decimal_int(n).len() implies !is_ws(#[trigger] decimal_int(n)[i])
        && decimal_int(n)[i] != ',' by {
        if n < 0 {
            if i > 0 {
                assert(decimal_int(n)[i] == body[i - 1]);
                assert(is_digit(body[i - 1]));
            }
        } else {
            assert(is_digit(body[i]));
        }
    }
}

/// Reads the digits `s[from..]` as a value no larger than `bound`.
/// `None` when a character is not a digit, when there is none, or when the value passes `bound`.
fn digits_upto(s: &Vec<char>, from: usize, bound: u64) -> (r: Option<u64>)
    requires
        from <= s.len(),
    ensures
        ({
            let body = s@.skip(from as int);
            match r {
                Some(v) => body.len() > 0 && all_digits(body) && v as int == digits_value(body)
                    && v <= bound,
                None => !(body.len() > 0 && all_digits(body) && digits_value(body) <= bound),
            }
        }),
{
    if from == s.len() {
        return None;
    }
    let ghost body = s@.skip(from as int);
    let mut acc: u64 = 0;
    let mut i = from;
    while i < s.len()
        invariant
            from <= i <= s.len(),
            body == s@.skip(from as int),
            all_digits(body.take(i - from)),
            acc as int == digits_value(body.take(i - from)),
            acc <= bound,
        decreases s.len() - i,
    {
        let c = s[i];
        if !('0' <= c && c <= '9') {
            proof {
                assert(body[i - from] == c);
                assert(!all_digits(body));
            }
            return None;
        }
        let d: u64 = ((c as u32) - 48) as u64;
        assert(body.take(i + 1 - from).drop_last() =~= body.take(i - from));
        assert(body.take(i + 1 - from).last() == c);
        if d > bound || acc > (bound - d) / 10 {
            proof {
                assert(all_digits(body.take(i + 1 - from))) by {
                    assert forall|k: int| 0 <= k < i + 1 - from implies is_digit(
                        #[trigger] body.take(i + 1 - from)[k],
                    ) by {
                        if k < i - from {
                            assert(body.take(i + 1 - from)[k] == body.take(i - from)[k]);
                        }
                    }
                }
                assert(digits_value(body.take(i + 1 - from)) > bound) by (nonlinear_arith)
                    requires
                        digits_value(body.take(i + 1 - from)) == acc * 10 + d,
                        d > bound || acc > (bound - d) / 10,
                        d <= 9,
                        acc >= 0,
                ;
                if all_digits(body) {
                    lemma_digits_value_prefix(body, i + 1 - from);
                }
            }
            return None;
        }
        assert(acc * 10 + d <= bound) by (nonlinear_arith)
            requires
                acc <= (bound - d) / 10,
                d <= 9,
        ;
        acc = acc * 10 + d;
        proof {
            assert forall|k: int| 0 <= k < i + 1 - from implies is_digit(
                #[trigger] body.take(i + 1 - from)[k],
            ) by {
                if k < i - from {
                    assert(body.take(i + 1 - from)[k] == body.take(i - from)[k]);
                }
            }
        }
        i = i + 1;
    }
    assert(body.take(i - from) =~= body);
    Some(acc)
}

} // verus!

verus! {

/// What `s.parse::<T>().ok()` gives for an unsigned integer type whose largest value is `hi`.
pub fn parse_unsigned_upto(s: &str, hi: u64) -> (r: Option<u64>)
    ensures
        match r {
            Some(v) => parse_in_range(s@, 0, hi as int) == Some(v as int),
            None => parse_in_range(s@, 0, hi as int) is None,
        },
{
    let v = chars_of(s);
    if v.len() == 0 {
        return None;
    }
    if v[0] == '-' {
        return None;
    }
    let from: usize = if v[0] == '+' {
        1
    } else {
        0
    };
    assert(from == 1 ==> v@.skip(1) =~= v@.drop_first());
    assert(from == 0 ==> v@.skip(0) =~= v@);
    let r = digits_upto(&v, from, hi);
    proof {
        let body = v@.skip(from as int);
        if body.len() > 0 && all_digits(body) {
            lemma_digits_value_nonneg(body);
        }
    }
    r
}

/// What `s.parse::<i64>().ok()` gives.
pub fn parse_i64(s: &str) -> (r: Option<i64>)
    ensures
        match r {
            Some(v) => parse_in_range(s@, i64::MIN as int, i64::MAX as int) == Some(v as int),
            None => parse_in_range(s@, i64::MIN as int, i64::MAX as int) is None,
        },
{
    let v = chars_of(s);
    if v.len() == 0 {
        return None;
    }
    if v[0] == '-' {
        assert(v@.skip(1) =~= v@.drop_first());
        let m = digits_upto(&v, 1, 9223372036854775808u64);
        match m {
            Some(m) => {
                if m == 9223372036854775808u64 {
                    Some(i64::MIN)
                } else {
                    Some(-(m as i64))
                }
            },
            None => None,
        }
    } else {
        let from: usize = if v[0] == '+' {
            1
        } else {
            0
        };
        assert(from == 1 ==> v@.skip(1) =~= v@.drop_first());
        assert(from == 0 ==> v@.skip(0) =~= v@);
        let m = digits_upto(&v, from, 9223372036854775807u64);
        proof {
            let body = v@.skip(from as int);
            if body.len() > 0 && all_digits(body) {
                lemma_digits_value_nonneg(body);
            }
        }
        match m {
            Some(m) => Some(m as i64),
            None => None,
        }
    }
}

/// What `s.parse::<usize>().ok()` gives.
pub fn parse_usize(s: &str) -> (r: Option<usize>)
    ensures
        match r {
            Some(v) => parse_in_range(s@, 0, usize::MAX as int) == Some(v as int),
            None => parse_in_range(s@, 0, usize::MAX as int) is None,
        },
{
    match parse_unsigned_upto(s, usize::MAX as u64) {
        Some(v) => Some(v as usize),
        None => None,
    }
}

/// What `s.parse::<u8>().ok()` gives.
pub fn parse_u8(s: &str) -> (r: Option<u8>)
    ensures
        match r {
            Some(v) => parse_in_range(s@, 0, 255) == Some(v as int),
            None => parse_in_range(s@, 0, 255) is None,
        },
{
    match parse_unsigned_upto(s, 255) {
        Some(v) => Some(v as u8),
        None => None,
    }
}

/// The parts joined with `sep` between each two of them.
pub open spec fn join_seq(parts: Seq<Seq<char>>, sep: Seq<char>) -> Seq<char>
    decreases parts.len(),
{
    if parts.len() == 0 {
        Seq::empty()
    } else if parts.len() == 1 {
        parts[0]
    } else {
        join_seq(parts.drop_last(), sep) + sep + parts.last()
    }
}

/// The views of `v`'s strings.
pub open spec fn views(v: Seq<String>) -> Seq<Seq<char>> {
    v.map_values(|s: String| s@)
}

/// The views after a push.
pub proof fn lemma_views_push(v: Seq<String>, s: String)
    ensures
        views(v.push(s)) == views(v).push(s@),
{
    assert(views(v.push(s)) =~= views(v).push(s@));
}

/// The strings of `parts` joined with `sep`.
pub fn join_strings(parts: &Vec<String>, sep: &str) -> (r: String)
    ensures
        r@ == join_seq(views(parts@), sep@),
{
    let mut r = String::new();
    let mut i: usize = 0;
    while i < parts.len()
        invariant
            i <= parts.len(),
            r@ == join_seq(views(parts@).take(i as int), sep@),
        decreases parts.len() - i,
    {
        assert(views(parts@).take(i + 1).drop_last() =~= views(parts@).take(i as int));
        if i > 0 {
            r.append(sep);
        }
        r.append(parts[i].as_str());
        proof {
            if i == 0 {
                assert(r@ =~= join_seq(views(parts@).take(1), sep@));
            }
        }
        i = i + 1;
    }
    assert(views(parts@).take(parts.len() as int) =~= views(parts@));
    r
}

/// The decimal texts of `v`'s numbers.
pub open spec fn decimal_views_i32(v: Seq<i32>) -> Seq<Seq<char>> {
    v.map_values(|n: i32| decimal_int(n as int))
}

/// The decimal texts of the numbers of `v`, joined with `sep`.
pub fn join_i32(v: &Vec<i32>, sep: &str) -> (r: String)
    ensures
        r@ == join_seq(decimal_views_i32(v@), sep@),
{
    let mut parts: Vec<String> = Vec::new();
    let mut i: usize = 0;
    while i < v.len()
        invariant
            i <= v.len(),
            parts@.len() == i,
            views(parts@) =~= decimal_views_i32(v@).take(i as int),
        decreases v.len() - i,
    {
        let ghost prev = parts@;
        parts.push(decimal_i64(v[i] as i64));
        proof {
            assert forall|k: int| 0 <= k < i + 1 implies views(parts@)[k]
                == decimal_views_i32(v@).take(i + 1)[k] by {
                if k < i {
                    assert(parts@[k] == prev[k]);
                    assert(views(prev)[k] == decimal_views_i32(v@).take(i as int)[k]);
                }
            }
            assert(views(parts@) =~= decimal_views_i32(v@).take(i + 1));
        }
        i = i + 1;
    }
    assert(decimal_views_i32(v@).take(v.len() as int) =~= decimal_views_i32(v@));
    join_strings(&parts, sep)
}

/// The decimal texts of `v`'s numbers.
pub open spec fn decimal_views_usize(v: Seq<usize>) -> Seq<Seq<char>> {
    v.map_values(|n: usize| decimal_nat(n as nat))
}

/// The decimal texts of the numbers of `v`, joined with `sep`.
pub fn join_usize(v: &Vec<usize>, sep: &str) -> (r: String)
    ensures
        r@ == join_seq(decimal_views_usize(v@), sep@),
{
    let mut parts: Vec<String> = Vec::new();
    let mut i: usize = 0;
    while i < v.len()
        invariant
            i <= v.len(),
            parts@.len() == i,
            views(parts@) =~= decimal_views_usize(v@).take(i as int),
        decreases v.len() - i,
    {
        let ghost prev = parts@;
        parts.push(decimal_u64(v[i] as u64));
        proof {
            assert forall|k: int| 0 <= k < i + 1 implies views(parts@)[k]
                == decimal_views_usize(v@).take(i + 1)[k] by {
                if k < i {
                    assert(parts@[k] == prev[k]);
                    assert(views(prev)[k] == decimal_views_usize(v@).take(i as int)[k]);
                }
            }
            assert(views(parts@) =~= decimal_views_usize(v@).take(i + 1));
        }
        i = i + 1;
    }
    assert(decimal_views_usize(v@).take(v.len() as int) =~= decimal_views_usize(v@));
    join_strings(&parts, sep)
}

/// The decimal texts of `v`'s numbers.
pub open spec fn decimal_views_i64(v: Seq<i64>) -> Seq<Seq<char>> {
    v.map_values(|n: i64| decimal_int(n as int))
}

/// The decimal texts of the numbers of `v`, joined with `sep`.
pub fn join_i64(v: &Vec<i64>, sep: &str) -> (r: String)
    ensures
        r@ == join_seq(decimal_views_i64(v@), sep@),
{
    let mut parts: Vec<String> = Vec::new();
    let mut i: usize = 0;
    while i < v.len()
        invariant
            i <= v.len(),
            parts@.len() == i,
            views(parts@) =~= decimal_views_i64(v@).take(i as int),
        decreases v.len() - i,
    {
        let ghost prev = parts@;
        parts.push(decimal_i64(v[i]));
        proof {
            assert forall|k: int| 0 <= k < i + 1 implies views(parts@)[k]
                == decimal_views_i64(v@).take(i + 1)[k] by {
                if k < i {
                    assert(parts@[k] == prev[k]);
                    assert(views(prev)[k] == decimal_views_i64(v@).take(i as int)[k]);
                }
            }
            assert(views(parts@) =~= decimal_views_i64(v@).take(i + 1));
        }
        i = i + 1;
    }
    assert(decimal_views_i64(v@).take(v.len() as int) =~= decimal_views_i64(v@));
    join_strings(&parts, sep)
}

} // verus!
