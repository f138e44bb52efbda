//! The backend's addresses and the texts around its replies.
use vstd::prelude::*;
use vstd::string::*;
use crate::errors::{describe_error, describe_error_spec, AdaJudgeError};
use crate::i18n::{tr, tr_spec};
use crate::text::{
    chars_of, copy_range, decimal_int, push_decimal_i64, starts_with_chars, starts_with_seq,
    str_eq, string_of,
};

verus! {

/// The backend that the application talks to when the build names none.
pub open spec fn default_api_base() -> Seq<char> {
    "https://aj-host.oneprog.org"@
}

/// The backend's base URL: the one `configured` at build time, or the production host.
pub fn api_base(configured: Option<&'static str>) -> (r: &'static str)
    ensures
        r@ == match configured {
            Some(s) => s@,
            None => default_api_base(),
        },
{
    match configured {
        Some(s) => s,
        None => "https://aj-host.oneprog.org",
    }
}

/// The `Authorization` header for a session token: "Bearer " and the token.
pub fn auth_header(token: &Option<String>) -> (r: Option<String>)
    ensures
        match token {
            Some(t) => r matches Some(h) && h@ == "Bearer "@ + t@,
            None => r is None,
        },
{
    match token {
        Some(t) => Some(String::from_str("Bearer ").concat(t.as_str())),
        None => None,
    }
}

/// The URL of the backend path `path` under the base URL `base`.
pub fn endpoint(base: &str, path: &str) -> (r: String)
    ensures
        r@ == base@ + path@,
{
    String::from_str(base).concat(path)
}

/// `prefix`, the decimal id, then `suffix`: a path such as "/contests/7/posts".
pub fn with_id(prefix: &str, id: i64, suffix: &str) -> (r: String)
    ensures
        r@ == prefix@ + decimal_int(id as int) + suffix@,
{
    let mut s = String::from_str(prefix);
    push_decimal_i64(&mut s, id);
    s.append(suffix);
    s
}

/// `s` without the double quotes at its start and end.
pub open spec fn strip_quotes_start(s: Seq<char>) -> Seq<char>
    decreases s.len(),
{
    if s.len() > 0 && s[0] == '"' {
        strip_quotes_start(s.drop_first())
    } else {
        s
    }
}

/// `s` without the double quotes at its end.
pub open spec fn strip_quotes_end(s: Seq<char>) -> Seq<char>
    decreases s.len(),
{
    if s.len() > 0 && s.last() == '"' {
        strip_quotes_end(s.drop_last())
    } else {
        s
    }
}

/// The session token in the body of a sign-in reply: the body without the double quotes
/// around it (as `trim_matches('"')` gives).
pub fn token_from_body(body: &str) -> (r: String)
    ensures
        r@ == strip_quotes_end(strip_quotes_start(body@)),
{
    let v = chars_of(body);
    let mut b: usize = 0;
    assert(v@.skip(0) =~= v@);
    while b < v.len() && v[b] == '"'
        invariant
            b <= v.len(),
            strip_quotes_start(v@) == strip_quotes_start(v@.skip(b as int)),
        decreases v.len() - b,
    {
        assert(v@.skip(b as int).drop_first() =~= v@.skip(b + 1));
        b = b + 1;
    }
    let mut e = v.len();
    let ghost mid = v@.skip(b as int);
    assert(mid =~= v@.subrange(b as int, e as int));
    while e > b && v[e - 1] == '"'
        invariant
            b <= e <= v.len(),
            mid == v@.skip(b as int),
            strip_quotes_end(mid) == strip_quotes_end(v@.subrange(b as int, e as int)),
        decreases e,
    {
        assert(v@.subrange(b as int, e as int).drop_last() =~= v@.subrange(b as int, e - 1));
        e = e - 1;
    }
    let out = copy_range(&v, b, e);
    proof {
        let rest = v@.subrange(b as int, e as int);
        if rest.len() > 0 {
            assert(rest.last() == v@[e - 1]);
        }
    }
    string_of(&out)
}

/// A failure message: what failed, then the details.
pub open spec fn failure_text(lang: Seq<char>, ru: Seq<char>, en: Seq<char>, detail: Seq<char>) -> Seq<char> {
    tr_spec(lang, ru, en) + ": "@ + detail
}

/// A failure message such as "Сетевая ошибка: <details>".
pub fn error_with_detail(lang: &str, ru: &str, en: &str, detail: &str) -> (r: String)
    ensures
        r@ == failure_text(lang@, ru@, en@, detail@),
{
    let mut s = tr(lang, ru, en);
    s.append(": ");
    s.append(detail);
    s
}

/// The message for a failed request: the backend's error when its reply could be read as one,
/// else "Ошибка сервера" and the HTTP status.
pub open spec fn server_failure_spec(lang: Seq<char>, error: Option<AdaJudgeError>, status: Seq<char>) -> Seq<char> {
    match error {
        Some(e) => describe_error_spec(lang, e),
        None => failure_text(lang, "Ошибка сервера"@, "Server error"@, status),
    }
}

/// The message for a request that the backend refused.
pub fn server_failure(lang: &str, error: &Option<AdaJudgeError>, status: &str) -> (r: String)
    ensures
        r@ == server_failure_spec(lang@, *error, status@),
{
    match error {
        Some(e) => describe_error(lang, e),
        None => error_with_detail(lang, "Ошибка сервера", "Server error", status),
    }
}

/// `s` without the repeated prefix `p` at its start (as `trim_start_matches` gives).
pub open spec fn trim_prefix_all(s: Seq<char>, p: Seq<char>) -> Seq<char>
    decreases s.len(),
{
    if p.len() > 0 && starts_with_seq(s, p) {
        trim_prefix_all(s.skip(p.len() as int), p)
    } else {
        s
    }
}

/// `s` without the slashes at its end.
pub open spec fn trim_slashes_end(s: Seq<char>) -> Seq<char>
    decreases s.len(),
{
    if s.len() > 0 && s.last() == '/' {
        trim_slashes_end(s.drop_last())
    } else {
        s
    }
}

/// The WebSocket URL of the backend path `path`: "wss" for an https base, "ws" otherwise; the
/// host is the base without its "https://" and "http://" prefixes and trailing slashes; the
/// session token, if any, goes in the query.
pub open spec fn ws_url_spec(base: Seq<char>, path: Seq<char>, token: Option<Seq<char>>) -> Seq<char> {
    let scheme = if starts_with_seq(base, "https"@) {
        "wss"@
    } else {
        "ws"@
    };
    let host = trim_slashes_end(trim_prefix_all(trim_prefix_all(base, "https://"@), "http://"@));
    let url = scheme + "://"@ + host + path;
    match token {
        Some(t) => url + "?token="@ + t,
        None => url,
    }
}

/// Removes every leading copy of `p` from `s[from..]`; returns where the rest starts.
fn skip_prefixes(s: &Vec<char>, p: &Vec<char>, from: usize) -> (r: usize)
    requires
        from <= s.len(),
    ensures
        from <= r <= s.len(),
        trim_prefix_all(s@.skip(from as int), p@) == s@.skip(r as int),
{
    let mut i = from;
    if p.len() == 0 {
        return i;
    }
    loop
        invariant
            from <= i <= s.len(),
            p@.len() > 0,
            trim_prefix_all(s@.skip(from as int), p@) == trim_prefix_all(s@.skip(i as int), p@),
        decreases s.len() - i,
    {
        let rest = copy_range(s, i, s.len());
        assert(rest@ =~= s@.skip(i as int));
        if starts_with_chars(&rest, p) {
            assert(s@.skip(i as int).skip(p@.len() as int) =~= s@.skip(i + p.len()));
            i = i + p.len();
        } else {
            return i;
        }
    }
}

/// The WebSocket URL of the backend path `path` under the base URL `base`, with the session
/// token in the query when there is one.
pub fn ws_url(base: &str, path: &str, token: &Option<String>) -> (r: String)
    ensures
        r@ == ws_url_spec(
            base@,
            path@,
            match token {
                Some(t) => Some(t@),
                None => None,
            },
        ),
{
    let b = chars_of(base);
    let https = chars_of("https");
    let scheme = if starts_with_chars(&b, &https) {
        "wss"
    } else {
        "ws"
    };
    let p1 = chars_of("https://");
    let p2 = chars_of("http://");
    assert(b@.skip(0) =~= b@);
    let s1 = skip_prefixes(&b, &p1, 0);
    let after1 = copy_range(&b, s1, b.len());
    assert(after1@ =~= b@.skip(s1 as int));
    assert(after1@.skip(0) =~= after1@);
    let s2 = skip_prefixes(&after1, &p2, 0);
    let mut e = after1.len();
    let ghost mid = after1@.skip(s2 as int);
    assert(mid =~= after1@.subrange(s2 as int, e as int));
    while e > s2 && after1[e - 1] == '/'
        invariant
            s2 <= e <= after1.len(),
            mid == after1@.skip(s2 as int),
            trim_slashes_end(mid) == trim_slashes_end(after1@.subrange(s2 as int, e as int)),
        decreases e,
    {
        assert(after1@.subrange(s2 as int, e as int).drop_last() =~= after1@.subrange(
            s2 as int,
            e - 1,
        ));
        e = e - 1;
    }
    proof {
        let rest = after1@.subrange(s2 as int, e as int);
        if rest.len() > 0 {
            assert(rest.last() == after1@[e - 1]);
        }
    }
    let host = string_of(&copy_range(&after1, s2, e));
    let mut url = String::from_str(scheme);
    url.append("://");
    url.append(host.as_str());
    url.append(path);
    match token {
        Some(t) => {
            url.append("?token=");
            url.append(t.as_str());
        },
        None => {},
    }
    url
}

/// The heartbeat that keeps a live feed open; the backend ignores it and sends it back.
pub open spec fn heartbeat() -> Seq<char> {
    "__ping__"@
}

/// The heartbeat text.
pub fn ws_heartbeat() -> (r: &'static str)
    ensures
        r@ == heartbeat(),
{
    "__ping__"
}

/// Whether a message of a live feed is the heartbeat, which carries no event.
pub fn is_heartbeat(text: &str) -> (r: bool)
    ensures
        r == (text@ == heartbeat()),
{
    str_eq(text, "__ping__")
}

/// The subscription key and path of a contest list feed: all contests (-1, "/contests/ws") or
/// the user's own (-2, "/contests/my/ws").
pub fn feed_subscription(mine: bool) -> (r: (i64, &'static str))
    ensures
        r.0 == if mine {
            -2i64
        } else {
            -1i64
        },
        r.1@ == if mine {
            "/contests/my/ws"@
        } else {
            "/contests/ws"@
        },
{
    if mine {
        (-2, "/contests/my/ws")
    } else {
        (-1, "/contests/ws")
    }
}

} // verus!
