//! Markdown to sanitized HTML, with language labels and a frame around code blocks.
use vstd::prelude::*;
use vstd::string::*;
use crate::text::{
    append_chars, append_str, chars_of, copy_range, find_chars, find_from, lemma_find_from,
    occurs_at, string_of, trim_end_chars, trim_end_seq,
};

verus! {

/// The HTML that pulldown-cmark writes for the markdown `text` parsed with the option bits `options`.
pub uninterp spec fn markdown_html(text: Seq<char>, options: u32) -> Seq<char>;

/// What ammonia's cleaner keeps of `html` when it allows, besides its defaults, the attributes
/// `generic_attributes` on every tag, the classes of each `(tag, classes)` of `class_rules` and
/// the attributes of each `(tag, attributes)` of `tag_attribute_rules`.
pub uninterp spec fn sanitized_html(
    html: Seq<char>,
    generic_attributes: Seq<Seq<char>>,
    class_rules: Seq<(Seq<char>, Seq<Seq<char>>)>,
    tag_attribute_rules: Seq<(Seq<char>, Seq<Seq<char>>)>,
) -> Seq<char>;

/// `pulldown_cmark::Parser::new_ext` with `Options::from_bits_truncate(options)`, written out
/// by `pulldown_cmark::html::push_html`. The result is named, not described.
#[verifier::external_body]
fn markdown_to_html(text: &str, options: u32) -> (html: String)
    ensures
        html@ == markdown_html(text@, options),
{
    let parser = pulldown_cmark::Parser::new_ext(
        text,
        pulldown_cmark::Options::from_bits_truncate(options),
    );
    let mut out = String::new();
    pulldown_cmark::html::push_html(&mut out, parser);
    out
}

/// The rules that ammonia's cleaner accepts on top of its defaults (which link with
/// `rel="noopener noreferrer"` and drop `script` and `style` with their content): no generic
/// `rel`, no generic `class` once classes are filtered, no `rel` on `a`, no `class` attribute
/// on a tag whose classes are filtered, and no attributes for `script` or `style`. With any
/// other rules, `clean` panics.
pub open spec fn sanitizer_rules_ok(
    generic_attributes: Seq<Seq<char>>,
    class_rules: Seq<(Seq<char>, Seq<Seq<char>>)>,
    tag_attribute_rules: Seq<(Seq<char>, Seq<Seq<char>>)>,
) -> bool {
    &&& !generic_attributes.contains("rel"@)
    &&& (class_rules.len() > 0 ==> !generic_attributes.contains("class"@))
    &&& forall|j: int|
        0 <= j < tag_attribute_rules.len() ==> {
            let (tag, attributes) = #[trigger] tag_attribute_rules[j];
            &&& (tag == "a"@ ==> !attributes.contains("rel"@))
            &&& tag != "script"@
            &&& tag != "style"@
            &&& forall|i: int|
                0 <= i < class_rules.len() && #[trigger] class_rules[i].0 == tag
                    ==> !attributes.contains("class"@)
        }
}

/// `ammonia::Builder::default()` extended by `add_generic_attributes`, `add_allowed_classes`
/// and `add_tag_attributes` with the given rules, then `clean(html).to_string()`.
/// The result is named, not described; the rules are held to what `clean` accepts.
#[verifier::external_body]
fn sanitize_html(
    html: &str,
    generic_attributes: &Vec<&str>,
    class_rules: &Vec<(&str, Vec<&str>)>,
    tag_attribute_rules: &Vec<(&str, Vec<&str>)>,
) -> (clean: String)
    requires
        sanitizer_rules_ok(
            generic_attributes.deep_view(),
            class_rules.deep_view(),
            tag_attribute_rules.deep_view(),
        ),
    ensures
        clean@ == sanitized_html(
            html@,
            generic_attributes.deep_view(),
            class_rules.deep_view(),
            tag_attribute_rules.deep_view(),
        ),
{
    let mut builder = ammonia::Builder::default();
    builder.add_generic_attributes(generic_attributes.iter().copied());
    for (tag, classes) in class_rules {
        builder.add_allowed_classes(*tag, classes.iter().copied());
    }
    for (tag, attributes) in tag_attribute_rules {
        builder.add_tag_attributes(*tag, attributes.iter().copied());
    }
    builder.clean(html).to_string()
}

/// The start of a code element that pulldown-cmark marks with a language.
pub open spec fn code_lang_open() -> Seq<char> {
    "<code class=\"language-"@
}

/// A double quote.
pub open spec fn quote() -> Seq<char> {
    "\""@
}

/// The opening of a fenced code element with the language `lang` and a `data-lang` label.
pub open spec fn tagged_code_open(lang: Seq<char>) -> Seq<char> {
    "<code data-lang=\""@ + lang + "\" class=\"language-"@ + lang + "\""@
}

/// Where the language of a code element found at `pos` ends: the next quote, or the end of `s`.
pub open spec fn lang_end(s: Seq<char>, pos: int) -> int {
    match find_from(s, quote(), pos + code_lang_open().len()) {
        Some(e) => e,
        None => s.len() as int,
    }
}

/// `s[i..]` where every `<code class="language-X"` carries `data-lang="X"` too.
pub open spec fn tag_from(s: Seq<char>, i: int) -> Seq<char>
    decreases s.len() - i,
{
    if i < 0 || i > s.len() {
        Seq::empty()
    } else {
        match find_from(s, code_lang_open(), i) {
            None => s.skip(i),
            Some(pos) => {
                let a = pos + code_lang_open().len();
                let end = lang_end(s, pos);
                let next = if end < s.len() {
                    end + 1
                } else {
                    s.len() as int
                };
                if next <= i {
                    Seq::empty()
                } else {
                    s.subrange(i, pos) + tagged_code_open(s.subrange(a, end)) + tag_from(s, next)
                }
            },
        }
    }
}

/// Facts about one step of the labelling.
proof fn lemma_tag_step(s: Seq<char>, i: int, pos: int)
    requires
        0 <= i <= s.len(),
        find_from(s, code_lang_open(), i) == Some(pos),
    ensures
        i <= pos,
        pos + code_lang_open().len() <= lang_end(s, pos) <= s.len(),
        occurs_at(s, code_lang_open(), pos),
{
    reveal_strlit("<code class=\"language-");
    reveal_strlit("\"");
    lemma_find_from(s, code_lang_open(), i);
    lemma_find_from(s, quote(), pos + code_lang_open().len());
}

/// Labelling `a + t` from inside `t` gives what labelling `t` gives.
proof fn lemma_tag_shift(a: Seq<char>, t: Seq<char>, j: int)
    requires
        0 <= j,
    ensures
        tag_from(a + t, a.len() + j) == tag_from(t, j),
    decreases t.len() - j,
{
    let s = a + t;
    let i = a.len() + j;
    if j > t.len() {
    } else {
        lemma_find_shift(a, t, code_lang_open(), j);
        match find_from(t, code_lang_open(), j) {
            None => {
                assert(s.skip(i) =~= t.skip(j));
            },
            Some(pos) => {
                lemma_tag_step(t, j, pos);
                lemma_find_shift(a, t, quote(), pos + code_lang_open().len());
                let end = lang_end(t, pos);
                assert(lang_end(s, a.len() + pos) == a.len() + end);
                let next = if end < t.len() {
                    end + 1
                } else {
                    t.len() as int
                };
                if next <= j {
                } else {
                    assert(s.subrange(i, a.len() + pos) =~= t.subrange(j, pos));
                    assert(s.subrange(a.len() + pos + code_lang_open().len(), a.len() + end)
                        =~= t.subrange(pos + code_lang_open().len(), end));
                    lemma_tag_shift(a, t, next);
                }
            },
        }
    }
}

/// Every code element that carries a language is labelled, and labelling goes on after it:
/// `<code class="language-X"` followed by any text becomes `<code data-lang="X"
/// class="language-X"` followed by that text labelled on its own.
pub proof fn lemma_every_language_labelled(x: Seq<char>, t: Seq<char>)
    requires
        forall|k: int| 0 <= k < x.len() ==> x[k] != '"',
    ensures
        tag_from(code_lang_open() + x + quote() + t, 0) == tagged_code_open(x) + tag_from(t, 0),
{
    reveal_strlit("<code class=\"language-");
    reveal_strlit("\"");
    let o = code_lang_open() + x + quote();
    let s = o + t;
    let n = code_lang_open().len() as int;
    assert(s.subrange(0, n) =~= code_lang_open());
    assert(occurs_at(s, code_lang_open(), 0));
    lemma_find_from(s, code_lang_open(), 0);
    assert(find_from(s, code_lang_open(), 0) == Some(0int));
    let e: int = n + x.len();
    assert(s.subrange(e, e + 1) =~= quote());
    assert(occurs_at(s, quote(), e));
    lemma_find_from(s, quote(), n);
    assert forall|k: int| n <= k < e implies !occurs_at(s, quote(), k) by {
        assert(s[k] == x[k - n]);
        if occurs_at(s, quote(), k) {
            assert(s.subrange(k, k + 1)[0] == s[k]);
        }
    }
    assert(lang_end(s, 0) == e);
    assert(e < s.len());
    assert(s.subrange(0, 0) =~= Seq::<char>::empty());
    assert(s.subrange(n, e) =~= x);
    lemma_tag_shift(o, t, 0);
    assert(tag_from(s, 0) =~= tagged_code_open(x) + tag_from(t, 0));
}

/// Text without a code element that carries a language is left as it is.
pub proof fn lemma_unlabelled_text_unchanged(t: Seq<char>)
    requires
        forall|k: int| !occurs_at(t, code_lang_open(), k),
    ensures
        tag_from(t, 0) == t,
{
    lemma_find_from(t, code_lang_open(), 0);
    assert(t.skip(0) =~= t);
}

/// Labels every code element that carries a language with `data-lang` (as `s[i..]` would be).
fn tag_code_languages_chars(s: &Vec<char>) -> (r: Vec<char>)
    ensures
        r@ == tag_from(s@, 0),
{
    let open = chars_of("<code class=\"language-");
    let q = chars_of("\"");
    let mut out: Vec<char> = Vec::new();
    let mut i: usize = 0;
    loop
        invariant
            i <= s.len(),
            open@ == code_lang_open(),
            q@ == quote(),
            tag_from(s@, 0) == out@ + tag_from(s@, i as int),
        decreases s.len() - i,
    {
        match find_chars(s, &open, i) {
            None => {
                let tail = copy_range(s, i, s.len());
                append_chars(&mut out, &tail);
                assert(tail@ =~= s@.skip(i as int));
                return out;
            },
            Some(pos) => {
                proof {
                    lemma_tag_step(s@, i as int, pos as int);
                    reveal_strlit("<code class=\"language-");
                }
                let a = pos + open.len();
                let end = match find_chars(s, &q, a) {
                    Some(e) => e,
                    None => s.len(),
                };
                assert(end == lang_end(s@, pos as int));
                let next = if end < s.len() {
                    end + 1
                } else {
                    s.len()
                };
                let before = copy_range(s, i, pos);
                let lang = copy_range(s, a, end);
                let ghost prev = out@;
                append_chars(&mut out, &before);
                append_str(&mut out, "<code data-lang=\"");
                append_chars(&mut out, &lang);
                append_str(&mut out, "\" class=\"language-");
                append_chars(&mut out, &lang);
                append_str(&mut out, "\"");
                assert(out@ =~= prev + s@.subrange(i as int, pos as int) + tagged_code_open(
                    s@.subrange(a as int, end as int),
                ));
                i = next;
            },
        }
    }
}

} // verus!

verus! {

/// The start of a fenced code block.
pub open spec fn pre_code() -> Seq<char> {
    "<pre><code"@
}

/// The end of a fenced code block.
pub open spec fn pre_code_close() -> Seq<char> {
    "</code></pre>"@
}

/// The `data-lang` attribute's start.
pub open spec fn data_lang_attr() -> Seq<char> {
    "data-lang=\""@
}

/// A code block `s[pre..close_end]` whose first `<pre>` carries the class `md-code`.
pub open spec fn block_head(s: Seq<char>, pre: int, close_end: int) -> Seq<char> {
    "<pre class=\"md-code\">"@ + s.subrange(pre + 5, close_end)
}

/// The value of the first `data-lang` attribute of `head`, or nothing.
pub open spec fn head_lang(head: Seq<char>) -> Seq<char> {
    match find_from(head, data_lang_attr(), 0) {
        Some(p) => match find_from(head, quote(), p + data_lang_attr().len()) {
            Some(e) => head.subrange(p + data_lang_attr().len(), e),
            None => Seq::empty(),
        },
        None => Seq::empty(),
    }
}

/// Where the code of `head` ends: at its first `</code>`, or at its end.
pub open spec fn code_close_at(head: Seq<char>) -> int {
    match find_from(head, "</code>"@, 0) {
        Some(c) => c,
        None => head.len() as int,
    }
}

/// A code block framed with a head that shows its language; trailing white space of the
/// code is dropped.
pub open spec fn framed(head: Seq<char>) -> Seq<char> {
    let dl = head_lang(head);
    let cc = code_close_at(head);
    "<div class=\"md-codeblock\" data-lang=\""@ + dl + "\"><div class=\"md-codehead\"><span>"@
        + dl + "</span></div>"@ + trim_end_seq(head.take(cc)) + head.skip(cc) + "</div>"@
}

/// Where the code block that starts at `pre` ends, if it is complete: after the first
/// `</code></pre>` that follows the first `>` at or after `pre`.
pub open spec fn block_end(s: Seq<char>, pre: int) -> Option<int> {
    match find_from(s, ">"@, pre) {
        None => None,
        Some(open_end) => match find_from(s, pre_code_close(), open_end) {
            None => None,
            Some(c) => Some(c + pre_code_close().len()),
        },
    }
}

/// `s[i..]` with each complete code block framed; the first incomplete one and what follows
/// it stay as they are.
pub open spec fn wrap_from(s: Seq<char>, i: int) -> Seq<char>
    decreases s.len() - i,
{
    if i < 0 || i > s.len() {
        Seq::empty()
    } else {
        match find_from(s, pre_code(), i) {
            None => s.skip(i),
            Some(pre) => match block_end(s, pre) {
                None => s.skip(i),
                Some(close_end) => if close_end <= i || close_end > s.len() {
                    Seq::empty()
                } else {
                    s.subrange(i, pre) + framed(block_head(s, pre, close_end)) + wrap_from(
                        s,
                        close_end,
                    )
                },
            },
        }
    }
}

/// Facts about one step of the framing.
proof fn lemma_wrap_step(s: Seq<char>, i: int, pre: int, close_end: int)
    requires
        0 <= i <= s.len(),
        find_from(s, pre_code(), i) == Some(pre),
        block_end(s, pre) == Some(close_end),
    ensures
        i <= pre,
        pre + 13 <= close_end <= s.len(),
{
    reveal_strlit("<pre><code");
    reveal_strlit(">");
    reveal_strlit("</code></pre>");
    lemma_find_from(s, pre_code(), i);
    let open_end = find_from(s, ">"@, pre)->0;
    lemma_find_from(s, ">"@, pre);
    lemma_find_from(s, pre_code_close(), open_end);
}

/// The language label of a block head.
fn head_lang_chars(head: &Vec<char>) -> (r: Vec<char>)
    ensures
        r@ == head_lang(head@),
{
    let attr = chars_of("data-lang=\"");
    let q = chars_of("\"");
    match find_chars(head, &attr, 0) {
        Some(p) => {
            proof {
                lemma_find_from(head@, data_lang_attr(), 0);
                assert(attr@ == data_lang_attr());
            }
            assert(p + attr.len() <= head.len());
            let start = p + attr.len();
            match find_chars(head, &q, start) {
                Some(e) => {
                    proof {
                        lemma_find_from(head@, quote(), p + attr@.len());
                    }
                    copy_range(head, start, e)
                },
                None => Vec::new(),
            }
        },
        None => Vec::new(),
    }
}

/// Frames one code block head.
fn frame_chars(head: &Vec<char>) -> (r: Vec<char>)
    ensures
        r@ == framed(head@),
{
    let dl = head_lang_chars(head);
    let close = chars_of("</code>");
    let cc = match find_chars(head, &close, 0) {
        Some(c) => {
            proof {
                lemma_find_from(head@, "</code>"@, 0);
            }
            c
        },
        None => head.len(),
    };
    let code_text = copy_range(head, 0, cc);
    let code_tail = copy_range(head, cc, head.len());
    let trimmed = trim_end_chars(&code_text);
    let mut out: Vec<char> = Vec::new();
    append_str(&mut out, "<div class=\"md-codeblock\" data-lang=\"");
    append_chars(&mut out, &dl);
    append_str(&mut out, "\"><div class=\"md-codehead\"><span>");
    append_chars(&mut out, &dl);
    append_str(&mut out, "</span></div>");
    append_chars(&mut out, &trimmed);
    append_chars(&mut out, &code_tail);
    append_str(&mut out, "</div>");
    assert(code_text@ =~= head@.take(cc as int));
    assert(code_tail@ =~= head@.skip(cc as int));
    assert(out@ =~= framed(head@));
    out
}

/// Frames every complete code block of `s`.
fn wrap_code_blocks_chars(s: &Vec<char>) -> (r: Vec<char>)
    ensures
        r@ == wrap_from(s@, 0),
{
    let pc = chars_of("<pre><code");
    let gt = chars_of(">");
    let close = chars_of("</code></pre>");
    let mut out: Vec<char> = Vec::new();
    let mut i: usize = 0;
    loop
        invariant
            i <= s.len(),
            pc@ == pre_code(),
            gt@ == ">"@,
            close@ == pre_code_close(),
            wrap_from(s@, 0) == out@ + wrap_from(s@, i as int),
        decreases s.len() - i,
    {
        let tail_from_i = copy_range(s, i, s.len());
        assert(tail_from_i@ =~= s@.skip(i as int));
        let pre = match find_chars(s, &pc, i) {
            Some(p) => p,
            None => {
                append_chars(&mut out, &tail_from_i);
                return out;
            },
        };
        let open_end = match find_chars(s, &gt, pre) {
            Some(o) => o,
            None => {
                append_chars(&mut out, &tail_from_i);
                return out;
            },
        };
        let c = match find_chars(s, &close, open_end) {
            Some(c) => c,
            None => {
                append_chars(&mut out, &tail_from_i);
                return out;
            },
        };
        proof {
            reveal_strlit("</code></pre>");
            lemma_find_from(s@, pre_code_close(), open_end as int);
        }
        let close_end = c + close.len();
        proof {
            lemma_wrap_step(s@, i as int, pre as int, close_end as int);
        }
        let mut head = chars_of("<pre class=\"md-code\">");
        let body = copy_range(s, pre + 5, close_end);
        append_chars(&mut head, &body);
        let before = copy_range(s, i, pre);
        let framed_block = frame_chars(&head);
        let ghost prev = out@;
        append_chars(&mut out, &before);
        append_chars(&mut out, &framed_block);
        assert(out@ =~= prev + s@.subrange(i as int, pre as int) + framed(
            block_head(s@, pre as int, close_end as int),
        ));
        i = close_end;
    }
}

/// Searching `a + t` from inside `t` finds what searching `t` finds, moved by `a`'s length.
proof fn lemma_find_shift(a: Seq<char>, t: Seq<char>, p: Seq<char>, j: int)
    requires
        0 <= j,
    ensures
        find_from(a + t, p, a.len() + j) == match find_from(t, p, j) {
            Some(x) => Some(x + a.len()),
            None => None::<int>,
        },
    decreases t.len() - j,
{
    let s = a + t;
    let f = a.len() + j;
    if f + p.len() <= s.len() {
        assert(s.subrange(f, f + p.len()) =~= t.subrange(j, j + p.len()));
    }
    if f + p.len() > s.len() {
    } else if occurs_at(s, p, f) {
    } else if f >= s.len() {
    } else {
        lemma_find_shift(a, t, p, j + 1);
    }
}

/// Framing `a + t` from inside `t` gives what framing `t` gives.
proof fn lemma_wrap_shift(a: Seq<char>, t: Seq<char>, j: int)
    requires
        0 <= j,
    ensures
        wrap_from(a + t, a.len() + j) == wrap_from(t, j),
    decreases t.len() - j,
{
    let s = a + t;
    let i = a.len() + j;
    if j > t.len() {
    } else {
        lemma_find_shift(a, t, pre_code(), j);
        match find_from(t, pre_code(), j) {
            None => {
                assert(s.skip(i) =~= t.skip(j));
            },
            Some(pre) => {
                lemma_find_from(t, pre_code(), j);
                lemma_find_shift(a, t, ">"@, pre);
                match find_from(t, ">"@, pre) {
                    None => {
                        assert(s.skip(i) =~= t.skip(j));
                    },
                    Some(open_end) => {
                        lemma_find_from(t, ">"@, pre);
                        lemma_find_shift(a, t, pre_code_close(), open_end);
                        match find_from(t, pre_code_close(), open_end) {
                            None => {
                                assert(s.skip(i) =~= t.skip(j));
                            },
                            Some(c) => {
                                let ce = c + pre_code_close().len();
                                assert(block_end(t, pre) == Some(ce));
                                assert(block_end(s, a.len() + pre) == Some(a.len() + ce));
                                if ce <= j || ce > t.len() {
                                } else {
                                    lemma_wrap_step(t, j, pre, ce);
                                    assert(s.subrange(i, a.len() + pre) =~= t.subrange(j, pre));
                                    assert(s.subrange(a.len() + pre + 5, a.len() + ce) =~= t.subrange(
                                        pre + 5,
                                        ce,
                                    ));
                                    assert(block_head(s, a.len() + pre, a.len() + ce) =~= block_head(
                                        t,
                                        pre,
                                        ce,
                                    ));
                                    lemma_wrap_shift(a, t, ce);
                                }
                            },
                        }
                    },
                }
            },
        }
    }
}

/// A complete code block: it opens with `<pre><code`, ends with `</code></pre>`, and its
/// closing tag does not occur before its end.
pub open spec fn single_block(b: Seq<char>) -> bool {
    &&& b.len() >= pre_code().len() + pre_code_close().len()
    &&& b.take(pre_code().len() as int) == pre_code()
    &&& b.skip(b.len() - pre_code_close().len()) == pre_code_close()
    &&& forall|k: int| 0 <= k < b.len() - pre_code_close().len() ==> !occurs_at(b, pre_code_close(), k)
}

/// Every complete code block is framed, and framing goes on after it: a complete block
/// followed by any text becomes the framed block followed by that text framed on its own.
pub proof fn lemma_every_block_framed(b: Seq<char>, t: Seq<char>)
    requires
        single_block(b),
    ensures
        wrap_from(b + t, 0) == framed(block_head(b, 0, b.len() as int)) + wrap_from(t, 0),
{
    reveal_strlit("<pre><code");
    reveal_strlit(">");
    reveal_strlit("</code></pre>");
    let s = b + t;
    let n = b.len() as int;
    assert(s.subrange(0, 10) =~= b.take(10));
    assert(occurs_at(s, pre_code(), 0));
    lemma_find_from(s, pre_code(), 0);
    assert(find_from(s, pre_code(), 0) == Some(0int));
    // The first '>' is the one that closes `<pre>`.
    assert(">"@ =~= seq!['>']);
    assert(pre_code()[4] == '>');
    assert(s[4] == b.take(10)[4]);
    assert(s.subrange(4, 5) =~= seq![s[4]]);
    assert(occurs_at(s, ">"@, 4));
    lemma_find_from(s, ">"@, 0);
    assert forall|k: int| 0 <= k < 4 implies !occurs_at(s, ">"@, k) by {
        assert(s[k] == b.take(10)[k]);
        if occurs_at(s, ">"@, k) {
            assert(s.subrange(k, k + 1)[0] == s[k]);
        }
    }
    assert(find_from(s, ">"@, 0) == Some(4int));
    // The block's closing tag is the first one from there.
    assert(s.subrange(n - 13, n) =~= b.skip(n - 13));
    assert(occurs_at(s, pre_code_close(), n - 13));
    lemma_find_from(s, pre_code_close(), 4);
    assert forall|k: int| 4 <= k < n - 13 implies !occurs_at(s, pre_code_close(), k) by {
        assert(!occurs_at(b, pre_code_close(), k));
        assert(s.subrange(k, k + 13) =~= b.subrange(k, k + 13));
    }
    assert(find_from(s, pre_code_close(), 4) == Some(n - 13));
    assert(block_end(s, 0) == Some(n));
    assert(s.subrange(0, 0) =~= Seq::<char>::empty());
    assert(block_head(s, 0, n) =~= block_head(b, 0, n));
    lemma_wrap_shift(b, t, 0);
    assert(wrap_from(s, 0) =~= framed(block_head(b, 0, n)) + wrap_from(t, 0));
}

/// Text without the start of a code block is left as it is.
pub proof fn lemma_plain_text_unchanged(t: Seq<char>)
    requires
        forall|k: int| !occurs_at(t, pre_code(), k),
    ensures
        wrap_from(t, 0) == t,
{
    lemma_find_from(t, pre_code(), 0);
    assert(t.skip(0) =~= t);
}

/// What `render_markdown` does between the markdown renderer and the sanitizer: every code
/// element with a language gets a `data-lang` label (`<code data-lang="X" class="language-X"`),
/// then every complete `<pre><code ...>...</code></pre>` block is framed in a
/// `<div class="md-codeblock">` with a head that shows the label, its `<pre>` gets the class
/// `md-code`, and trailing white space of the code is dropped.
pub fn decorate_code_blocks(html: &str) -> (r: String)
    ensures
        r@ == wrap_from(tag_from(html@, 0), 0),
{
    let v = chars_of(html);
    let tagged = tag_code_languages_chars(&v);
    let wrapped = wrap_code_blocks_chars(&tagged);
    string_of(&wrapped)
}

/// The pulldown-cmark options that posts are read with: tables, strikethrough and task lists.
pub open spec fn markdown_options() -> u32 {
    26
}

/// The attributes that the sanitizer keeps on every tag.
pub open spec fn kept_attributes() -> Seq<Seq<char>> {
    seq!["data-lang"@, "aria-hidden"@, "data-hl-done"@]
}

/// The classes that the sanitizer keeps, by tag.
pub open spec fn kept_classes() -> Seq<(Seq<char>, Seq<Seq<char>>)> {
    seq![("div"@, seq!["md-codeblock"@, "md-codehead"@]), ("pre"@, seq!["md-gutter"@, "md-code"@])]
}

/// The attributes that the sanitizer keeps, by tag.
pub open spec fn kept_tag_attributes() -> Seq<(Seq<char>, Seq<Seq<char>>)> {
    seq![("code"@, seq!["class"@])]
}

/// Renders user-written markdown as sanitized HTML: rendered with tables, strikethrough and
/// task lists, its code blocks decorated by `decorate_code_blocks`, then cleaned by ammonia
/// with the language labels, the code block classes and code classes kept.
pub fn render_markdown(text: &str) -> (r: String)
    ensures
        r@ == sanitized_html(
            wrap_from(tag_from(markdown_html(text@, markdown_options()), 0), 0),
            kept_attributes(),
            kept_classes(),
            kept_tag_attributes(),
        ),
{
    let html = markdown_to_html(text, 26);
    let decorated = decorate_code_blocks(html.as_str());
    let generic: Vec<&str> = vec!["data-lang", "aria-hidden", "data-hl-done"];
    let classes: Vec<(&str, Vec<&str>)> = vec![
        ("div", vec!["md-codeblock", "md-codehead"]),
        ("pre", vec!["md-gutter", "md-code"]),
    ];
    let attributes: Vec<(&str, Vec<&str>)> = vec![("code", vec!["class"])];
    assert(generic.deep_view() =~= kept_attributes());
    assert(classes.deep_view()[0].1 =~= kept_classes()[0].1);
    assert(classes.deep_view()[1].1 =~= kept_classes()[1].1);
    assert(classes.deep_view() =~= kept_classes());
    assert(attributes.deep_view()[0].1 =~= kept_tag_attributes()[0].1);
    assert(attributes.deep_view() =~= kept_tag_attributes());
    proof {
        reveal_strlit("rel");
        reveal_strlit("class");
        reveal_strlit("data-lang");
        reveal_strlit("aria-hidden");
        reveal_strlit("data-hl-done");
        reveal_strlit("a");
        reveal_strlit("code");
        reveal_strlit("div");
        reveal_strlit("pre");
        reveal_strlit("script");
        reveal_strlit("style");
        let g = kept_attributes();
        assert(!g.contains("rel"@)) by {
            assert forall|i: int| 0 <= i < g.len() implies g[i] != "rel"@ by {
                assert(g[i].len() != 3 || g[i][0] != 'r');
            }
        }
        assert(!g.contains("class"@)) by {
            assert forall|i: int| 0 <= i < g.len() implies g[i] != "class"@ by {
                assert(g[i][0] != 'c');
            }
        }
        let t = kept_tag_attributes();
        let c = kept_classes();
        assert(t[0].0.len() == 4 && "a"@.len() == 1 && "script"@.len() == 6 && "style"@.len() == 5);
        assert(t[0].0 != "a"@ && t[0].0 != "script"@ && t[0].0 != "style"@);
        assert(c[0].0 != t[0].0 && c[1].0 != t[0].0) by {
            assert(c[0].0[0] != t[0].0[0]);
            assert(c[1].0[0] != t[0].0[0]);
        }
    }
    sanitize_html(decorated.as_str(), &generic, &classes, &attributes)
}

} // verus!
