//! The labels of the contest page: its tabs, its solution picker and its submissions.
use vstd::prelude::*;
use vstd::string::*;
use crate::i18n::{tr, tr_spec};
use crate::text::{decimal_int, push_decimal_i64, push_decimal_u64};

verus! {

/// "<word> (<n>)".
pub open spec fn counted(word: Seq<char>, n: int) -> Seq<char> {
    word + " ("@ + decimal_int(n) + ")"@
}

/// "<word> (<a>/<b>)".
pub open spec fn counted_of(word: Seq<char>, a: int, b: int) -> Seq<char> {
    word + " ("@ + decimal_int(a) + "/"@ + decimal_int(b) + ")"@
}

/// "<word> (<name>)".
pub open spec fn named(word: Seq<char>, name: Seq<char>) -> Seq<char> {
    word + " ("@ + name + ")"@
}

/// The label of the announcements tab, with the number of announcements.
pub open spec fn announcements_label_spec(lang: Seq<char>, count: int) -> Seq<char> {
    tr_spec(lang, counted("объявления"@, count), counted("announcements"@, count))
}

/// The label of the announcements tab.
pub fn announcements_label(lang: &str, count: usize) -> (r: String)
    ensures
        r@ == announcements_label_spec(lang@, count as int),
{
    let mut ru = String::from_str("объявления (");
    push_decimal_u64(&mut ru, count as u64);
    ru.append(")");
    let mut en = String::from_str("announcements (");
    push_decimal_u64(&mut en, count as u64);
    en.append(")");
    proof {
        reveal_strlit("объявления (");
        reveal_strlit("объявления");
        reveal_strlit("announcements (");
        reveal_strlit("announcements");
        reveal_strlit(" (");
        assert(ru@ =~= counted("объявления"@, count as int));
        assert(en@ =~= counted("announcements"@, count as int));
    }
    tr(lang, ru.as_str(), en.as_str())
}

/// The label of the questions tab: answered questions of all questions.
pub open spec fn questions_label_spec(lang: Seq<char>, answered: int, count: int) -> Seq<char> {
    tr_spec(lang, counted_of("вопросы"@, answered, count), counted_of("questions"@, answered, count))
}

/// The label of the questions tab.
pub fn questions_label(lang: &str, answered: usize, count: usize) -> (r: String)
    ensures
        r@ == questions_label_spec(lang@, answered as int, count as int),
{
    let mut ru = String::from_str("вопросы (");
    push_decimal_u64(&mut ru, answered as u64);
    ru.append("/");
    push_decimal_u64(&mut ru, count as u64);
    ru.append(")");
    let mut en = String::from_str("questions (");
    push_decimal_u64(&mut en, answered as u64);
    en.append("/");
    push_decimal_u64(&mut en, count as u64);
    en.append(")");
    proof {
        reveal_strlit("вопросы (");
        reveal_strlit("вопросы");
        reveal_strlit("questions (");
        reveal_strlit("questions");
        reveal_strlit(" (");
        assert(ru@ =~= counted_of("вопросы"@, answered as int, count as int));
        assert(en@ =~= counted_of("questions"@, answered as int, count as int));
    }
    tr(lang, ru.as_str(), en.as_str())
}

/// The label of the file picker of a solution: the picked file's name once there is one.
pub open spec fn pick_file_label_spec(lang: Seq<char>, picked: Seq<char>) -> Seq<char> {
    if picked.len() > 0 {
        tr_spec(lang, named("изменить файл"@, picked), named("change file"@, picked))
    } else {
        tr_spec(lang, "выбрать файл"@, "pick file"@)
    }
}

/// The label of the file picker of a solution; `picked` is the picked file's name, empty
/// while there is none.
pub fn pick_file_label(lang: &str, picked: &str) -> (r: String)
    ensures
        r@ == pick_file_label_spec(lang@, picked@),
{
    if picked.is_empty() {
        return tr(lang, "выбрать файл", "pick file");
    }
    let mut ru = String::from_str("изменить файл (");
    ru.append(picked);
    ru.append(")");
    let mut en = String::from_str("change file (");
    en.append(picked);
    en.append(")");
    proof {
        reveal_strlit("изменить файл (");
        reveal_strlit("изменить файл");
        reveal_strlit("change file (");
        reveal_strlit("change file");
        reveal_strlit(" (");
        assert(ru@ =~= named("изменить файл"@, picked@));
        assert(en@ =~= named("change file"@, picked@));
    }
    tr(lang, ru.as_str(), en.as_str())
}

/// The label of the button that switches between a file and pasted text: it names the mode
/// that a press switches to.
pub open spec fn paste_mode_label_spec(lang: Seq<char>, paste_mode: bool) -> Seq<char> {
    if paste_mode {
        tr_spec(lang, "файл"@, "file"@)
    } else {
        tr_spec(lang, "текст"@, "text"@)
    }
}

/// The label of the button that switches between a file and pasted text.
pub fn paste_mode_label(lang: &str, paste_mode: bool) -> (r: String)
    ensures
        r@ == paste_mode_label_spec(lang@, paste_mode),
{
    if paste_mode {
        tr(lang, "файл", "file")
    } else {
        tr(lang, "текст", "text")
    }
}

/// "<word> #<id>".
pub open spec fn hash_numbered(word: Seq<char>, id: int) -> Seq<char> {
    word + " #"@ + decimal_int(id)
}

/// The title of a submission's details.
pub open spec fn submission_title_spec(lang: Seq<char>, id: int) -> Seq<char> {
    tr_spec(lang, hash_numbered("Посылка"@, id), hash_numbered("Submission"@, id))
}

/// The title of a submission's details.
pub fn submission_title(lang: &str, id: i64) -> (r: String)
    ensures
        r@ == submission_title_spec(lang@, id as int),
{
    let mut ru = String::from_str("Посылка #");
    push_decimal_i64(&mut ru, id);
    let mut en = String::from_str("Submission #");
    push_decimal_i64(&mut en, id);
    proof {
        reveal_strlit("Посылка #");
        reveal_strlit("Посылка");
        reveal_strlit("Submission #");
        reveal_strlit("Submission");
        reveal_strlit(" #");
        assert(ru@ =~= hash_numbered("Посылка"@, id as int));
        assert(en@ =~= hash_numbered("Submission"@, id as int));
    }
    tr(lang, ru.as_str(), en.as_str())
}

/// The notice that a solution was sent and got the id `id`.
pub open spec fn submission_sent_spec(lang: Seq<char>, id: int) -> Seq<char> {
    tr_spec(
        lang,
        hash_numbered("Посылка"@, id) + " отправлена"@,
        hash_numbered("Submission"@, id) + " sent"@,
    )
}

/// The notice that a solution was sent.
pub fn submission_sent_text(lang: &str, id: i64) -> (r: String)
    ensures
        r@ == submission_sent_spec(lang@, id as int),
{
    let mut ru = String::from_str("Посылка #");
    push_decimal_i64(&mut ru, id);
    ru.append(" отправлена");
    let mut en = String::from_str("Submission #");
    push_decimal_i64(&mut en, id);
    en.append(" sent");
    proof {
        reveal_strlit("Посылка #");
        reveal_strlit("Посылка");
        reveal_strlit("Submission #");
        reveal_strlit("Submission");
        reveal_strlit(" #");
        assert(ru@ =~= hash_numbered("Посылка"@, id as int) + " отправлена"@);
        assert(en@ =~= hash_numbered("Submission"@, id as int) + " sent"@);
    }
    tr(lang, ru.as_str(), en.as_str())
}

} // verus!
