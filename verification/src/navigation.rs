//! Pages, who may see them, their titles, and the remembered tab and language.
use vstd::prelude::*;
use vstd::string::*;
use crate::events::{numbered, numbered_text};
use crate::i18n::{tr, tr_spec};
use crate::text::{
    contains_seq, decimal_int, find_from, lemma_contains_find, occurs_at, parse_in_range, parse_u8, str_contains,
    str_eq,
};

verus! {

/// A page of the application.
#[derive(Clone, Copy, Debug, PartialEq, Eq, Structural)]
pub enum Page {
    Welcome,
    Login,
    Register,
    Home,
    Contest { contest_id: i64 },
    Problems,
    Users,
    Account,
    UserProfile { user_id: i64 },
    UserPrivateProfile { user_id: i64 },
}

/// The pages that require a signed-in user.
pub open spec fn guarded(p: Page) -> bool {
    !(p is Welcome || p is Login || p is Register)
}

/// Whether the page requires a signed-in user.
pub fn is_guarded(page: &Page) -> (r: bool)
    ensures
        r == guarded(*page),
{
    match page {
        Page::Home | Page::Contest { .. } | Page::Problems | Page::Users | Page::Account
        | Page::UserProfile { .. } | Page::UserPrivateProfile { .. } => true,
        _ => false,
    }
}

/// Where the guard sends a visitor: from a guarded page to the welcome page when signed out,
/// from the welcome page to the contests when signed in; nowhere otherwise.
pub open spec fn redirect_spec(p: Page, logged_in: bool) -> Option<Page> {
    if guarded(p) && !logged_in {
        Some(Page::Welcome)
    } else if p is Welcome && logged_in {
        Some(Page::Home)
    } else {
        None
    }
}

/// Where the guard sends a visitor of `page`, if anywhere.
pub fn redirect(page: &Page, logged_in: bool) -> (r: Option<Page>)
    ensures
        r == redirect_spec(*page, logged_in),
{
    if is_guarded(page) && !logged_in {
        Some(Page::Welcome)
    } else if matches!(page, Page::Welcome) && logged_in {
        Some(Page::Home)
    } else {
        None
    }
}

/// The guard never sends a visitor on twice: the page it sends to is one it lets stay.
pub proof fn lemma_redirect_settles(p: Page, logged_in: bool)
    ensures
        redirect_spec(p, logged_in) matches Some(q) ==> redirect_spec(q, logged_in) is None,
        redirect_spec(p, logged_in) is None ==> (logged_in || !guarded(p)),
{
}

/// Only the welcome, sign-in and registration pages are open to a signed-out visitor: every
/// other page sends them to the welcome page, and those three let them stay.
pub proof fn lemma_signed_out_sees_only_open_pages(p: Page)
    ensures
        (p == Page::Welcome || p == Page::Login || p == Page::Register) ==> redirect_spec(p, false)
            is None,
        !(p == Page::Welcome || p == Page::Login || p == Page::Register) ==> redirect_spec(p, false)
            == Some(Page::Welcome),
        redirect_spec(Page::Home, false) == Some(Page::Welcome),
        redirect_spec(Page::Problems, false) == Some(Page::Welcome),
        redirect_spec(Page::Users, false) == Some(Page::Welcome),
        redirect_spec(Page::Account, false) == Some(Page::Welcome),
        forall|id: i64|
            #[trigger] redirect_spec(Page::Contest { contest_id: id }, false) == Some(Page::Welcome),
        forall|id: i64|
            #[trigger] redirect_spec(Page::UserProfile { user_id: id }, false) == Some(Page::Welcome),
        forall|id: i64|
            #[trigger] redirect_spec(Page::UserPrivateProfile { user_id: id }, false) == Some(
                Page::Welcome,
            ),
{
}

/// A signed-in visitor is sent from the welcome page to the contests, and nowhere from any
/// other page.
pub proof fn lemma_signed_in_leaves_welcome_only(p: Page)
    ensures
        redirect_spec(p, true) == if p == Page::Welcome {
            Some(Page::Home)
        } else {
            None
        },
{
}

/// A tab of the navigation bar.
#[derive(Clone, Copy, Debug, PartialEq, Eq, Structural)]
pub enum NavTab {
    Home,
    Problems,
    Users,
    Account,
}

/// The tabs of the navigation bar: none for a visitor; for a signed-in user the contests,
/// the problems for admins, the users for owners, and the profile, in that order.
pub open spec fn nav_tabs_spec(logged_in: bool, is_admin: bool, is_owner: bool) -> Seq<NavTab> {
    if !logged_in {
        Seq::empty()
    } else {
        let a = seq![NavTab::Home];
        let b = if is_admin {
            a.push(NavTab::Problems)
        } else {
            a
        };
        let c = if is_owner {
            b.push(NavTab::Users)
        } else {
            b
        };
        c.push(NavTab::Account)
    }
}

/// The tabs of the navigation bar.
pub fn nav_tabs(logged_in: bool, is_admin: bool, is_owner: bool) -> (r: Vec<NavTab>)
    ensures
        r@ == nav_tabs_spec(logged_in, is_admin, is_owner),
{
    let mut v: Vec<NavTab> = Vec::new();
    if logged_in {
        v.push(NavTab::Home);
        if is_admin {
            v.push(NavTab::Problems);
        }
        if is_owner {
            v.push(NavTab::Users);
        }
        v.push(NavTab::Account);
    }
    v
}

/// The tab of the bar that is highlighted on a page: the contests tab on the contests and on a
/// contest, each other tab on its own page.
pub open spec fn tab_active_spec(tab: NavTab, p: Page) -> bool {
    match tab {
        NavTab::Home => p is Home || p is Contest,
        NavTab::Problems => p is Problems,
        NavTab::Users => p is Users,
        NavTab::Account => p is Account,
    }
}

/// Whether `tab` is highlighted on `page`.
pub fn tab_active(tab: NavTab, page: &Page) -> (r: bool)
    ensures
        r == tab_active_spec(tab, *page),
{
    match tab {
        NavTab::Home => matches!(page, Page::Home | Page::Contest { .. }),
        NavTab::Problems => matches!(page, Page::Problems),
        NavTab::Users => matches!(page, Page::Users),
        NavTab::Account => matches!(page, Page::Account),
    }
}

/// The window title of a page.
pub open spec fn page_title_spec(lang: Seq<char>, p: Page) -> Seq<char> {
    match p {
        Page::Welcome => tr_spec(lang, "Добро пожаловать — aj-web"@, "Welcome — aj-web"@),
        Page::Login => tr_spec(lang, "Вход — aj-web"@, "Login — aj-web"@),
        Page::Register => tr_spec(lang, "Регистрация — aj-web"@, "Register — aj-web"@),
        Page::Home => tr_spec(lang, "Контесты — aj-web"@, "Contests — aj-web"@),
        Page::Contest { contest_id } => numbered(
            lang,
            "Контест #"@,
            " — aj-web"@,
            "Contest #"@,
            " — aj-web"@,
            contest_id as int,
        ),
        Page::Problems => tr_spec(lang, "Задачи — aj-web"@, "Problems — aj-web"@),
        Page::Users => tr_spec(lang, "Пользователи — aj-web"@, "Users — aj-web"@),
        Page::Account | Page::UserProfile { .. } | Page::UserPrivateProfile { .. } => tr_spec(
            lang,
            "Профиль — aj-web"@,
            "Profile — aj-web"@,
        ),
    }
}

/// The window title of `page`.
pub fn page_title(lang: &str, page: &Page) -> (r: String)
    ensures
        r@ == page_title_spec(lang@, *page),
{
    match page {
        Page::Welcome => tr(lang, "Добро пожаловать — aj-web", "Welcome — aj-web"),
        Page::Login => tr(lang, "Вход — aj-web", "Login — aj-web"),
        Page::Register => tr(lang, "Регистрация — aj-web", "Register — aj-web"),
        Page::Home => tr(lang, "Контесты — aj-web", "Contests — aj-web"),
        Page::Contest { contest_id } => numbered_text(
            lang,
            "Контест #",
            " — aj-web",
            "Contest #",
            " — aj-web",
            *contest_id,
        ),
        Page::Problems => tr(lang, "Задачи — aj-web", "Problems — aj-web"),
        Page::Users => tr(lang, "Пользователи — aj-web", "Users — aj-web"),
        Page::Account | Page::UserProfile { .. } | Page::UserPrivateProfile { .. } => tr(
            lang,
            "Профиль — aj-web",
            "Profile — aj-web",
        ),
    }
}

/// The tab of the contest page that a URL query asks for: announcements (1), submissions (4),
/// questions (2) or leaderboard (3), tested in that order; else the remembered tab `saved`.
pub open spec fn tab_from_query_spec(query: Seq<char>, saved: u8) -> u8 {
    if contains_seq(query, "tab=posts"@) {
        1
    } else if contains_seq(query, "tab=submissions"@) {
        4
    } else if contains_seq(query, "tab=questions"@) {
        2
    } else if contains_seq(query, "tab=leaderboard"@) {
        3
    } else {
        saved
    }
}

/// The tab that the URL query `query` selects, or `saved`.
pub fn tab_from_query(query: &str, saved: u8) -> (r: u8)
    ensures
        r == tab_from_query_spec(query@, saved),
{
    if str_contains(query, "tab=posts") {
        1
    } else if str_contains(query, "tab=submissions") {
        4
    } else if str_contains(query, "tab=questions") {
        2
    } else if str_contains(query, "tab=leaderboard") {
        3
    } else {
        saved
    }
}

/// The URL query of a tab of the contest page; the main tab (and any other) has none.
pub open spec fn tab_query_spec(tab: u8) -> Seq<char> {
    if tab == 1 {
        "?tab=posts"@
    } else if tab == 4 {
        "?tab=submissions"@
    } else if tab == 2 {
        "?tab=questions"@
    } else if tab == 3 {
        "?tab=leaderboard"@
    } else {
        ""@
    }
}

/// The URL query that records `tab`.
pub fn tab_query(tab: u8) -> (r: &'static str)
    ensures
        r@ == tab_query_spec(tab),
{
    match tab {
        1 => "?tab=posts",
        4 => "?tab=submissions",
        2 => "?tab=questions",
        3 => "?tab=leaderboard",
        _ => "",
    }
}

/// A pattern with a character that `s` lacks does not occur in `s`.
proof fn lemma_absent_char(s: Seq<char>, p: Seq<char>, k: int)
    requires
        0 <= k < p.len(),
        forall|i: int| 0 <= i < s.len() ==> s[i] != p[k],
    ensures
        !contains_seq(s, p),
{
    assert forall|i: int| !occurs_at(s, p, i) by {
        if occurs_at(s, p, i) {
            assert(s.subrange(i, i + p.len())[k] == p[k]);
            assert(s[i + k] == p[k]);
        }
    }
}

/// A pattern occurs where it stands.
proof fn lemma_occurs_at_one(s: Seq<char>, p: Seq<char>)
    requires
        s.len() == p.len() + 1,
        s.skip(1) == p,
    ensures
        contains_seq(s, p),
{
    assert(s.subrange(1, 1 + p.len() as int) =~= s.skip(1));
    assert(occurs_at(s, p, 1));
}

/// The query that records a tab selects that tab again; a query of the main tab leaves the
/// remembered tab in force.
pub proof fn lemma_tab_round_trip(tab: u8, saved: u8)
    ensures
        1 <= tab <= 4 ==> tab_from_query_spec(tab_query_spec(tab), saved) == tab,
        !(1 <= tab <= 4) ==> tab_from_query_spec(tab_query_spec(tab), saved) == saved,
{
    reveal_strlit("tab=posts");
    reveal_strlit("tab=submissions");
    reveal_strlit("tab=questions");
    reveal_strlit("tab=leaderboard");
    reveal_strlit("?tab=posts");
    reveal_strlit("?tab=submissions");
    reveal_strlit("?tab=questions");
    reveal_strlit("?tab=leaderboard");
    reveal_strlit("");
    let q = tab_query_spec(tab);
    if tab == 1 {
        assert(q.skip(1) =~= "tab=posts"@);
        lemma_occurs_at_one(q, "tab=posts"@);
    } else if tab == 4 {
        lemma_absent_char(q, "tab=posts"@, 4);
        assert(q.skip(1) =~= "tab=submissions"@);
        lemma_occurs_at_one(q, "tab=submissions"@);
    } else if tab == 2 {
        lemma_absent_char(q, "tab=posts"@, 4);
        lemma_absent_char(q, "tab=submissions"@, 7);
        assert(q.skip(1) =~= "tab=questions"@);
        lemma_occurs_at_one(q, "tab=questions"@);
    } else if tab == 3 {
        lemma_absent_char(q, "tab=posts"@, 4);
        lemma_absent_char(q, "tab=submissions"@, 7);
        lemma_absent_char(q, "tab=questions"@, 4);
        assert(q.skip(1) =~= "tab=leaderboard"@);
        lemma_occurs_at_one(q, "tab=leaderboard"@);
    } else {
        lemma_absent_char(q, "tab=posts"@, 0);
        lemma_absent_char(q, "tab=submissions"@, 0);
        lemma_absent_char(q, "tab=questions"@, 0);
        lemma_absent_char(q, "tab=leaderboard"@, 0);
    }
}

/// The interface language that was stored, if it is "ru" or "en"; else Russian.
pub open spec fn language_or_default_spec(stored: Option<Seq<char>>) -> Seq<char> {
    match stored {
        Some(v) => if v == "ru"@ || v == "en"@ {
            v
        } else {
            "ru"@
        },
        None => "ru"@,
    }
}

/// The interface language to start with, from what was stored.
pub fn language_or_default(stored: Option<String>) -> (r: String)
    ensures
        r@ == language_or_default_spec(
            match stored {
                Some(v) => Some(v@),
                None => None,
            },
        ),
{
    match stored {
        Some(v) => {
            if str_eq(v.as_str(), "ru") || str_eq(v.as_str(), "en") {
                v
            } else {
                String::from_str("ru")
            }
        },
        None => String::from_str("ru"),
    }
}

/// The contest tab to start with: the stored number if it reads as a `u8` no larger than 4,
/// else the main tab (0).
pub open spec fn tab_or_default_spec(stored: Option<Seq<char>>) -> u8 {
    match stored {
        Some(v) => match parse_in_range(v, 0, 255) {
            Some(t) => if t <= 4 {
                t as u8
            } else {
                0
            },
            None => 0,
        },
        None => 0,
    }
}

/// The contest tab to start with, from what was stored.
pub fn tab_or_default(stored: Option<&str>) -> (r: u8)
    ensures
        r == tab_or_default_spec(
            match stored {
                Some(v) => Some(v@),
                None => None,
            },
        ),
{
    match stored {
        Some(v) => match parse_u8(v) {
            Some(t) => if t <= 4 {
                t
            } else {
                0
            },
            None => 0,
        },
        None => 0,
    }
}

/// A tab that is stored (as its decimal text) is the tab the contest page opens on next
/// time; a stored interface language is the one the application starts in.
pub proof fn lemma_stored_settings_round_trip(tab: u8, lang: Seq<char>)
    ensures
        tab <= 4 ==> tab_or_default_spec(Some(decimal_int(tab as int))) == tab,
        tab > 4 ==> tab_or_default_spec(Some(decimal_int(tab as int))) == 0,
        (lang == "ru"@ || lang == "en"@) ==> language_or_default_spec(Some(lang)) == lang,
{
    crate::text::lemma_decimal_int_reads_back(tab as int, 0, 255);
}

} // verus!
