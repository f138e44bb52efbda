use aj_web::contest_page::{
    announcements_label, paste_mode_label, pick_file_label, questions_label, submission_sent_text,
    submission_title,
};
use aj_web::navigation::{
    is_guarded, language_or_default, nav_tabs, page_title, redirect, tab_active, tab_from_query,
    tab_or_default, tab_query, NavTab, Page,
};

#[test]
fn guarded_pages() {
    assert!(!is_guarded(&Page::Welcome));
    assert!(!is_guarded(&Page::Login));
    assert!(!is_guarded(&Page::Register));
    assert!(is_guarded(&Page::Home));
    assert!(is_guarded(&Page::Contest { contest_id: 3 }));
    assert!(is_guarded(&Page::UserPrivateProfile { user_id: 1 }));
}

#[test]
fn guard_redirects() {
    assert_eq!(redirect(&Page::Home, false), Some(Page::Welcome));
    assert_eq!(redirect(&Page::Welcome, true), Some(Page::Home));
    assert_eq!(redirect(&Page::Welcome, false), None);
    assert_eq!(redirect(&Page::Login, true), None);
    assert_eq!(redirect(&Page::Users, true), None);
}

#[test]
fn guard_settles_after_one_redirect() {
    let pages = [
        Page::Welcome,
        Page::Login,
        Page::Register,
        Page::Home,
        Page::Contest { contest_id: 1 },
        Page::Problems,
        Page::Users,
        Page::Account,
        Page::UserProfile { user_id: 2 },
        Page::UserPrivateProfile { user_id: 2 },
    ];
    for logged_in in [false, true] {
        for p in pages.iter() {
            if let Some(q) = redirect(p, logged_in) {
                assert_eq!(redirect(&q, logged_in), None);
            }
        }
    }
}

#[test]
fn window_titles() {
    assert_eq!(page_title("en", &Page::Home), "Contests — aj-web");
    assert_eq!(page_title("ru", &Page::Contest { contest_id: 12 }), "Контест #12 — aj-web");
    assert_eq!(page_title("en", &Page::Contest { contest_id: 12 }), "Contest #12 — aj-web");
    assert_eq!(page_title("ru", &Page::UserProfile { user_id: 1 }), "Профиль — aj-web");
    assert_eq!(page_title("de", &Page::Welcome), "Добро пожаловать — aj-web");
}

#[test]
fn tabs_from_queries() {
    assert_eq!(tab_from_query("?tab=posts", 0), 1);
    assert_eq!(tab_from_query("?x=1&tab=leaderboard", 0), 3);
    assert_eq!(tab_from_query("", 2), 2);
    assert_eq!(tab_from_query("?tab=questions&tab=posts", 0), 1);
}

#[test]
fn tab_query_round_trip() {
    for tab in 0u8..=6 {
        let q = tab_query(tab);
        let back = tab_from_query(q, 3);
        if (1..=4).contains(&tab) {
            assert_eq!(back, tab);
        } else {
            assert_eq!(q, "");
            assert_eq!(back, 3);
        }
    }
}

#[test]
fn stored_settings() {
    assert_eq!(language_or_default(Some("en".to_string())), "en");
    assert_eq!(language_or_default(Some("fr".to_string())), "ru");
    assert_eq!(language_or_default(None), "ru");
    assert_eq!(tab_or_default(Some("3")), 3);
    assert_eq!(tab_or_default(Some("9")), 0);
    assert_eq!(tab_or_default(Some("x")), 0);
    assert_eq!(tab_or_default(None), 0);
}

#[test]
fn navigation_bar_tabs() {
    assert_eq!(nav_tabs(false, true, true), vec![]);
    assert_eq!(nav_tabs(true, false, false), vec![NavTab::Home, NavTab::Account]);
    assert_eq!(
        nav_tabs(true, true, true),
        vec![NavTab::Home, NavTab::Problems, NavTab::Users, NavTab::Account]
    );
    assert!(tab_active(NavTab::Home, &Page::Contest { contest_id: 4 }));
    assert!(tab_active(NavTab::Home, &Page::Home));
    assert!(!tab_active(NavTab::Account, &Page::UserProfile { user_id: 1 }));
    assert!(tab_active(NavTab::Users, &Page::Users));
}

#[test]
fn contest_tab_labels() {
    assert_eq!(announcements_label("ru", 3), "объявления (3)");
    assert_eq!(announcements_label("en", 0), "announcements (0)");
    assert_eq!(questions_label("ru", 1, 4), "вопросы (1/4)");
    assert_eq!(questions_label("en", 2, 2), "questions (2/2)");
}

#[test]
fn solution_picker_labels() {
    assert_eq!(pick_file_label("en", ""), "pick file");
    assert_eq!(pick_file_label("ru", ""), "выбрать файл");
    assert_eq!(pick_file_label("en", "a.cpp"), "change file (a.cpp)");
    assert_eq!(pick_file_label("ru", "a.cpp"), "изменить файл (a.cpp)");
    assert_eq!(paste_mode_label("en", true), "file");
    assert_eq!(paste_mode_label("ru", false), "текст");
}

#[test]
fn submission_texts() {
    assert_eq!(submission_title("en", 15), "Submission #15");
    assert_eq!(submission_title("ru", 15), "Посылка #15");
    assert_eq!(submission_sent_text("en", 7), "Submission #7 sent");
    assert_eq!(submission_sent_text("ru", 7), "Посылка #7 отправлена");
}

#[test]
fn stored_tab_reads_back() {
    for tab in 0u8..=255 {
        let back = tab_or_default(Some(&tab.to_string()));
        if tab <= 4 {
            assert_eq!(back, tab);
        } else {
            assert_eq!(back, 0);
        }
    }
    for lang in ["ru", "en"] {
        assert_eq!(language_or_default(Some(lang.to_string())), lang);
    }
}
