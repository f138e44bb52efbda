use aj_web::leaderboard::{
    escape_html, escape_md, export_leaderboard, leaderboard_csv, leaderboard_header,
    leaderboard_html, leaderboard_md, leaderboard_table, ExportFormat,
};
use aj_web::models::LeaderboardRow;

fn rows() -> Vec<LeaderboardRow> {
    vec![
        LeaderboardRow {
            user_id: 5,
            user_login: "a|b".to_string(),
            scores: vec![Some("100".to_string()), None],
            total_score: "100".to_string(),
        },
        LeaderboardRow {
            user_id: 9,
            user_login: "<x>".to_string(),
            scores: vec![Some("12.5".to_string()), Some("0".to_string())],
            total_score: "12.5".to_string(),
        },
    ]
}

#[test]
fn header_with_and_without_rows() {
    assert_eq!(leaderboard_header("en", 2, true), vec!["#", "id", "who", "1", "2", "="]);
    assert_eq!(leaderboard_header("ru", 3, false), vec!["#", "id", "кто", "="]);
}

#[test]
fn table_cells() {
    let t = leaderboard_table(&rows());
    assert_eq!(t[0], vec!["1", "5", "a|b", "100", "", "100"]);
    assert_eq!(t[1], vec!["2", "9", "<x>", "12.5", "0", "12.5"]);
}

#[test]
fn csv_export() {
    let h = leaderboard_header("en", 2, true);
    let t = leaderboard_table(&rows());
    assert_eq!(
        leaderboard_csv(&h, &t),
        "#,id,who,1,2,=\n1,5,a|b,100,,100\n2,9,<x>,12.5,0,12.5\n"
    );
}

#[test]
fn markdown_export_escapes_bars() {
    let h = leaderboard_header("en", 2, true);
    let t = leaderboard_table(&rows());
    assert_eq!(
        leaderboard_md(&h, &t),
        "| # | id | who | 1 | 2 | = |\n|---|---|---|---|---|---|\n| 1 | 5 | a\\|b | 100 |  | 100 |\n| 2 | 9 | <x> | 12.5 | 0 | 12.5 |\n"
    );
}

#[test]
fn html_export_escapes_markup() {
    let h = leaderboard_header("ru", 0, false);
    let t: Vec<Vec<String>> = vec![vec!["<&>".to_string()]];
    let doc = leaderboard_html(&h, &t);
    assert!(doc.starts_with("<!DOCTYPE html><html><head><meta charset=\"utf-8\"><title>Leaderboard</title>"));
    assert!(doc.ends_with(
        "<th>#</th><th>id</th><th>кто</th><th>=</th></tr></thead><tbody><tr><td>&lt;&amp;&gt;</td></tr></tbody></table></body></html>"
    ));
}

#[test]
fn escapes() {
    assert_eq!(escape_html("a<b>&c"), "a&lt;b&gt;&amp;c");
    assert_eq!(escape_html("&lt;"), "&amp;lt;");
    assert_eq!(escape_md("x|y|"), "x\\|y\\|");
    let e = escape_html("<<>>");
    assert!(!e.contains('<') && !e.contains('>'));
}

#[test]
fn export_names_and_documents() {
    let (csv, name) = export_leaderboard("en", ExportFormat::Csv, 2, &rows());
    assert_eq!(name, "leaderboard.csv");
    assert!(csv.starts_with("#,id,who,1,2,=\n1,5,"));
    let (md, name) = export_leaderboard("en", ExportFormat::Markdown, 2, &vec![]);
    assert_eq!(name, "leaderboard.md");
    assert_eq!(md, "| # | id | who | = |\n|---|---|---|---|\n");
    let (_, name) = export_leaderboard("en", ExportFormat::Html, 2, &vec![]);
    assert_eq!(name, "leaderboard.html");
}

#[test]
fn rows_line_up_with_head() {
    let h = leaderboard_header("ru", 2, true);
    for (i, row) in leaderboard_table(&rows()).iter().enumerate() {
        assert_eq!(row.len(), h.len());
        assert_eq!(row[0], (i + 1).to_string());
    }
}
