//! Leaderboard tables and their export as CSV, Markdown and HTML.
use vstd::prelude::*;
use vstd::string::*;
use crate::i18n::{tr, tr_spec};
use crate::models::LeaderboardRow;
use crate::text::{
    chars_of, decimal_int, decimal_nat, decimal_u64, decimal_i64, join_seq, join_strings,
    lemma_views_push, push_char, views,
};

verus! {

/// What HTML shows of the character `c`: `&`, `<` and `>` as entities.
pub open spec fn escape_html_char(c: char) -> Seq<char> {
    if c == '&' {
        "&amp;"@
    } else if c == '<' {
        "&lt;"@
    } else if c == '>' {
        "&gt;"@
    } else {
        seq![c]
    }
}

/// `s` with `&`, `<` and `>` written as HTML entities.
pub open spec fn escape_html_seq(s: Seq<char>) -> Seq<char>
    decreases s.len(),
{
    if s.len() == 0 {
        Seq::empty()
    } else {
        escape_html_seq(s.drop_last()) + escape_html_char(s.last())
    }
}

/// What a Markdown table cell shows of `c`: a pipe escaped with a backslash.
pub open spec fn escape_md_char(c: char) -> Seq<char> {
    if c == '|' {
        "\\|"@
    } else {
        seq![c]
    }
}

/// `s` with its pipes escaped for a Markdown table cell.
pub open spec fn escape_md_seq(s: Seq<char>) -> Seq<char>
    decreases s.len(),
{
    if s.len() == 0 {
        Seq::empty()
    } else {
        escape_md_seq(s.drop_last()) + escape_md_char(s.last())
    }
}

/// Text made safe for HTML: `&`, `<` and `>` become `&amp;`, `&lt;` and `&gt;`.
pub fn escape_html(s: &str) -> (r: String)
    ensures
        r@ == escape_html_seq(s@),
{
    let v = chars_of(s);
    let mut out = String::new();
    let mut i: usize = 0;
    while i < v.len()
        invariant
            i <= v.len(),
            out@ == escape_html_seq(v@.take(i as int)),
        decreases v.len() - i,
    {
        let c = v[i];
        assert(v@.take(i + 1).drop_last() =~= v@.take(i as int));
        if c == '&' {
            out.append("&amp;");
        } else if c == '<' {
            out.append("&lt;");
        } else if c == '>' {
            out.append("&gt;");
        } else {
            push_char(&mut out, c);
        }
        assert(out@ =~= escape_html_seq(v@.take(i + 1)));
        i = i + 1;
    }
    assert(v@.take(v.len() as int) =~= v@);
    out
}

/// Text made safe for a Markdown table cell: every `|` becomes `\|`.
pub fn escape_md(s: &str) -> (r: String)
    ensures
        r@ == escape_md_seq(s@),
{
    let v = chars_of(s);
    let mut out = String::new();
    let mut i: usize = 0;
    while i < v.len()
        invariant
            i <= v.len(),
            out@ == escape_md_seq(v@.take(i as int)),
        decreases v.len() - i,
    {
        let c = v[i];
        assert(v@.take(i + 1).drop_last() =~= v@.take(i as int));
        if c == '|' {
            out.append("\\|");
        } else {
            push_char(&mut out, c);
        }
        assert(out@ =~= escape_md_seq(v@.take(i + 1)));
        i = i + 1;
    }
    assert(v@.take(v.len() as int) =~= v@);
    out
}

/// HTML-escaped text holds no angle brackets.
pub proof fn lemma_escape_html_no_brackets(s: Seq<char>)
    ensures
        forall|i: int|
            0 <= i < escape_html_seq(s).len() ==> escape_html_seq(s)[i] != '<'
                && escape_html_seq(s)[i] != '>',
    decreases s.len(),
{
    reveal_strlit("&amp;");
    reveal_strlit("&lt;");
    reveal_strlit("&gt;");
    if s.len() > 0 {
        lemma_escape_html_no_brackets(s.drop_last());
        let a = escape_html_seq(s.drop_last());
        let b = escape_html_char(s.last());
        assert forall|i: int| 0 <= i < (a + b).len() implies (a + b)[i] != '<' && (a + b)[i]
            != '>' by {
            if i >= a.len() {
                assert((a + b)[i] == b[i - a.len()]);
            }
        }
    }
}

/// The head of an exported leaderboard: place, id, who, the problems numbered from one (only
/// when there are rows), and the total.
pub open spec fn header_spec(lang: Seq<char>, problem_count: nat, has_rows: bool) -> Seq<Seq<char>> {
    seq!["#"@, "id"@, tr_spec(lang, "кто"@, "who"@)] + if has_rows {
        Seq::new(problem_count, |i: int| decimal_int(i + 1))
    } else {
        Seq::empty()
    } + seq!["="@]
}

/// The head of an exported leaderboard.
pub fn leaderboard_header(lang: &str, problem_count: usize, has_rows: bool) -> (r: Vec<String>)
    ensures
        views(r@) == header_spec(lang@, problem_count as nat, has_rows),
{
    let mut r: Vec<String> = Vec::new();
    r.push(String::from_str("#"));
    r.push(String::from_str("id"));
    r.push(tr(lang, "кто", "who"));
    let ghost start = views(r@);
    if has_rows {
        let mut i: usize = 0;
        while i < problem_count
            invariant
                i <= problem_count,
                r@.len() == 3 + i,
                views(r@) =~= start + Seq::new(i as nat, |k: int| decimal_int(k + 1)),
            decreases problem_count - i,
        {
            let ghost prev = r@;
            let cell = decimal_u64((i as u64) + 1);
            r.push(cell);
            proof {
                lemma_views_push(prev, cell);
                assert(views(r@) =~= start + Seq::new((i + 1) as nat, |k: int| decimal_int(k + 1)));
            }
            i = i + 1;
        }
    }
    let ghost before_total = r@;
    let total = String::from_str("=");
    r.push(total);
    proof {
        lemma_views_push(before_total, total);
        if !has_rows {
            assert(views(before_total) =~= start);
        }
        assert(views(r@) =~= header_spec(lang@, problem_count as nat, has_rows));
    }
    r
}

/// The cells of a row in place `place` (counted from one): place, user id, login, the scores
/// (empty where there is none) and the total.
pub open spec fn row_cells(place: int, row: LeaderboardRow) -> Seq<Seq<char>> {
    seq![decimal_int(place), decimal_int(row.user_id as int), row.user_login@] + score_cells(
        row.scores@,
    ) + seq![row.total_score@]
}

/// The texts of scores; a missing score is an empty cell.
pub open spec fn score_cells(scores: Seq<Option<String>>) -> Seq<Seq<char>> {
    scores.map_values(
        |s: Option<String>|
            match s {
                Some(t) => t@,
                None => Seq::<char>::empty(),
            },
    )
}

/// The cells of the rows of `rows`, placed from one.
pub open spec fn table_spec(rows: Seq<LeaderboardRow>) -> Seq<Seq<Seq<char>>> {
    Seq::new(rows.len(), |i: int| row_cells(i + 1, rows[i]))
}

/// Every exported row lines up with the head: when each row has one score per problem, a row
/// has as many cells as the head has columns, and its first cell is its place.
pub proof fn lemma_rows_match_header(lang: Seq<char>, problem_count: nat, rows: Seq<LeaderboardRow>)
    requires
        forall|i: int| 0 <= i < rows.len() ==> #[trigger] rows[i].scores@.len() == problem_count,
    ensures
        forall|i: int|
            0 <= i < rows.len() ==> {
                &&& (#[trigger] table_spec(rows)[i]).len() == header_spec(
                    lang,
                    problem_count,
                    rows.len() > 0,
                ).len()
                &&& table_spec(rows)[i][0] == decimal_int(i + 1)
            },
{
    assert forall|i: int| 0 <= i < rows.len() implies {
        &&& (#[trigger] table_spec(rows)[i]).len() == header_spec(
            lang,
            problem_count,
            rows.len() > 0,
        ).len()
        &&& table_spec(rows)[i][0] == decimal_int(i + 1)
    } by {
        assert(rows[i].scores@.len() == problem_count);
        assert(table_spec(rows)[i] == row_cells(i + 1, rows[i]));
    }
}

/// The cells of a table of strings.
pub open spec fn table_views(t: Seq<Vec<String>>) -> Seq<Seq<Seq<char>>> {
    t.map_values(|r: Vec<String>| views(r@))
}

/// The cells of one leaderboard row.
fn row_strings(place: usize, row: &LeaderboardRow) -> (r: Vec<String>)
    ensures
        views(r@) == row_cells(place as int, *row),
{
    let mut r: Vec<String> = Vec::new();
    r.push(decimal_u64(place as u64));
    r.push(decimal_i64(row.user_id));
    r.push(row.user_login.clone());
    let ghost start = r@;
    let ghost scores = score_cells(row.scores@);
    let mut i: usize = 0;
    while i < row.scores.len()
        invariant
            i <= row.scores.len(),
            r@.len() == 3 + i,
            scores == score_cells(row.scores@),
            forall|k: int| 0 <= k < 3 ==> r@[k] == start[k],
            forall|k: int| 0 <= k < i ==> #[trigger] r@[3 + k]@ == scores[k],
        decreases row.scores.len() - i,
    {
        let cell = match &row.scores[i] {
            Some(t) => t.clone(),
            None => String::new(),
        };
        assert(cell@ == scores[i as int]);
        let ghost prev = r@;
        r.push(cell);
        assert(r@[3 + i as int] == cell);
        assert forall|k: int| 0 <= k < i + 1 implies #[trigger] r@[3 + k]@ == scores[k] by {
            if k < i {
                assert(r@[3 + k] == prev[3 + k]);
            }
        }
        i = i + 1;
    }
    let ghost before_total = r@;
    r.push(row.total_score.clone());
    proof {
        let want = row_cells(place as int, *row);
        assert forall|k: int| 0 <= k < r@.len() implies views(r@)[k] == want[k] by {
            if k < 3 {
                assert(r@[k] == start[k]);
            } else if k < r@.len() - 1 {
                assert(r@[k] == before_total[k]);
                assert(r@[3 + (k - 3)]@ == scores[k - 3]);
            }
        }
        assert(views(r@) =~= want);
    }
    r
}

/// The cells of an exported leaderboard's rows.
pub fn leaderboard_table(rows: &Vec<LeaderboardRow>) -> (r: Vec<Vec<String>>)
    requires
        rows@.len() < usize::MAX,
    ensures
        table_views(r@) == table_spec(rows@),
{
    let mut r: Vec<Vec<String>> = Vec::new();
    let mut i: usize = 0;
    while i < rows.len()
        invariant
            i <= rows.len(),
            rows@.len() < usize::MAX,
            r@.len() == i,
            forall|k: int| 0 <= k < i ==> views(#[trigger] r@[k]@) == row_cells(k + 1, rows@[k]),
        decreases rows.len() - i,
    {
        r.push(row_strings(i + 1, &rows[i]));
        i = i + 1;
    }
    assert(table_views(r@) =~= table_spec(rows@));
    r
}

/// The lines of a CSV table: each row's cells separated by commas, each line ended.
pub open spec fn csv_rows(table: Seq<Seq<Seq<char>>>) -> Seq<char>
    decreases table.len(),
{
    if table.len() == 0 {
        Seq::empty()
    } else {
        csv_rows(table.drop_last()) + join_seq(table.last(), ","@) + "\n"@
    }
}

/// A leaderboard as CSV: the head, then each row, cells separated by commas, each line ended.
/// Cells are not quoted.
pub open spec fn csv_spec(header: Seq<Seq<char>>, table: Seq<Seq<Seq<char>>>) -> Seq<char> {
    join_seq(header, ","@) + "\n"@ + csv_rows(table)
}

/// Cells with their pipes escaped.
pub open spec fn md_cells(cells: Seq<Seq<char>>) -> Seq<Seq<char>> {
    cells.map_values(|c: Seq<char>| escape_md_seq(c))
}

/// A Markdown table line: the escaped cells between pipes.
pub open spec fn md_line(cells: Seq<Seq<char>>) -> Seq<char> {
    "| "@ + join_seq(md_cells(cells), " | "@) + " |\n"@
}

/// The body lines of a Markdown table.
pub open spec fn md_rows(table: Seq<Seq<Seq<char>>>) -> Seq<char>
    decreases table.len(),
{
    if table.len() == 0 {
        Seq::empty()
    } else {
        md_rows(table.drop_last()) + md_line(table.last())
    }
}

/// The line under a Markdown table's head, for `n` columns.
pub open spec fn md_rule(n: nat) -> Seq<char> {
    "|"@ + join_seq(Seq::new(n, |i: int| "---"@), "|"@) + "|\n"@
}

/// A leaderboard as a Markdown table.
pub open spec fn md_spec(header: Seq<Seq<char>>, table: Seq<Seq<Seq<char>>>) -> Seq<char> {
    md_line(header) + md_rule(header.len()) + md_rows(table)
}

/// The start of an exported HTML leaderboard.
pub open spec fn html_prefix() -> Seq<char> {
    "<!DOCTYPE html><html><head><meta charset=\"utf-8\"><title>Leaderboard</title><style>table{border-collapse:collapse}th,td{border:1px solid #999;padding:4px 8px;text-align:center}</style></head><body><table><thead><tr>"@
}

/// Escaped cells, each between the tags `open` and `close` (those of `th` or `td`).
pub open spec fn html_cells(cells: Seq<Seq<char>>, open: Seq<char>, close: Seq<char>) -> Seq<char>
    decreases cells.len(),
{
    if cells.len() == 0 {
        Seq::empty()
    } else {
        html_cells(cells.drop_last(), open, close) + open + escape_html_seq(cells.last()) + close
    }
}

/// The rows of an HTML table.
pub open spec fn html_rows(table: Seq<Seq<Seq<char>>>) -> Seq<char>
    decreases table.len(),
{
    if table.len() == 0 {
        Seq::empty()
    } else {
        html_rows(table.drop_last()) + "<tr>"@ + html_cells(table.last(), "<td>"@, "</td>"@)
            + "</tr>"@
    }
}

/// A leaderboard as an HTML document.
pub open spec fn html_spec(header: Seq<Seq<char>>, table: Seq<Seq<Seq<char>>>) -> Seq<char> {
    html_prefix() + html_cells(header, "<th>"@, "</th>"@) + "</tr></thead><tbody>"@ + html_rows(
        table,
    ) + "</tbody></table></body></html>"@
}

/// A leaderboard as CSV.
pub fn leaderboard_csv(header: &Vec<String>, table: &Vec<Vec<String>>) -> (r: String)
    ensures
        r@ == csv_spec(views(header@), table_views(table@)),
{
    let mut out = join_strings(header, ",");
    out.append("\n");
    let ghost start = out@;
    let ghost tv = table_views(table@);
    let mut i: usize = 0;
    assert(tv.take(0) =~= Seq::<Seq<Seq<char>>>::empty());
    while i < table.len()
        invariant
            i <= table.len(),
            tv == table_views(table@),
            start == join_seq(views(header@), ","@) + "\n"@,
            out@ == start + csv_rows(tv.take(i as int)),
        decreases table.len() - i,
    {
        let line = join_strings(&table[i], ",");
        out.append(line.as_str());
        out.append("\n");
        assert(tv.take(i + 1).drop_last() =~= tv.take(i as int));
        assert(tv.take(i + 1).last() == views(table@[i as int]@));
        assert(out@ =~= start + csv_rows(tv.take(i + 1)));
        i = i + 1;
    }
    assert(tv.take(table.len() as int) =~= tv);
    out
}

/// A table line of Markdown.
fn md_line_string(cells: &Vec<String>) -> (r: String)
    ensures
        r@ == md_line(views(cells@)),
{
    let mut escaped: Vec<String> = Vec::new();
    let mut i: usize = 0;
    while i < cells.len()
        invariant
            i <= cells.len(),
            views(escaped@) =~= md_cells(views(cells@)).take(i as int),
        decreases cells.len() - i,
    {
        let ghost prev = escaped@;
        let e = escape_md(cells[i].as_str());
        escaped.push(e);
        proof {
            lemma_views_push(prev, e);
            assert(views(escaped@) =~= md_cells(views(cells@)).take(i + 1));
        }
        i = i + 1;
    }
    assert(md_cells(views(cells@)).take(cells.len() as int) =~= md_cells(views(cells@)));
    let mut out = String::from_str("| ");
    let joined = join_strings(&escaped, " | ");
    out.append(joined.as_str());
    out.append(" |\n");
    out
}

/// A leaderboard as a Markdown table.
pub fn leaderboard_md(header: &Vec<String>, table: &Vec<Vec<String>>) -> (r: String)
    ensures
        r@ == md_spec(views(header@), table_views(table@)),
{
    let mut out = md_line_string(header);
    let mut rule: Vec<String> = Vec::new();
    let mut k: usize = 0;
    while k < header.len()
        invariant
            k <= header.len(),
            views(rule@) =~= Seq::new(k as nat, |i: int| "---"@),
        decreases header.len() - k,
    {
        let ghost prev = rule@;
        let dash = String::from_str("---");
        rule.push(dash);
        proof {
            lemma_views_push(prev, dash);
        }
        k = k + 1;
    }
    out.append("|");
    let joined = join_strings(&rule, "|");
    out.append(joined.as_str());
    out.append("|\n");
    let ghost start = out@;
    let ghost tv = table_views(table@);
    assert(start =~= md_line(views(header@)) + md_rule(views(header@).len()));
    let mut i: usize = 0;
    assert(tv.take(0) =~= Seq::<Seq<Seq<char>>>::empty());
    while i < table.len()
        invariant
            i <= table.len(),
            tv == table_views(table@),
            start == md_line(views(header@)) + md_rule(views(header@).len()),
            out@ == start + md_rows(tv.take(i as int)),
        decreases table.len() - i,
    {
        let line = md_line_string(&table[i]);
        out.append(line.as_str());
        assert(tv.take(i + 1).drop_last() =~= tv.take(i as int));
        assert(tv.take(i + 1).last() == views(table@[i as int]@));
        assert(out@ =~= start + md_rows(tv.take(i + 1)));
        i = i + 1;
    }
    assert(tv.take(table.len() as int) =~= tv);
    out
}

/// Escaped cells in `<open>`...`<close>` elements.
fn html_cells_string(cells: &Vec<String>, open: &str, close: &str) -> (r: String)
    ensures
        r@ == html_cells(views(cells@), open@, close@),
{
    let mut out = String::new();
    let ghost cv = views(cells@);
    let mut i: usize = 0;
    assert(cv.take(0) =~= Seq::<Seq<char>>::empty());
    while i < cells.len()
        invariant
            i <= cells.len(),
            cv == views(cells@),
            out@ == html_cells(cv.take(i as int), open@, close@),
        decreases cells.len() - i,
    {
        out.append(open);
        let e = escape_html(cells[i].as_str());
        out.append(e.as_str());
        out.append(close);
        assert(cv.take(i + 1).drop_last() =~= cv.take(i as int));
        assert(cv.take(i + 1).last() == cells@[i as int]@);
        assert(out@ =~= html_cells(cv.take(i + 1), open@, close@));
        i = i + 1;
    }
    assert(cv.take(cells.len() as int) =~= cv);
    out
}

/// A leaderboard as an HTML document.
pub fn leaderboard_html(header: &Vec<String>, table: &Vec<Vec<String>>) -> (r: String)
    ensures
        r@ == html_spec(views(header@), table_views(table@)),
{
    let mut out = String::from_str(
        "<!DOCTYPE html><html><head><meta charset=\"utf-8\"><title>Leaderboard</title><style>table{border-collapse:collapse}th,td{border:1px solid #999;padding:4px 8px;text-align:center}</style></head><body><table><thead><tr>",
    );
    let head = html_cells_string(header, "<th>", "</th>");
    out.append(head.as_str());
    out.append("</tr></thead><tbody>");
    let ghost start = out@;
    let ghost tv = table_views(table@);
    let mut i: usize = 0;
    assert(tv.take(0) =~= Seq::<Seq<Seq<char>>>::empty());
    while i < table.len()
        invariant
            i <= table.len(),
            tv == table_views(table@),
            start == html_prefix() + html_cells(views(header@), "<th>"@, "</th>"@)
                + "</tr></thead><tbody>"@,
            out@ == start + html_rows(tv.take(i as int)),
        decreases table.len() - i,
    {
        out.append("<tr>");
        let cells = html_cells_string(&table[i], "<td>", "</td>");
        out.append(cells.as_str());
        out.append("</tr>");
        assert(tv.take(i + 1).drop_last() =~= tv.take(i as int));
        assert(tv.take(i + 1).last() == views(table@[i as int]@));
        assert(out@ =~= start + html_rows(tv.take(i + 1)));
        i = i + 1;
    }
    out.append("</tbody></table></body></html>");
    assert(tv.take(table.len() as int) =~= tv);
    out
}

/// A format that a leaderboard can be exported in.
#[derive(Clone, Copy, Debug, PartialEq, Eq, Structural)]
pub enum ExportFormat {
    Csv,
    Markdown,
    Html,
}

/// The file name of an exported leaderboard.
pub open spec fn export_file_name(f: ExportFormat) -> Seq<char> {
    match f {
        ExportFormat::Csv => "leaderboard.csv"@,
        ExportFormat::Markdown => "leaderboard.md"@,
        ExportFormat::Html => "leaderboard.html"@,
    }
}

/// A contest's leaderboard exported as a document, and the file name to save it under: the
/// head (place, id, who, the problems when there are rows, total) and one line per row, as
/// CSV, a Markdown table or an HTML page.
pub fn export_leaderboard(
    lang: &str,
    format: ExportFormat,
    problem_count: usize,
    rows: &Vec<LeaderboardRow>,
) -> (r: (String, &'static str))
    requires
        rows@.len() < usize::MAX,
    ensures
        ({
            let header = header_spec(lang@, problem_count as nat, rows@.len() > 0);
            let table = table_spec(rows@);
            &&& r.0@ == match format {
                ExportFormat::Csv => csv_spec(header, table),
                ExportFormat::Markdown => md_spec(header, table),
                ExportFormat::Html => html_spec(header, table),
            }
            &&& r.1@ == export_file_name(format)
        }),
{
    let header = leaderboard_header(lang, problem_count, rows.len() > 0);
    let table = leaderboard_table(rows);
    match format {
        ExportFormat::Markdown => (leaderboard_md(&header, &table), "leaderboard.md"),
        ExportFormat::Html => (leaderboard_html(&header, &table), "leaderboard.html"),
        ExportFormat::Csv => (leaderboard_csv(&header, &table), "leaderboard.csv"),
    }
}

} // verus!
