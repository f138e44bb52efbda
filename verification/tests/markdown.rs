use aj_web::markdown::{decorate_code_blocks, render_markdown};

#[test]
fn code_blocks_get_a_labelled_frame() {
    let html = "<p>x</p>\n<pre><code class=\"language-rust\">fn main() {}\n\n</code></pre>\n";
    assert_eq!(
        decorate_code_blocks(html),
        "<p>x</p>\n<div class=\"md-codeblock\" data-lang=\"rust\"><div class=\"md-codehead\"><span>rust</span></div><pre class=\"md-code\"><code data-lang=\"rust\" class=\"language-rust\">fn main() {}</code></pre></div>\n"
    );
}

#[test]
fn unlabelled_code_blocks_get_an_empty_label() {
    let html = "<pre><code>a  \n</code></pre>";
    assert_eq!(
        decorate_code_blocks(html),
        "<div class=\"md-codeblock\" data-lang=\"\"><div class=\"md-codehead\"><span></span></div><pre class=\"md-code\"><code>a</code></pre></div>"
    );
}

#[test]
fn html_without_code_is_untouched() {
    assert_eq!(decorate_code_blocks("<p>a <code>b</code></p>"), "<p>a <code>b</code></p>");
    assert_eq!(decorate_code_blocks(""), "");
    // An unfinished block stays as it is.
    assert_eq!(decorate_code_blocks("<pre><code>x"), "<pre><code>x");
}

#[test]
fn markdown_renders_inline() {
    assert_eq!(render_markdown("**bold** and ~~gone~~"), "<p><strong>bold</strong> and <del>gone</del></p>\n");
}

#[test]
fn markdown_renders_fenced_code() {
    let out = render_markdown("```rust\nlet x = 1;\n```\n");
    assert_eq!(
        out,
        "<div class=\"md-codeblock\" data-lang=\"rust\"><div class=\"md-codehead\"><span>rust</span></div><pre class=\"md-code\"><code data-lang=\"rust\" class=\"language-rust\">let x = 1;</code></pre></div>\n"
    );
}

#[test]
fn markdown_drops_scripts() {
    let out = render_markdown("hi <script>alert(1)</script> <b onclick=\"x()\">b</b>");
    assert!(!out.contains("<script"));
    assert!(!out.contains("onclick"));
    assert!(out.contains("<b>b</b>"));
}

#[test]
fn markdown_tables() {
    let out = render_markdown("| a | b |\n|---|---|\n| 1 | 2 |\n");
    assert!(out.contains("<table>"));
    assert!(out.contains("<td>1</td>"));
}
