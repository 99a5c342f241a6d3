use rehype_tree_sitter::escape::{class_name, escape_html};
use rehype_tree_sitter::highlight::conclude;
use rehype_tree_sitter::render::{render, Event, RenderError};
use rehype_tree_sitter::vocabulary::highlights;

fn scope(name: &str) -> usize {
    highlights().iter().position(|n| *n == name).unwrap()
}

#[test]
fn escape_replaces_each_reserved_character() {
    assert_eq!(escape_html("&"), "&amp;");
    assert_eq!(escape_html("\""), "&quot;");
    assert_eq!(escape_html("'"), "&#39;");
    assert_eq!(escape_html("<"), "&lt;");
    assert_eq!(escape_html(">"), "&gt;");
    assert_eq!(escape_html("plain text"), "plain text");
    assert_eq!(escape_html(""), "");
}

#[test]
fn escape_does_not_escape_its_own_entities() {
    assert_eq!(escape_html("&lt;"), "&amp;lt;");
    assert_eq!(escape_html("a && b"), "a &amp;&amp; b");
    assert_eq!(escape_html("<&>"), "&lt;&amp;&gt;");
}

#[test]
fn escape_of_script_tag_leaves_no_reserved_character() {
    let escaped = escape_html("<script>&\"'</script>");
    assert_eq!(escaped, "&lt;script&gt;&amp;&quot;&#39;&lt;/script&gt;");
    assert!(!escaped.contains('<'));
    assert!(!escaped.contains('>'));
    assert!(!escaped.contains('"'));
    assert!(!escaped.contains('\''));
}

#[test]
fn escape_keeps_characters_outside_ascii() {
    assert_eq!(escape_html("é<ü"), "é&lt;ü");
}

#[test]
fn class_name_has_dashes_for_dots() {
    assert_eq!(class_name("keyword.control"), "keyword-control");
    assert_eq!(class_name("variable.parameter.builtin"), "variable-parameter-builtin");
    assert_eq!(class_name("keyword"), "keyword");
}

#[test]
fn vocabulary_is_fixed() {
    let names = highlights();
    assert_eq!(names.len(), 46);
    assert_eq!(names[0], "keyword.operator");
    assert_eq!(names[2], "keyword.control");
    assert_eq!(names[7], "keyword");
    assert_eq!(names[24], "string");
    assert_eq!(names[45], "escape");
}

#[test]
fn render_without_scope_is_escaped_text() {
    let events = [Event::Source { start: 0, end: 5 }];
    assert_eq!(render("a < b", &events), Ok("a &lt; b".to_string()));
}

#[test]
fn render_wraps_text_under_a_scope() {
    let events = [
        Event::ScopeStart(scope("keyword.control")),
        Event::Source { start: 0, end: 2 },
        Event::ScopeEnd,
        Event::Source { start: 2, end: 4 },
    ];
    assert_eq!(
        render("if x", &events),
        Ok("<span class=\"ts-keyword-control\">if</span> x".to_string())
    );
}

#[test]
fn render_uses_the_innermost_scope() {
    let events = [
        Event::ScopeStart(scope("string")),
        Event::Source { start: 0, end: 2 },
        Event::ScopeStart(scope("string.escape")),
        Event::Source { start: 2, end: 4 },
        Event::ScopeEnd,
        Event::Source { start: 4, end: 5 },
        Event::ScopeEnd,
    ];
    assert_eq!(
        render("\"a\\n\"", &events),
        Ok(concat_all(&[
            "<span class=\"ts-string\">&quot;a</span>",
            "<span class=\"ts-string-escape\">\\n</span>",
            "<span class=\"ts-string\">&quot;</span>",
        ]))
    );
}

fn concat_all(parts: &[&str]) -> String {
    let mut out = String::new();
    for part in parts {
        out.push_str(part);
    }
    out
}

#[test]
fn render_skips_empty_spans() {
    let events = [
        Event::ScopeStart(scope("keyword")),
        Event::Source { start: 0, end: 0 },
        Event::ScopeEnd,
        Event::Source { start: 0, end: 1 },
    ];
    assert_eq!(render("x", &events), Ok("x".to_string()));
}

#[test]
fn render_of_no_events_is_empty() {
    assert_eq!(render("", &[]), Ok(String::new()));
    assert_eq!(render("ignored", &[]), Ok(String::new()));
}

#[test]
fn render_over_empty_code_is_empty() {
    let events = [
        Event::ScopeStart(3),
        Event::Source { start: 0, end: 0 },
        Event::ScopeEnd,
    ];
    assert_eq!(render("", &events), Ok(String::new()));
}

#[test]
fn render_tolerates_an_end_without_a_start() {
    let events = [Event::ScopeEnd, Event::Source { start: 0, end: 1 }];
    assert_eq!(render("x", &events), Ok("x".to_string()));
}

#[test]
fn render_ignores_failed_events() {
    let events = [
        Event::Failed,
        Event::Source { start: 0, end: 1 },
        Event::Failed,
    ];
    assert_eq!(render("x", &events), Ok("x".to_string()));
}

#[test]
fn render_rejects_a_span_outside_the_code() {
    let events = [Event::Source { start: 0, end: 4 }];
    assert_eq!(
        render("abc", &events),
        Err(RenderError::InvalidSpan { start: 0, end: 4 })
    );
}

#[test]
fn render_rejects_a_span_that_runs_backwards() {
    let events = [Event::Source { start: 2, end: 1 }];
    assert_eq!(
        render("abc", &events),
        Err(RenderError::InvalidSpan { start: 2, end: 1 })
    );
}

#[test]
fn render_rejects_a_span_that_cuts_a_character() {
    let events = [Event::Source { start: 0, end: 1 }];
    assert_eq!(
        render("é", &events),
        Err(RenderError::InvalidSpan { start: 0, end: 1 })
    );
    let whole = [Event::Source { start: 0, end: 2 }];
    assert_eq!(render("é", &whole), Ok("é".to_string()));
}

#[test]
fn render_rejects_a_scope_outside_the_vocabulary() {
    let events = [Event::ScopeStart(46), Event::Source { start: 0, end: 1 }];
    assert_eq!(
        render("x", &events),
        Err(RenderError::UnknownScope { scope: 46 })
    );
}

#[test]
fn render_allows_an_unknown_scope_without_text() {
    let events = [
        Event::ScopeStart(46),
        Event::ScopeEnd,
        Event::Source { start: 0, end: 1 },
    ];
    assert_eq!(render("x", &events), Ok("x".to_string()));
}

#[test]
fn render_returns_the_first_error() {
    let events = [
        Event::Source { start: 0, end: 9 },
        Event::ScopeStart(99),
        Event::Source { start: 0, end: 1 },
    ];
    assert_eq!(
        render("x", &events),
        Err(RenderError::InvalidSpan { start: 0, end: 9 })
    );
}

#[test]
fn tiling_spans_reconstruct_the_escaped_code() {
    let code = "a<b>c";
    let events = [
        Event::Source { start: 0, end: 2 },
        Event::Source { start: 2, end: 2 },
        Event::Failed,
        Event::Source { start: 2, end: 5 },
    ];
    assert_eq!(render(code, &events), Ok(escape_html(code)));
}

#[test]
fn render_error_is_described() {
    assert_eq!(
        RenderError::InvalidSpan { start: 1, end: 0 }.describe(),
        "source span outside the code"
    );
    assert_eq!(
        RenderError::UnknownScope { scope: 50 }.describe(),
        "scope outside the vocabulary"
    );
}

#[test]
fn conclude_renders_the_events() {
    let events = vec![
        Event::ScopeStart(scope("number")),
        Event::Source { start: 0, end: 1 },
        Event::ScopeEnd,
    ];
    assert_eq!(
        conclude("1", Ok(events)),
        Ok("<span class=\"ts-number\">1</span>".to_string())
    );
}

#[test]
fn conclude_reports_a_failed_highlighter() {
    assert_eq!(
        conclude("1", Err("Cancelled".to_string())),
        Err("Highlight error: Cancelled".to_string())
    );
}

#[test]
fn conclude_reports_events_that_cannot_be_rendered() {
    assert_eq!(
        conclude("1", Ok(vec![Event::Source { start: 0, end: 2 }])),
        Err("Highlight error: source span outside the code".to_string())
    );
    assert_eq!(
        conclude(
            "1",
            Ok(vec![Event::ScopeStart(100), Event::Source { start: 0, end: 1 }])
        ),
        Err("Highlight error: scope outside the vocabulary".to_string())
    );
}
