//! The engine end to end: parsing, resolution, elision and escapes.

use prompt_fmt::eval::EvalError;
use prompt_fmt::formatter::{render_with_fallback, FormatterError, StringFormatter};
use prompt_fmt::parser::ParseError;
use prompt_fmt::resolve::ResolvedValue;
use prompt_fmt::segment::Segment;

fn s(x: &str) -> String {
    x.to_owned()
}

fn text_of(segs: &[Segment]) -> String {
    let mut out = String::new();
    for seg in segs {
        out.push_str(&seg.text);
    }
    out
}

fn render(
    format: &str,
    meta: Vec<(&str, &str)>,
    styles: Vec<(&str, Result<&str, &str>)>,
    values: Vec<(&str, ResolvedValue)>,
) -> Result<Vec<Segment>, EvalError> {
    let f = StringFormatter::new(format).expect("format must parse");
    let meta = meta.into_iter().map(|(k, v)| (s(k), s(v))).collect();
    let styles = styles
        .into_iter()
        .map(|(k, v)| (s(k), v.map(s).map_err(s)))
        .collect();
    let values = values.into_iter().map(|(k, v)| (s(k), v)).collect();
    f.map_meta(meta).map_style(styles).map(values).parse()
}

#[test]
fn styled_group_with_resolved_variable() {
    // template "[$a]($style)", a resolves, style resolves to bold:
    // one segment ("x", bold).
    let segs = render(
        "[$a]($style)",
        vec![],
        vec![("style", Ok("bold"))],
        vec![("a", ResolvedValue::Text(s("x")))],
    )
    .unwrap();
    assert_eq!(segs.len(), 1);
    assert_eq!(segs[0].text, "x");
    assert_eq!(segs[0].style.as_deref(), Some("bold"));
}

#[test]
fn styled_group_elides_when_unresolved() {
    // template "[$a]($style)", a absent: zero segments.
    let segs = render(
        "[$a]($style)",
        vec![],
        vec![("style", Ok("bold"))],
        vec![("a", ResolvedValue::Absent)],
    )
    .unwrap();
    assert_eq!(segs.len(), 0);
}

#[test]
fn group_kept_when_one_of_two_resolves() {
    // template "[$a $b]($style)", a resolves, b absent: the group is kept,
    // its text is "x " (the literal space preserved), styled.
    let segs = render(
        "[$a $b]($style)",
        vec![],
        vec![("style", Ok("bold"))],
        vec![
            ("a", ResolvedValue::Text(s("x"))),
            ("b", ResolvedValue::Absent),
        ],
    )
    .unwrap();
    assert_eq!(text_of(&segs), "x ");
    for seg in &segs {
        assert_eq!(seg.style.as_deref(), Some("bold"));
    }
}

#[test]
fn unterminated_group_is_a_parse_error_at_end_of_input() {
    // template "[abc": a parse error at the end-of-input offset.
    let err = StringFormatter::new("[abc").err().expect("must not parse");
    assert_eq!(err, ParseError::Unterminated { offset: 4 });
}

#[test]
fn unterminated_group_falls_back_to_the_default_format() {
    let table = prompt_fmt::resolve::ResolverTable::new();
    let segs = render_with_fallback("[abc", "plain", &table).unwrap();
    assert_eq!(text_of(&segs), "plain");
}

#[test]
fn fallback_parse_error_is_reported() {
    let table = prompt_fmt::resolve::ResolverTable::new();
    let err = render_with_fallback("[abc", "[def", &table).err().unwrap();
    assert_eq!(
        err,
        FormatterError::Parse(ParseError::Unterminated { offset: 4 })
    );
}

#[test]
fn failed_value_resolution_aborts_the_render() {
    // an async value resolver's failure propagates; the module renders
    // nothing and its caller logs the message.
    let err = render(
        "via [$version]($style)",
        vec![],
        vec![("style", Ok("bold"))],
        vec![("version", ResolvedValue::Failure(s("perl not found")))],
    )
    .err()
    .unwrap();
    assert_eq!(
        err,
        EvalError::Value {
            name: s("version"),
            message: s("perl not found")
        }
    );
}

#[test]
fn failed_style_resolution_aborts_the_render() {
    let err = render(
        "[$a]($style)",
        vec![],
        vec![("style", Err("invalid style keyword"))],
        vec![("a", ResolvedValue::Text(s("x")))],
    )
    .err()
    .unwrap();
    assert_eq!(
        err,
        EvalError::Style {
            name: s("style"),
            message: s("invalid style keyword")
        }
    );
}

#[test]
fn literal_only_template_ignores_resolvers() {
    // no variable references: the output is the literal text with escapes
    // resolved, whatever the tables hold.
    let a = render("just text", vec![], vec![], vec![]).unwrap();
    let b = render(
        "just text",
        vec![("x", "y")],
        vec![("style", Ok("bold"))],
        vec![("x", ResolvedValue::Text(s("z")))],
    )
    .unwrap();
    assert_eq!(a, b);
    assert_eq!(text_of(&a), "just text");
}

#[test]
fn render_is_idempotent() {
    // byte-identical output on a re-run with identical resolver outputs.
    let one = render(
        "pre [$a]($style) post",
        vec![("sym", "s")],
        vec![("style", Ok("bold"))],
        vec![("a", ResolvedValue::Text(s("x")))],
    )
    .unwrap();
    let two = render(
        "pre [$a]($style) post",
        vec![("sym", "s")],
        vec![("style", Ok("bold"))],
        vec![("a", ResolvedValue::Text(s("x")))],
    )
    .unwrap();
    assert_eq!(one, two);
}

#[test]
fn escaped_dollar_renders_as_dollar() {
    let segs = render("\\$", vec![], vec![], vec![]).unwrap();
    assert_eq!(text_of(&segs), "$");
    let segs = render("$$", vec![], vec![], vec![]).unwrap();
    assert_eq!(text_of(&segs), "$");
}

#[test]
fn escaped_brackets_are_literal_not_group_delimiters() {
    let segs = render("\\[x\\]", vec![], vec![], vec![]).unwrap();
    assert_eq!(segs.len(), 1);
    assert_eq!(segs[0].text, "[x]");
    assert_eq!(segs[0].style, None);
    let segs = render("\\(y\\)", vec![], vec![], vec![]).unwrap();
    assert_eq!(text_of(&segs), "(y)");
}

#[test]
fn unknown_escape_is_an_error_with_its_offset() {
    let err = StringFormatter::new("ab\\x").err().unwrap();
    assert_eq!(err, ParseError::InvalidEscape { offset: 2 });
}

#[test]
fn group_without_style_span_is_an_error() {
    let err = StringFormatter::new("[abc]").err().unwrap();
    assert_eq!(err, ParseError::MissingStyle { offset: 5 });
    let err = StringFormatter::new("[abc]x").err().unwrap();
    assert_eq!(err, ParseError::MissingStyle { offset: 5 });
}

#[test]
fn stray_closers_are_errors() {
    let err = StringFormatter::new("ab]").err().unwrap();
    assert_eq!(err, ParseError::Unterminated { offset: 2 });
    let err = StringFormatter::new(")x").err().unwrap();
    assert_eq!(err, ParseError::Unterminated { offset: 0 });
}

#[test]
fn nested_group_elides_independently() {
    // the inner conditional elides; the outer group keeps its other
    // resolved reference and all literal content.
    let segs = render(
        "[$a($b)]($style)",
        vec![],
        vec![("style", Ok("bold"))],
        vec![
            ("a", ResolvedValue::Text(s("x"))),
            ("b", ResolvedValue::Absent),
        ],
    )
    .unwrap();
    assert_eq!(text_of(&segs), "x");
    // and when the inner elision leaves no resolved reference, the outer
    // group goes too.
    let segs = render(
        "[$a($b)]($style)",
        vec![],
        vec![("style", Ok("bold"))],
        vec![
            ("a", ResolvedValue::Absent),
            ("b", ResolvedValue::Absent),
        ],
    )
    .unwrap();
    assert_eq!(segs.len(), 0);
}

#[test]
fn meta_resolution_wins_over_values_and_is_unstyled_outside_groups() {
    let segs = render(
        "$sym",
        vec![("sym", "Z ")],
        vec![],
        vec![("sym", ResolvedValue::Text(s("shadowed")))],
    )
    .unwrap();
    assert_eq!(segs.len(), 1);
    assert_eq!(segs[0].text, "Z ");
    assert_eq!(segs[0].style, None);
}

#[test]
fn variable_names_come_in_source_order() {
    let f = StringFormatter::new("$a [$b($c)]($style) $d").unwrap();
    let names = f.variable_names();
    assert_eq!(names, vec![s("a"), s("b"), s("c"), s("d")]);
}

#[test]
fn style_span_joins_keywords_and_variables() {
    let segs = render(
        "[$a](bold $style)",
        vec![],
        vec![("style", Ok("yellow"))],
        vec![("a", ResolvedValue::Text(s("x")))],
    )
    .unwrap();
    assert_eq!(segs.len(), 1);
    assert_eq!(segs[0].style.as_deref(), Some("bold yellow"));
}

#[test]
fn unknown_style_variable_contributes_nothing() {
    let segs = render(
        "[$a]($nope bold)",
        vec![],
        vec![],
        vec![("a", ResolvedValue::Text(s("x")))],
    )
    .unwrap();
    assert_eq!(segs[0].style.as_deref(), Some("bold"));
}

#[test]
fn empty_style_span_leaves_segments_unstyled() {
    let segs = render(
        "[$a]()",
        vec![],
        vec![],
        vec![("a", ResolvedValue::Text(s("x")))],
    )
    .unwrap();
    assert_eq!(segs.len(), 1);
    assert_eq!(segs[0].style, None);
}

#[test]
fn inner_style_is_more_specific_than_outer() {
    let segs = render(
        "[[$a](red) $b](bold)",
        vec![],
        vec![],
        vec![
            ("a", ResolvedValue::Text(s("x"))),
            ("b", ResolvedValue::Text(s("y"))),
        ],
    )
    .unwrap();
    assert_eq!(text_of(&segs), "x y");
    assert_eq!(segs[0].style.as_deref(), Some("red"));
    assert_eq!(segs[segs.len() - 1].style.as_deref(), Some("bold"));
}

#[test]
fn literal_only_group_is_kept() {
    let segs = render("[fixed](dimmed)", vec![], vec![], vec![]).unwrap();
    assert_eq!(text_of(&segs), "fixed");
    assert_eq!(segs[0].style.as_deref(), Some("dimmed"));
}

#[test]
fn lone_dollar_is_an_invalid_token() {
    let err = StringFormatter::new("a$ b").err().unwrap();
    assert_eq!(err, ParseError::InvalidEscape { offset: 1 });
}
