use rust_html::compile::{compile, CompileError};
use rust_html::escape::{signed_text, unsigned_text};
use rust_html::expr::{
    classify_expression, hole_code, inner_rust_to_tokens, validate_inner_rust,
    wrap_rust_compile_error, ExprKind,
};
use rust_html::html::{compile_check_html, contains, fragment_inside, html_error_message, join_errors};
use rust_html::input::validate_input;
use rust_html::lexer::{lex, LexError};
use rust_html::template::{Render, Template, TemplateGroup, Unescaped};
use rust_html::text::{blank, trim_whitespace_per_line};

fn flat(t: Template) -> String {
    String::from(t)
}

#[test]
fn default_adapter_escapes_all_six_characters() {
    assert_eq!(
        flat("a&b<c>d\"e'f/g".render()),
        "a&amp;b&lt;c&gt;d&quot;e&#x27;f&#x2F;g"
    );
    assert_eq!(flat(String::from("plain text").render()), "plain text");
    assert_eq!(flat("".render()), "");
}

#[test]
fn bypass_adapter_keeps_text() {
    let s = "a&b<c>d\"e'f/g";
    assert_eq!(flat(Unescaped(s.to_string()).render()), s);
}

#[test]
fn scalar_adapters() {
    assert_eq!(flat(true.render()), "true");
    assert_eq!(flat(false.render()), "false");
    assert_eq!(flat('<'.render()), "&lt;");
    assert_eq!(flat((-42i64).render()), "-42");
    assert_eq!(flat(i64::MIN.render()), "-9223372036854775808");
    assert_eq!(flat(u64::MAX.render()), "18446744073709551615");
    assert_eq!(flat(0u8.render()), "0");
    assert_eq!(flat(7usize.render()), "7");
    assert_eq!(unsigned_text(1200).as_str(), "1200");
    assert_eq!(signed_text(-5).as_str(), "-5");
}

#[test]
fn script_value_in_div() {
    let compiled = compile("<div>{value}</div>").unwrap();
    let value = "<script>";
    assert_eq!(flat(compiled.resolve(vec![value.render()])), "<div>&lt;script&gt;</div>");
}

#[test]
fn escape_sequences_flatten() {
    for (source, expected) in [("{{}}", "{}"), ("{{", "{"), ("}}", "}")] {
        let compiled = compile(source).unwrap();
        assert_eq!(compiled.slot_count(), 0);
        assert_eq!(flat(compiled.resolve(vec![])), expected);
    }
}

#[test]
fn conditional_hole() {
    let compiled = compile("{ if true {1} else {2} }").unwrap();
    assert_eq!(flat(compiled.resolve(vec![(if true { 1i32 } else { 2 }).render()])), "1");
}

#[test]
fn table_cell_accepted_through_fallback() {
    let compiled = compile("<td>{10}</td>").unwrap();
    assert_eq!(flat(compiled.resolve(vec![10i32.render()])), "<td>10</td>");
    assert!(compile_check_html("<tr></tr>").is_ok());
    assert!(fragment_inside("table", "<tr></tr>").is_ok());
}

#[test]
fn self_closing_div_is_structural_error() {
    match compile("<div/>") {
        Err(CompileError::Structure(m)) => assert!(m.starts_with("invalid HTML syntax (")),
        other => panic!("unexpected: {:?}", other),
    }
}

#[test]
fn lone_closing_bracket_is_lex_error() {
    assert_eq!(compile("}"), Err(CompileError::Lex(LexError::UnexpectedClose)));
    assert_eq!(
        CompileError::Lex(LexError::UnexpectedClose).message(),
        "Unexpected close bracket '}', need an open bracket first (or '}}' to escape)"
    );
}

#[test]
fn unmatched_close_wins_over_later_problems() {
    // The hole before it is no expression, and the skeleton is bad HTML:
    // the bracket error still comes first.
    assert_eq!(
        compile("<div/>{let x = 1;} } x"),
        Err(CompileError::Lex(LexError::UnexpectedClose))
    );
    assert_eq!(lex("a{b}}c").unwrap_err(), LexError::UnexpectedClose);
}

#[test]
fn missing_close_bracket() {
    assert_eq!(compile("<div>{value</div>"), Err(CompileError::Lex(LexError::MissingClose)));
    assert_eq!(LexError::MissingClose.message(), "Missing close bracket '}'");
}

#[test]
fn segments_one_more_than_slots() {
    for source in ["", "a", "{x}", "a{x}b{y}c", "{{x}}", "{x}{y}{z}", "{ {a} {b} }"] {
        let lexed = lex(source).unwrap();
        assert_eq!(lexed.segments.len(), lexed.slots.len() + 1);
    }
    let lexed = lex("a{x}b{ {c} }d").unwrap();
    assert_eq!(lexed.segments, vec!["a", "b", "d"]);
    assert_eq!(lexed.slots, vec!["x", " {c} "]);
}

#[test]
fn invalid_expression_is_reported_with_context() {
    match compile("<p>{let x = 1;}</p>") {
        Err(CompileError::Expression(m)) => {
            let (parser, rest) = m.split_once('\n').unwrap();
            assert!(!parser.is_empty());
            assert_eq!(
                rest,
                "'<p>{let x = 1;}' <-  template input is not a valid identifer/expression/literal: "
            );
        }
        other => panic!("unexpected: {:?}", other),
    }
}

#[test]
fn unbalanced_tokens_are_reported_in_place() {
    match compile("<b>{ ( }</b>") {
        Err(CompileError::Expression(m)) => {
            assert!(m.ends_with("\n'<b>{ ( }' <-  failed to parse rust tokens inside brackets '{}'"))
        }
        other => panic!("unexpected: {:?}", other),
    }
    assert_eq!(inner_rust_to_tokens("  ", "<a>").unwrap(), "\"\"");
    assert_eq!(inner_rust_to_tokens("a + b", "<a>").unwrap(), "a + b");
}

#[test]
fn hole_code_decisions() {
    assert_eq!(hole_code(" \t", "", Some("bad".to_string())), Ok("\"\"".to_string()));
    assert_eq!(hole_code("x", "", None), Ok("x".to_string()));
    assert_eq!(
        hole_code("(", "<i>", Some("lex error".to_string())),
        Err("lex error\n'<i>{(}' <-  failed to parse rust tokens inside brackets '{}'".to_string())
    );
}

#[test]
fn classification_decisions() {
    assert_eq!(classify_expression("x", "", None, false, false), Ok(ExprKind::Identifier));
    assert_eq!(classify_expression("1", "", Some("e".into()), true, true), Ok(ExprKind::Literal));
    assert_eq!(classify_expression("f()", "", Some("e".into()), false, true), Ok(ExprKind::Expression));
    assert_eq!(
        classify_expression("a b", "<p>", Some("expected identifier".into()), false, false),
        Err("expected identifier\n'<p>{a b}' <-  template input is not a valid identifer/expression/literal: ".to_string())
    );
}

#[test]
fn expression_kinds() {
    assert_eq!(validate_inner_rust("value", ""), Ok(ExprKind::Identifier));
    assert_eq!(validate_inner_rust("\"text\"", ""), Ok(ExprKind::Literal));
    assert_eq!(validate_inner_rust("f(1) + 2", ""), Ok(ExprKind::Expression));
    assert_eq!(validate_inner_rust("true", ""), Ok(ExprKind::Literal));
    assert!(validate_inner_rust("a; b", "").is_err());
}

#[test]
fn diagnostic_windows() {
    assert_eq!(
        wrap_rust_compile_error("bad", "expected identifier", "x", "<div>"),
        "expected identifier\n'<div>{x}' <-  bad"
    );
    assert_eq!(
        wrap_rust_compile_error("bad", "e", "abcdefghijklmnopqrstuvwxyz", "0123456789012345678901234"),
        "e\n'... 56789012345678901234{abcdefghijklmnopqrstuvwxyz}' <-  bad"
    );
}

#[test]
fn bound_values_are_trimmed() {
    let compiled = compile("<p>{a}</p>").unwrap();
    let t = compiled.resolve(vec![Unescaped("\n   <b>x</b>\n  ".into()).render()]);
    assert_eq!(flat(t), "<p><b>x</b></p>");
    let t = Template::build_internal(vec![("[", "  y ".render())], "]");
    assert_eq!(flat(t), "[y]");
}

#[test]
fn template_renders_as_itself() {
    let t = compile("<i>{a}</i>").unwrap().resolve(vec!["a".render()]);
    assert_eq!(t.render(), t);
    assert_eq!(t.clone(), t);
}

#[test]
fn references_render_like_their_values() {
    let value: &i32 = &20;
    assert_eq!(flat(Render::render(&value)), "20");
    let text: &&str = &"<";
    assert_eq!(flat(Render::render(&text)), "&lt;");
}

#[test]
fn group_flattening() {
    assert_eq!(flat(TemplateGroup(vec![]).render()), "");
    let group = TemplateGroup::from(vec!["a<".render(), Unescaped("<b>".into()).render(), 5i32.render()]);
    assert_eq!(flat(group.render()), "a&lt;<b>5");
}

#[test]
fn nested_composition_flattens_in_place() {
    let a = compile("<i>{x}</i>").unwrap().resolve(vec!["A".render()]);
    let b = compile("<b>{a}!</b>").unwrap().resolve(vec![a.clone().render()]);
    let c = compile("<p>[{b}]</p>").unwrap().resolve(vec![b.render()]);
    assert_eq!(flat(a.clone()), "<i>A</i>");
    assert_eq!(flat(c), format!("<p>[<b>{}!</b>]</p>", flat(a)));
    let parts = Template::build_internal(vec![("x", "1".render()), ("y", "2".render())], "z");
    assert_eq!(parts.build(), "x1y2z");
}

#[test]
fn structural_diagnostic_with_doctype_hint() {
    let errors = vec!["Unexpected token".to_string(), "</html> with no <body> in scope".to_string()];
    assert_eq!(
        html_error_message("<html></html>", &errors),
        "invalid HTML syntax (2 issues):\n<!DOCTYPE html> is required for root html,\nUnexpected token,\n</html> with no <body> in scope"
    );
    assert_eq!(
        html_error_message("<body></html>", &errors),
        "invalid HTML syntax (2 issues):\nUnexpected token,\n</html> with no <body> in scope"
    );
    assert_eq!(join_errors(&vec![]), "");
    assert!(compile_check_html("<html></html>").is_err());
}

#[test]
fn substring_search() {
    assert!(contains("<!DOCTYPE html><html>", "<html>"));
    assert!(!contains("<htm", "<html>"));
    assert!(contains("abc", ""));
}

#[test]
fn per_line_trim() {
    assert_eq!(trim_whitespace_per_line("  <a>  \n\t<b>\n\n c "), "<a>\n<b>\n\nc");
    assert_eq!(trim_whitespace_per_line("\n  <tr>\n    <td>x</td>\n  </tr>\n  "), "<tr>\n<td>x</td>\n</tr>");
    assert_eq!(trim_whitespace_per_line(""), "");
    assert!(blank(" \t\n"));
    assert!(!blank(" x "));
}

#[test]
fn macro_input() {
    assert_eq!(validate_input(&vec![]), Ok(String::new()));
    assert_eq!(validate_input(&vec!["\"<div>\"".to_string()]), Ok("<div>".to_string()));
    assert_eq!(validate_input(&vec!["r#\"a\"b\"#".to_string()]), Ok("a\"b".to_string()));
    assert_eq!(
        validate_input(&vec!["\"a\"".to_string(), "\"b\"".to_string()]),
        Err("expected a single input, but found 2".to_string())
    );
    assert_eq!(
        validate_input(&vec!["10".to_string()]),
        Err("expected string literal, but found literal '10'".to_string())
    );
    assert!(validate_input(&vec!["foo".to_string()]).is_err());
}
