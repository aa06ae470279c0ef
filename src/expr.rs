use vstd::prelude::*;

use crate::text::{blank, chars_of, is_blank, push_range};

verus! {

// What Rust's lexer and parser make of a hole's text depends on where they
// run: inside a procedural macro the compiler's own lexer is used, whose
// answers follow its version and the calling crate's edition. Nothing is
// therefore promised of these answers; the functions that decide on them
// take them as arguments.

/// Relies on `proc_macro2`'s `FromStr for TokenStream`: `None` where the
/// text lexes as Rust tokens, else the lexer's error message.
#[verifier::external_body]
fn token_error(s: &str) -> (r: Option<String>) {
    s.parse::<proc_macro2::TokenStream>().err().map(|e| e.to_string())
}

/// Relies on `syn::parse_str::<syn::Ident>`: `None` where the whole text is
/// one identifier, else the parser's error message.
#[verifier::external_body]
fn ident_error(s: &str) -> (r: Option<String>) {
    syn::parse_str::<syn::Ident>(s).err().map(|e| e.to_string())
}

/// Relies on `syn::parse_str::<syn::Lit>`: whether the whole text is one literal.
#[verifier::external_body]
fn literal_parses(s: &str) -> (r: bool) {
    syn::parse_str::<syn::Lit>(s).is_ok()
}

/// Relies on `syn::parse_str::<syn::Expr>`: whether the whole text is one expression.
#[verifier::external_body]
fn expr_parses(s: &str) -> (r: bool) {
    syn::parse_str::<syn::Expr>(s).is_ok()
}

/// What a hole's source text was accepted as.
#[derive(Debug, Clone, Copy, PartialEq, Eq, Structural)]
pub enum ExprKind {
    Identifier,
    Literal,
    Expression,
}

/// The text that stands in a hole that holds only white space: an empty string literal.
pub open spec fn empty_literal() -> Seq<char> {
    seq!['"', '"']
}

/// The code that a hole's text stands for: an empty string literal for a
/// blank hole, the text itself otherwise.
pub open spec fn slot_code(s: Seq<char>) -> Seq<char> {
    if is_blank(s) {
        empty_literal()
    } else {
        s
    }
}

/// The complaint for a hole whose text does not lex as Rust tokens.
pub open spec fn tokens_prefix() -> Seq<char> {
    "failed to parse rust tokens inside brackets '{}'"@
}

/// The complaint for a hole that is no identifier, literal or expression.
pub open spec fn invalid_expression_prefix() -> Seq<char> {
    "template input is not a valid identifer/expression/literal: "@
}

/// Decides the code of a hole, given the Rust lexer's verdict on its text
/// (`None` where it lexes, else the lexer's message): a blank hole becomes an
/// empty string literal whatever the verdict; other text is kept where it
/// lexes, and is otherwise reported in its place in the template.
pub fn hole_code(rust_code: &str, html_context: &str, lex_error: Option<String>) -> (r: Result<String, String>)
    ensures
        is_blank(rust_code@) ==> (r matches Ok(code) && code@ == empty_literal()),
        !is_blank(rust_code@) && lex_error is None ==> (r matches Ok(code) && code@ == rust_code@),
        !is_blank(rust_code@) && lex_error is Some ==> (r matches Err(m) && m@ == context_message(
            tokens_prefix(),
            lex_error->0@,
            rust_code@,
            html_context@,
        )),
{
    if blank(rust_code) {
        let mut code = String::new();
        code.append("\"\"");
        proof {
            reveal_strlit("\"\"");
        }
        assert(code@ =~= empty_literal());
        return Ok(code);
    }
    match lex_error {
        None => Ok(rust_code.to_owned()),
        Some(message) => Err(
            wrap_rust_compile_error(
                "failed to parse rust tokens inside brackets '{}'",
                message.as_str(),
                rust_code,
                html_context,
            ),
        ),
    }
}

/// Turns a hole's text into the code it stands for: a blank hole becomes an
/// empty string literal; other text must lex as Rust tokens, and is kept as
/// it is.
pub fn inner_rust_to_tokens(rust_code: &str, html_context: &str) -> (r: Result<String, String>)
    ensures
        is_blank(rust_code@) ==> (r matches Ok(code) && code@ == empty_literal()),
        !is_blank(rust_code@) ==> match r {
            Ok(code) => code@ == rust_code@,
            Err(m) => exists|lexer_message: Seq<char>|
                m@ == context_message(tokens_prefix(), lexer_message, rust_code@, html_context@),
        },
{
    if blank(rust_code) {
        return hole_code(rust_code, html_context, None);
    }
    hole_code(rust_code, html_context, token_error(rust_code))
}

/// Decides what a hole's code is, given the parser's verdicts on it:
/// whether it is one identifier (`None`, else the parser's message), one
/// literal, one expression, tried in this order. Where it is none of them,
/// the diagnostic keeps the identifier parser's message and shows the hole
/// in its place.
pub fn classify_expression(
    code: &str,
    html_context: &str,
    ident_error: Option<String>,
    is_literal: bool,
    is_expr: bool,
) -> (r: Result<ExprKind, String>)
    ensures
        ident_error is None ==> r == Ok::<_, String>(ExprKind::Identifier),
        ident_error is Some && is_literal ==> r == Ok::<_, String>(ExprKind::Literal),
        ident_error is Some && !is_literal && is_expr ==> r == Ok::<_, String>(
            ExprKind::Expression,
        ),
        ident_error is Some && !is_literal && !is_expr ==> (r matches Err(m) && m@
            == context_message(invalid_expression_prefix(), ident_error->0@, code@, html_context@)),
{
    match ident_error {
        None => Ok(ExprKind::Identifier),
        Some(message) => if is_literal {
            Ok(ExprKind::Literal)
        } else if is_expr {
            Ok(ExprKind::Expression)
        } else {
            Err(
                wrap_rust_compile_error(
                    "template input is not a valid identifer/expression/literal: ",
                    message.as_str(),
                    code,
                    html_context,
                ),
            )
        },
    }
}

/// Accepts a hole's code as an identifier, a literal or an expression, or
/// returns the diagnostic that shows where it stands in the template.
pub fn validate_inner_rust(code: &str, html_context: &str) -> (r: Result<ExprKind, String>)
    ensures
        r matches Err(m) ==> exists|parser_message: Seq<char>|
            m@ == context_message(invalid_expression_prefix(), parser_message, code@, html_context@),
{
    let ident = ident_error(code);
    if ident.is_none() {
        return classify_expression(code, html_context, ident, false, false);
    }
    let is_literal = literal_parses(code);
    if is_literal {
        return classify_expression(code, html_context, ident, true, false);
    }
    classify_expression(code, html_context, ident, false, expr_parses(code))
}

/// The longest tail of the literal context that a diagnostic shows.
pub const HTML_INFO_MAX: usize = 20;

/// The tail of the literal context shown in a diagnostic, marked when cut.
pub open spec fn context_window(html: Seq<char>) -> Seq<char> {
    if html.len() <= HTML_INFO_MAX {
        html
    } else {
        seq!['.', '.', '.', ' '] + html.subrange(html.len() - HTML_INFO_MAX, html.len() as int)
    }
}

/// A diagnostic: the message of the Rust lexer or parser, then a line that
/// shows the hole in its place, `'<context>{<code>}'`, and the complaint.
pub open spec fn context_message(
    prefix: Seq<char>,
    parser_message: Seq<char>,
    code: Seq<char>,
    html: Seq<char>,
) -> Seq<char> {
    parser_message + seq!['\n', '\''] + context_window(html) + seq!['{'] + code + seq![
        '}',
        '\'',
        ' ',
        '<',
        '-',
        ' ',
        ' ',
    ] + prefix
}

/// Builds the diagnostic for a hole: the parser's own message, then the end
/// of the literal text before the hole, the hole's code, and the complaint
/// `prefix`.
pub fn wrap_rust_compile_error(
    prefix: &str,
    parser_message: &str,
    rust_code: &str,
    html_code: &str,
) -> (r: String)
    ensures
        r@ == context_message(prefix@, parser_message@, rust_code@, html_code@),
{
    let html = chars_of(html_code);
    let mut message = String::new();
    message.append(parser_message);
    message.append("\n'");
    if html.len() <= HTML_INFO_MAX {
        push_range(&mut message, &html, 0, html.len());
    } else {
        message.append("... ");
        push_range(&mut message, &html, html.len() - HTML_INFO_MAX, html.len());
    }
    message.append("{");
    message.append(rust_code);
    message.append("}' <-  ");
    message.append(prefix);
    proof {
        reveal_strlit("\n'");
        reveal_strlit("... ");
        reveal_strlit("{");
        reveal_strlit("}' <-  ");
        assert(html@.subrange(0, html@.len() as int) =~= html@);
    }
    assert(message@ =~= context_message(prefix@, parser_message@, rust_code@, html_code@));
    message
}

} // verus!
