use vstd::prelude::*;

use crate::escape::{decimal, unsigned_text};
use crate::text::chars_of;

verus! {

/// The parse errors that `scraper` reports for `html` read as a fragment of a `<body>`.
pub uninterp spec fn fragment_parse_errors(html: Seq<char>) -> Seq<Seq<char>>;

/// The parse errors that `scraper` reports for `html` read as a whole document.
pub uninterp spec fn document_parse_errors(html: Seq<char>) -> Seq<Seq<char>>;

/// The parse errors that `html5ever` reports for `html` read as a fragment
/// inside an element named `context`.
pub uninterp spec fn context_parse_errors(context: Seq<char>, html: Seq<char>) -> Seq<Seq<char>>;

/// The views of a list of messages.
pub open spec fn messages(v: Seq<String>) -> Seq<Seq<char>> {
    v.map_values(|e: String| e@)
}

/// Relies on `scraper::Html::parse_fragment`: the errors that parsing
/// collected, in the order they were met.
#[verifier::external_body]
fn fragment_errors(html: &str) -> (r: Vec<String>)
    ensures
        messages(r@) == fragment_parse_errors(html@),
{
    scraper::Html::parse_fragment(html).errors.into_iter().map(|e| e.into_owned()).collect()
}

/// Relies on `scraper::Html::parse_document`: the errors that parsing
/// collected, in the order they were met.
#[verifier::external_body]
fn document_errors(html: &str) -> (r: Vec<String>)
    ensures
        messages(r@) == document_parse_errors(html@),
{
    scraper::Html::parse_document(html).errors.into_iter().map(|e| e.into_owned()).collect()
}

/// Relies on `html5ever::driver::parse_fragment` (into a `scraper` tree,
/// with exact errors, scripting and quirks mode on): the errors that
/// parsing `fragment` inside an HTML element named `context` collected.
#[verifier::external_body]
fn context_errors(context: &str, fragment: &str) -> (r: Vec<String>)
    ensures
        messages(r@) == context_parse_errors(context@, fragment@),
{
    let mut opts = html5ever::ParseOpts::default();
    opts.tokenizer.exact_errors = true;
    opts.tree_builder.exact_errors = true;
    opts.tree_builder.quirks_mode = html5ever::tree_builder::QuirksMode::Quirks;
    let ns = html5ever::Namespace::from("http://www.w3.org/1999/xhtml");
    let name = html5ever::QualName::new(None, ns, html5ever::LocalName::from(context));
    let sink = scraper::HtmlTreeSink::new(scraper::Html::new_fragment());
    let parser = html5ever::driver::parse_fragment(sink, opts, name, Vec::new(), true);
    let html = tendril::TendrilSink::one(parser, fragment);
    html.errors.into_iter().map(|e| e.into_owned()).collect()
}

/// Parses `fragment` as the content of an element named `context`; `Ok`
/// when the parser met no error, else the errors it met.
pub fn fragment_inside(context: &str, fragment: &str) -> (r: Result<(), Vec<String>>)
    ensures
        match r {
            Ok(()) => context_parse_errors(context@, fragment@).len() == 0,
            Err(errors) => errors@.len() > 0 && messages(errors@) == context_parse_errors(
                context@,
                fragment@,
            ),
        },
{
    let errors = context_errors(context, fragment);
    if errors.len() == 0 {
        Ok(())
    } else {
        Err(errors)
    }
}

/// Whether `html` is structurally valid in one of the accepted settings: as
/// a fragment of a body, as a whole document, or as the content of an
/// `<html>`, a `<table>` or a `<tr>` element.
pub open spec fn html_accepted(html: Seq<char>) -> bool {
    ||| fragment_parse_errors(html).len() == 0
    ||| document_parse_errors(html).len() == 0
    ||| context_parse_errors("html"@, html).len() == 0
    ||| context_parse_errors("table"@, html).len() == 0
    ||| context_parse_errors("tr"@, html).len() == 0
}

/// Checks the HTML skeleton in each accepted setting in turn and accepts it
/// on the first that reports no error; otherwise returns the errors of the
/// body-fragment reading.
pub fn validate_html(html: &str) -> (r: Result<(), Vec<String>>)
    ensures
        r is Ok <==> html_accepted(html@),
        r matches Err(errors) ==> messages(errors@) == fragment_parse_errors(html@),
{
    let fragment = fragment_errors(html);
    if fragment.len() == 0 {
        return Ok(());
    }
    if document_errors(html).len() == 0 {
        return Ok(());
    }
    if fragment_inside("html", html).is_ok() {
        return Ok(());
    }
    if fragment_inside("table", html).is_ok() {
        return Ok(());
    }
    if fragment_inside("tr", html).is_ok() {
        return Ok(());
    }
    Err(fragment)
}

/// Whether `t` occurs in `s`.
pub open spec fn occurs_in(t: Seq<char>, s: Seq<char>) -> bool {
    exists|i: int| 0 <= i && i + t.len() <= s.len() && #[trigger] s.subrange(i, i + t.len()) == t
}

fn matches_at(s: &Vec<char>, t: &Vec<char>, i: usize) -> (r: bool)
    requires
        i + t@.len() <= s@.len(),
    ensures
        r == (s@.subrange(i as int, i + t@.len()) == t@),
{
    let n = s.len();
    let mut j: usize = 0;
    while j < t.len()
        invariant
            n == s@.len(),
            i + t@.len() <= s@.len(),
            j <= t@.len(),
            forall|m: int| 0 <= m < j ==> s@[i + m] == t@[m],
        decreases t@.len() - j,
    {
        if s[i + j] != t[j] {
            assert(s@.subrange(i as int, i + t@.len())[j as int] != t@[j as int]);
            return false;
        }
        j = j + 1;
    }
    assert(s@.subrange(i as int, i + t@.len()) =~= t@);
    true
}

/// Whether `t` occurs in `s`.
pub fn contains(s: &str, t: &str) -> (r: bool)
    ensures
        r == occurs_in(t@, s@),
{
    let sc = chars_of(s);
    let tc = chars_of(t);
    if tc.len() > sc.len() {
        return false;
    }
    let last = sc.len() - tc.len();
    let mut i: usize = 0;
    loop
        invariant
            sc@ == s@,
            tc@ == t@,
            last == sc@.len() - tc@.len(),
            i <= last,
            forall|k: int| 0 <= k < i ==> #[trigger] s@.subrange(k, k + t@.len()) != t@,
        decreases last - i,
    {
        if matches_at(&sc, &tc, i) {
            return true;
        }
        if i == last {
            proof {
                assert forall|k: int| 0 <= k && k + t@.len() <= s@.len() implies #[trigger] s@.subrange(
                    k,
                    k + t@.len(),
                ) != t@ by {
                    assert(k <= i);
                };
            }
            return false;
        }
        i = i + 1;
    }
}

/// The error that html5ever reports for a `</html>` met with no `<body>` open.
pub open spec fn html_without_body() -> Seq<char> {
    "</html> with no <body> in scope"@
}

/// The line put before the errors where a root `<html>` lacks a document type.
pub open spec fn doctype_hint() -> Seq<char> {
    "<!DOCTYPE html> is required for root html"@
}

/// Whether the errors of `html` come from a root `<html>` element written
/// without a document type declaration.
pub open spec fn needs_doctype(html: Seq<char>, errors: Seq<Seq<char>>) -> bool {
    errors.len() > 0 && errors.last() == html_without_body() && occurs_in("<html>"@, html)
}

/// The messages joined, with `,` and a line break between two of them.
pub open spec fn joined(errors: Seq<Seq<char>>) -> Seq<char>
    decreases errors.len(),
{
    if errors.len() == 0 {
        Seq::empty()
    } else if errors.len() == 1 {
        errors[0]
    } else {
        joined(errors.drop_last()) + seq![',', '\n'] + errors.last()
    }
}

/// The structural diagnostic: the number of issues, then the hint where it
/// applies, then the errors.
pub open spec fn structure_message(html: Seq<char>, errors: Seq<Seq<char>>, count: Seq<char>) -> Seq<char> {
    "invalid HTML syntax ("@ + count + " issues):\n"@ + if needs_doctype(html, errors) {
        doctype_hint() + seq![',', '\n'] + joined(errors)
    } else {
        joined(errors)
    }
}

/// Whether two texts are equal, character by character.
pub fn same_text(a: &str, b: &str) -> (r: bool)
    ensures
        r == (a@ == b@),
{
    let ac = chars_of(a);
    let bc = chars_of(b);
    if ac.len() != bc.len() {
        return false;
    }
    let r = matches_at(&ac, &bc, 0);
    assert(a@.subrange(0, b@.len() as int) =~= a@);
    r
}

/// The messages joined, with `,` and a line break between two of them.
pub fn join_errors(errors: &Vec<String>) -> (r: String)
    ensures
        r@ == joined(messages(errors@)),
{
    let mut out = String::new();
    let mut i: usize = 0;
    while i < errors.len()
        invariant
            i <= errors@.len(),
            out@ == joined(messages(errors@.take(i as int))),
        decreases errors@.len() - i,
    {
        if i > 0 {
            out.append(",\n");
        }
        out.append(errors[i].as_str());
        proof {
            reveal_strlit(",\n");
            let now = messages(errors@.take(i + 1));
            assert(now.drop_last() =~= messages(errors@.take(i as int)));
            assert(now.last() == errors@[i as int]@);
            if i == 0 {
                assert(now =~= seq![errors@[0]@]);
            }
        }
        i = i + 1;
    }
    assert(errors@.take(i as int) =~= errors@);
    out
}

/// The structural diagnostic for `html`, given the errors of its
/// body-fragment reading.
pub fn html_error_message(html: &str, errors: &Vec<String>) -> (r: String)
    ensures
        r@ == structure_message(html@, messages(errors@), decimal(errors@.len() as nat)),
{
    let mut out = String::new();
    out.append("invalid HTML syntax (");
    out.append(unsigned_text(errors.len() as u64).as_str());
    out.append(" issues):\n");
    let n = errors.len();
    let hint = n > 0 && same_text(errors[n - 1].as_str(), "</html> with no <body> in scope")
        && contains(html, "<html>");
    if hint {
        out.append("<!DOCTYPE html> is required for root html");
        out.append(",\n");
    }
    out.append(join_errors(errors).as_str());
    proof {
        reveal_strlit(",\n");
        assert(n > 0 ==> messages(errors@).last() == errors@[n - 1]@);
        assert(hint == needs_doctype(html@, messages(errors@)));
    }
    assert(out@ =~= structure_message(html@, messages(errors@), decimal(errors@.len() as nat)));
    out
}

/// Checks the HTML skeleton of a template; on failure the diagnostic gives
/// the number of issues found in the body-fragment reading and lists them.
pub fn compile_check_html(html: &str) -> (r: Result<(), String>)
    ensures
        r is Ok <==> html_accepted(html@),
        r matches Err(message) ==> message@ == structure_message(
            html@,
            fragment_parse_errors(html@),
            decimal(fragment_parse_errors(html@).len()),
        ),
{
    match validate_html(html) {
        Ok(()) => Ok(()),
        Err(errors) => Err(html_error_message(html, &errors)),
    }
}

} // verus!
