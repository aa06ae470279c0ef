use vstd::prelude::*;

use crate::escape::decimal;
use crate::expr::{
    context_message, inner_rust_to_tokens, invalid_expression_prefix, slot_code, tokens_prefix,
    validate_inner_rust, ExprKind,
};
use crate::html::{compile_check_html, fragment_parse_errors, html_accepted, structure_message};
use crate::lexer::{lemma_segments_one_more_than_slots, lex, lex_spec, LexError};
use crate::template::{spliced, Template};
use crate::text::{is_blank, trim_lines, trim_whitespace_per_line};

verus! {

/// Why a template source does not compile.
#[derive(Debug, Clone, PartialEq, Eq)]
pub enum CompileError {
    /// The brackets are malformed.
    Lex(LexError),
    /// A hole is not one identifier, literal or expression.
    Expression(String),
    /// The HTML skeleton is invalid in every accepted setting.
    Structure(String),
}

impl CompileError {
    /// The human-readable diagnostic.
    pub fn message(&self) -> (r: String)
        ensures
            r@ == match self {
                CompileError::Lex(e) => match e {
                    LexError::UnexpectedClose => "Unexpected close bracket '}', need an open bracket first (or '}}' to escape)"@,
                    LexError::MissingClose => "Missing close bracket '}'"@,
                },
                CompileError::Expression(m) => m@,
                CompileError::Structure(m) => m@,
            },
    {
        match self {
            CompileError::Lex(e) => e.message().to_owned(),
            CompileError::Expression(m) => m.clone(),
            CompileError::Structure(m) => m.clone(),
        }
    }
}

/// A validated hole: the code bound to it and what that code is.
#[derive(Debug, Clone, PartialEq, Eq)]
pub struct Slot {
    pub code: String,
    pub kind: ExprKind,
}

/// The compiled form of a template source: each literal segment with the
/// hole that follows it, then the literal tail.
#[derive(Debug, Clone, PartialEq, Eq)]
pub struct CompiledTemplate {
    pub parts: Vec<(String, Slot)>,
    pub tail: String,
}

impl View for CompiledTemplate {
    type V = (Seq<(Seq<char>, Seq<char>, ExprKind)>, Seq<char>);

    open spec fn view(&self) -> (Seq<(Seq<char>, Seq<char>, ExprKind)>, Seq<char>) {
        (self.parts@.map_values(|p: (String, Slot)| (p.0@, p.1.code@, p.1.kind)), self.tail@)
    }
}

/// Whether `m` is a diagnostic for hole `j`: the lexer's or parser's
/// message, then the hole's code after the end of the literal before it,
/// with the complaint that fits.
pub open spec fn hole_diagnostic(
    m: Seq<char>,
    segments: Seq<Seq<char>>,
    slots: Seq<Seq<char>>,
    j: int,
) -> bool {
    (exists|p: Seq<char>|
        m == context_message(invalid_expression_prefix(), p, slot_code(slots[j]), segments[j])) || (
    !is_blank(slots[j]) && exists|p: Seq<char>|
        m == context_message(tokens_prefix(), p, slots[j], segments[j]))
}

/// The literal segments joined, holes left out.
pub open spec fn concat(segments: Seq<Seq<char>>) -> Seq<char>
    decreases segments.len(),
{
    if segments.len() == 0 {
        Seq::empty()
    } else {
        concat(segments.drop_last()) + segments.last()
    }
}

/// The HTML skeleton that the structural check reads.
pub open spec fn skeleton(segments: Seq<Seq<char>>) -> Seq<char> {
    trim_lines(concat(segments))
}

/// Whether `m` is the diagnostic of one of the holes.
pub open spec fn some_hole_diagnostic(m: Seq<char>, segments: Seq<Seq<char>>, slots: Seq<Seq<char>>) -> bool {
    exists|j: int| 0 <= j < slots.len() && #[trigger] hole_diagnostic(m, segments, slots, j)
}

/// What compiling `source` may give. A bracket error comes first and is
/// exact. Otherwise the compiled form keeps every segment, the tail and
/// each hole's code exactly, and exists only where the HTML skeleton is
/// accepted; an expression error is the diagnostic of one of the holes; a
/// structural error comes only where no setting accepts the skeleton, with
/// its exact message. Whether a hole's code is Rust is the Rust parser's
/// answer in the process that runs, so it is not fixed here.
pub open spec fn compile_outcome(source: Seq<char>, r: Result<CompiledTemplate, CompileError>) -> bool {
    match lex_spec(source) {
        Err(e) => r == Err::<CompiledTemplate, _>(CompileError::Lex(e)),
        Ok((segments, slots)) => match r {
            Ok(c) => html_accepted(skeleton(segments)) && c@.0.len() == slots.len() && c@.1
                == segments.last() && forall|i: int|
                0 <= i < slots.len() ==> (#[trigger] c@.0[i]).0 == segments[i] && c@.0[i].1
                    == slot_code(slots[i]),
            Err(CompileError::Lex(_)) => false,
            Err(CompileError::Expression(m)) => some_hole_diagnostic(m@, segments, slots),
            Err(CompileError::Structure(m)) => !html_accepted(skeleton(segments)) && m@
                == structure_message(
                skeleton(segments),
                fragment_parse_errors(skeleton(segments)),
                decimal(fragment_parse_errors(skeleton(segments)).len()),
            ),
        },
    }
}

/// Compiles a template source: splits it into literal segments and holes,
/// checks every hole, in order, then the HTML skeleton, and pairs each
/// segment with the hole after it.
pub fn compile(source: &str) -> (r: Result<CompiledTemplate, CompileError>)
    ensures
        compile_outcome(source@, r),
{
    let lexed = match lex(source) {
        Ok(l) => l,
        Err(e) => return Err(CompileError::Lex(e)),
    };
    proof {
        lemma_segments_one_more_than_slots(source@);
    }
    let ghost segs = lexed@.0;
    let ghost slots = lexed@.1;
    let n = lexed.slots.len();
    let mut parts: Vec<(String, Slot)> = Vec::new();
    let mut i: usize = 0;
    while i < n
        invariant
            n == slots.len(),
            segs.len() == n + 1,
            lexed@ == (segs, slots),
            lex_spec(source@) == Ok::<_, LexError>((segs, slots)),
            i <= n,
            parts@.len() == i,
            forall|k: int|
                0 <= k < i ==> (#[trigger] parts@[k]).0@ == segs[k] && parts@[k].1.code@
                    == slot_code(slots[k]),
        decreases n - i,
    {
        let code = match inner_rust_to_tokens(lexed.slots[i].as_str(), lexed.segments[i].as_str()) {
            Ok(code) => code,
            Err(m) => {
                proof {
                    assert(lexed.segments@[i as int]@ == segs[i as int]);
                    assert(lexed.slots@[i as int]@ == slots[i as int]);
                    let p = choose|p: Seq<char>|
                        m@ == context_message(
                            tokens_prefix(),
                            p,
                            lexed.slots@[i as int]@,
                            lexed.segments@[i as int]@,
                        );
                    assert(m@ == context_message(
                        tokens_prefix(),
                        p,
                        slots[i as int],
                        segs[i as int],
                    ));
                }
                assert(hole_diagnostic(m@, segs, slots, i as int));
                return Err(CompileError::Expression(m));
            },
        };
        let kind = match validate_inner_rust(code.as_str(), lexed.segments[i].as_str()) {
            Ok(kind) => kind,
            Err(m) => {
                proof {
                    assert(lexed.segments@[i as int]@ == segs[i as int]);
                    assert(code@ == slot_code(slots[i as int]));
                    let p = choose|p: Seq<char>|
                        m@ == context_message(
                            invalid_expression_prefix(),
                            p,
                            code@,
                            lexed.segments@[i as int]@,
                        );
                    assert(m@ == context_message(
                        invalid_expression_prefix(),
                        p,
                        slot_code(slots[i as int]),
                        segs[i as int],
                    ));
                }
                assert(hole_diagnostic(m@, segs, slots, i as int));
                return Err(CompileError::Expression(m));
            },
        };
        parts.push((lexed.segments[i].clone(), Slot { code, kind }));
        i = i + 1;
    }
    let mut joined = String::new();
    let mut k: usize = 0;
    while k < lexed.segments.len()
        invariant
            lexed@ == (segs, slots),
            k <= segs.len(),
            joined@ == concat(segs.take(k as int)),
        decreases segs.len() - k,
    {
        joined.append(lexed.segments[k].as_str());
        assert(segs.take(k + 1).drop_last() =~= segs.take(k as int));
        k = k + 1;
    }
    assert(segs.take(k as int) =~= segs);
    let skeleton_text = trim_whitespace_per_line(joined.as_str());
    if let Err(m) = compile_check_html(skeleton_text.as_str()) {
        return Err(CompileError::Structure(m));
    }
    let tail = lexed.segments[n].clone();
    let out = CompiledTemplate { parts, tail };
    Ok(out)
}

impl CompiledTemplate {
    /// The number of holes.
    pub fn slot_count(&self) -> (r: usize)
        ensures
            r == self.parts@.len(),
    {
        self.parts.len()
    }

    /// Binds the rendered value of each hole, in order, and gives the
    /// composed template: each literal segment followed by the text of the
    /// value bound to its hole, trimmed of white space at both ends, then
    /// the tail.
    pub fn resolve(&self, values: Vec<Template>) -> (t: Template)
        requires
            values@.len() == self.parts@.len(),
        ensures
            t.text() == spliced(
                Seq::new(values@.len(), |i: int| (self.parts@[i].0@, values@[i].text())),
            ) + self.tail@,
    {
        let mut literals: Vec<String> = Vec::new();
        let mut i: usize = 0;
        while i < self.parts.len()
            invariant
                i <= self.parts@.len(),
                literals@.len() == i,
                forall|j: int| 0 <= j < i ==> #[trigger] literals@[j]@ == self.parts@[j].0@,
            decreases self.parts@.len() - i,
        {
            literals.push(self.parts[i].0.clone());
            i = i + 1;
        }
        let t = Template::bind(&literals, &values, self.tail.as_str());
        assert(Seq::new(values@.len(), |i: int| (literals@[i]@, values@[i].text())) =~= Seq::new(
            values@.len(),
            |i: int| (self.parts@[i].0@, values@[i].text()),
        ));
        t
    }
}

} // verus!
