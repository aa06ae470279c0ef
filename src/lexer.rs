use vstd::prelude::*;

use crate::text::{chars_of, push_char};

verus! {

/// A malformed bracket structure in a template source.
#[derive(Debug, Clone, Copy, PartialEq, Eq, Structural)]
pub enum LexError {
    /// A `}` outside any hole that is not doubled.
    UnexpectedClose,
    /// The source ends inside a hole.
    MissingClose,
}

impl LexError {
    /// The human-readable diagnostic of this error.
    pub fn message(&self) -> (r: &'static str)
        ensures
            r@ == match self {
                LexError::UnexpectedClose => "Unexpected close bracket '}', need an open bracket first (or '}}' to escape)"@,
                LexError::MissingClose => "Missing close bracket '}'"@,
            },
    {
        match self {
            LexError::UnexpectedClose => "Unexpected close bracket '}', need an open bracket first (or '}}' to escape)",
            LexError::MissingClose => "Missing close bracket '}'",
        }
    }
}

/// A template source split into literal segments and the source texts of
/// the holes between them.
#[derive(Debug, Clone, PartialEq, Eq)]
pub struct Lexed {
    pub segments: Vec<String>,
    pub slots: Vec<String>,
}

impl View for Lexed {
    type V = (Seq<Seq<char>>, Seq<Seq<char>>);

    open spec fn view(&self) -> (Seq<Seq<char>>, Seq<Seq<char>>) {
        (
            self.segments@.map_values(|x: String| x@),
            self.slots@.map_values(|x: String| x@),
        )
    }
}

/// Where the scan of a source stands: the brace depth, the literal and
/// hole texts being collected, and the segments and holes completed so far.
pub struct LexState {
    pub depth: nat,
    pub literal: Seq<char>,
    pub code: Seq<char>,
    pub segments: Seq<Seq<char>>,
    pub slots: Seq<Seq<char>>,
}

/// The outcome of scanning a source to its end.
pub enum Scan {
    Done(LexState),
    Fail(LexError),
}

pub open spec fn initial_state() -> LexState {
    LexState {
        depth: 0,
        literal: Seq::empty(),
        code: Seq::empty(),
        segments: Seq::empty(),
        slots: Seq::empty(),
    }
}

/// One step of the scan at position `i` of `s`, in state `st`: whether it
/// consumes two characters, and the state after it; `None` where the
/// character at `i` is a `}` that closes nothing.
/// Outside holes, `{{` and `}}` stand for one brace; any other `{` opens a
/// hole, and a `}` there is an error. Inside a hole, braces nest and are
/// kept as they are, but the `}` that brings the depth back to zero closes it.
pub open spec fn step(s: Seq<char>, i: nat, st: LexState) -> Option<(bool, LexState)> {
    let c = s[i as int];
    let paired = i + 1 < s.len() && s[i + 1int] == c;
    if st.depth == 0 && (c == '{' || c == '}') && paired {
        Some((true, LexState { literal: st.literal.push(c), ..st }))
    } else if c == '{' {
        if st.depth == 0 {
            Some(
                (
                    false,
                    LexState {
                        depth: 1,
                        literal: Seq::empty(),
                        segments: st.segments.push(st.literal),
                        ..st
                    },
                ),
            )
        } else {
            Some((false, LexState { depth: st.depth + 1, code: st.code.push(c), ..st }))
        }
    } else if c == '}' {
        if st.depth == 0 {
            None
        } else if st.depth == 1 {
            Some(
                (
                    false,
                    LexState { depth: 0, code: Seq::empty(), slots: st.slots.push(st.code), ..st },
                ),
            )
        } else {
            Some((false, LexState { depth: (st.depth - 1) as nat, code: st.code.push(c), ..st }))
        }
    } else if st.depth == 0 {
        Some((false, LexState { literal: st.literal.push(c), ..st }))
    } else {
        Some((false, LexState { code: st.code.push(c), ..st }))
    }
}

/// Scans `s` from position `i` on, in state `st`, step by step to its end.
pub open spec fn scan(s: Seq<char>, i: nat, st: LexState) -> Scan
    decreases s.len() - i,
{
    if i >= s.len() {
        Scan::Done(st)
    } else {
        match step(s, i, st) {
            None => Scan::Fail(LexError::UnexpectedClose),
            Some((two, next)) => scan(
                s,
                i + if two {
                    2nat
                } else {
                    1nat
                },
                next,
            ),
        }
    }
}

/// The literal segments and hole texts of `s`, or the error in its brackets.
/// The last literal run is the final segment, so that every hole stands
/// between two segments.
pub open spec fn lex_spec(s: Seq<char>) -> Result<(Seq<Seq<char>>, Seq<Seq<char>>), LexError> {
    match scan(s, 0, initial_state()) {
        Scan::Fail(e) => Err(e),
        Scan::Done(st) => if st.depth > 0 {
            Err(LexError::MissingClose)
        } else {
            Ok((st.segments.push(st.literal), st.slots))
        },
    }
}

spec fn state_of(
    depth: usize,
    literal: String,
    code: String,
    segments: Seq<String>,
    slots: Seq<String>,
) -> LexState {
    LexState {
        depth: depth as nat,
        literal: literal@,
        code: code@,
        segments: segments.map_values(|x: String| x@),
        slots: slots.map_values(|x: String| x@),
    }
}

/// Splits a template source into its literal segments and hole texts.
pub fn lex(source: &str) -> (r: Result<Lexed, LexError>)
    ensures
        match r {
            Ok(l) => lex_spec(source@) == Ok::<_, LexError>(l@),
            Err(e) => lex_spec(source@) == Err::<(Seq<Seq<char>>, Seq<Seq<char>>), _>(e),
        },
{
    let chars = chars_of(source);
    let n = chars.len();
    let mut depth: usize = 0;
    let mut literal = String::new();
    let mut code = String::new();
    let mut segments: Vec<String> = Vec::new();
    let mut slots: Vec<String> = Vec::new();
    let mut i: usize = 0;
    proof {
        let st = state_of(depth, literal, code, segments@, slots@);
        assert(st.segments =~= Seq::empty());
        assert(st.slots =~= Seq::empty());
        assert(st == initial_state());
    }
    while i < n
        invariant
            n == chars@.len(),
            chars@ == source@,
            i <= n,
            depth <= i,
            scan(source@, 0, initial_state()) == scan(
                source@,
                i as nat,
                state_of(depth, literal, code, segments@, slots@),
            ),
        decreases n - i,
    {
        let ghost before = state_of(depth, literal, code, segments@, slots@);
        let c = chars[i];
        let paired = i + 1 < n && chars[i + 1] == c;
        if depth == 0 && (c == '{' || c == '}') && paired {
            push_char(&mut literal, c);
            i = i + 2;
        } else if c == '{' {
            if depth == 0 {
                segments.push(literal);
                literal = String::new();
            } else {
                push_char(&mut code, c);
            }
            depth = depth + 1;
            i = i + 1;
        } else if c == '}' {
            if depth == 0 {
                return Err(LexError::UnexpectedClose);
            } else if depth == 1 {
                slots.push(code);
                code = String::new();
            } else {
                push_char(&mut code, c);
            }
            depth = depth - 1;
            i = i + 1;
        } else {
            if depth == 0 {
                push_char(&mut literal, c);
            } else {
                push_char(&mut code, c);
            }
            i = i + 1;
        }
        proof {
            let after = state_of(depth, literal, code, segments@, slots@);
            assert(after.segments =~= before.segments || after.segments =~= before.segments.push(
                before.literal,
            ));
            assert(after.slots =~= before.slots || after.slots =~= before.slots.push(before.code));
        }
    }
    if depth > 0 {
        return Err(LexError::MissingClose);
    }
    let ghost fin = state_of(depth, literal, code, segments@, slots@);
    segments.push(literal);
    let out = Lexed { segments, slots };
    proof {
        assert(out@.0 =~= fin.segments.push(fin.literal));
        assert(out@.1 =~= fin.slots);
    }
    Ok(out)
}

spec fn counts_match(st: LexState) -> bool {
    if st.depth == 0 {
        st.segments.len() == st.slots.len()
    } else {
        st.segments.len() == st.slots.len() + 1
    }
}

proof fn lemma_scan_counts(s: Seq<char>, i: nat, st: LexState)
    requires
        counts_match(st),
    ensures
        scan(s, i, st) matches Scan::Done(fin) ==> counts_match(fin),
    decreases s.len() - i,
{
    if i < s.len() {
        if let Some((two, next)) = step(s, i, st) {
            lemma_scan_counts(
                s,
                i + if two {
                    2nat
                } else {
                    1nat
                },
                next,
            );
        }
    }
}

/// A source that lexes has exactly one literal segment more than it has
/// holes: every hole stands between two segments, possibly empty ones.
pub proof fn lemma_segments_one_more_than_slots(s: Seq<char>)
    ensures
        lex_spec(s) matches Ok((segments, slots)) ==> segments.len() == slots.len() + 1,
{
    lemma_scan_counts(s, 0, initial_state());
}

proof fn lemma_scan_prefix(p: Seq<char>, x: Seq<char>, i: nat, st: LexState)
    requires
        i <= p.len(),
    ensures
        match scan(p, i, st) {
            Scan::Done(fin) => fin.depth == 0 ==> scan(p + x, i, st) == scan(p + x, p.len(), fin),
            Scan::Fail(_) => true,
        },
    decreases p.len() - i,
{
    let s = p + x;
    if i < p.len() {
        assert(s[i as int] == p[i as int]);
        if i + 1 < p.len() {
            assert(s[i + 1int] == p[i + 1int]);
            assert(step(s, i, st) == step(p, i, st));
        } else {
            let c = p[i as int];
            if st.depth == 0 && (c == '{' || c == '}') {
                // A lone brace at the end of `p` opens a hole that stays open,
                // or closes nothing: either way `p` does not end at depth 0.
                if c == '{' {
                    if let Some((two, next)) = step(p, i, st) {
                        assert(!two);
                        assert(scan(p, i + 1, next) == Scan::Done(next)) by {
                            assert(i + 1 >= p.len());
                        };
                    }
                }
            } else {
                assert(step(s, i, st) == step(p, i, st));
            }
        }
        if let Some((two, next)) = step(p, i, st) {
            lemma_scan_prefix(
                p,
                x,
                i + if two {
                    2nat
                } else {
                    1nat
                },
                next,
            );
        }
    }
}

/// A `}` met outside every hole, where what precedes it lexes on its own
/// and the character after it (if any) is not another `}`, is an unmatched
/// closing bracket: lexing fails there, whatever follows.
pub proof fn lemma_unmatched_close(p: Seq<char>, r: Seq<char>)
    requires
        lex_spec(p) is Ok,
        r.len() == 0 || r[0] != '}',
    ensures
        lex_spec(p + seq!['}'] + r) == Err::<(Seq<Seq<char>>, Seq<Seq<char>>), _>(
            LexError::UnexpectedClose,
        ),
{
    let x = seq!['}'] + r;
    let s = p + x;
    assert(s =~= p + seq!['}'] + r);
    lemma_scan_prefix(p, x, 0, initial_state());
    if let Scan::Done(fin) = scan(p, 0, initial_state()) {
        assert(s[p.len() as int] == '}');
        if p.len() + 1 < s.len() {
            assert(s[p.len() + 1int] == r[0]);
        }
        assert(step(s, p.len(), fin) is None);
    }
}

} // verus!
