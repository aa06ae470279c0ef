use vstd::prelude::*;

use crate::escape::{decimal, encode_safe, html_escaped, signed_decimal, signed_text, unsigned_text};
use crate::text::{chars_of, push_char, trim, trimmed};
use std::sync::Arc;

verus! {

/// The content type of a rendered template sent as an HTTP response.
pub const HTML_CONTENT_TYPE: &'static str = "text/html; charset=utf-8";

/// An immutable piece of HTML output: either text that is already resolved
/// (escaped, or raw by explicit choice), or literal segments interleaved with
/// nested templates and followed by a literal tail.
#[derive(Debug, PartialEq, Eq)]
pub struct Template {
    content: Arc<TemplateContent>,
}

#[derive(Debug, PartialEq, Eq)]
enum TemplateContent {
    RawString(String),
    WithParameters { template_parts: Vec<(String, Template)>, template_end: String },
}

/// An ordered group of templates; it renders as their texts joined with no separator.
#[derive(Debug, Clone, PartialEq, Eq)]
pub struct TemplateGroup(pub Vec<Template>);

/// Content that is inserted as it is, without HTML escaping.
/// Never wrap untrusted input in it.
#[derive(Debug, Clone)]
pub struct Unescaped(pub String);

/// The capability of a value to be embedded in a template.
pub trait Render {
    /// The template that stands for this value.
    fn render(&self) -> Template;
}

impl Template {
    /// The text that this template flattens to.
    pub closed spec fn text(self) -> Seq<char>
        decreases self,
    {
        match *self.content {
            TemplateContent::RawString(s) => s@,
            TemplateContent::WithParameters { template_parts, template_end } => parts_text(
                template_parts@,
            ) + template_end@,
        }
    }

    /// Whether this template is made of the literal-and-template `parts`
    /// followed by the literal tail `end`.
    pub closed spec fn is_composed_of(self, parts: Seq<(String, Template)>, end: Seq<char>) -> bool {
        match *self.content {
            TemplateContent::WithParameters { template_parts, template_end } => template_parts@
                == parts && template_end@ == end,
            TemplateContent::RawString(_) => false,
        }
    }

    /// The template that holds `s` as resolved text.
    pub fn raw(s: String) -> (t: Template)
        ensures
            t.text() == s@,
    {
        Template { content: Arc::new(TemplateContent::RawString(s)) }
    }

    /// The template whose text is `s` with its HTML-significant characters escaped.
    pub fn escaped(s: &str) -> (t: Template)
        ensures
            t.text() == html_escaped(s@),
    {
        Template::raw(encode_safe(s))
    }

    /// The template made of literal segments, each followed by a nested
    /// template, and a final literal tail.
    pub fn from_parts(template_parts: Vec<(String, Template)>, template_end: String) -> (t: Template)
        ensures
            t.text() == parts_text(template_parts@) + template_end@,
            t.is_composed_of(template_parts@, template_end@),
    {
        Template {
            content: Arc::new(TemplateContent::WithParameters { template_parts, template_end }),
        }
    }

    /// Flattens the template into its text: nested templates are expanded in
    /// place, depth first and left to right, and nothing is escaped again.
    pub fn build(&self) -> (r: String)
        ensures
            r@ == self.text(),
        decreases self,
    {
        match &*self.content {
            TemplateContent::RawString(value) => value.clone(),
            TemplateContent::WithParameters { template_parts, template_end } => {
                let mut output = String::new();
                let mut i: usize = 0;
                while i < template_parts.len()
                    invariant
                        i <= template_parts@.len(),
                        *self.content is WithParameters,
                        self.content->template_parts == *template_parts,
                        output@ == parts_text(template_parts@.take(i as int)),
                    decreases template_parts@.len() - i,
                {
                    let part = &template_parts[i];
                    proof {
                        vstd::std_specs::vec::axiom_vec_index_decreases(*template_parts, i as int);
                        assert(decreases_to!(*self => part.1));
                    }
                    let nested = part.1.build();
                    output.append(part.0.as_str());
                    output.append(nested.as_str());
                    proof {
                        let next = template_parts@.take(i + 1);
                        assert(next.drop_last() =~= template_parts@.take(i as int));
                    }
                    i = i + 1;
                }
                assert(template_parts@.take(i as int) =~= template_parts@);
                output.append(template_end.as_str());
                output
            }
        }
    }
}

/// The text of a sequence of (literal, nested template) parts.
pub open spec fn parts_text(parts: Seq<(String, Template)>) -> Seq<char>
    decreases parts,
{
    if parts.len() == 0 {
        Seq::empty()
    } else {
        parts_text(parts.drop_last()) + parts.last().0@ + parts.last().1.text()
    }
}

/// The concatenated texts of a sequence of templates.
pub open spec fn group_text(templates: Seq<Template>) -> Seq<char>
    decreases templates.len(),
{
    if templates.len() == 0 {
        Seq::empty()
    } else {
        group_text(templates.drop_last()) + templates.last().text()
    }
}

/// Literal segments, each followed by the text bound to the slot after it
/// with white space trimmed from both its ends.
pub open spec fn spliced(parts: Seq<(Seq<char>, Seq<char>)>) -> Seq<char>
    decreases parts.len(),
{
    if parts.len() == 0 {
        Seq::empty()
    } else {
        spliced(parts.drop_last()) + parts.last().0 + trim(parts.last().1)
    }
}

/// The template holding `t`'s text with white space trimmed from both ends.
fn trimmed_template(t: &Template) -> (r: Template)
    ensures
        r.text() == trim(t.text()),
{
    let text = t.build();
    let chars = chars_of(text.as_str());
    let r = trimmed(&chars, 0, chars.len());
    assert(chars@.subrange(0, chars@.len() as int) =~= chars@);
    Template::raw(r)
}

impl Template {
    /// Builds a template from literal segments, each followed by the template
    /// bound to its slot, and the literal tail. A bound template's text is
    /// trimmed of white space at both ends where it is put in place, so that
    /// indentation around it does not pile up.
    pub fn build_internal(template_parts: Vec<(&'static str, Template)>, template_end: &'static str) -> (t: Template)
        ensures
            t.text() == spliced(
                Seq::new(
                    template_parts@.len(),
                    |i: int| (template_parts@[i].0@, template_parts@[i].1.text()),
                ),
            ) + template_end@,
    {
        let ghost bound = Seq::new(
            template_parts@.len(),
            |i: int| (template_parts@[i].0@, template_parts@[i].1.text()),
        );
        let mut parts: Vec<(String, Template)> = Vec::new();
        let mut i: usize = 0;
        while i < template_parts.len()
            invariant
                i <= template_parts@.len(),
                bound == Seq::new(
                    template_parts@.len(),
                    |i: int| (template_parts@[i].0@, template_parts@[i].1.text()),
                ),
                parts_text(parts@) == spliced(bound.take(i as int)),
            decreases template_parts@.len() - i,
        {
            let part = &template_parts[i];
            let ghost before = parts@;
            parts.push((part.0.to_owned(), trimmed_template(&part.1)));
            proof {
                assert(parts@.drop_last() =~= before);
                assert(bound.take(i + 1).drop_last() =~= bound.take(i as int));
            }
            i = i + 1;
        }
        assert(bound.take(i as int) =~= bound);
        Template::from_parts(parts, template_end.to_owned())
    }

    /// Builds a template from literal segments, each followed by the
    /// template bound to its slot, and the literal tail, trimming each bound
    /// text as `build_internal` does.
    pub fn bind(literals: &Vec<String>, values: &Vec<Template>, tail: &str) -> (t: Template)
        requires
            literals@.len() == values@.len(),
        ensures
            t.text() == spliced(
                Seq::new(values@.len(), |i: int| (literals@[i]@, values@[i].text())),
            ) + tail@,
    {
        let ghost bound = Seq::new(values@.len(), |i: int| (literals@[i]@, values@[i].text()));
        let mut parts: Vec<(String, Template)> = Vec::new();
        let mut i: usize = 0;
        while i < values.len()
            invariant
                i <= values@.len(),
                literals@.len() == values@.len(),
                bound == Seq::new(values@.len(), |i: int| (literals@[i]@, values@[i].text())),
                parts_text(parts@) == spliced(bound.take(i as int)),
            decreases values@.len() - i,
        {
            let ghost before = parts@;
            parts.push((literals[i].clone(), trimmed_template(&values[i])));
            proof {
                assert(parts@.drop_last() =~= before);
                assert(bound.take(i + 1).drop_last() =~= bound.take(i as int));
            }
            i = i + 1;
        }
        assert(bound.take(i as int) =~= bound);
        Template::from_parts(parts, tail.to_owned())
    }
}

impl Clone for Template {
    /// The same template; the content is shared, not copied.
    fn clone(&self) -> (r: Self)
        ensures
            r == *self,
    {
        Template { content: self.content.clone() }
    }
}

impl Render for Template {
    fn render(&self) -> (r: Template)
        ensures
            r == *self,
    {
        self.clone()
    }
}

impl Render for Unescaped {
    /// The content, verbatim.
    fn render(&self) -> (r: Template)
        ensures
            r.text() == self.0@,
    {
        Template::raw(self.0.clone())
    }
}

impl Render for TemplateGroup {
    /// The members' texts joined in order, with no separator.
    fn render(&self) -> (r: Template)
        ensures
            r.text() == group_text(self.0@),
    {
        let mut output = String::new();
        let mut i: usize = 0;
        while i < self.0.len()
            invariant
                i <= self.0@.len(),
                output@ == group_text(self.0@.take(i as int)),
            decreases self.0@.len() - i,
        {
            let text = self.0[i].build();
            output.append(text.as_str());
            assert(self.0@.take(i + 1).drop_last() =~= self.0@.take(i as int));
            i = i + 1;
        }
        assert(self.0@.take(i as int) =~= self.0@);
        Template::raw(output)
    }
}

impl Render for str {
    /// The text, HTML-escaped.
    fn render(&self) -> (r: Template)
        ensures
            r.text() == html_escaped(self@),
    {
        Template::escaped(self)
    }
}

impl<'a, T: Render + ?Sized> Render for &'a T {
    /// What the referenced value renders as.
    fn render(&self) -> (r: Template)
        ensures
            call_ensures(T::render, (*self,), r),
    {
        (**self).render()
    }
}

impl Render for String {
    /// The text, HTML-escaped.
    fn render(&self) -> (r: Template)
        ensures
            r.text() == html_escaped(self@),
    {
        Template::escaped(self.as_str())
    }
}

impl Render for bool {
    /// `true` or `false`.
    fn render(&self) -> (r: Template)
        ensures
            r.text() == html_escaped(
                if *self {
                    seq!['t', 'r', 'u', 'e']
                } else {
                    seq!['f', 'a', 'l', 's', 'e']
                },
            ),
    {
        let text = if *self {
            "true"
        } else {
            "false"
        };
        proof {
            reveal_strlit("true");
            reveal_strlit("false");
            if *self {
                assert(text@ =~= seq!['t', 'r', 'u', 'e']);
            } else {
                assert(text@ =~= seq!['f', 'a', 'l', 's', 'e']);
            }
        }
        Template::escaped(text)
    }
}

impl Render for char {
    /// The character, HTML-escaped.
    fn render(&self) -> (r: Template)
        ensures
            r.text() == html_escaped(seq![*self]),
    {
        let mut text = String::new();
        push_char(&mut text, *self);
        assert(text@ =~= seq![*self]);
        Template::escaped(text.as_str())
    }
}

impl Render for u64 {
    /// The decimal notation.
    fn render(&self) -> (r: Template)
        ensures
            r.text() == html_escaped(decimal(*self as nat)),
    {
        Template::escaped(unsigned_text(*self).as_str())
    }
}

impl Render for u32 {
    /// The decimal notation.
    fn render(&self) -> (r: Template)
        ensures
            r.text() == html_escaped(decimal(*self as nat)),
    {
        Template::escaped(unsigned_text(*self as u64).as_str())
    }
}

impl Render for u16 {
    /// The decimal notation.
    fn render(&self) -> (r: Template)
        ensures
            r.text() == html_escaped(decimal(*self as nat)),
    {
        Template::escaped(unsigned_text(*self as u64).as_str())
    }
}

impl Render for u8 {
    /// The decimal notation.
    fn render(&self) -> (r: Template)
        ensures
            r.text() == html_escaped(decimal(*self as nat)),
    {
        Template::escaped(unsigned_text(*self as u64).as_str())
    }
}

impl Render for usize {
    /// The decimal notation.
    fn render(&self) -> (r: Template)
        ensures
            r.text() == html_escaped(decimal(*self as nat)),
    {
        Template::escaped(unsigned_text(*self as u64).as_str())
    }
}

impl Render for i64 {
    /// The decimal notation, with a leading `-` when negative.
    fn render(&self) -> (r: Template)
        ensures
            r.text() == html_escaped(signed_decimal(*self as int)),
    {
        Template::escaped(signed_text(*self).as_str())
    }
}

impl Render for i32 {
    /// The decimal notation, with a leading `-` when negative.
    fn render(&self) -> (r: Template)
        ensures
            r.text() == html_escaped(signed_decimal(*self as int)),
    {
        Template::escaped(signed_text(*self as i64).as_str())
    }
}

impl Render for i16 {
    /// The decimal notation, with a leading `-` when negative.
    fn render(&self) -> (r: Template)
        ensures
            r.text() == html_escaped(signed_decimal(*self as int)),
    {
        Template::escaped(signed_text(*self as i64).as_str())
    }
}

impl Render for i8 {
    /// The decimal notation, with a leading `-` when negative.
    fn render(&self) -> (r: Template)
        ensures
            r.text() == html_escaped(signed_decimal(*self as int)),
    {
        Template::escaped(signed_text(*self as i64).as_str())
    }
}

impl Render for isize {
    /// The decimal notation, with a leading `-` when negative.
    fn render(&self) -> (r: Template)
        ensures
            r.text() == html_escaped(signed_decimal(*self as int)),
    {
        Template::escaped(signed_text(*self as i64).as_str())
    }
}

impl From<Template> for String {
    /// The flattened text of the template.
    fn from(value: Template) -> (r: String)
        ensures
            r@ == value.text(),
    {
        value.build()
    }
}

impl vstd::std_specs::convert::FromSpecImpl<Template> for String {
    open spec fn obeys_from_spec() -> bool {
        false
    }

    open spec fn from_spec(v: Template) -> String {
        arbitrary()
    }
}

impl From<Vec<Template>> for TemplateGroup {
    fn from(value: Vec<Template>) -> (r: TemplateGroup)
        ensures
            r.0 == value,
    {
        TemplateGroup(value)
    }
}

impl vstd::std_specs::convert::FromSpecImpl<Vec<Template>> for TemplateGroup {
    open spec fn obeys_from_spec() -> bool {
        true
    }

    open spec fn from_spec(v: Vec<Template>) -> TemplateGroup {
        TemplateGroup(v)
    }
}

impl From<&str> for Template {
    /// The text, HTML-escaped.
    fn from(value: &str) -> (r: Template)
        ensures
            r.text() == html_escaped(value@),
    {
        Template::escaped(value)
    }
}

impl vstd::std_specs::convert::FromSpecImpl<&str> for Template {
    open spec fn obeys_from_spec() -> bool {
        false
    }

    open spec fn from_spec(v: &str) -> Template {
        arbitrary()
    }
}

/// Flattening a sequence of parts is flattening each half and joining them.
pub proof fn lemma_parts_text_concat(a: Seq<(String, Template)>, b: Seq<(String, Template)>)
    ensures
        parts_text(a + b) == parts_text(a) + parts_text(b),
    decreases b.len(),
{
    if b.len() == 0 {
        assert(a + b =~= a);
    } else {
        lemma_parts_text_concat(a, b.drop_last());
        assert((a + b).drop_last() =~= a + b.drop_last());
    }
}

/// A composed template flattens with each nested template's own text in the
/// place of its slot: the parts before it, its literal, its text, the parts
/// after it, and the tail, in this order.
pub proof fn lemma_composed_text(c: Template, parts: Seq<(String, Template)>, end: Seq<char>, k: int)
    requires
        c.is_composed_of(parts, end),
        0 <= k < parts.len(),
    ensures
        c.text() == parts_text(parts.take(k)) + parts[k].0@ + parts[k].1.text() + parts_text(
            parts.skip(k + 1),
        ) + end,
{
    let single = seq![parts[k]];
    assert(parts =~= parts.take(k) + single + parts.skip(k + 1));
    lemma_parts_text_concat(parts.take(k) + single, parts.skip(k + 1));
    lemma_parts_text_concat(parts.take(k), single);
    assert(single.drop_last() =~= Seq::<(String, Template)>::empty());
    assert(parts_text(Seq::<(String, Template)>::empty()) == Seq::<char>::empty());
    assert(single.last() == parts[k]);
    assert(parts_text(single) =~= parts[k].0@ + parts[k].1.text());
    assert(c.text() == parts_text(parts) + end);
    assert(c.text() =~= parts_text(parts.take(k)) + parts[k].0@ + parts[k].1.text() + parts_text(
        parts.skip(k + 1),
    ) + end);
}

/// Flattening is structure- and order-preserving: when `a` sits in a slot
/// of `b` and `b` in a slot of `c`, flattening `c` gives what flattening
/// `a`, `b`'s literals and `c`'s literals separately and joining them by
/// their nesting positions gives.
pub proof fn lemma_nested_composition(
    a: Template,
    b: Template,
    c: Template,
    pb: Seq<(String, Template)>,
    eb: Seq<char>,
    kb: int,
    pc: Seq<(String, Template)>,
    ec: Seq<char>,
    kc: int,
)
    requires
        b.is_composed_of(pb, eb),
        0 <= kb < pb.len(),
        pb[kb].1 == a,
        c.is_composed_of(pc, ec),
        0 <= kc < pc.len(),
        pc[kc].1 == b,
    ensures
        c.text() == parts_text(pc.take(kc)) + pc[kc].0@ + (parts_text(pb.take(kb)) + pb[kb].0@
            + a.text() + parts_text(pb.skip(kb + 1)) + eb) + parts_text(pc.skip(kc + 1)) + ec,
{
    lemma_composed_text(b, pb, eb, kb);
    lemma_composed_text(c, pc, ec, kc);
}

/// A group's text is its members' texts in order with nothing between
/// them; the empty group has the empty text.
pub proof fn lemma_group_text_concat(a: Seq<Template>, b: Seq<Template>)
    ensures
        group_text(Seq::<Template>::empty()) == Seq::<char>::empty(),
        group_text(a + b) == group_text(a) + group_text(b),
    decreases b.len(),
{
    if b.len() == 0 {
        assert(a + b =~= a);
    } else {
        lemma_group_text_concat(a, b.drop_last());
        assert((a + b).drop_last() =~= a + b.drop_last());
    }
}

} // verus!
