//! The document intermediate representation: immutable trees describing text
//! that may or may not need to wrap, built by the renderer and consumed by the
//! layout engine.

use vstd::prelude::*;
use vstd::string::StringExecFns;

verus! {

/// Mathematical model of a document tree. Text is modelled as a sequence of
/// characters, indentation amounts as naturals.
#[verifier::ext_equal]
pub enum Doc {
    /// Empty: renders nothing.
    Nil,
    /// Literal text, rendered verbatim.
    Text(Seq<char>),
    /// A mandatory line break: emits this many newlines, then the current
    /// indentation.
    Line(nat),
    /// Distinct literal text for each mode: `unbroken` when the enclosing
    /// group is flat, `broken` (followed by a newline and indentation) when
    /// it is broken.
    Break { broken: Seq<char>, unbroken: Seq<char> },
    /// Zero-width marker: any group whose subtree contains one is never
    /// rendered flat.
    ForceBreak,
    /// Increases the indentation used by line breaks inside by the delta.
    Nest(nat, Box<Doc>),
    /// Sets the indentation used by line breaks inside to the current column.
    NestCurrent(Box<Doc>),
    /// A unit of breaking decision: rendered flat if it fits, broken otherwise.
    Group(Box<Doc>),
    /// Ordered sequencing of two documents.
    Cons(Box<Doc>, Box<Doc>),
}

/// Number of nodes in a document; the termination measure for the layout
/// engine.
pub open spec fn doc_size(d: Doc) -> nat
    decreases d,
{
    match d {
        Doc::Nil => 1,
        Doc::Text(_) => 1,
        Doc::Line(_) => 1,
        Doc::Break { .. } => 1,
        Doc::ForceBreak => 1,
        Doc::Nest(_, inner) => 1 + doc_size(*inner),
        Doc::NestCurrent(inner) => 1 + doc_size(*inner),
        Doc::Group(inner) => 1 + doc_size(*inner),
        Doc::Cons(l, r) => 1 + doc_size(*l) + doc_size(*r),
    }
}

/// Model-level sequencing.
pub open spec fn dcons(a: Doc, b: Doc) -> Doc {
    Doc::Cons(Box::new(a), Box::new(b))
}

/// Model-level literal text.
pub open spec fn dtext(s: Seq<char>) -> Doc {
    Doc::Text(s)
}

/// Model-level grouping.
pub open spec fn dgroup(d: Doc) -> Doc {
    Doc::Group(Box::new(d))
}

/// Model-level indentation increase.
pub open spec fn dnest(n: nat, d: Doc) -> Doc {
    Doc::Nest(n, Box::new(d))
}

/// Model-level indentation at the current column.
pub open spec fn dnest_current(d: Doc) -> Doc {
    Doc::NestCurrent(Box::new(d))
}

/// The executable document tree. Its view is the `Doc` model.
pub enum Document {
    Nil,
    Text(String),
    Line(usize),
    Break { broken: String, unbroken: String },
    ForceBreak,
    Nest(usize, Box<Document>),
    NestCurrent(Box<Document>),
    Group(Box<Document>),
    Cons(Box<Document>, Box<Document>),
}

/// The model denoted by an executable document.
pub open spec fn document_view(d: Document) -> Doc
    decreases d,
{
    match d {
        Document::Nil => Doc::Nil,
        Document::Text(s) => Doc::Text(s@),
        Document::Line(n) => Doc::Line(n as nat),
        Document::Break { broken, unbroken } => Doc::Break {
            broken: broken@,
            unbroken: unbroken@,
        },
        Document::ForceBreak => Doc::ForceBreak,
        Document::Nest(delta, inner) => Doc::Nest(delta as nat, Box::new(document_view(*inner))),
        Document::NestCurrent(inner) => Doc::NestCurrent(Box::new(document_view(*inner))),
        Document::Group(inner) => Doc::Group(Box::new(document_view(*inner))),
        Document::Cons(l, r) => Doc::Cons(
            Box::new(document_view(*l)),
            Box::new(document_view(*r)),
        ),
    }
}

impl View for Document {
    type V = Doc;

    open spec fn view(&self) -> Doc {
        document_view(*self)
    }
}

/// The empty document.
pub fn nil() -> (d: Document)
    ensures
        d@ == Doc::Nil,
{
    Document::Nil
}

/// Literal text from a borrowed string.
pub fn text(s: &str) -> (d: Document)
    ensures
        d@ == Doc::Text(s@),
{
    Document::Text(s.to_owned())
}

/// Literal text from an owned string.
pub fn text_string(s: String) -> (d: Document)
    ensures
        d@ == Doc::Text(s@),
{
    Document::Text(s)
}

/// One mandatory line break.
pub fn line() -> (d: Document)
    ensures
        d@ == Doc::Line(1),
{
    Document::Line(1)
}

/// `n` mandatory line breaks (`lines(2)` yields one blank line).
pub fn lines(n: usize) -> (d: Document)
    ensures
        d@ == Doc::Line(n as nat),
{
    Document::Line(n)
}

/// Marker that forces every enclosing group to break.
pub fn force_break() -> (d: Document)
    ensures
        d@ == Doc::ForceBreak,
{
    Document::ForceBreak
}

/// A break with distinct text for the broken and flat renderings.
pub fn break_(broken: &str, unbroken: &str) -> (d: Document)
    ensures
        d@ == (Doc::Break { broken: broken@, unbroken: unbroken@ }),
{
    Document::Break { broken: broken.to_owned(), unbroken: unbroken.to_owned() }
}

/// A list delimiter: renders as `d` followed by a newline when broken, and as
/// `d` followed by one space when flat.
pub fn delim(d: &str) -> (r: Document)
    ensures
        r@ == (Doc::Break { broken: d@, unbroken: d@ + " "@ }),
{
    Document::Break { broken: d.to_owned(), unbroken: d.to_owned().concat(" ") }
}

impl Document {
    /// Sequences `self` before `other`.
    pub fn append(self, other: Document) -> (r: Document)
        ensures
            r@ == Doc::Cons(Box::new(self@), Box::new(other@)),
    {
        Document::Cons(Box::new(self), Box::new(other))
    }

    /// Sequences `self` before the literal text `s`.
    pub fn append_str(self, s: &str) -> (r: Document)
        ensures
            r@ == Doc::Cons(Box::new(self@), Box::new(Doc::Text(s@))),
    {
        Document::Cons(Box::new(self), Box::new(text(s)))
    }

    /// Increases the indentation of line breaks inside `self` by `delta`.
    pub fn nest(self, delta: usize) -> (r: Document)
        ensures
            r@ == Doc::Nest(delta as nat, Box::new(self@)),
    {
        Document::Nest(delta, Box::new(self))
    }

    /// Sets the indentation of line breaks inside `self` to the current
    /// column.
    pub fn nest_current(self) -> (r: Document)
        ensures
            r@ == Doc::NestCurrent(Box::new(self@)),
    {
        Document::NestCurrent(Box::new(self))
    }

    /// Makes `self` a unit of breaking decision.
    pub fn group(self) -> (r: Document)
        ensures
            r@ == Doc::Group(Box::new(self@)),
    {
        Document::Group(Box::new(self))
    }

    /// Wraps `self` in the literal texts `open` and `close`.
    pub fn surround(self, open: &str, close: &str) -> (r: Document)
        ensures
            r@ == Doc::Cons(
                Box::new(Doc::Cons(Box::new(Doc::Text(open@)), Box::new(self@))),
                Box::new(Doc::Text(close@)),
            ),
    {
        text(open).append(self).append_str(close)
    }
}

} // verus!
