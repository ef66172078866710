use vstd::prelude::*;
use crate::location::Location;

verus! {

/// A range of elements in a source text.
///
/// `start` is inclusive and `end` is exclusive: the span of `"hello"` at the
/// beginning of a text starts at `(1, 1)` and ends at `(1, 6)`, where reading
/// would go on. A span whose two ends are equal is empty.
#[derive(Debug, Copy, Clone, PartialEq, Eq)]
pub struct Span {
    pub start: Location,
    pub end: Location,
}

impl Span {
    /// How a span is written: its start and its end, with a hyphen between
    /// them.
    pub open spec fn rendering(self) -> Seq<char> {
        self.start.rendering() + seq!['-'] + self.end.rendering()
    }

    /// The span as it is written.
    pub fn to_string(&self) -> (text: String)
        ensures
            text@ == self.rendering(),
    {
        let mut out = String::new();
        self.start.render_into(&mut out);
        out.push('-');
        self.end.render_into(&mut out);
        assert(out@ =~= self.rendering());
        out
    }

    pub fn new(start: Location, end: Location) -> (span: Self)
        ensures
            span == (Span { start, end }),
    {
        Self { start, end }
    }

    pub fn start(&self) -> (start: &Location)
        ensures
            *start == self.start,
    {
        &self.start
    }

    pub fn end(&self) -> (end: &Location)
        ensures
            *end == self.end,
    {
        &self.end
    }
}

} // verus!
