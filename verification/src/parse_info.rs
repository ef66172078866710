use vstd::prelude::*;
use crate::span::Span;

verus! {

/// What a successful match covers: its span and the number of elements
/// matched.
#[derive(Debug, PartialEq, Eq)]
pub struct ParseInfo {
    pub span: Span,
    pub len: usize,
}

impl ParseInfo {
    /// The match as it is written: its span.
    pub fn to_string(&self) -> (text: String)
        ensures
            text@ == self.span.rendering(),
    {
        self.span.to_string()
    }

    pub fn new(span: Span, len: usize) -> (info: Self)
        ensures
            info == (ParseInfo { span, len }),
    {
        Self { span, len }
    }

    pub fn span(&self) -> (span: &Span)
        ensures
            *span == self.span,
    {
        &self.span
    }

    pub fn len(&self) -> (len: usize)
        ensures
            len == self.len,
    {
        self.len
    }
}

} // verus!
