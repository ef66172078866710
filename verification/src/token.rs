use vstd::prelude::*;
use std::rc::Rc;
use crate::match_str::MatchStr;
use crate::matcher::Matcher;
use crate::span::Span;

verus! {

/// A stretch of the input together with the kind of token found there.
#[derive(PartialEq, Debug)]
pub struct Token<T: PartialEq> {
    pub span: Span,
    pub token_type: T,
}

impl<T: PartialEq> Token<T> {
    pub fn new(span: Span, token_type: T) -> (token: Self)
        ensures
            token.span == span,
            token.token_type == token_type,
    {
        Self { span, token_type }
    }

    pub fn span(&self) -> (span: &Span)
        ensures
            *span == self.span,
    {
        &self.span
    }

    pub fn token_type(&self) -> (token_type: &T)
        ensures
            *token_type == self.token_type,
    {
        &self.token_type
    }
}

/// A kind of token: a name and the matcher that recognises it.
#[derive(Debug)]
pub struct TokenType {
    pub name: &'static str,
    pub matcher: Rc<Matcher>,
}

impl TokenType {
    pub fn new(name: &'static str, matcher: Rc<Matcher>) -> (token_type: Self)
        ensures
            token_type.name == name,
            token_type.matcher == matcher,
    {
        Self { name, matcher }
    }

    pub fn name(&self) -> (name: &'static str)
        ensures
            name == self.name,
    {
        self.name
    }

    pub fn matcher(&self) -> (matcher: &Rc<Matcher>)
        ensures
            *matcher == self.matcher,
    {
        &self.matcher
    }
}

/// The matchers of a token layer together with the reader they read from.
pub struct Tokenizer<R: MatchStr> {
    pub matchers: Vec<Rc<Matcher>>,
    pub reader: R,
}

} // verus!
