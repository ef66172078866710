use vstd::prelude::*;
use crate::location::Location;
use crate::parse_info::ParseInfo;
use crate::parser_error::ParserError;
use crate::span::Span;

verus! {

/// The three-way outcome of a test: `Ok(Some(info))` for a match,
/// `Ok(None)` for no match, `Err(error)` for a failure of the reader.
pub type ParseResult = Result<Option<ParseInfo>, ParserError>;

/// The match from `start` to `end`, whose length is the distance between the
/// two indices.
pub open spec fn matched(start: Location, end: Location) -> ParseResult {
    Ok(
        Some(
            ParseInfo { span: Span { start, end }, len: (end.index - start.index) as usize },
        ),
    )
}

/// The empty match at `start`.
pub open spec fn matched_empty(start: Location) -> ParseResult {
    Ok(Some(ParseInfo { span: Span { start, end: start }, len: 0 }))
}

/// Constructors for the outcomes of a test.
pub trait CreateParseResult: Sized {
    fn new(span: Span, len: usize) -> Self;

    fn matches(start: Location, end: Location) -> Self
        requires
            start.index <= end.index,
    ;

    fn no_match() -> Self;

    fn error(err: ParserError) -> Self;

    fn empty(start: Location) -> Self;
}

impl CreateParseResult for ParseResult {
    fn new(span: Span, len: usize) -> (result: Self)
        ensures
            result == Ok::<Option<ParseInfo>, ParserError>(Some(ParseInfo { span, len })),
    {
        Ok(Some(ParseInfo::new(span, len)))
    }

    fn matches(start: Location, end: Location) -> (result: Self)
        ensures
            result == matched(start, end),
    {
        Ok(Some(ParseInfo::new(Span::new(start, end), end.index() - start.index())))
    }

    fn no_match() -> (result: Self)
        ensures
            result == Ok::<Option<ParseInfo>, ParserError>(None),
    {
        Ok(None)
    }

    fn error(err: ParserError) -> (result: Self)
        ensures
            result == Err::<Option<ParseInfo>, ParserError>(err),
    {
        Err(err)
    }

    fn empty(start: Location) -> (result: Self)
        ensures
            result == matched_empty(start),
    {
        Ok(Some(ParseInfo::new(Span::new(start, start), 0)))
    }
}

} // verus!
