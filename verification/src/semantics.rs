use vstd::prelude::*;
use crate::location::Location;
use crate::matcher::{
    last_line_len, line_breaks, ChoiceMatcher, Matcher, NotMatcher, OptionalMatcher, RangeMatcher,
    RepetitionMatcher, SequentialMatcher, StrMatcher, TokenMatcher, UntilMatcher,
};
use crate::parse_info::ParseInfo;
use crate::parse_result::{matched, matched_empty, ParseResult};
use crate::span::Span;
use crate::stream::StreamState;

verus! {

/// The outcome of a test together with the cursor of the reader after it.
pub type Outcome = (ParseResult, nat);

impl StreamState<char> {
    /// The same stream with its cursor at `cursor`.
    pub open spec fn at(self, cursor: nat) -> Self {
        StreamState { input: self.input, cursor, window: self.window }
    }
}

/// The match that a repetition reports when it stops at `end` after `count`
/// rounds, of which it needs `min`.
pub open spec fn counted(count: nat, min: nat, start: Location, end: Location) -> ParseResult {
    if count >= min {
        matched(start, end)
    } else {
        Ok(None)
    }
}

/// What testing the text `matcher` at `loc` gives.
pub open spec fn test_str(matcher: StrMatcher, st: StreamState<char>, loc: Location) -> Outcome {
    let text = matcher.text();
    match st.match_str_at(loc.index as nat, text) {
        Err(err) => (Err(err), st.cursor),
        Ok(false) => (Ok(None), st.cursor),
        Ok(true) => (
            Ok(
                Some(
                    ParseInfo {
                        span: Span {
                            start: loc,
                            end: loc.moved(line_breaks(text), last_line_len(text), text.len()),
                        },
                        len: text.len() as usize,
                    },
                ),
            ),
            st.cursor,
        ),
    }
}

/// What testing the range `matcher` at `loc` gives.
pub open spec fn test_range(matcher: RangeMatcher, st: StreamState<char>, loc: Location) -> Outcome {
    match st.match_range_at(loc.index as nat, matcher.start, matcher.end, matcher.max) {
        Err(err) => (Err(err), st.cursor),
        Ok(nb) => if nb >= matcher.min {
            (matched(loc, loc.shifted(nb as nat)), st.cursor)
        } else {
            (Ok(None), st.cursor)
        },
    }
}

/// Where a token matcher leaves the cursor after its inner matcher matched
/// up to index `end`: at `end`, if that lies ahead and can be reached.
pub open spec fn cursor_after_token(st: StreamState<char>, end: nat) -> nat {
    if end > st.cursor {
        st.consumed_through((end - st.cursor - 1) as nat).cursor
    } else {
        st.cursor
    }
}

/// What testing `matcher` at `loc` gives, for a reader in state `st`.
pub open spec fn test_matcher(matcher: Matcher, st: StreamState<char>, loc: Location) -> Outcome
    decreases matcher, 0nat,
{
    match matcher {
        Matcher::Str(m) => test_str(m, st, loc),
        Matcher::Range(m) => test_range(m, st, loc),
        Matcher::Sequential(m) => test_sequence(m, st, loc, loc, 0),
        Matcher::Choice(m) => test_choice(m, st, loc, 0),
        Matcher::Optional(m) => test_optional(m, st, loc),
        Matcher::Repetition(m) => test_repetition(m, st, loc, loc, 0),
        Matcher::Not(m) => test_not(m, st, loc),
        Matcher::Until(m) => test_until(m, st, loc, loc, 0),
        Matcher::Token(m) => test_token(m, st, loc),
    }
}

/// What a sequence gives that started at `start` and whose children before
/// the one at `from` have matched up to `loc`.
///
/// Each child is tested where the one before it ended. The first child that
/// does not match ends the test.
pub open spec fn test_sequence(
    matcher: SequentialMatcher,
    st: StreamState<char>,
    start: Location,
    loc: Location,
    from: nat,
) -> Outcome
    decreases matcher, matcher.children@.len() - from,
{
    if from >= matcher.children@.len() {
        (matched(start, loc), st.cursor)
    } else {
        let (result, cursor) = test_matcher(*matcher.children@[from as int], st, loc);
        match result {
            Err(err) => (Err(err), cursor),
            Ok(None) => (Ok(None), cursor),
            Ok(Some(info)) => test_sequence(matcher, st.at(cursor), start, info.span.end, from + 1),
        }
    }
}

/// What a choice gives at `loc` when its children before the one at `from`
/// have not matched.
///
/// The children are tried in order, and the first that matches decides.
pub open spec fn test_choice(
    matcher: ChoiceMatcher,
    st: StreamState<char>,
    loc: Location,
    from: nat,
) -> Outcome
    decreases matcher, matcher.children@.len() - from,
{
    if from >= matcher.children@.len() {
        (Ok(None), st.cursor)
    } else {
        let (result, cursor) = test_matcher(*matcher.children@[from as int], st, loc);
        match result {
            Err(err) => (Err(err), cursor),
            Ok(Some(info)) => (matched(loc, info.span.end), cursor),
            Ok(None) => test_choice(matcher, st.at(cursor), loc, from + 1),
        }
    }
}

/// What testing the optional `matcher` at `loc` gives: the match of its
/// inner matcher, or the empty match.
pub open spec fn test_optional(matcher: OptionalMatcher, st: StreamState<char>, loc: Location) -> Outcome
    decreases matcher, 0nat,
{
    let (result, cursor) = test_matcher(*matcher.value, st, loc);
    match result {
        Err(err) => (Err(err), cursor),
        Ok(Some(info)) => (Ok(Some(info)), cursor),
        Ok(None) => (matched_empty(loc), cursor),
    }
}

/// What testing the negation `matcher` at `loc` gives: the empty match
/// where its inner matcher does not match, and no match where it does.
pub open spec fn test_not(matcher: NotMatcher, st: StreamState<char>, loc: Location) -> Outcome
    decreases matcher, 0nat,
{
    let (result, cursor) = test_matcher(*matcher.value, st, loc);
    match result {
        Err(err) => (Err(err), cursor),
        Ok(Some(_)) => (Ok(None), cursor),
        Ok(None) => (matched_empty(loc), cursor),
    }
}

/// What a repetition gives that started at `start` and has matched `count`
/// times, up to `loc`.
///
/// It goes on for as long as the inner matcher matches and moves forward.
/// Where the inner matcher does not match, the repetition matches if it has
/// its `min` rounds. Where the inner matcher matches without moving forward
/// it could do so for ever, so the repetition matches whatever its count.
pub open spec fn test_repetition(
    matcher: RepetitionMatcher,
    st: StreamState<char>,
    start: Location,
    loc: Location,
    count: nat,
) -> Outcome
    decreases matcher, st.input.len() - loc.index,
{
    let (result, cursor) = test_matcher(*matcher.value, st, loc);
    match result {
        Err(err) => (Err(err), cursor),
        Ok(None) => (counted(count, matcher.min as nat, start, loc), cursor),
        Ok(Some(info)) => if loc.index < info.span.end.index <= st.input.len() {
            test_repetition(matcher, st.at(cursor), start, info.span.end, count + 1)
        } else {
            (matched(start, loc), cursor)
        },
    }
}

/// What an until-matcher gives that started at `start` and has passed over
/// `count` elements, up to `loc`.
///
/// It stops where the inner matcher matches or the input ends, and matches
/// if it has passed over `min` elements by then. Otherwise it passes over
/// the element at `loc`, to the next line if that is a line break.
pub open spec fn test_until(
    matcher: UntilMatcher,
    st: StreamState<char>,
    start: Location,
    loc: Location,
    count: nat,
) -> Outcome
    decreases matcher, st.input.len() - loc.index,
{
    let (result, cursor) = test_matcher(*matcher.until, st, loc);
    match result {
        Err(err) => (Err(err), cursor),
        Ok(Some(_)) => (counted(count, matcher.min as nat, start, loc), cursor),
        Ok(None) => match st.at(cursor).is_end_of_input_at(loc.index as nat) {
            Err(err) => (Err(err), cursor),
            Ok(true) => (counted(count, matcher.min as nat, start, loc), cursor),
            Ok(false) => match st.at(cursor).is_newline_at(loc.index as nat) {
                Err(err) => (Err(err), cursor),
                Ok(newline) => {
                    let next = if newline {
                        loc.next_line()
                    } else {
                        loc.shifted(1)
                    };
                    if loc.index < next.index <= st.input.len() {
                        test_until(matcher, st.at(cursor), start, next, count + 1)
                    } else {
                        (counted(count, matcher.min as nat, start, loc), cursor)
                    }
                },
            },
        },
    }
}

/// What testing the token `matcher` at `loc` gives: the match of its inner
/// matcher, with the cursor moved up to the end of the match, or the empty
/// match.
pub open spec fn test_token(matcher: TokenMatcher, st: StreamState<char>, loc: Location) -> Outcome
    decreases matcher, 0nat,
{
    let (result, cursor) = test_matcher(*matcher.value, st, loc);
    match result {
        Err(err) => (Err(err), cursor),
        Ok(Some(info)) => (
            Ok(Some(info)),
            cursor_after_token(st.at(cursor), info.span.end.index as nat),
        ),
        Ok(None) => (matched_empty(loc), cursor),
    }
}

/// Whether `matcher` holds no token matcher, which is the only matcher that
/// moves the cursor of a reader.
pub open spec fn is_pure(matcher: Matcher) -> bool
    decreases matcher, 0nat,
{
    match matcher {
        Matcher::Str(_) => true,
        Matcher::Range(_) => true,
        Matcher::Sequential(m) => pure_sequence(m, m.children@.len()),
        Matcher::Choice(m) => pure_choice(m, m.children@.len()),
        Matcher::Optional(m) => is_pure(*m.value),
        Matcher::Repetition(m) => is_pure(*m.value),
        Matcher::Not(m) => is_pure(*m.value),
        Matcher::Until(m) => is_pure(*m.until),
        Matcher::Token(_) => false,
    }
}

/// Whether none of the first `upto` children of a sequence holds a token
/// matcher.
pub open spec fn pure_sequence(matcher: SequentialMatcher, upto: nat) -> bool
    decreases matcher, upto,
{
    upto == 0 || (upto <= matcher.children@.len() && is_pure(*matcher.children@[upto - 1])
        && pure_sequence(matcher, (upto - 1) as nat))
}

/// Whether none of the first `upto` children of a choice holds a token
/// matcher.
pub open spec fn pure_choice(matcher: ChoiceMatcher, upto: nat) -> bool
    decreases matcher, upto,
{
    upto == 0 || (upto <= matcher.children@.len() && is_pure(*matcher.children@[upto - 1])
        && pure_choice(matcher, (upto - 1) as nat))
}

/// After how many rounds a repetition that stands at `loc` meets a place
/// where its inner matcher does not match; `None` where it ends otherwise,
/// on an error or on a match that does not move forward.
pub open spec fn rounds_until_no_match(
    matcher: RepetitionMatcher,
    st: StreamState<char>,
    loc: Location,
) -> Option<nat>
    decreases matcher, st.input.len() - loc.index,
{
    let (result, cursor) = test_matcher(*matcher.value, st, loc);
    match result {
        Err(_) => None,
        Ok(None) => Some(0),
        Ok(Some(info)) => if loc.index < info.span.end.index <= st.input.len() {
            match rounds_until_no_match(matcher, st.at(cursor), info.span.end) {
                Some(rounds) => Some(rounds + 1),
                None => None,
            }
        } else {
            None
        },
    }
}

/// Whether a test that starts at `loc` cannot run out of `usize` on an
/// input of `len` elements: the line and the column have room for all the
/// elements from `loc` on.
pub open spec fn has_room(loc: Location, len: nat) -> bool {
    loc.index <= len ==> loc.line + (len - loc.index) <= usize::MAX && loc.column + (len
        - loc.index) <= usize::MAX
}

/// Whether `end` can be where a match that started at `start` ends on an
/// input of `len` elements: it lies at or after `start` and within the
/// input, and its line and column moved by no more than its index did. A
/// match that passes over nothing ends where it started.
pub open spec fn reached(start: Location, end: Location, len: nat) -> bool {
    &&& start.index <= end.index
    &&& end.index == start.index ==> end == start
    &&& end.index > start.index ==> end.index <= len
    &&& end.line <= start.line + (end.index - start.index)
    &&& end.column <= start.column + (end.index - start.index)
}

/// Whether `result` is an outcome that a matcher can give for a test at
/// `loc`: a match starts at `loc` and ends at a location reached from it.
pub open spec fn sound(result: ParseResult, loc: Location, len: nat) -> bool {
    result matches Ok(Some(info)) ==> info.span.start == loc && reached(loc, info.span.end, len)
}

} // verus!
