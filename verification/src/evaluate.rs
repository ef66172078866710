use vstd::prelude::*;
use crate::location::Location;
use crate::match_str::{lemma_run_length_bounds, range_limit, MatchStr};
use crate::matcher::{
    lemma_text_shape, ChoiceMatcher, Matcher, NotMatcher, OptionalMatcher, RangeMatcher,
    RepetitionMatcher, SequentialMatcher, StrMatcher, TokenMatcher, UntilMatcher,
};
use crate::parse_result::{CreateParseResult, ParseResult};
use crate::semantics::{
    counted, has_room, reached, sound, test_choice, test_matcher, test_not, test_optional,
    test_range, test_repetition, test_sequence, test_str, test_token, test_until, Outcome,
};
use crate::span::Span;
use crate::stream::StreamState;

verus! {

/// Whether a test at `loc` that took a reader from state `before` to state
/// `after` and returned `result` did what `outcome` says: it returned the
/// result of the outcome and left the cursor where the outcome has it, on
/// the same input. A match it returned starts at `loc` and ends at a
/// location reached from it.
pub open spec fn agrees(
    before: StreamState<char>,
    after: StreamState<char>,
    result: ParseResult,
    loc: Location,
    outcome: Outcome,
) -> bool {
    &&& after == before.at(outcome.1)
    &&& result == outcome.0
    &&& sound(result, loc, before.input.len())
}

/// The match from `start` to `end` where `count` reaches `min`, else no
/// match.
fn counted_result(count: usize, min: usize, start: Location, end: Location) -> (result:
    ParseResult)
    requires
        start.index <= end.index,
    ensures
        result == counted(count as nat, min as nat, start, end),
{
    // If we got at least min matches, we have a match
    if count >= min {
        ParseResult::matches(start, end)
    } else {
        ParseResult::no_match()
    }
}

impl StrMatcher {
    /// Tests whether the text stands in the input of `reader` at `loc`.
    pub fn test<R: MatchStr>(&self, loc: &Location, reader: &mut R) -> (result: ParseResult)
        requires
            old(reader).wf(),
            has_room(*loc, old(reader).state().input.len()),
        ensures
            final(reader).wf(),
            agrees(
                old(reader).state(),
                final(reader).state(),
                result,
                *loc,
                test_str(*self, old(reader).state(), *loc),
            ),
    {
        proof {
            reader.lemma_cursor_in_input();
        }
        // Test to see if the text is in the input at the given location
        let success = match reader.match_str(loc.index(), self.value()) {
            Ok(success) => success,
            Err(err) => {
                return Err(err);
            },
        };
        if success {
            proof {
                lemma_text_shape(self.text());
            }
            // If it worked, compute the span
            let end_loc = loc.add_delta(self.delta_lines(), self.delta_columns(), self.width());
            let span = Span::new(*loc, end_loc);
            return ParseResult::new(span, self.width());
        }
        ParseResult::no_match()
    }
}

impl RangeMatcher {
    /// Tests whether enough chars in the range stand in the input of
    /// `reader` at `loc`.
    pub fn test<R: MatchStr>(&self, loc: &Location, reader: &mut R) -> (result: ParseResult)
        requires
            old(reader).wf(),
            has_room(*loc, old(reader).state().input.len()),
        ensures
            final(reader).wf(),
            agrees(
                old(reader).state(),
                final(reader).state(),
                result,
                *loc,
                test_range(*self, old(reader).state(), *loc),
            ),
    {
        proof {
            reader.lemma_cursor_in_input();
        }
        // Count the chars in the range at the given location
        let nb = match reader.match_range(loc.index(), self.start, self.end, self.max) {
            Ok(nb) => nb,
            Err(err) => {
                return Err(err);
            },
        };
        if nb >= self.min as u32 {
            proof {
                lemma_run_length_bounds(
                    old(reader).state().input,
                    loc.index as nat,
                    self.start,
                    self.end,
                    range_limit(self.max),
                );
            }
            // If it worked, compute the span
            return ParseResult::matches(*loc, *loc + nb as usize);
        }
        ParseResult::no_match()
    }
}

impl SequentialMatcher {
    /// Tests whether the children match one after the other from `loc` on.
    pub fn test<R: MatchStr>(&self, loc: &Location, reader: &mut R) -> (result: ParseResult)
        requires
            old(reader).wf(),
            has_room(*loc, old(reader).state().input.len()),
        ensures
            final(reader).wf(),
            agrees(
                old(reader).state(),
                final(reader).state(),
                result,
                *loc,
                test_sequence(*self, old(reader).state(), *loc, *loc, 0),
            ),
        decreases *self,
    {
        let ghost before = reader.state();
        let mut end_loc = *loc;
        let mut i: usize = 0;

        // Try to match each child
        while i < self.children.len()
            invariant
                i <= self.children@.len(),
                reader.wf(),
                before == old(reader).state(),
                reader.state() == before.at(reader.state().cursor),
                has_room(*loc, before.input.len()),
                reached(*loc, end_loc, before.input.len()),
                test_sequence(*self, before, *loc, *loc, 0) == test_sequence(
                    *self,
                    reader.state(),
                    *loc,
                    end_loc,
                    i as nat,
                ),
            decreases self.children@.len() - i,
        {
            match self.children[i].test(&end_loc, reader) {
                Err(err) => {
                    return Err(err);
                },
                Ok(None) => {
                    // One of the children didn't match, thus the whole sequence doesn't match
                    return ParseResult::no_match();
                },
                Ok(Some(res)) => {
                    // If the child matched, update the end location
                    end_loc = res.span.end;
                },
            }
            i = i + 1;
        }
        // If we get here, we have either a full match, or an empty match (if there are no children)
        ParseResult::matches(*loc, end_loc)
    }
}

impl ChoiceMatcher {
    /// Tests whether one of the children matches at `loc`.
    pub fn test<R: MatchStr>(&self, loc: &Location, reader: &mut R) -> (result: ParseResult)
        requires
            old(reader).wf(),
            has_room(*loc, old(reader).state().input.len()),
        ensures
            final(reader).wf(),
            agrees(
                old(reader).state(),
                final(reader).state(),
                result,
                *loc,
                test_choice(*self, old(reader).state(), *loc, 0),
            ),
        decreases *self,
    {
        let ghost before = reader.state();
        let mut i: usize = 0;

        // Try to match the first child. If it doesn't work, try the second from the same location, and so on.
        while i < self.children.len()
            invariant
                i <= self.children@.len(),
                reader.wf(),
                before == old(reader).state(),
                reader.state() == before.at(reader.state().cursor),
                has_room(*loc, before.input.len()),
                test_choice(*self, before, *loc, 0) == test_choice(
                    *self,
                    reader.state(),
                    *loc,
                    i as nat,
                ),
            decreases self.children@.len() - i,
        {
            match self.children[i].test(loc, reader) {
                Err(err) => {
                    return Err(err);
                },
                Ok(Some(res)) => {
                    return ParseResult::matches(*loc, res.span.end);
                },
                Ok(None) => {},
            }
            i = i + 1;
        }
        ParseResult::no_match()
    }
}

impl OptionalMatcher {
    /// Tests the inner matcher at `loc`, and matches nothing where it does
    /// not match.
    pub fn test<R: MatchStr>(&self, loc: &Location, reader: &mut R) -> (result: ParseResult)
        requires
            old(reader).wf(),
            has_room(*loc, old(reader).state().input.len()),
        ensures
            final(reader).wf(),
            agrees(
                old(reader).state(),
                final(reader).state(),
                result,
                *loc,
                test_optional(*self, old(reader).state(), *loc),
            ),
        decreases *self,
    {
        match self.value.test(loc, reader) {
            Err(err) => Err(err),
            // If the value matched, the result is the same as the inner rule
            Ok(Some(res)) => Ok(Some(res)),
            // If the value didn't match, the result is still a match because it is optional
            // Though, the span will be of length 0 since no actual characters were matched
            Ok(None) => ParseResult::empty(*loc),
        }
    }
}

impl NotMatcher {
    /// Tests that the inner matcher does not match at `loc`.
    pub fn test<R: MatchStr>(&self, loc: &Location, reader: &mut R) -> (result: ParseResult)
        requires
            old(reader).wf(),
            has_room(*loc, old(reader).state().input.len()),
        ensures
            final(reader).wf(),
            agrees(
                old(reader).state(),
                final(reader).state(),
                result,
                *loc,
                test_not(*self, old(reader).state(), *loc),
            ),
        decreases *self,
    {
        match self.value.test(loc, reader) {
            Err(err) => Err(err),
            // If the value matched, this is not a match
            Ok(Some(_)) => ParseResult::no_match(),
            // If the value didn't match, the result is valid
            // Though, the span will be of length 0
            Ok(None) => ParseResult::empty(*loc),
        }
    }
}

impl RepetitionMatcher {
    /// Tests how many times in a row the inner matcher matches from `loc`
    /// on.
    pub fn test<R: MatchStr>(&self, loc: &Location, reader: &mut R) -> (result: ParseResult)
        requires
            old(reader).wf(),
            has_room(*loc, old(reader).state().input.len()),
        ensures
            final(reader).wf(),
            agrees(
                old(reader).state(),
                final(reader).state(),
                result,
                *loc,
                test_repetition(*self, old(reader).state(), *loc, *loc, 0),
            ),
        decreases *self,
    {
        let ghost before = reader.state();
        let mut count: usize = 0;
        let mut end_loc = *loc;

        // Try to match the matcher at the end until it doesn't work
        loop
            invariant
                reader.wf(),
                before == old(reader).state(),
                reader.state() == before.at(reader.state().cursor),
                has_room(*loc, before.input.len()),
                reached(*loc, end_loc, before.input.len()),
                count <= end_loc.index - loc.index,
                test_repetition(*self, before, *loc, *loc, 0) == test_repetition(
                    *self,
                    reader.state(),
                    *loc,
                    end_loc,
                    count as nat,
                ),
            decreases before.input.len() - end_loc.index,
        {
            match self.value.test(&end_loc, reader) {
                Err(err) => {
                    return Err(err);
                },
                Ok(None) => {
                    return counted_result(count, self.min as usize, *loc, end_loc);
                },
                Ok(Some(res)) => {
                    if res.span.end.index <= end_loc.index {
                        // A match that does not move forward would repeat for ever
                        return ParseResult::matches(*loc, end_loc);
                    }
                    // We got one more match
                    count = count + 1;
                    // The end location is thus further
                    end_loc = res.span.end;
                },
            }
        }
    }
}

impl UntilMatcher {
    /// Tests how many elements stand between `loc` and the first place
    /// where the inner matcher matches.
    pub fn test<R: MatchStr>(&self, loc: &Location, reader: &mut R) -> (result: ParseResult)
        requires
            old(reader).wf(),
            has_room(*loc, old(reader).state().input.len()),
        ensures
            final(reader).wf(),
            agrees(
                old(reader).state(),
                final(reader).state(),
                result,
                *loc,
                test_until(*self, old(reader).state(), *loc, *loc, 0),
            ),
        decreases *self,
    {
        let ghost before = reader.state();
        let mut count: usize = 0;
        let mut end_loc = *loc;
        proof {
            reader.lemma_cursor_in_input();
        }

        // Try to match the matcher at the end until it works
        loop
            invariant
                before.input.len() <= usize::MAX,
                reader.wf(),
                before == old(reader).state(),
                reader.state() == before.at(reader.state().cursor),
                has_room(*loc, before.input.len()),
                reached(*loc, end_loc, before.input.len()),
                count <= end_loc.index - loc.index,
                test_until(*self, before, *loc, *loc, 0) == test_until(
                    *self,
                    reader.state(),
                    *loc,
                    end_loc,
                    count as nat,
                ),
            decreases before.input.len() - end_loc.index,
        {
            match self.until.test(&end_loc, reader) {
                Err(err) => {
                    return Err(err);
                },
                Ok(Some(_)) => {
                    return counted_result(count, self.min, *loc, end_loc);
                },
                Ok(None) => {},
            }
            // If the end of the input is reached, stop the match there
            match reader.is_end_of_input(end_loc.index()) {
                Err(err) => {
                    return Err(err);
                },
                Ok(true) => {
                    return counted_result(count, self.min, *loc, end_loc);
                },
                Ok(false) => {},
            }
            // We have to check if we are at a new line or not to increment the location
            let newline = match reader.is_newline(end_loc.index()) {
                Err(err) => {
                    return Err(err);
                },
                Ok(newline) => newline,
            };
            // We got one more element
            count = count + 1;
            // The end location is thus further
            if newline {
                end_loc = end_loc.add_line();
            } else {
                end_loc = end_loc + 1;
            }
        }
    }
}

impl TokenMatcher {
    /// Tests the inner matcher at `loc` and, where it matches, consumes the
    /// input of `reader` up to the end of the match.
    pub fn test<R: MatchStr>(&self, loc: &Location, reader: &mut R) -> (result: ParseResult)
        requires
            old(reader).wf(),
            has_room(*loc, old(reader).state().input.len()),
        ensures
            final(reader).wf(),
            agrees(
                old(reader).state(),
                final(reader).state(),
                result,
                *loc,
                test_token(*self, old(reader).state(), *loc),
            ),
        decreases *self,
    {
        match self.value.test(loc, reader) {
            Err(err) => Err(err),
            Ok(Some(res)) => {
                // Consume the input
                let end = res.span.end.index;
                let mark = reader.low_water_mark();
                if end > mark {
                    reader.consume_nth(end - mark - 1);
                }
                Ok(Some(res))
            },
            // If the value didn't match, the result is valid
            // Though, the span will be of length 0
            Ok(None) => ParseResult::empty(*loc),
        }
    }
}

impl Matcher {
    /// Compares this matcher to the input of `reader` at `loc`.
    ///
    /// Returns the span of the match, if there is one. Hands on the errors
    /// of the reader.
    pub fn test<R: MatchStr>(&self, loc: &Location, reader: &mut R) -> (result: ParseResult)
        requires
            old(reader).wf(),
            has_room(*loc, old(reader).state().input.len()),
        ensures
            final(reader).wf(),
            agrees(
                old(reader).state(),
                final(reader).state(),
                result,
                *loc,
                test_matcher(*self, old(reader).state(), *loc),
            ),
        decreases *self,
    {
        match self {
            Matcher::Str(m) => m.test(loc, reader),
            Matcher::Range(m) => m.test(loc, reader),
            Matcher::Sequential(m) => m.test(loc, reader),
            Matcher::Choice(m) => m.test(loc, reader),
            Matcher::Optional(m) => m.test(loc, reader),
            Matcher::Repetition(m) => m.test(loc, reader),
            Matcher::Not(m) => m.test(loc, reader),
            Matcher::Until(m) => m.test(loc, reader),
            Matcher::Token(m) => m.test(loc, reader),
        }
    }
}

} // verus!
