use vstd::prelude::*;
use crate::evaluate::agrees;
use crate::grammar::Grammar;
use crate::location::Location;
use crate::match_str::MatchStr;
use crate::matcher::{
    ChoiceMatcher, Matcher, NotMatcher, OptionalMatcher, RangeMatcher, RepetitionMatcher,
    SequentialMatcher, StrMatcher, TokenMatcher, UntilMatcher,
};
use crate::parse_result::ParseResult;
use crate::rule::Rule;
use crate::semantics::{
    has_room, test_choice, test_matcher, test_not, test_optional, test_range, test_repetition,
    test_sequence, test_str, test_token, test_until, Outcome,
};
use crate::stream::StreamState;

verus! {

/// A matcher tells how to analyse a specific part of the input.
///
/// What can be tested against a reader: every kind of matcher, a rule and
/// a grammar.
pub trait MatchToken {
    /// What a test at `loc` gives for a reader in state `st`.
    spec fn expected(&self, st: StreamState<char>, loc: Location) -> Outcome;

    /// Compares this matcher to the input at the given location in the
    /// reader.
    ///
    /// Returns the match, if there is one. Hands on the errors of the
    /// reader.
    fn test<R: MatchStr>(&self, loc: &Location, reader: &mut R) -> (result: ParseResult)
        requires
            old(reader).wf(),
            has_room(*loc, old(reader).state().input.len()),
        ensures
            final(reader).wf(),
            agrees(
                old(reader).state(),
                final(reader).state(),
                result,
                *loc,
                self.expected(old(reader).state(), *loc),
            ),
    ;
}

impl MatchToken for StrMatcher {
    open spec fn expected(&self, st: StreamState<char>, loc: Location) -> Outcome {
        test_str(*self, st, loc)
    }

    fn test<R: MatchStr>(&self, loc: &Location, reader: &mut R) -> (result: ParseResult) {
        StrMatcher::test(self, loc, reader)
    }
}

impl MatchToken for RangeMatcher {
    open spec fn expected(&self, st: StreamState<char>, loc: Location) -> Outcome {
        test_range(*self, st, loc)
    }

    fn test<R: MatchStr>(&self, loc: &Location, reader: &mut R) -> (result: ParseResult) {
        RangeMatcher::test(self, loc, reader)
    }
}

impl MatchToken for SequentialMatcher {
    open spec fn expected(&self, st: StreamState<char>, loc: Location) -> Outcome {
        test_sequence(*self, st, loc, loc, 0)
    }

    fn test<R: MatchStr>(&self, loc: &Location, reader: &mut R) -> (result: ParseResult) {
        SequentialMatcher::test(self, loc, reader)
    }
}

impl MatchToken for ChoiceMatcher {
    open spec fn expected(&self, st: StreamState<char>, loc: Location) -> Outcome {
        test_choice(*self, st, loc, 0)
    }

    fn test<R: MatchStr>(&self, loc: &Location, reader: &mut R) -> (result: ParseResult) {
        ChoiceMatcher::test(self, loc, reader)
    }
}

impl MatchToken for OptionalMatcher {
    open spec fn expected(&self, st: StreamState<char>, loc: Location) -> Outcome {
        test_optional(*self, st, loc)
    }

    fn test<R: MatchStr>(&self, loc: &Location, reader: &mut R) -> (result: ParseResult) {
        OptionalMatcher::test(self, loc, reader)
    }
}

impl MatchToken for RepetitionMatcher {
    open spec fn expected(&self, st: StreamState<char>, loc: Location) -> Outcome {
        test_repetition(*self, st, loc, loc, 0)
    }

    fn test<R: MatchStr>(&self, loc: &Location, reader: &mut R) -> (result: ParseResult) {
        RepetitionMatcher::test(self, loc, reader)
    }
}

impl MatchToken for NotMatcher {
    open spec fn expected(&self, st: StreamState<char>, loc: Location) -> Outcome {
        test_not(*self, st, loc)
    }

    fn test<R: MatchStr>(&self, loc: &Location, reader: &mut R) -> (result: ParseResult) {
        NotMatcher::test(self, loc, reader)
    }
}

impl MatchToken for UntilMatcher {
    open spec fn expected(&self, st: StreamState<char>, loc: Location) -> Outcome {
        test_until(*self, st, loc, loc, 0)
    }

    fn test<R: MatchStr>(&self, loc: &Location, reader: &mut R) -> (result: ParseResult) {
        UntilMatcher::test(self, loc, reader)
    }
}

impl MatchToken for TokenMatcher {
    open spec fn expected(&self, st: StreamState<char>, loc: Location) -> Outcome {
        test_token(*self, st, loc)
    }

    fn test<R: MatchStr>(&self, loc: &Location, reader: &mut R) -> (result: ParseResult) {
        TokenMatcher::test(self, loc, reader)
    }
}

impl MatchToken for Matcher {
    open spec fn expected(&self, st: StreamState<char>, loc: Location) -> Outcome {
        test_matcher(*self, st, loc)
    }

    fn test<R: MatchStr>(&self, loc: &Location, reader: &mut R) -> (result: ParseResult) {
        Matcher::test(self, loc, reader)
    }
}

impl MatchToken for Rule {
    open spec fn expected(&self, st: StreamState<char>, loc: Location) -> Outcome {
        test_matcher(*self.matcher, st, loc)
    }

    fn test<R: MatchStr>(&self, loc: &Location, reader: &mut R) -> (result: ParseResult) {
        Rule::test(self, loc, reader)
    }
}

impl MatchToken for Grammar {
    open spec fn expected(&self, st: StreamState<char>, loc: Location) -> Outcome {
        self.outcome(st, loc)
    }

    fn test<R: MatchStr>(&self, loc: &Location, reader: &mut R) -> (result: ParseResult) {
        Grammar::test(self, loc, reader)
    }
}

} // verus!
