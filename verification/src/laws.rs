use vstd::prelude::*;
use std::rc::Rc;
use crate::location::Location;
use crate::match_str::{lemma_run_length_bounds, occurs_at, range_limit, run_length};
use crate::matcher::{
    lemma_text_shape, ChoiceMatcher, Matcher, NotMatcher, OptionalMatcher, RangeMatcher,
    RepetitionMatcher, SequentialMatcher, StrMatcher, TokenMatcher, UntilMatcher,
};
use crate::parse_result::matched_empty;
use crate::parser_error::ParserError;
use crate::semantics::{
    cursor_after_token, has_room, is_pure, pure_choice, pure_sequence, reached, rounds_until_no_match, sound, test_choice,
    test_matcher, test_not, test_optional, test_range, test_repetition, test_sequence, test_str,
    test_token, test_until, Outcome,
};
use crate::stream::StreamState;

verus! {

/// Whether `outcome` is one that a test at `loc` on a reader in state `st`
/// can have: a match starts at `loc` and ends at a location reached from
/// it, the cursor has not moved back, and it has not moved at all where
/// `pure` holds.
pub open spec fn behaves(outcome: Outcome, st: StreamState<char>, loc: Location, pure: bool) -> bool {
    &&& sound(outcome.0, loc, st.input.len())
    &&& outcome.1 >= st.cursor
    &&& pure ==> outcome.1 == st.cursor
}

/// The matcher behind a handle.
pub open spec fn held(handle: Rc<Matcher>) -> Matcher {
    *handle
}

/// In a sequence whose first `upto` children hold no token matcher, a child
/// among them holds none.
pub proof fn lemma_pure_sequence(matcher: SequentialMatcher, upto: nat, child: nat)
    requires
        pure_sequence(matcher, upto),
        child < upto,
    ensures
        is_pure(*matcher.children@[child as int]),
    decreases upto,
{
    if child + 1 < upto {
        lemma_pure_sequence(matcher, (upto - 1) as nat, child);
    }
}

/// In a choice whose first `upto` children hold no token matcher, a child
/// among them holds none.
pub proof fn lemma_pure_choice(matcher: ChoiceMatcher, upto: nat, child: nat)
    requires
        pure_choice(matcher, upto),
        child < upto,
    ensures
        is_pure(*matcher.children@[child as int]),
    decreases upto,
{
    if child + 1 < upto {
        lemma_pure_choice(matcher, (upto - 1) as nat, child);
    }
}

/// Every test behaves: what matches starts where the test was asked for and
/// ends at or after it within the input, the cursor of the reader never
/// moves back, and only a token matcher moves it.
pub proof fn lemma_test_matcher(matcher: Matcher, st: StreamState<char>, loc: Location)
    requires
        st.input.len() <= usize::MAX,
        has_room(loc, st.input.len()),
    ensures
        behaves(test_matcher(matcher, st, loc), st, loc, is_pure(matcher)),
    decreases matcher, 0nat,
{
    match matcher {
        Matcher::Str(m) => {
            lemma_text_shape(m.text());
        },
        Matcher::Range(m) => {
            lemma_run_length_bounds(st.input, loc.index as nat, m.start, m.end, range_limit(m.max));
        },
        Matcher::Sequential(m) => {
            lemma_test_sequence(m, st, loc, loc, 0);
        },
        Matcher::Choice(m) => {
            lemma_test_choice(m, st, loc, 0);
        },
        Matcher::Optional(m) => {
            lemma_test_matcher(held(m.value), st, loc);
        },
        Matcher::Repetition(m) => {
            lemma_test_repetition(m, st, loc, loc, 0);
        },
        Matcher::Not(m) => {
            lemma_test_matcher(held(m.value), st, loc);
        },
        Matcher::Until(m) => {
            lemma_test_until(m, st, loc, loc, 0);
        },
        Matcher::Token(m) => {
            lemma_test_matcher(held(m.value), st, loc);
        },
    }
}

/// A sequence that has matched from `start` up to `loc` behaves from there
/// on.
pub proof fn lemma_test_sequence(
    matcher: SequentialMatcher,
    st: StreamState<char>,
    start: Location,
    loc: Location,
    from: nat,
)
    requires
        st.input.len() <= usize::MAX,
        has_room(start, st.input.len()),
        reached(start, loc, st.input.len()),
    ensures
        behaves(
            test_sequence(matcher, st, start, loc, from),
            st,
            start,
            is_pure(Matcher::Sequential(matcher)),
        ),
    decreases matcher, matcher.children@.len() - from,
{
    if from < matcher.children@.len() {
        let child = held(matcher.children@[from as int]);
        lemma_test_matcher(child, st, loc);
        let (result, cursor) = test_matcher(child, st, loc);
        if is_pure(Matcher::Sequential(matcher)) {
            lemma_pure_sequence(matcher, matcher.children@.len(), from);
        }
        if let Ok(Some(info)) = result {
            lemma_test_sequence(matcher, st.at(cursor), start, info.span.end, from + 1);
        }
    }
}

/// A choice whose first children have not matched behaves from the next
/// child on.
pub proof fn lemma_test_choice(
    matcher: ChoiceMatcher,
    st: StreamState<char>,
    loc: Location,
    from: nat,
)
    requires
        st.input.len() <= usize::MAX,
        has_room(loc, st.input.len()),
    ensures
        behaves(test_choice(matcher, st, loc, from), st, loc, is_pure(Matcher::Choice(matcher))),
    decreases matcher, matcher.children@.len() - from,
{
    if from < matcher.children@.len() {
        let child = held(matcher.children@[from as int]);
        lemma_test_matcher(child, st, loc);
        let (result, cursor) = test_matcher(child, st, loc);
        if is_pure(Matcher::Choice(matcher)) {
            lemma_pure_choice(matcher, matcher.children@.len(), from);
        }
        if let Ok(None) = result {
            lemma_test_choice(matcher, st.at(cursor), loc, from + 1);
        }
    }
}

/// A repetition that has matched from `start` up to `loc` behaves from
/// there on.
pub proof fn lemma_test_repetition(
    matcher: RepetitionMatcher,
    st: StreamState<char>,
    start: Location,
    loc: Location,
    count: nat,
)
    requires
        st.input.len() <= usize::MAX,
        has_room(start, st.input.len()),
        reached(start, loc, st.input.len()),
    ensures
        behaves(
            test_repetition(matcher, st, start, loc, count),
            st,
            start,
            is_pure(*matcher.value),
        ),
    decreases matcher, st.input.len() - loc.index,
{
    lemma_test_matcher(held(matcher.value), st, loc);
    let (result, cursor) = test_matcher(held(matcher.value), st, loc);
    if let Ok(Some(info)) = result {
        if loc.index < info.span.end.index <= st.input.len() {
            lemma_test_repetition(matcher, st.at(cursor), start, info.span.end, count + 1);
        }
    }
}

/// An until-matcher that has passed from `start` up to `loc` behaves from
/// there on.
pub proof fn lemma_test_until(
    matcher: UntilMatcher,
    st: StreamState<char>,
    start: Location,
    loc: Location,
    count: nat,
)
    requires
        st.input.len() <= usize::MAX,
        has_room(start, st.input.len()),
        reached(start, loc, st.input.len()),
    ensures
        behaves(test_until(matcher, st, start, loc, count), st, start, is_pure(*matcher.until)),
    decreases matcher, st.input.len() - loc.index,
{
    lemma_test_matcher(held(matcher.until), st, loc);
    let (result, cursor) = test_matcher(held(matcher.until), st, loc);
    if let Ok(None) = result {
        let now = st.at(cursor);
        if let Ok(false) = now.is_end_of_input_at(loc.index as nat) {
            if let Ok(newline) = now.is_newline_at(loc.index as nat) {
                let next = if newline {
                    loc.next_line()
                } else {
                    loc.shifted(1)
                };
                if loc.index < next.index <= st.input.len() {
                    lemma_test_until(matcher, now, start, next, count + 1);
                }
            }
        }
    }
}

/// A text matcher, asked at a location that the reader can look at, matches
/// if and only if its text stands in the input at the index of the
/// location. The match then starts at the location and is as long as the
/// text.
pub proof fn law_literal_matches_its_text(matcher: StrMatcher, st: StreamState<char>, loc: Location)
    requires
        st.input.len() <= usize::MAX,
        st.query_error(loc.index as nat, matcher.text().len()) is None,
    ensures
        test_str(matcher, st, loc).0 is Ok,
        test_str(matcher, st, loc).0 matches Ok(found) && (found is Some <==> occurs_at(
            st.input,
            loc.index as nat,
            matcher.text(),
        )),
        test_str(matcher, st, loc).0 matches Ok(Some(info)) ==> info.span.start == loc
            && info.span.end.index - info.span.start.index == matcher.text().len() && info.len
            == matcher.text().len(),
{
}

/// A range matcher that matches has counted between its minimum and its
/// maximum, where it has one; it does not match if and only if the reader
/// can count the run and the run is shorter than the minimum.
pub proof fn law_range_counts_within_bounds(matcher: RangeMatcher, st: StreamState<char>, loc: Location)
    requires
        st.input.len() <= usize::MAX,
    ensures
        ({
            let run = run_length(
                st.input,
                loc.index as nat,
                matcher.start,
                matcher.end,
                range_limit(matcher.max),
            );
            let result = test_range(matcher, st, loc).0;
            &&& result matches Ok(Some(info)) ==> {
                &&& info.len == run
                &&& info.span.end.index - info.span.start.index == run
                &&& matcher.min <= info.len
                &&& matcher.max == 0 || info.len <= matcher.max
            }
            &&& result == Ok::<Option<crate::parse_info::ParseInfo>, ParserError>(None) <==> ({
                &&& st.match_range_at(loc.index as nat, matcher.start, matcher.end, matcher.max) is Ok
                &&& run < matcher.min
            })
        }),
{
    lemma_run_length_bounds(
        st.input,
        loc.index as nat,
        matcher.start,
        matcher.end,
        range_limit(matcher.max),
    );
}

/// Choice is ordered: where its first child matches, the choice matches
/// from the location of the test to the end of that match, whatever the
/// other children would match.
pub proof fn law_choice_takes_first_match(matcher: ChoiceMatcher, st: StreamState<char>, loc: Location)
    requires
        st.input.len() <= usize::MAX,
        has_room(loc, st.input.len()),
        matcher.children@.len() > 0,
        test_matcher(*matcher.children@[0], st, loc).0 matches Ok(Some(_)),
    ensures
        test_choice(matcher, st, loc, 0).0 matches Ok(Some(info)) && info.span == (test_matcher(
            *matcher.children@[0],
            st,
            loc,
        ).0->Ok_0->Some_0).span,
        test_choice(matcher, st, loc, 0).1 == test_matcher(*matcher.children@[0], st, loc).1,
{
    lemma_test_matcher(held(matcher.children@[0]), st, loc);
}

/// An optional matcher gives an error only where its inner matcher gives
/// it, and never gives no match.
pub proof fn law_optional_always_matches(matcher: OptionalMatcher, st: StreamState<char>, loc: Location)
    ensures
        !(test_optional(matcher, st, loc).0 matches Ok(None)),
        test_optional(matcher, st, loc).0 is Err ==> test_optional(matcher, st, loc).0
            == test_matcher(*matcher.value, st, loc).0,
        test_matcher(*matcher.value, st, loc).0 is Err ==> test_optional(matcher, st, loc).0
            == test_matcher(*matcher.value, st, loc).0,
{
}

/// A negation gives an error only where its inner matcher gives it.
pub proof fn law_not_keeps_errors(matcher: NotMatcher, st: StreamState<char>, loc: Location)
    ensures
        test_not(matcher, st, loc).0 is Err ==> test_not(matcher, st, loc).0 == test_matcher(
            *matcher.value,
            st,
            loc,
        ).0,
        test_matcher(*matcher.value, st, loc).0 is Err ==> test_not(matcher, st, loc).0
            == test_matcher(*matcher.value, st, loc).0,
{
}

/// A repetition that stands at `loc` after `count` rounds gives no match if
/// and only if it meets a place where its inner matcher does not match
/// before it has its minimum of rounds.
pub proof fn lemma_repetition_fails(
    matcher: RepetitionMatcher,
    st: StreamState<char>,
    start: Location,
    loc: Location,
    count: nat,
)
    ensures
        test_repetition(matcher, st, start, loc, count).0 matches Ok(None) <==> (
        rounds_until_no_match(matcher, st, loc) matches Some(rounds) && count + rounds
            < matcher.min),
    decreases st.input.len() - loc.index,
{
    let (result, cursor) = test_matcher(held(matcher.value), st, loc);
    if let Ok(Some(info)) = result {
        if loc.index < info.span.end.index <= st.input.len() {
            lemma_repetition_fails(matcher, st.at(cursor), start, info.span.end, count + 1);
        }
    }
}

/// A repetition with a minimum of 0 never gives no match. One with a
/// greater minimum gives no match if and only if its inner matcher matches
/// fewer times in a row than the minimum and then does not match.
pub proof fn law_repetition_minimum(matcher: RepetitionMatcher, st: StreamState<char>, loc: Location)
    ensures
        matcher.min == 0 ==> !(test_repetition(matcher, st, loc, loc, 0).0 matches Ok(None)),
        test_repetition(matcher, st, loc, loc, 0).0 matches Ok(None) <==> (rounds_until_no_match(
            matcher,
            st,
            loc,
        ) matches Some(rounds) && rounds < matcher.min),
{
    lemma_repetition_fails(matcher, st, loc, loc, 0);
}

/// Sequence is associative: a sequence of the sequence of `a` and `b` and
/// then `c` gives what a sequence of `a` and then the sequence of `b` and
/// `c` gives, result and cursor.
pub proof fn law_sequence_is_associative(
    left: SequentialMatcher,
    right: SequentialMatcher,
    a: Rc<Matcher>,
    b: Rc<Matcher>,
    c: Rc<Matcher>,
    st: StreamState<char>,
    loc: Location,
)
    requires
        left.children@.len() == 2,
        *left.children@[0] matches Matcher::Sequential(first) && first.children@ == seq![a, b],
        left.children@[1] == c,
        right.children@.len() == 2,
        right.children@[0] == a,
        *right.children@[1] matches Matcher::Sequential(second) && second.children@ == seq![b, c],
    ensures
        test_sequence(left, st, loc, loc, 0) == test_sequence(right, st, loc, loc, 0),
{
    reveal_with_fuel(test_sequence, 4);
    let first = held(left.children@[0])->Sequential_0;
    let second = held(right.children@[1])->Sequential_0;
    let (ra, ca) = test_matcher(held(a), st, loc);
    assert(test_matcher(held(left.children@[0]), st, loc) == test_sequence(first, st, loc, loc, 0));
    if let Ok(Some(ia)) = ra {
        let (rb, cb) = test_matcher(held(b), st.at(ca), ia.span.end);
        assert(test_matcher(held(right.children@[1]), st.at(ca), ia.span.end) == test_sequence(
            second,
            st.at(ca),
            ia.span.end,
            ia.span.end,
            0,
        ));
        if let Ok(Some(ib)) = rb {
            let (rc, cc) = test_matcher(held(c), st.at(ca).at(cb), ib.span.end);
            assert(st.at(ca).at(cb) == st.at(cb));
        }
    }
}

/// A token matcher over an inner matcher that holds no token moves the
/// cursor only where the inner matcher matches, and then up to the end of
/// the match: where the inner matcher does not match, the cursor stays and
/// the token matches nothing.
pub proof fn law_token_moves_cursor_on_match(matcher: TokenMatcher, st: StreamState<char>, loc: Location)
    requires
        st.input.len() <= usize::MAX,
        has_room(loc, st.input.len()),
        is_pure(*matcher.value),
    ensures
        test_matcher(*matcher.value, st, loc).0 matches Ok(None) ==> test_token(matcher, st, loc)
            == (matched_empty(loc), st.cursor),
        test_matcher(*matcher.value, st, loc).0 matches Ok(Some(info)) ==> test_token(
            matcher,
            st,
            loc,
        ).1 == cursor_after_token(st, info.span.end.index as nat),
        test_matcher(*matcher.value, st, loc).0 matches Ok(Some(info)) ==> (st.cursor
            < info.span.end.index <= st.input.len() && (st.window matches Some(w)
            ==> info.span.end.index - st.cursor <= w) ==> test_token(matcher, st, loc).1
            == info.span.end.index),
{
    lemma_test_matcher(held(matcher.value), st, loc);
}

/// Two tests of a token matcher in a row, the second on the reader as the
/// first left it: where both inner tests match ahead of the cursor and
/// within the window, the cursor stands at the end of the first match after
/// the first test and at the end of the second match after the second;
/// where the second inner test does not match, the second test leaves the
/// cursor where the first left it.
pub proof fn law_token_twice(
    matcher: TokenMatcher,
    st: StreamState<char>,
    first: Location,
    second: Location,
)
    requires
        st.input.len() <= usize::MAX,
        has_room(first, st.input.len()),
        has_room(second, st.input.len()),
        is_pure(*matcher.value),
    ensures
        ({
            let after_first = test_token(matcher, st, first).1;
            let after_second = test_token(matcher, st.at(after_first), second).1;
            let inner_first = test_matcher(*matcher.value, st, first).0;
            let inner_second = test_matcher(*matcher.value, st.at(after_first), second).0;
            &&& inner_second matches Ok(None) ==> after_second == after_first
            &&& (inner_first matches Ok(Some(one)) && inner_second matches Ok(Some(two))
                && st.cursor < one.span.end.index < two.span.end.index <= st.input.len() && (
            st.window matches Some(
                w,
            ) ==> one.span.end.index - st.cursor <= w && two.span.end.index - one.span.end.index
                <= w)) ==> after_first == inner_first->Ok_0->Some_0.span.end.index && after_second
                == inner_second->Ok_0->Some_0.span.end.index
        }),
{
    lemma_test_matcher(held(matcher.value), st, first);
    let after_first = test_token(matcher, st, first).1;
    lemma_test_matcher(held(matcher.value), st.at(after_first), second);
}

/// A query for a text fails for looking behind if and only if it starts
/// before the cursor, and for looking too far ahead if and only if it
/// starts at or after the cursor and, measured from the cursor, ends at or
/// beyond the size of the window.
pub proof fn law_window_errors(st: StreamState<char>, pos: nat, text: Seq<char>)
    ensures
        st.match_str_at(pos, text) matches Err(ParserError::NoLookBehind(_)) <==> pos < st.cursor,
        st.match_str_at(pos, text) matches Err(ParserError::LookAheadBufferOverflow(_)) <==> (
        st.window matches Some(capacity) && pos >= st.cursor && pos - st.cursor + text.len()
            >= capacity),
        st.match_str_at(pos, text) is Err ==> st.match_str_at(pos, text) matches Err(
            ParserError::NoLookBehind(_),
        ) || st.match_str_at(pos, text) matches Err(ParserError::LookAheadBufferOverflow(_)),
{
}

} // verus!
