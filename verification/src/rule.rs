use vstd::prelude::*;
use std::rc::Rc;
use crate::evaluate::agrees;
use crate::location::Location;
use crate::match_str::MatchStr;
use crate::matcher::{
    ChoiceMatcher, Matcher, OptionalMatcher, RangeMatcher, RepetitionMatcher, SequentialMatcher,
    StrMatcher,
};
use crate::parse_result::ParseResult;
use crate::render::render_matcher;
use crate::semantics::{has_room, test_matcher};

verus! {

/// A rule wraps a matcher and gives it helper functions for clearer grammar
/// definition.
///
/// A rule is a shared handle: the rules built from it hold the same matcher,
/// not a copy of it.
#[derive(Debug)]
pub struct Rule {
    pub matcher: Rc<Matcher>,
}

impl Rule {
    /// Creates a new rule from a matcher.
    pub fn new(matcher: Rc<Matcher>) -> (rule: Self)
        ensures
            rule.matcher == matcher,
    {
        Self { matcher }
    }

    /// Matches an exact text.
    pub fn word(word: &'static str) -> (rule: Self)
        ensures
            *rule.matcher matches Matcher::Str(m) && m.text() == word@,
    {
        Self::new(Rc::new(Matcher::Str(StrMatcher::new(word))))
    }

    /// Matches one char within a range.
    pub fn range(start: char, end: char) -> (rule: Self)
        ensures
            *rule.matcher == Matcher::Range(RangeMatcher { start, end, min: 1, max: 1 }),
    {
        Self::new(Rc::new(Matcher::Range(RangeMatcher::new(start, end))))
    }

    /// The matchers of `rules`, in order.
    fn matchers_of(rules: &Vec<&Self>) -> (matchers: Vec<Rc<Matcher>>)
        ensures
            matchers@.len() == rules@.len(),
            forall|i: int| 0 <= i < rules@.len() ==> matchers@[i] == rules@[i].matcher,
    {
        let mut matchers: Vec<Rc<Matcher>> = Vec::new();
        let mut i: usize = 0;
        while i < rules.len()
            invariant
                i <= rules@.len(),
                matchers@.len() == i,
                forall|j: int| 0 <= j < i ==> matchers@[j] == rules@[j].matcher,
            decreases rules@.len() - i,
        {
            matchers.push(rules[i].matcher.clone());
            i = i + 1;
        }
        matchers
    }

    /// Matches a sequence of rules.
    pub fn seq(rules: Vec<&Self>) -> (rule: Self)
        ensures
            *rule.matcher matches Matcher::Sequential(m) && m.children@.len() == rules@.len()
                && forall|i: int| 0 <= i < rules@.len() ==> m.children@[i] == rules@[i].matcher,
    {
        // Get all underlying matchers
        let matchers = Self::matchers_of(&rules);
        Self::new(Rc::new(Matcher::Sequential(SequentialMatcher::new(matchers))))
    }

    /// Chooses between several rules.
    pub fn choice(rules: Vec<&Self>) -> (rule: Self)
        ensures
            *rule.matcher matches Matcher::Choice(m) && m.children@.len() == rules@.len()
                && forall|i: int| 0 <= i < rules@.len() ==> m.children@[i] == rules@[i].matcher,
    {
        // Get all underlying matchers
        let matchers = Self::matchers_of(&rules);
        Self::new(Rc::new(Matcher::Choice(ChoiceMatcher::new(matchers))))
    }

    /// Repeats the rule at least `n` times.
    pub fn at_least(&self, n: u8) -> (rule: Self)
        ensures
            *rule.matcher == Matcher::Repetition(
                RepetitionMatcher { value: self.matcher, min: n },
            ),
    {
        let repeat = RepetitionMatcher::new(self.matcher.clone(), n);
        Self { matcher: Rc::new(Matcher::Repetition(repeat)) }
    }

    /// Makes the rule optional.
    pub fn optional(&self) -> (rule: Self)
        ensures
            *rule.matcher == Matcher::Optional(OptionalMatcher { value: self.matcher }),
    {
        let optional = OptionalMatcher::new(self.matcher.clone());
        Self { matcher: Rc::new(Matcher::Optional(optional)) }
    }

    /// Tests the matcher of the rule at `loc`.
    pub fn test<R: MatchStr>(&self, loc: &Location, reader: &mut R) -> (result: ParseResult)
        requires
            old(reader).wf(),
            has_room(*loc, old(reader).state().input.len()),
        ensures
            final(reader).wf(),
            agrees(
                old(reader).state(),
                final(reader).state(),
                result,
                *loc,
                test_matcher(*self.matcher, old(reader).state(), *loc),
            ),
    {
        self.matcher.test(loc, reader)
    }

    /// The rule as it is written: its matcher.
    pub fn to_string(&self) -> (text: String)
        ensures
            text@ == render_matcher(*self.matcher),
    {
        self.matcher.to_string()
    }
}

} // verus!
