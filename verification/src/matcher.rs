use vstd::prelude::*;
use std::rc::Rc;

verus! {

/// The number of line breaks in `text`.
pub open spec fn line_breaks(text: Seq<char>) -> nat
    decreases text.len(),
{
    if text.len() == 0 {
        0
    } else {
        line_breaks(text.drop_last()) + if text.last() == '\n' {
            1nat
        } else {
            0nat
        }
    }
}

/// The number of elements of `text` after its last line break, or in all of
/// it where it has none.
pub open spec fn last_line_len(text: Seq<char>) -> nat
    decreases text.len(),
{
    if text.len() == 0 || text.last() == '\n' {
        0
    } else {
        last_line_len(text.drop_last()) + 1
    }
}

/// The line breaks of a text and the elements of its last line are distinct
/// elements of it.
pub proof fn lemma_text_shape(text: Seq<char>)
    ensures
        line_breaks(text) + last_line_len(text) <= text.len(),
    decreases text.len(),
{
    if text.len() > 0 {
        lemma_text_shape(text.drop_last());
    }
}

/// Matcher that matches an exact text (like a keyword).
///
/// It measures its text once, when it is made, so that a match can move a
/// location past the text in one step.
#[derive(Debug)]
pub struct StrMatcher {
    value: &'static str,
    /// The number of elements of the text.
    width: usize,
    /// The number of line breaks in the text.
    delta_lines: usize,
    /// The number of elements on the last line of the text.
    delta_columns: usize,
}

impl StrMatcher {
    /// The text that the matcher matches.
    pub closed spec fn text(&self) -> Seq<char> {
        self.value@
    }

    #[verifier::type_invariant]
    spec fn measured(&self) -> bool {
        &&& self.width == self.value@.len()
        &&& self.delta_lines == line_breaks(self.value@)
        &&& self.delta_columns == last_line_len(self.value@)
    }

    pub fn new(value: &'static str) -> (matcher: Self)
        ensures
            matcher.text() == value@,
    {
        // Measure delta lines and delta columns only once
        let width = value.unicode_len();
        let mut delta_lines: usize = 0;
        let mut delta_columns: usize = 0;
        for c in it: value.chars()
            invariant
                it.seq() == value@,
                width == value@.len(),
                delta_lines == line_breaks(value@.take(it.index())),
                delta_columns == last_line_len(value@.take(it.index())),
        {
            proof {
                let before = value@.take(it.index());
                let after = value@.take(it.index() + 1);
                assert(after.drop_last() =~= before);
                lemma_text_shape(before);
            }
            if c == '\n' {
                delta_lines = delta_lines + 1;
                delta_columns = 0;
            } else {
                delta_columns = delta_columns + 1;
            }
        }
        assert(value@.take(value@.len() as int) =~= value@);
        StrMatcher { value, width, delta_lines, delta_columns }
    }

    /// The text that the matcher matches.
    pub fn value(&self) -> (value: &'static str)
        ensures
            value@ == self.text(),
    {
        self.value
    }

    /// The number of elements of the text.
    pub fn width(&self) -> (width: usize)
        ensures
            width == self.text().len(),
    {
        proof {
            use_type_invariant(self);
        }
        self.width
    }

    /// The number of lines that a match moves a location down.
    pub fn delta_lines(&self) -> (delta: usize)
        ensures
            delta == line_breaks(self.text()),
    {
        proof {
            use_type_invariant(self);
        }
        self.delta_lines
    }

    /// The number of columns that a match moves a location to the right,
    /// counted from the start of the line where the text holds a line break.
    pub fn delta_columns(&self) -> (delta: usize)
        ensures
            delta == last_line_len(self.text()),
    {
        proof {
            use_type_invariant(self);
        }
        self.delta_columns
    }
}

/// Matcher that matches chars within a range, both ends inclusive.
///
/// It does not support line breaks in the range: a match stays on its line.
#[derive(Debug)]
pub struct RangeMatcher {
    pub start: char,
    pub end: char,
    /// Min number of matching chars.
    pub min: u8,
    /// Max number of matching chars. If 0, considered as infinite.
    pub max: u8,
}

impl RangeMatcher {
    /// A matcher for a single char in the range.
    pub fn new(start: char, end: char) -> (matcher: Self)
        ensures
            matcher == (RangeMatcher { start, end, min: 1, max: 1 }),
    {
        Self { start, end, min: 1, max: 1 }
    }

    /// A matcher for at least `min` chars in the range, and as many as
    /// follow.
    pub fn at_least_n(start: char, end: char, min: u8) -> (matcher: Self)
        ensures
            matcher == (RangeMatcher { start, end, min, max: 0 }),
    {
        Self { start, end, min, max: 0 }
    }

    /// A matcher for at least `min` and at most `max` chars in the range.
    pub fn repeat_between(start: char, end: char, min: u8, max: u8) -> (matcher: Self)
        ensures
            matcher == (RangeMatcher { start, end, min, max }),
    {
        Self { start, end, min, max }
    }
}

/// Matcher that matches its children one after the other.
#[derive(Debug)]
pub struct SequentialMatcher {
    pub children: Vec<Rc<Matcher>>,
}

impl SequentialMatcher {
    pub fn new(children: Vec<Rc<Matcher>>) -> (matcher: Self)
        ensures
            matcher.children == children,
    {
        Self { children }
    }
}

/// Matcher that matches the first of its children that matches.
#[derive(Debug)]
pub struct ChoiceMatcher {
    pub children: Vec<Rc<Matcher>>,
}

impl ChoiceMatcher {
    pub fn new(children: Vec<Rc<Matcher>>) -> (matcher: Self)
        ensures
            matcher.children == children,
    {
        Self { children }
    }
}

/// Matcher that matches what its inner matcher matches, or nothing.
#[derive(Debug)]
pub struct OptionalMatcher {
    pub value: Rc<Matcher>,
}

impl OptionalMatcher {
    pub fn new(value: Rc<Matcher>) -> (matcher: Self)
        ensures
            matcher.value == value,
    {
        Self { value }
    }
}

/// Matcher that matches its inner matcher `min` times in a row, or more.
#[derive(Debug)]
pub struct RepetitionMatcher {
    pub value: Rc<Matcher>,
    pub min: u8,
}

impl RepetitionMatcher {
    pub fn new(value: Rc<Matcher>, min: u8) -> (matcher: Self)
        ensures
            matcher.value == value,
            matcher.min == min,
    {
        Self { value, min }
    }
}

/// Matcher that matches nothing, and only where its inner matcher does not
/// match.
#[derive(Debug)]
pub struct NotMatcher {
    pub value: Rc<Matcher>,
}

impl NotMatcher {
    pub fn new(value: Rc<Matcher>) -> (matcher: Self)
        ensures
            matcher.value == value,
    {
        Self { value }
    }
}

/// Matcher that matches as many chars as possible until its inner matcher
/// matches.
#[derive(Debug)]
pub struct UntilMatcher {
    pub until: Rc<Matcher>,
    pub min: usize,
}

impl UntilMatcher {
    pub fn new(until: Rc<Matcher>, min: usize) -> (matcher: Self)
        ensures
            matcher.until == until,
            matcher.min == min,
    {
        Self { until, min }
    }
}

/// Matcher that, where its inner matcher matches, consumes the input up to
/// the end of the match.
#[derive(Debug)]
pub struct TokenMatcher {
    pub value: Rc<Matcher>,
}

impl TokenMatcher {
    pub fn new(value: Rc<Matcher>) -> (matcher: Self)
        ensures
            matcher.value == value,
    {
        Self { value }
    }
}

/// A matcher of any kind.
///
/// Matchers form trees: a matcher that combines others holds shared handles
/// to them, so that one matcher can stand in many places of a grammar.
#[derive(Debug)]
pub enum Matcher {
    Str(StrMatcher),
    Range(RangeMatcher),
    Sequential(SequentialMatcher),
    Choice(ChoiceMatcher),
    Optional(OptionalMatcher),
    Repetition(RepetitionMatcher),
    Not(NotMatcher),
    Until(UntilMatcher),
    Token(TokenMatcher),
}

} // verus!
