use vstd::prelude::*;
use crate::matcher::{
    ChoiceMatcher, Matcher, NotMatcher, OptionalMatcher, RangeMatcher, RepetitionMatcher,
    SequentialMatcher, StrMatcher, TokenMatcher, UntilMatcher,
};

verus! {

/// `String::push` of the standard library appends one char to the end of a
/// string. The contract says so of the string's chars.
pub assume_specification[ String::push ](s: &mut String, ch: char)
    ensures
        final(s)@ == old(s)@.push(ch),
;

/// The decimal digit for `d`, which is below ten.
pub open spec fn digit(d: nat) -> char {
    if d == 0 {
        '0'
    } else if d == 1 {
        '1'
    } else if d == 2 {
        '2'
    } else if d == 3 {
        '3'
    } else if d == 4 {
        '4'
    } else if d == 5 {
        '5'
    } else if d == 6 {
        '6'
    } else if d == 7 {
        '7'
    } else if d == 8 {
        '8'
    } else {
        '9'
    }
}

/// `n` written in decimal digits, without leading zeros.
pub open spec fn decimal(n: nat) -> Seq<char>
    decreases n,
{
    if n < 10 {
        seq![digit(n)]
    } else {
        decimal(n / 10).push(digit(n % 10))
    }
}

/// How a char is written inside a quoted text: line feed, carriage return,
/// tab, the null char, the double quote and the backslash are written as a
/// backslash and a letter or the char itself; every other char is written
/// as it is.
pub open spec fn escaped(c: char) -> Seq<char> {
    if c == '\n' {
        seq!['\\', 'n']
    } else if c == '\r' {
        seq!['\\', 'r']
    } else if c == '\t' {
        seq!['\\', 't']
    } else if c == '\0' {
        seq!['\\', '0']
    } else if c == '"' {
        seq!['\\', '"']
    } else if c == '\\' {
        seq!['\\', '\\']
    } else {
        seq![c]
    }
}

/// `text` with each of its chars written as inside a quoted text.
pub open spec fn escaped_text(text: Seq<char>) -> Seq<char>
    decreases text.len(),
{
    if text.len() == 0 {
        Seq::empty()
    } else {
        escaped_text(text.drop_last()) + escaped(text.last())
    }
}

/// The mark of a repetition of at least `min` rounds: `*` for none, `+` for
/// one, and `{min,...}` for more.
pub open spec fn repetition_mark(min: nat) -> Seq<char> {
    if min == 0 {
        seq!['*']
    } else if min == 1 {
        seq!['+']
    } else {
        seq!['{'] + decimal(min) + seq![',', '.', '.', '.', '}']
    }
}

/// A text matcher is written as its text in double quotes.
pub open spec fn render_str(matcher: StrMatcher) -> Seq<char> {
    seq!['"'] + escaped_text(matcher.text()) + seq!['"']
}

/// A range matcher is written as its two ends in square brackets.
pub open spec fn render_range(matcher: RangeMatcher) -> Seq<char> {
    seq!['[', matcher.start, '-', matcher.end, ']']
}

/// How a matcher is written.
pub open spec fn render_matcher(matcher: Matcher) -> Seq<char>
    decreases matcher, 0nat,
{
    match matcher {
        Matcher::Str(m) => render_str(m),
        Matcher::Range(m) => render_range(m),
        Matcher::Sequential(m) => render_sequence(m),
        Matcher::Choice(m) => render_choice(m),
        Matcher::Optional(m) => render_optional(m),
        Matcher::Repetition(m) => render_repetition(m),
        Matcher::Not(m) => render_not(m),
        Matcher::Until(m) => render_until(m),
        Matcher::Token(m) => render_token(m),
    }
}

/// The first `upto` children of a sequence, with a space between each two.
pub open spec fn join_sequence(matcher: SequentialMatcher, upto: nat) -> Seq<char>
    decreases matcher, upto,
{
    if upto == 0 || upto > matcher.children@.len() {
        Seq::empty()
    } else if upto == 1 {
        render_matcher(*matcher.children@[0])
    } else {
        join_sequence(matcher, (upto - 1) as nat) + seq![' '] + render_matcher(
            *matcher.children@[upto - 1],
        )
    }
}

/// A sequence is written as its children in parentheses, with a space
/// between each two.
pub open spec fn render_sequence(matcher: SequentialMatcher) -> Seq<char>
    decreases matcher, matcher.children@.len() + 1,
{
    seq!['('] + join_sequence(matcher, matcher.children@.len()) + seq![')']
}

/// The first `upto` children of a choice, with a bar between each two.
pub open spec fn join_choice(matcher: ChoiceMatcher, upto: nat) -> Seq<char>
    decreases matcher, upto,
{
    if upto == 0 || upto > matcher.children@.len() {
        Seq::empty()
    } else if upto == 1 {
        render_matcher(*matcher.children@[0])
    } else {
        join_choice(matcher, (upto - 1) as nat) + seq![' ', '|', ' '] + render_matcher(
            *matcher.children@[upto - 1],
        )
    }
}

/// A choice is written as its children in parentheses, with a bar between
/// each two.
pub open spec fn render_choice(matcher: ChoiceMatcher) -> Seq<char>
    decreases matcher, matcher.children@.len() + 1,
{
    seq!['('] + join_choice(matcher, matcher.children@.len()) + seq![')']
}

/// An optional matcher is written as its inner matcher and a question mark.
pub open spec fn render_optional(matcher: OptionalMatcher) -> Seq<char>
    decreases matcher, 0nat,
{
    render_matcher(*matcher.value).push('?')
}

/// A repetition is written as its inner matcher and the mark of its
/// minimum.
pub open spec fn render_repetition(matcher: RepetitionMatcher) -> Seq<char>
    decreases matcher, 0nat,
{
    render_matcher(*matcher.value) + repetition_mark(matcher.min as nat)
}

/// A negation is written as an exclamation mark and its inner matcher, in
/// parentheses.
pub open spec fn render_not(matcher: NotMatcher) -> Seq<char>
    decreases matcher, 0nat,
{
    seq!['(', '!'] + render_matcher(*matcher.value) + seq![')']
}

/// An until-matcher is written as the repetition of the negation of its
/// inner matcher.
pub open spec fn render_until(matcher: UntilMatcher) -> Seq<char>
    decreases matcher, 0nat,
{
    seq!['(', '!'] + render_matcher(*matcher.until) + seq![')'] + repetition_mark(
        matcher.min as nat,
    )
}

/// A token matcher is written as its inner matcher.
pub open spec fn render_token(matcher: TokenMatcher) -> Seq<char>
    decreases matcher, 0nat,
{
    render_matcher(*matcher.value)
}

/// The decimal digit for `d`.
fn digit_of(d: usize) -> (c: char)
    requires
        d < 10,
    ensures
        c == digit(d as nat),
{
    if d == 0 {
        '0'
    } else if d == 1 {
        '1'
    } else if d == 2 {
        '2'
    } else if d == 3 {
        '3'
    } else if d == 4 {
        '4'
    } else if d == 5 {
        '5'
    } else if d == 6 {
        '6'
    } else if d == 7 {
        '7'
    } else if d == 8 {
        '8'
    } else {
        '9'
    }
}

/// Appends `n` in decimal digits to `out`.
pub fn push_decimal(out: &mut String, n: usize)
    ensures
        final(out)@ == old(out)@ + decimal(n as nat),
    decreases n,
{
    if n >= 10 {
        push_decimal(out, n / 10);
    }
    out.push(digit_of(n % 10));
}

/// Appends `c` to `out` as it is written inside a quoted text.
fn push_escaped(out: &mut String, c: char)
    ensures
        final(out)@ == old(out)@ + escaped(c),
{
    if c == '\n' {
        out.push('\\');
        out.push('n');
    } else if c == '\r' {
        out.push('\\');
        out.push('r');
    } else if c == '\t' {
        out.push('\\');
        out.push('t');
    } else if c == '\0' {
        out.push('\\');
        out.push('0');
    } else if c == '"' {
        out.push('\\');
        out.push('"');
    } else if c == '\\' {
        out.push('\\');
        out.push('\\');
    } else {
        out.push(c);
    }
    assert(out@ =~= old(out)@ + escaped(c));
}

/// Appends the mark of a repetition of at least `min` rounds to `out`.
fn push_repetition_mark(out: &mut String, min: usize)
    ensures
        final(out)@ == old(out)@ + repetition_mark(min as nat),
{
    if min == 0 {
        out.push('*');
    } else if min == 1 {
        out.push('+');
    } else {
        out.push('{');
        push_decimal(out, min);
        out.push(',');
        out.push('.');
        out.push('.');
        out.push('.');
        out.push('}');
    }
    assert(out@ =~= old(out)@ + repetition_mark(min as nat));
}

impl StrMatcher {
    /// Appends the matcher, as it is written, to `out`.
    pub fn render_into(&self, out: &mut String)
        ensures
            final(out)@ == old(out)@ + render_str(*self),
    {
        out.push('"');
        let value = self.value();
        for c in it: value.chars()
            invariant
                it.seq() == value@,
                value@ == self.text(),
                out@ == old(out)@ + seq!['"'] + escaped_text(value@.take(it.index())),
        {
            assert(value@.take(it.index() + 1).drop_last() =~= value@.take(it.index()));
            push_escaped(out, c);
            assert(out@ =~= old(out)@ + seq!['"'] + escaped_text(value@.take(it.index() + 1)));
        }
        assert(value@.take(value@.len() as int) =~= value@);
        out.push('"');
        assert(out@ =~= old(out)@ + render_str(*self));
    }

    /// The matcher as it is written.
    pub fn to_string(&self) -> (text: String)
        ensures
            text@ == render_str(*self),
    {
        let mut out = String::new();
        self.render_into(&mut out);
        assert(out@ =~= render_str(*self));
        out
    }
}

impl RangeMatcher {
    /// Appends the matcher, as it is written, to `out`.
    pub fn render_into(&self, out: &mut String)
        ensures
            final(out)@ == old(out)@ + render_range(*self),
    {
        out.push('[');
        out.push(self.start);
        out.push('-');
        out.push(self.end);
        out.push(']');
        assert(out@ =~= old(out)@ + render_range(*self));
    }

    /// The matcher as it is written.
    pub fn to_string(&self) -> (text: String)
        ensures
            text@ == render_range(*self),
    {
        let mut out = String::new();
        self.render_into(&mut out);
        assert(out@ =~= render_range(*self));
        out
    }
}

impl SequentialMatcher {
    /// Appends the matcher, as it is written, to `out`.
    pub fn render_into(&self, out: &mut String)
        ensures
            final(out)@ == old(out)@ + render_sequence(*self),
        decreases *self,
    {
        out.push('(');
        let mut i: usize = 0;
        while i < self.children.len()
            invariant
                i <= self.children@.len(),
                out@ == old(out)@ + seq!['('] + join_sequence(*self, i as nat),
            decreases self.children@.len() - i,
        {
            if i > 0 {
                out.push(' ');
            }
            self.children[i].render_into(out);
            i = i + 1;
            assert(out@ =~= old(out)@ + seq!['('] + join_sequence(*self, i as nat));
        }
        out.push(')');
        assert(out@ =~= old(out)@ + render_sequence(*self));
    }

    /// The matcher as it is written.
    pub fn to_string(&self) -> (text: String)
        ensures
            text@ == render_sequence(*self),
    {
        let mut out = String::new();
        self.render_into(&mut out);
        assert(out@ =~= render_sequence(*self));
        out
    }
}

impl ChoiceMatcher {
    /// Appends the matcher, as it is written, to `out`.
    pub fn render_into(&self, out: &mut String)
        ensures
            final(out)@ == old(out)@ + render_choice(*self),
        decreases *self,
    {
        out.push('(');
        let mut i: usize = 0;
        while i < self.children.len()
            invariant
                i <= self.children@.len(),
                out@ == old(out)@ + seq!['('] + join_choice(*self, i as nat),
            decreases self.children@.len() - i,
        {
            if i > 0 {
                out.push(' ');
                out.push('|');
                out.push(' ');
            }
            self.children[i].render_into(out);
            i = i + 1;
            assert(out@ =~= old(out)@ + seq!['('] + join_choice(*self, i as nat));
        }
        out.push(')');
        assert(out@ =~= old(out)@ + render_choice(*self));
    }

    /// The matcher as it is written.
    pub fn to_string(&self) -> (text: String)
        ensures
            text@ == render_choice(*self),
    {
        let mut out = String::new();
        self.render_into(&mut out);
        assert(out@ =~= render_choice(*self));
        out
    }
}

impl OptionalMatcher {
    /// Appends the matcher, as it is written, to `out`.
    pub fn render_into(&self, out: &mut String)
        ensures
            final(out)@ == old(out)@ + render_optional(*self),
        decreases *self,
    {
        self.value.render_into(out);
        out.push('?');
        assert(out@ =~= old(out)@ + render_optional(*self));
    }

    /// The matcher as it is written.
    pub fn to_string(&self) -> (text: String)
        ensures
            text@ == render_optional(*self),
    {
        let mut out = String::new();
        self.render_into(&mut out);
        assert(out@ =~= render_optional(*self));
        out
    }
}

impl RepetitionMatcher {
    /// Appends the matcher, as it is written, to `out`.
    pub fn render_into(&self, out: &mut String)
        ensures
            final(out)@ == old(out)@ + render_repetition(*self),
        decreases *self,
    {
        self.value.render_into(out);
        push_repetition_mark(out, self.min as usize);
        assert(out@ =~= old(out)@ + render_repetition(*self));
    }

    /// The matcher as it is written.
    pub fn to_string(&self) -> (text: String)
        ensures
            text@ == render_repetition(*self),
    {
        let mut out = String::new();
        self.render_into(&mut out);
        assert(out@ =~= render_repetition(*self));
        out
    }
}

impl NotMatcher {
    /// Appends the matcher, as it is written, to `out`.
    pub fn render_into(&self, out: &mut String)
        ensures
            final(out)@ == old(out)@ + render_not(*self),
        decreases *self,
    {
        out.push('(');
        out.push('!');
        self.value.render_into(out);
        out.push(')');
        assert(out@ =~= old(out)@ + render_not(*self));
    }

    /// The matcher as it is written.
    pub fn to_string(&self) -> (text: String)
        ensures
            text@ == render_not(*self),
    {
        let mut out = String::new();
        self.render_into(&mut out);
        assert(out@ =~= render_not(*self));
        out
    }
}

impl UntilMatcher {
    /// Appends the matcher, as it is written, to `out`.
    pub fn render_into(&self, out: &mut String)
        ensures
            final(out)@ == old(out)@ + render_until(*self),
        decreases *self,
    {
        out.push('(');
        out.push('!');
        self.until.render_into(out);
        out.push(')');
        push_repetition_mark(out, self.min);
        assert(out@ =~= old(out)@ + render_until(*self));
    }

    /// The matcher as it is written.
    pub fn to_string(&self) -> (text: String)
        ensures
            text@ == render_until(*self),
    {
        let mut out = String::new();
        self.render_into(&mut out);
        assert(out@ =~= render_until(*self));
        out
    }
}

impl TokenMatcher {
    /// Appends the matcher, as it is written, to `out`.
    pub fn render_into(&self, out: &mut String)
        ensures
            final(out)@ == old(out)@ + render_token(*self),
        decreases *self,
    {
        self.value.render_into(out);
    }

    /// The matcher as it is written.
    pub fn to_string(&self) -> (text: String)
        ensures
            text@ == render_token(*self),
    {
        let mut out = String::new();
        self.render_into(&mut out);
        assert(out@ =~= render_token(*self));
        out
    }
}

impl Matcher {
    /// Appends the matcher, as it is written, to `out`.
    pub fn render_into(&self, out: &mut String)
        ensures
            final(out)@ == old(out)@ + render_matcher(*self),
        decreases *self,
    {
        match self {
            Matcher::Str(m) => m.render_into(out),
            Matcher::Range(m) => m.render_into(out),
            Matcher::Sequential(m) => m.render_into(out),
            Matcher::Choice(m) => m.render_into(out),
            Matcher::Optional(m) => m.render_into(out),
            Matcher::Repetition(m) => m.render_into(out),
            Matcher::Not(m) => m.render_into(out),
            Matcher::Until(m) => m.render_into(out),
            Matcher::Token(m) => m.render_into(out),
        }
    }

    /// The matcher as it is written.
    pub fn to_string(&self) -> (text: String)
        ensures
            text@ == render_matcher(*self),
    {
        let mut out = String::new();
        self.render_into(&mut out);
        assert(out@ =~= render_matcher(*self));
        out
    }
}

} // verus!
