use vstd::prelude::*;
use crate::stream::StreamState;

verus! {

/// A source of elements that allows to look at elements without consuming
/// them.
pub trait Peek {
    type Item;

    /// The abstract state of the source: its whole input, how much of it is
    /// consumed, and how far it can look ahead.
    spec fn lookahead(&self) -> StreamState<Self::Item>;

    /// Returns the next value without consuming it.
    ///
    /// Calling this multiple times in a row doesn't change the outcome.
    ///
    /// Returns None if the end of the input is reached.
    fn peek(&mut self) -> (elem: Option<Self::Item>)
        ensures
            final(self).lookahead() == old(self).lookahead(),
            elem == old(self).lookahead().ahead(0),
    ;

    /// Returns the nth value (starting from the current position) without
    /// consuming it.
    ///
    /// Calling this multiple times in a row doesn't change the outcome.
    ///
    /// Returns None if the end of the input is reached, or the requested
    /// position is too far away.
    fn peek_nth(&mut self, n: usize) -> (elem: Option<Self::Item>)
        ensures
            final(self).lookahead() == old(self).lookahead(),
            elem == old(self).lookahead().ahead(n as nat),
    ;
}

/// What consumes the input token by token.
pub trait MatchToken {
    /// The input not yet consumed.
    spec fn remaining(&self) -> Seq<char>;

    /// Tries to match the given string at the current position in the
    /// input.
    ///
    /// If it matches, the string is consumed and true is returned.
    fn match_str(&mut self, string: &'static str) -> (matched: bool)
        ensures
            matched == string@.is_prefix_of(old(self).remaining()),
            final(self).remaining() == (if matched {
                old(self).remaining().skip(string@.len() as int)
            } else {
                old(self).remaining()
            }),
    ;

    /// Tries to match an identifier at the current position in the input.
    ///
    /// If it matches, the identifier is consumed and returned.
    ///
    /// An identifier is equivalent to [a-zA-Z_][a-zA-Z0-9_]*, where * is
    /// greedy.
    fn match_identifier(&mut self) -> (identifier: Option<String>)
        ensures
            ({
                let len = identifier_len(old(self).remaining(), 0);
                &&& final(self).remaining() == old(self).remaining().skip(len as int)
                &&& match identifier {
                    Some(name) => len > 0 && name@ == old(self).remaining().take(len as int),
                    None => len == 0,
                }
            }),
    ;
}

/// Whether `c` can stand in an identifier: a letter of the ASCII alphabet
/// or an underscore, or a decimal digit where `c` is not the `first` char.
pub open spec fn is_identifier_char(c: char, first: bool) -> bool {
    ||| 'a' <= c <= 'z'
    ||| 'A' <= c <= 'Z'
    ||| c == '_'
    ||| !first && '0' <= c <= '9'
}

/// How many chars of `text` from index `from` on can stand in an identifier
/// that starts at the start of `text`.
pub open spec fn identifier_len(text: Seq<char>, from: nat) -> nat
    decreases text.len() - from,
{
    if from < text.len() && is_identifier_char(text[from as int], from == 0) {
        1 + identifier_len(text, from + 1)
    } else {
        0
    }
}

/// Whether `c` can stand in an identifier.
fn identifier_char(c: char, first: bool) -> (ok: bool)
    ensures
        ok == is_identifier_char(c, first),
{
    ('a' <= c && c <= 'z') || ('A' <= c && c <= 'Z') || c == '_' || (!first && '0' <= c && c <= '9')
}

/// A reader that consumes a text held in memory token by token.
pub struct StringReader {
    chars: Vec<char>,
    pos: usize,
}

impl StringReader {
    #[verifier::type_invariant]
    spec fn within(&self) -> bool {
        self.pos <= self.chars@.len()
    }

    /// A reader at the start of `string`.
    pub fn new(string: &str) -> (reader: Self)
        ensures
            reader.remaining() == string@,
            reader.lookahead() == (StreamState { input: string@, cursor: 0, window: None }),
    {
        let mut chars: Vec<char> = Vec::new();
        for c in it: string.chars()
            invariant
                it.seq() == string@,
                chars@ == string@.take(it.index()),
        {
            chars.push(c);
        }
        assert(chars@ =~= string@);
        assert(chars@.skip(0) =~= chars@);
        StringReader { chars, pos: 0 }
    }
}

impl Peek for StringReader {
    type Item = char;

    closed spec fn lookahead(&self) -> StreamState<char> {
        StreamState { input: self.chars@, cursor: self.pos as nat, window: None }
    }

    fn peek(&mut self) -> (elem: Option<char>) {
        self.peek_nth(0)
    }

    fn peek_nth(&mut self, n: usize) -> (elem: Option<char>) {
        proof {
            use_type_invariant(&*self);
        }
        if n < self.chars.len() - self.pos {
            Some(self.chars[self.pos + n])
        } else {
            None
        }
    }
}

impl MatchToken for StringReader {
    closed spec fn remaining(&self) -> Seq<char> {
        self.chars@.skip(self.pos as int)
    }

    fn match_str(&mut self, string: &'static str) -> (matched: bool) {
        proof {
            use_type_invariant(&*self);
        }
        let ghost rest = self.remaining();
        let mut i: usize = self.pos;
        for c in it: string.chars()
            invariant
                it.seq() == string@,
                self.pos <= self.chars@.len(),
                *self == *old(self),
                rest == self.chars@.skip(self.pos as int),
                i == self.pos + it.index(),
                i <= self.chars@.len(),
                forall|j: int| 0 <= j < it.index() ==> rest[j] == #[trigger] string@[j],
        {
            if i >= self.chars.len() || self.chars[i] != c {
                assert(!string@.is_prefix_of(rest)) by {
                    if string@.is_prefix_of(rest) {
                        assert(rest[it.index()] == string@[it.index()]);
                    }
                }
                return false;
            }
            i = i + 1;
        }
        assert(string@.is_prefix_of(rest)) by {
            assert(string@ =~= rest.subrange(0, string@.len() as int));
        }
        // It matches
        self.pos = i;
        assert(self.remaining() =~= rest.skip(string@.len() as int));
        true
    }

    fn match_identifier(&mut self) -> (identifier: Option<String>) {
        proof {
            use_type_invariant(&*self);
        }
        let ghost rest = self.remaining();
        let mut ident = String::new();
        let mut i: usize = self.pos;

        // Match [a-zA-Z_][a-zA-Z0-9_]*
        while i < self.chars.len() && identifier_char(self.chars[i], i == self.pos)
            invariant
                self.pos <= i <= self.chars@.len(),
                *self == *old(self),
                rest == self.chars@.skip(self.pos as int),
                ident@ == rest.take(i - self.pos),
                identifier_len(rest, 0) == (i - self.pos) + identifier_len(
                    rest,
                    (i - self.pos) as nat,
                ),
            decreases self.chars@.len() - i,
        {
            ident.push(self.chars[i]);
            assert(ident@ =~= rest.take(i + 1 - self.pos));
            i = i + 1;
        }
        if i == self.pos {
            assert(self.remaining() =~= rest.skip(0));
            None
        } else {
            self.pos = i;
            assert(self.remaining() =~= rest.skip(identifier_len(rest, 0) as int));
            Some(ident)
        }
    }
}

/// A lexer over a source of chars that can be looked ahead.
pub struct Lexer<R: Peek> {
    pub source: R,
}

impl<R: Peek<Item = char>> Lexer<R> {
    pub fn new(source: R) -> (lexer: Self)
        ensures
            lexer.source == source,
    {
        Self { source }
    }

    /// Tries to match the given string to the input. Returns true if it
    /// did. Doesn't consume anything.
    pub fn match_str(&mut self, string: &'static str) -> (matched: bool)
        ensures
            final(self).source.lookahead() == old(self).source.lookahead(),
            matched == (forall|i: int|
                0 <= i < string@.len() ==> old(self).source.lookahead().ahead(i as nat) == Some(
                    #[trigger] string@[i],
                )),
    {
        let len = string.unicode_len();
        let ghost state = self.source.lookahead();
        let mut i: usize = 0;
        for tested_c in it: string.chars()
            invariant
                it.seq() == string@,
                len == string@.len(),
                state == old(self).source.lookahead(),
                self.source.lookahead() == state,
                i == it.index(),
                forall|j: int|
                    0 <= j < it.index() ==> state.ahead(j as nat) == Some(#[trigger] string@[j]),
        {
            // Check if the character is the same in the input
            let matches = match self.source.peek_nth(i) {
                Some(c) => c == tested_c,
                // End of input or too far lookahead: not a match since we expected a char
                None => false,
            };
            if !matches {
                // Stop here
                assert(state.ahead(it.index() as nat) != Some(string@[it.index()]));
                return false;
            }
            i = i + 1;
        }
        // If we reach this point, the whole string matched
        true
    }
}

} // verus!
