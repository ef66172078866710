use vstd::prelude::*;
use crate::match_str::MatchStr;
use crate::parser_error::ParserError;
use crate::position::{is_end_of_input_in, is_newline_in, match_range_in, match_str_in};
use crate::stream::{Stream, StreamState};

verus! {

/// A reader that streams the chars of a text held in memory.
///
/// Since the whole text is at hand it needs no buffer, and it can look
/// ahead as far as the text goes.
#[derive(Debug)]
pub struct StringCharReader {
    chars: Vec<char>,
    /// The current position in the text.
    cursor_index: usize,
}

impl StringCharReader {
    /// A reader at the start of `s`.
    pub fn new(s: &str) -> (reader: Self)
        ensures
            reader.wf(),
            reader.state() == (StreamState { input: s@, cursor: 0, window: None }),
    {
        let mut chars: Vec<char> = Vec::new();
        for c in it: s.chars()
            invariant
                it.seq() == s@,
                chars@ == s@.take(it.index()),
        {
            chars.push(c);
        }
        assert(chars@ =~= s@);
        assert(chars.len() <= usize::MAX);
        StringCharReader { chars, cursor_index: 0 }
    }
}

impl Stream<char> for StringCharReader {
    closed spec fn state(&self) -> StreamState<char> {
        StreamState { input: self.chars@, cursor: self.cursor_index as nat, window: None }
    }

    closed spec fn wf(&self) -> bool {
        self.cursor_index <= self.chars@.len() <= usize::MAX
    }

    proof fn lemma_cursor_in_input(&self) {
    }

    fn peek(&mut self) -> (elem: Option<char>) {
        self.peek_nth(0)
    }

    fn peek_nth(&mut self, n: usize) -> (elem: Option<char>) {
        if n < self.chars.len() - self.cursor_index {
            Some(self.chars[self.cursor_index + n])
        } else {
            None
        }
    }

    fn consume(&mut self) -> (elem: Option<char>) {
        self.consume_nth(0)
    }

    fn consume_nth(&mut self, n: usize) -> (elem: Option<char>) {
        if n < self.chars.len() - self.cursor_index {
            // If there is a char, move behind it
            let c = self.chars[self.cursor_index + n];
            self.cursor_index = self.cursor_index + n + 1;
            Some(c)
        } else {
            None
        }
    }

    fn is_eof(&mut self) -> (eof: bool) {
        self.cursor_index >= self.chars.len()
    }
}

impl MatchStr for StringCharReader {
    fn low_water_mark(&self) -> (mark: usize) {
        self.cursor_index
    }

    fn match_str(&mut self, pos: usize, s: &str) -> (result: Result<bool, ParserError>) {
        let cursor = self.cursor_index;
        match_str_in(self, cursor, None, pos, s)
    }

    fn match_range(&mut self, pos: usize, start: char, end: char, max: u8) -> (result: Result<
        u32,
        ParserError,
    >) {
        let cursor = self.cursor_index;
        match_range_in(self, cursor, None, pos, start, end, max)
    }

    fn is_newline(&mut self, pos: usize) -> (result: Result<bool, ParserError>) {
        let cursor = self.cursor_index;
        is_newline_in(self, cursor, None, pos)
    }

    fn is_end_of_input(&mut self, pos: usize) -> (result: Result<bool, ParserError>) {
        let cursor = self.cursor_index;
        is_end_of_input_in(self, cursor, None, pos)
    }
}

} // verus!
