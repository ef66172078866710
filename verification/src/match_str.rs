use vstd::prelude::*;
use crate::parser_error::ParserError;
use crate::stream::{Stream, StreamState};

verus! {

/// `n` as a `usize`, or `usize::MAX` where it does not fit.
pub open spec fn saturated(n: nat) -> usize {
    if n <= usize::MAX {
        n as usize
    } else {
        usize::MAX
    }
}

/// Whether `text` stands in `input` from index `pos` on. The empty text
/// stands everywhere.
pub open spec fn occurs_at(input: Seq<char>, pos: nat, text: Seq<char>) -> bool {
    &&& text.len() > 0 ==> pos + text.len() <= input.len()
    &&& forall|i: int| 0 <= i < text.len() ==> input[pos + i] == #[trigger] text[i]
}

/// How many elements of `input`, from index `pos` on and without a gap, lie
/// between `start` and `end` inclusive, counting no further than `limit`.
pub open spec fn run_length(input: Seq<char>, pos: nat, start: char, end: char, limit: nat) -> nat
    decreases limit,
{
    if limit > 0 && pos < input.len() && start <= input[pos as int] && input[pos as int] <= end {
        1 + run_length(input, pos + 1, start, end, (limit - 1) as nat)
    } else {
        0
    }
}

/// The largest count a range query reports: `max`, or where `max` is 0 the
/// largest `u32`.
pub open spec fn range_limit(max: u8) -> nat {
    if max == 0 {
        u32::MAX as nat
    } else {
        max as nat
    }
}

impl StreamState<char> {
    /// The error, if any, of a query for `len` elements from index `pos` on.
    /// A position before the cursor cannot be looked at; neither can a
    /// stretch that, measured from the cursor, reaches the window's size.
    pub open spec fn query_error(self, pos: nat, len: nat) -> Option<ParserError> {
        if pos < self.cursor {
            Some(ParserError::NoLookBehind(pos as usize))
        } else if self.window is Some && pos - self.cursor + len >= self.window->0 {
            Some(ParserError::LookAheadBufferOverflow(saturated(pos + len)))
        } else {
            None
        }
    }

    /// What `match_str(pos, text)` returns.
    pub open spec fn match_str_at(self, pos: nat, text: Seq<char>) -> Result<bool, ParserError> {
        match self.query_error(pos, text.len()) {
            Some(err) => Err(err),
            None => Ok(occurs_at(self.input, pos, text)),
        }
    }

    /// What `match_range(pos, start, end, max)` returns.
    ///
    /// The count is that of the whole run, capped by `max`. A run that,
    /// measured from the cursor, reaches the window's size cannot be
    /// counted: the error then carries the first position from `pos` on
    /// that lies outside the window.
    pub open spec fn match_range_at(self, pos: nat, start: char, end: char, max: u8) -> Result<
        u32,
        ParserError,
    > {
        let count = run_length(self.input, pos, start, end, range_limit(max));
        if pos < self.cursor {
            Err(ParserError::NoLookBehind(pos as usize))
        } else if self.window is Some && pos - self.cursor + count >= self.window->0 {
            let edge = self.cursor + self.window->0;
            Err(
                ParserError::LookAheadBufferOverflow(
                    saturated(
                        if pos > edge {
                            pos
                        } else {
                            edge
                        },
                    ),
                ),
            )
        } else {
            Ok(count as u32)
        }
    }

    /// What `is_newline(pos)` returns.
    pub open spec fn is_newline_at(self, pos: nat) -> Result<bool, ParserError> {
        self.match_str_at(pos, seq!['\n'])
    }

    /// What `is_end_of_input(pos)` returns. The errors are those of a query
    /// for the one element at `pos`.
    pub open spec fn is_end_of_input_at(self, pos: nat) -> Result<bool, ParserError> {
        match self.query_error(pos, 1) {
            Some(err) => Err(err),
            None => Ok(pos >= self.input.len()),
        }
    }
}

/// A run never counts more than its limit, and never past the input.
pub proof fn lemma_run_length_bounds(input: Seq<char>, pos: nat, start: char, end: char, limit: nat)
    ensures
        run_length(input, pos, start, end, limit) <= limit,
        run_length(input, pos, start, end, limit) > 0 ==> pos + run_length(
            input,
            pos,
            start,
            end,
            limit,
        ) <= input.len(),
    decreases limit,
{
    if limit > 0 && pos < input.len() && start <= input[pos as int] && input[pos as int] <= end {
        lemma_run_length_bounds(input, pos + 1, start, end, (limit - 1) as nat);
    }
}

/// A stream of chars that answers questions about absolute positions of its
/// input without moving its cursor.
pub trait MatchStr: Stream<char> {
    /// The lowest index that can still be looked at: the cursor.
    fn low_water_mark(&self) -> (mark: usize)
        requires
            self.wf(),
        ensures
            mark == self.state().cursor,
    ;

    /// Compares `s` with the input from index `pos` on. Returns `true` if
    /// `s` stands there.
    ///
    /// Fails if `pos` is behind the cursor (no look behind), or if `pos` and
    /// the length of `s` together reach beyond what the stream can retain
    /// (look ahead overflow).
    fn match_str(&mut self, pos: usize, s: &str) -> (result: Result<bool, ParserError>)
        requires
            old(self).wf(),
        ensures
            final(self).wf(),
            final(self).state() == old(self).state(),
            result == old(self).state().match_str_at(pos as nat, s@),
    ;

    /// Counts the chars from index `pos` on that lie between `start` and
    /// `end`, both inclusive, up to the first char that does not.
    ///
    /// `max`: if 0, counts until a char falls outside the range; if greater,
    /// counts at most `max` chars.
    fn match_range(&mut self, pos: usize, start: char, end: char, max: u8) -> (result: Result<
        u32,
        ParserError,
    >)
        requires
            old(self).wf(),
        ensures
            final(self).wf(),
            final(self).state() == old(self).state(),
            result == old(self).state().match_range_at(pos as nat, start, end, max),
    ;

    /// Whether the char at index `pos` is a line break.
    fn is_newline(&mut self, pos: usize) -> (result: Result<bool, ParserError>)
        requires
            old(self).wf(),
        ensures
            final(self).wf(),
            final(self).state() == old(self).state(),
            result == old(self).state().is_newline_at(pos as nat),
    ;

    /// Whether index `pos` is at or past the end of the input.
    fn is_end_of_input(&mut self, pos: usize) -> (result: Result<bool, ParserError>)
        requires
            old(self).wf(),
        ensures
            final(self).wf(),
            final(self).state() == old(self).state(),
            result == old(self).state().is_end_of_input_at(pos as nat),
    ;
}

} // verus!
