use vstd::prelude::*;
use crate::match_str::{range_limit, run_length};
use crate::parser_error::ParserError;
use crate::stream::{Stream, StreamState};

verus! {

/// Whether `window` is the window of `state`, seen as a `usize`.
pub open spec fn is_window(window: Option<usize>, state: StreamState<char>) -> bool {
    match window {
        Some(w) => state.window == Some(w as nat),
        None => state.window is None,
    }
}

/// The error of a query for `len` elements from `pos` on, if there is one.
fn query_error_in(cursor: usize, window: Option<usize>, pos: usize, len: usize) -> (err: Option<
    ParserError,
>)
    ensures
        forall|state: StreamState<char>|
            state.cursor == cursor && is_window(window, state) ==> err == #[trigger] state.query_error(
                pos as nat,
                len as nat,
            ),
{
    // This is a stream: we can look ahead, but we can't look behind chars that were already consumed
    if pos < cursor {
        return Some(ParserError::NoLookBehind(pos));
    }
    // If the text is too far away or too big to fit in the window, we won't be able to look it ahead
    if let Some(w) = window {
        if len >= w || pos - cursor >= w - len {
            return Some(ParserError::LookAheadBufferOverflow(pos.saturating_add(len)));
        }
    }
    None
}

/// Compares `s` with the input of `reader` from index `pos` on by looking
/// ahead of the cursor, which the caller gives with the window.
pub fn match_str_in<R: Stream<char>>(
    reader: &mut R,
    cursor: usize,
    window: Option<usize>,
    pos: usize,
    s: &str,
) -> (result: Result<bool, ParserError>)
    requires
        old(reader).wf(),
        cursor == old(reader).state().cursor,
        is_window(window, old(reader).state()),
    ensures
        final(reader).wf(),
        final(reader).state() == old(reader).state(),
        result == old(reader).state().match_str_at(pos as nat, s@),
{
    let len = s.unicode_len();
    if let Some(err) = query_error_in(cursor, window, pos, len) {
        return Err(err);
    }
    let ghost state = reader.state();
    assert(state.query_error(pos as nat, len as nat) is None);
    proof {
        reader.lemma_cursor_in_input();
    }

    // This is the amount by which we will need to look ahead from the cursor
    let mut i: usize = pos - cursor;

    // Compare each char
    for c in it: s.chars()
        invariant
            it.seq() == s@,
            reader.wf(),
            reader.state() == state,
            state.input.len() <= usize::MAX,
            state.query_error(pos as nat, s@.len()) is None,
            state == old(reader).state(),
            cursor == state.cursor,
            pos >= cursor,
            i == pos - cursor + it.index(),
            it.index() > 0 ==> pos + it.index() <= state.input.len(),
            forall|j: int| 0 <= j < it.index() ==> state.input[pos + j] == #[trigger] s@[j],
    {
        match reader.peek_nth(i) {
            Some(input_c) => {
                if input_c != c {
                    // If a difference is found, it's not equal
                    assert(state.input[pos + it.index()] != s@[it.index() as int]);
                    return Ok(false);
                }
            },
            None => {
                // If the input ends before the text does, it's not equal
                assert(pos + s@.len() > state.input.len());
                return Ok(false);
            },
        }
        i = i + 1;
    }
    Ok(true)
}

/// Counts the chars of the input of `reader` from index `pos` on that lie
/// between `start` and `end`, by looking ahead of the cursor, which the
/// caller gives with the window.
pub fn match_range_in<R: Stream<char>>(
    reader: &mut R,
    cursor: usize,
    window: Option<usize>,
    pos: usize,
    start: char,
    end: char,
    max: u8,
) -> (result: Result<u32, ParserError>)
    requires
        old(reader).wf(),
        cursor == old(reader).state().cursor,
        is_window(window, old(reader).state()),
    ensures
        final(reader).wf(),
        final(reader).state() == old(reader).state(),
        result == old(reader).state().match_range_at(pos as nat, start, end, max),
{
    if pos < cursor {
        return Err(ParserError::NoLookBehind(pos));
    }
    let ghost state = reader.state();
    proof {
        reader.lemma_cursor_in_input();
    }
    let limit: u32 = if max == 0 {
        u32::MAX
    } else {
        max as u32
    };
    let mut matched: u32 = 0;

    // This is the amount by which we will need to look ahead from the cursor
    let mut i: usize = pos - cursor;
    loop
        invariant
            reader.wf(),
            reader.state() == state,
            state == old(reader).state(),
            state.input.len() <= usize::MAX,
            cursor == state.cursor,
            is_window(window, state),
            pos >= cursor,
            limit == range_limit(max),
            matched <= limit,
            i == pos - cursor + matched,
            matched > 0 ==> pos + matched <= state.input.len(),
            run_length(state.input, pos as nat, start, end, limit as nat) == matched + run_length(
                state.input,
                (pos + matched) as nat,
                start,
                end,
                (limit - matched) as nat,
            ),
        decreases limit - matched,
    {
        // What lies outside the window cannot be counted
        if let Some(w) = window {
            if i >= w {
                let edge = cursor.saturating_add(w);
                return Err(
                    ParserError::LookAheadBufferOverflow(
                        if pos > edge {
                            pos
                        } else {
                            edge
                        },
                    ),
                );
            }
        }
        // If there is a max and it is reached, we stop here
        if matched >= limit {
            return Ok(matched);
        }
        match reader.peek_nth(i) {
            Some(c) => {
                // If the char is outside the range, we stop here
                if c < start || c > end {
                    return Ok(matched);
                }
            },
            None => {
                return Ok(matched);
            },
        }
        matched = matched + 1;
        i = i + 1;
    }
}

/// Whether the char at index `pos` of the input of `reader` is a line break.
pub fn is_newline_in<R: Stream<char>>(
    reader: &mut R,
    cursor: usize,
    window: Option<usize>,
    pos: usize,
) -> (result: Result<bool, ParserError>)
    requires
        old(reader).wf(),
        cursor == old(reader).state().cursor,
        is_window(window, old(reader).state()),
    ensures
        final(reader).wf(),
        final(reader).state() == old(reader).state(),
        result == old(reader).state().is_newline_at(pos as nat),
{
    proof {
        reveal_strlit("\n");
        assert("\n"@ =~= seq!['\n']);
    }
    match_str_in(reader, cursor, window, pos, "\n")
}

/// Whether index `pos` is at or past the end of the input of `reader`.
pub fn is_end_of_input_in<R: Stream<char>>(
    reader: &mut R,
    cursor: usize,
    window: Option<usize>,
    pos: usize,
) -> (result: Result<bool, ParserError>)
    requires
        old(reader).wf(),
        cursor == old(reader).state().cursor,
        is_window(window, old(reader).state()),
    ensures
        final(reader).wf(),
        final(reader).state() == old(reader).state(),
        result == old(reader).state().is_end_of_input_at(pos as nat),
{
    if let Some(err) = query_error_in(cursor, window, pos, 1) {
        return Err(err);
    }
    proof {
        reader.lemma_cursor_in_input();
    }
    let elem = reader.peek_nth(pos - cursor);
    Ok(elem.is_none())
}

} // verus!
