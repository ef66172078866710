use vstd::prelude::*;
use crate::byte_source::ByteSource;
use crate::char_buffer::CharBuffer;
use crate::match_str::MatchStr;
use crate::parser_error::ParserError;
use crate::position::{is_end_of_input_in, is_newline_in, match_range_in, match_str_in};
use crate::stream::{Stream, StreamState};
use crate::try_into_char::{decode_stream, decode_with_window, lemma_decode_length, padded, TryIntoChar};

verus! {

/// A reader that streams chars from a source of bytes without holding the
/// whole input in memory.
///
/// Chars that were looked at but not consumed are kept in a buffer of fixed
/// capacity, counted in chars. The input of the reader is what its source
/// decodes to; the reader cannot look further ahead of its cursor than the
/// capacity of the buffer.
pub struct FileCharReader<S: ByteSource> {
    /// Where the bytes come from.
    source: S,
    /// The chars decoded and not yet consumed.
    buffer: CharBuffer,
    /// Number of chars read from the buffer (head).
    nb_read_from_buffer: usize,
    /// Number of chars read from the source (tail).
    nb_read_from_file: usize,
    /// Number of chars that a refill tries to load at least, room permitting.
    read_size: usize,
    /// Whether decoding was given up on bytes that hold no char.
    given_up: bool,
    /// The chars consumed so far.
    consumed: Ghost<Seq<char>>,
}

impl<S: ByteSource> FileCharReader<S> {
    /// The chars still to be decoded from the source.
    pub closed spec fn unread(&self) -> Seq<char> {
        if self.given_up {
            Seq::empty()
        } else {
            decode_stream(self.source.pending())
        }
    }

    /// The number of chars decoded from the source so far.
    pub closed spec fn loaded(&self) -> nat {
        self.nb_read_from_file as nat
    }

    /// The capacity of the buffer, in chars.
    pub closed spec fn spec_capacity(&self) -> nat {
        self.buffer.spec_capacity()
    }

    /// The invariant of the reader.
    pub closed spec fn inv(&self) -> bool {
        &&& self.source.wf()
        &&& self.buffer.wf()
        &&& self.consumed@.len() == self.nb_read_from_buffer
        &&& self.nb_read_from_buffer + self.buffer@.len() == self.nb_read_from_file
        &&& self.nb_read_from_file + self.unread().len() <= usize::MAX
    }

    /// The abstract state: the input is the chars consumed, then those in
    /// the buffer, then those still to be decoded.
    pub closed spec fn spec_state(&self) -> StreamState<char> {
        StreamState {
            input: self.consumed@ + self.buffer@ + self.unread(),
            cursor: self.nb_read_from_buffer as nat,
            window: Some(self.buffer.spec_capacity()),
        }
    }

    /// How many chars `load_chars(n)` loads: none where the buffer has no
    /// room for `n` more chars, else `n` or as many as the input still holds.
    pub open spec fn loadable(&self, n: nat) -> nat {
        let left = (self.state().input.len() - self.loaded()) as nat;
        if self.loaded() - self.state().cursor + n > self.spec_capacity() {
            0
        } else if n <= left {
            n
        } else {
            left
        }
    }

    /// What is loaded lies between the cursor and the end of the input, and
    /// fits in the buffer.
    pub proof fn lemma_loaded(&self)
        requires
            self.wf(),
        ensures
            self.state().cursor <= self.loaded() <= self.state().input.len(),
            self.loaded() - self.state().cursor <= self.spec_capacity(),
            self.state().window == Some(self.spec_capacity()),
    {
        self.buffer.lemma_wf();
    }

    /// The number of chars that a refill tries to load at least.
    pub closed spec fn spec_read_size(&self) -> nat {
        self.read_size as nat
    }

    /// A reader over `source` that retains at most `buffer_size` chars and
    /// refills its buffer by half of that at a time.
    pub fn new(source: S, buffer_size: usize) -> (reader: Self)
        requires
            source.wf(),
            source.pending().len() <= usize::MAX,
        ensures
            reader.wf(),
            reader.state() == (StreamState {
                input: decode_stream(source.pending()),
                cursor: 0,
                window: Some(buffer_size as nat),
            }),
            reader.loaded() == 0,
            reader.spec_capacity() == buffer_size,
            reader.spec_read_size() == buffer_size / 2,
    {
        Self::with_read_size(source, buffer_size, buffer_size / 2)
    }

    /// A reader over `source` that retains at most `buffer_size` chars and
    /// refills its buffer by `read_size` chars at a time, or by as many as
    /// are asked for where that is more.
    pub fn with_read_size(source: S, buffer_size: usize, read_size: usize) -> (reader: Self)
        requires
            source.wf(),
            source.pending().len() <= usize::MAX,
        ensures
            reader.wf(),
            reader.state() == (StreamState {
                input: decode_stream(source.pending()),
                cursor: 0,
                window: Some(buffer_size as nat),
            }),
            reader.loaded() == 0,
            reader.spec_capacity() == buffer_size,
            reader.spec_read_size() == read_size,
    {
        let reader = FileCharReader {
            source,
            buffer: CharBuffer::new(buffer_size),
            nb_read_from_file: 0,
            nb_read_from_buffer: 0,
            read_size,
            given_up: false,
            consumed: Ghost(Seq::empty()),
        };
        proof {
            lemma_decode_length(Seq::empty(), source.pending());
            assert(reader.spec_state().input =~= decode_stream(source.pending()));
        }
        reader
    }

    /// The number of chars that the buffer retains.
    pub fn capacity(&self) -> (capacity: usize)
        ensures
            capacity == self.spec_capacity(),
    {
        self.buffer.capacity()
    }

    /// The number of chars loaded and not yet consumed.
    pub fn buffered(&self) -> (count: usize)
        requires
            self.wf(),
        ensures
            count == self.loaded() - self.state().cursor,
    {
        self.buffer.size()
    }

    /// Tries to load the next `n` chars into the buffer, and returns the
    /// number of chars loaded. It loads nothing where the buffer has no room
    /// for `n` more chars, and stops early where the input ends.
    ///
    /// The bytes are read in bulk, as many at a time as chars are missing,
    /// and decoded through a window of one to four bytes.
    #[verifier::loop_isolation(false)]
    pub fn load_chars(&mut self, n: usize) -> (count: usize)
        requires
            old(self).wf(),
        ensures
            final(self).wf(),
            final(self).state() == old(self).state(),
            final(self).spec_capacity() == old(self).spec_capacity(),
            final(self).spec_read_size() == old(self).spec_read_size(),
            count == old(self).loadable(n as nat),
            final(self).loaded() == old(self).loaded() + count,
    {
        proof {
            self.buffer.lemma_wf();
        }
        // Check if there is enough space in the buffer, we don't want to override chars that weren't consumed
        if n > self.buffer.capacity() - self.buffer.size() {
            return 0;
        }
        if self.given_up {
            assert(self.spec_state().input =~= self.consumed@ + self.buffer@);
            return 0;
        }
        // Window for the char we are reading
        let mut width: usize = 0;
        let mut window = [0u8;4];
        let ghost mut held: Seq<u8> = Seq::empty();
        assert(window@ =~= padded(held));

        let mut chars_to_read: usize = n;
        let mut more: bool = true;
        let ghost input = self.spec_state().input;

        while chars_to_read > 0 && more
            invariant
                self.source.wf(),
                self.buffer.wf(),
                self.buffer.spec_capacity() == old(self).buffer.spec_capacity(),
                self.read_size == old(self).read_size,
                self.consumed == old(self).consumed,
                self.nb_read_from_buffer == old(self).nb_read_from_buffer,
                self.nb_read_from_buffer + self.buffer@.len() == self.nb_read_from_file,
                self.nb_read_from_file == old(self).nb_read_from_file + (n - chars_to_read),
                chars_to_read <= n,
                self.buffer@.len() + chars_to_read <= self.buffer.spec_capacity(),
                input.len() <= usize::MAX,
                !self.given_up ==> input == self.consumed@ + self.buffer@ + decode_with_window(
                    held,
                    self.source.pending(),
                ),
                self.given_up ==> input == self.consumed@ + self.buffer@ && !more,
                !more && !self.given_up ==> self.source.pending().len() == 0,
                held.len() == width,
                width < 4,
                width > 0 ==> chars_to_read > 0,
                window@ == padded(held),
            decreases
                    self.source.pending().len() + (if more {
                        1nat
                    } else {
                        0nat
                    }),
        {
            // Try to read the next bytes
            let ghost before = self.source.pending();
            let chunk = self.source.read(chars_to_read);
            let ghost pending = self.source.pending();
            if chunk.len() == 0 {
                more = false;
            }
            assert(chunk@.skip(0) + pending =~= before);
            assert(pending.len() == before.len() - chunk@.len());

            // Try to find chars in the chunk
            let mut i: usize = 0;
            while i < chunk.len() && more
                invariant
                    i <= chunk.len(),
                    self.source.wf(),
                    self.source.pending() == pending,
                    self.buffer.wf(),
                    self.buffer.spec_capacity() == old(self).buffer.spec_capacity(),
                    self.read_size == old(self).read_size,
                    self.consumed == old(self).consumed,
                    self.nb_read_from_buffer == old(self).nb_read_from_buffer,
                    self.nb_read_from_buffer + self.buffer@.len() == self.nb_read_from_file,
                    self.nb_read_from_file == old(self).nb_read_from_file + (n - chars_to_read),
                    chars_to_read <= n,
                    chars_to_read >= chunk.len() - i,
                    self.buffer@.len() + chars_to_read <= self.buffer.spec_capacity(),
                    input.len() <= usize::MAX,
                    !self.given_up ==> input == self.consumed@ + self.buffer@ + decode_with_window(
                        held,
                        chunk@.skip(i as int) + pending,
                    ),
                    self.given_up ==> input == self.consumed@ + self.buffer@ && !more,
                    !more && !self.given_up ==> chunk.len() == 0 && pending.len() == 0,
                    chunk.len() == 0 ==> !more,
                    held.len() == width,
                    width < 4,
                    width > 0 ==> chars_to_read > 0,
                    window@ == padded(held),
                decreases chunk.len() - i,
            {
                let ghost rest = chunk@.skip(i as int) + pending;
                let ghost taken = held.push(chunk@[i as int]);
                assert(rest[0] == chunk@[i as int]);
                assert(rest.skip(1) =~= chunk@.skip(i + 1) + pending);
                window[width] = chunk[i];
                assert(window@ =~= padded(taken));

                // Check that it is a valid char
                match window.try_into_char() {
                    Ok(c) => {
                        assert(input =~= self.consumed@ + self.buffer@.push(c) + decode_with_window(
                            Seq::empty(),
                            rest.skip(1),
                        ));
                        let pushed = self.buffer.push(c);
                        assert(pushed is Ok);
                        // We can start the next char
                        width = 0;
                        window = [0u8;4];
                        proof {
                            held = Seq::empty();
                        }
                        assert(window@ =~= padded(held));
                        chars_to_read = chars_to_read - 1;
                        self.nb_read_from_file = self.nb_read_from_file + 1;
                    },
                    // If it's not a valid char, we try by taking one more byte
                    Err(_) => {
                        width = width + 1;
                        proof {
                            held = taken;
                        }
                        if width == 4 {
                            // Four bytes that hold no char: the input ends here
                            assert(decode_with_window(taken, rest.skip(1)) =~= Seq::<char>::empty());
                            assert(input =~= self.consumed@ + self.buffer@);
                            self.given_up = true;
                            more = false;
                            width = 0;
                            window = [0u8;4];
                            proof {
                                held = Seq::empty();
                            }
                            assert(window@ =~= padded(held));
                        }
                    },
                }
                i = i + 1;
            }
            assert(!self.given_up && more ==> chunk@.skip(i as int) + pending =~= pending);
        }
        proof {
            if !self.given_up {
                if chars_to_read == 0 {
                    assert(held =~= Seq::<u8>::empty());
                } else {
                    assert(self.source.pending().len() == 0);
                }
                assert(decode_with_window(held, self.source.pending()) =~= self.unread());
            } else {
                assert(input =~= self.consumed@ + self.buffer@ + self.unread());
            }
        }

        // Return the number of chars read
        n - chars_to_read
    }

    /// Loads chars until the one at `index` is in the buffer, and returns
    /// whether it is. It is not where the input ends before `index` or where
    /// `index` lies further ahead of the cursor than the buffer can hold.
    ///
    /// A refill loads the chars that are missing, or a whole read size of
    /// chars where that is more and the buffer has room for it.
    pub fn load_until(&mut self, index: usize) -> (loaded: bool)
        requires
            old(self).wf(),
        ensures
            final(self).wf(),
            final(self).state() == old(self).state(),
            final(self).spec_capacity() == old(self).spec_capacity(),
            final(self).spec_read_size() == old(self).spec_read_size(),
            final(self).loaded() >= old(self).loaded(),
            loaded == (index < final(self).loaded()),
            index >= old(self).state().cursor ==> loaded == old(self).state().reaches(
                (index - old(self).state().cursor) as nat,
            ),
    {
        proof {
            self.lemma_loaded();
        }
        if index >= self.nb_read_from_file {
            let missing = index - self.nb_read_from_file;
            let room = self.buffer.capacity() - self.buffer.size();
            if missing < room {
                let needed = missing + 1;
                let wanted = if self.read_size <= needed {
                    needed
                } else if self.read_size < room {
                    self.read_size
                } else {
                    room
                };
                self.load_chars(wanted);
            }
            return index < self.nb_read_from_file;
        }
        true
    }
}

impl<S: ByteSource> Stream<char> for FileCharReader<S> {
    open spec fn state(&self) -> StreamState<char> {
        self.spec_state()
    }

    open spec fn wf(&self) -> bool {
        self.inv()
    }

    proof fn lemma_cursor_in_input(&self) {
    }

    fn peek(&mut self) -> (elem: Option<char>) {
        // Ensure that the next char is loaded
        self.load_until(self.nb_read_from_buffer);
        self.buffer.peek()
    }

    fn peek_nth(&mut self, n: usize) -> (elem: Option<char>) {
        if n > usize::MAX - self.nb_read_from_buffer {
            return None;
        }
        // Ensure that the nth char is loaded
        self.load_until(self.nb_read_from_buffer + n);
        self.buffer.peek_nth(n)
    }

    fn consume(&mut self) -> (elem: Option<char>) {
        // Ensure that the next char is loaded
        self.load_until(self.nb_read_from_buffer);
        let ghost input = self.spec_state().input;
        let res = self.buffer.pop();
        if let Some(c) = res {
            self.nb_read_from_buffer = self.nb_read_from_buffer + 1;
            proof {
                self.consumed@ = self.consumed@.push(c);
                assert(self.spec_state().input =~= input);
            }
        }
        res
    }

    fn consume_nth(&mut self, n: usize) -> (elem: Option<char>) {
        if n > usize::MAX - self.nb_read_from_buffer {
            return None;
        }
        // Ensure that the nth char is loaded
        if !self.load_until(self.nb_read_from_buffer + n) {
            return None;
        }
        let ghost input = self.spec_state().input;
        let ghost start = self.nb_read_from_buffer;

        // Discard the chars before the nth
        let mut i: usize = 0;
        while i < n
            invariant
                i <= n,
                self.inv(),
                self.spec_state().input == input,
                self.spec_state().window == old(self).spec_state().window,
                self.spec_capacity() == old(self).spec_capacity(),
                self.spec_read_size() == old(self).spec_read_size(),
                self.nb_read_from_buffer == start + i,
                start + n < self.nb_read_from_file,
            decreases n - i,
        {
            let ghost before = self.spec_state().input;
            let popped = self.buffer.pop();
            self.nb_read_from_buffer = self.nb_read_from_buffer + 1;
            proof {
                self.consumed@ = self.consumed@.push(popped->0);
                assert(self.spec_state().input =~= before);
            }
            i = i + 1;
        }
        let res = self.buffer.pop();
        self.nb_read_from_buffer = self.nb_read_from_buffer + 1;
        proof {
            self.consumed@ = self.consumed@.push(res->0);
            assert(self.spec_state().input =~= input);
        }
        res
    }

    fn is_eof(&mut self) -> (eof: bool) {
        // End of input: unable to load the next char
        !self.load_until(self.nb_read_from_buffer)
    }
}

impl<S: ByteSource> MatchStr for FileCharReader<S> {
    fn low_water_mark(&self) -> (mark: usize) {
        self.nb_read_from_buffer
    }

    fn match_str(&mut self, pos: usize, s: &str) -> (result: Result<bool, ParserError>) {
        let cursor = self.nb_read_from_buffer;
        let capacity = self.buffer.capacity();
        match_str_in(self, cursor, Some(capacity), pos, s)
    }

    fn match_range(&mut self, pos: usize, start: char, end: char, max: u8) -> (result: Result<
        u32,
        ParserError,
    >) {
        let cursor = self.nb_read_from_buffer;
        let capacity = self.buffer.capacity();
        match_range_in(self, cursor, Some(capacity), pos, start, end, max)
    }

    fn is_newline(&mut self, pos: usize) -> (result: Result<bool, ParserError>) {
        let cursor = self.nb_read_from_buffer;
        let capacity = self.buffer.capacity();
        is_newline_in(self, cursor, Some(capacity), pos)
    }

    fn is_end_of_input(&mut self, pos: usize) -> (result: Result<bool, ParserError>) {
        let cursor = self.nb_read_from_buffer;
        let capacity = self.buffer.capacity();
        is_end_of_input_in(self, cursor, Some(capacity), pos)
    }
}

} // verus!
