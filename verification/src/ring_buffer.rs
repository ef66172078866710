use vstd::prelude::*;
use vstd::string::StringExecFns;
use crate::char_buffer::{queue_pop, queue_push, wrap_index};

verus! {

/// Why an operation on a ring buffer failed.
#[derive(Debug, Clone, Copy, PartialEq, Eq)]
pub enum RingBufferError {
    /// The buffer is full.
    NotEnoughSpace,
    /// A position outside of the buffer was asked for.
    OutOfBounds,
}

impl RingBufferError {
    /// The message of the error.
    pub open spec fn message(self) -> Seq<char> {
        match self {
            RingBufferError::NotEnoughSpace => "Not enough space in the buffer to push data."@,
            RingBufferError::OutOfBounds => "Tried to read or write outside of the buffer."@,
        }
    }

    /// The message of the error.
    pub fn to_string(&self) -> (text: String)
        ensures
            text@ == self.message(),
    {
        match self {
            RingBufferError::NotEnoughSpace => String::from_str(
                "Not enough space in the buffer to push data.",
            ),
            RingBufferError::OutOfBounds => String::from_str(
                "Tried to read or write outside of the buffer.",
            ),
        }
    }
}

/// A ring buffer for chars whose slots are empty until a char is written
/// to them.
///
/// Its view is the queue of chars it holds, oldest first.
#[derive(Debug)]
pub struct CharRingBuffer {
    buf: Vec<Option<char>>,
    /// Where to read from next.
    read_pos: usize,
    /// Where to write the next char.
    write_pos: usize,
    /// Number of chars in the buffer.
    len: usize,
}

impl View for CharRingBuffer {
    type V = Seq<char>;

    closed spec fn view(&self) -> Seq<char> {
        Seq::new(
            self.len as nat,
            |i: int| self.buf@[wrap_index(self.read_pos as int, i, self.buf@.len() as int)]->0,
        )
    }
}

impl CharRingBuffer {
    /// The number of slots.
    pub closed spec fn spec_capacity(&self) -> nat {
        self.buf@.len()
    }

    /// The slot that the next pop reads.
    pub closed spec fn spec_read_pos(&self) -> nat {
        self.read_pos as nat
    }

    /// The slot that the next push writes.
    pub closed spec fn spec_write_pos(&self) -> nat {
        self.write_pos as nat
    }

    /// What slot `index` holds, whether or not it belongs to the queue.
    pub closed spec fn spec_slot(&self, index: int) -> Option<char> {
        self.buf@[index]
    }

    /// The invariant of the buffer: the queue fits in the slots, its slots
    /// hold chars, and the write position is the read position advanced by
    /// the queue's length.
    pub closed spec fn wf(&self) -> bool {
        &&& self.len <= self.buf@.len()
        &&& if self.buf@.len() == 0 {
            self.read_pos == 0 && self.write_pos == 0
        } else {
            &&& self.read_pos < self.buf@.len()
            &&& self.write_pos == wrap_index(
                self.read_pos as int,
                self.len as int,
                self.buf@.len() as int,
            )
        }
        &&& forall|i: int|
            0 <= i < self.len ==> (#[trigger] self.buf@[wrap_index(
                self.read_pos as int,
                i,
                self.buf@.len() as int,
            )]) is Some
    }

    /// In a well-formed buffer the queue is no longer than the capacity and
    /// both positions are slots, or 0 where there is no slot.
    pub proof fn lemma_wf(&self)
        requires
            self.wf(),
        ensures
            self@.len() <= self.spec_capacity(),
            self.spec_capacity() == 0 ==> self.spec_read_pos() == 0 && self.spec_write_pos() == 0,
            self.spec_capacity() > 0 ==> self.spec_read_pos() < self.spec_capacity()
                && self.spec_write_pos() == wrap_index(
                self.spec_read_pos() as int,
                self@.len() as int,
                self.spec_capacity() as int,
            ),
    {
    }

    /// An empty buffer of `capacity` empty slots, with both positions at
    /// slot 0.
    pub fn new(capacity: usize) -> (buffer: Self)
        ensures
            buffer.wf(),
            buffer@ == Seq::<char>::empty(),
            buffer.spec_capacity() == capacity,
            buffer.spec_read_pos() == 0,
            buffer.spec_write_pos() == 0,
            forall|i: int| 0 <= i < capacity ==> buffer.spec_slot(i) is None,
    {
        let mut buf: Vec<Option<char>> = Vec::new();
        let mut i: usize = 0;
        while i < capacity
            invariant
                i <= capacity,
                buf@.len() == i,
                forall|j: int| 0 <= j < i ==> buf@[j] is None,
            decreases capacity - i,
        {
            buf.push(None);
            i += 1;
        }
        let buffer = CharRingBuffer { buf, read_pos: 0, write_pos: 0, len: 0 };
        assert(buffer@ =~= Seq::<char>::empty());
        buffer
    }

    pub fn capacity(&self) -> (capacity: usize)
        ensures
            capacity == self.spec_capacity(),
    {
        self.buf.len()
    }

    pub fn len(&self) -> (len: usize)
        ensures
            len == self@.len(),
    {
        self.len
    }

    pub fn empty(&self) -> (empty: bool)
        ensures
            empty == (self@.len() == 0),
    {
        self.len == 0
    }

    pub fn read_pos(&self) -> (pos: usize)
        ensures
            pos == self.spec_read_pos(),
    {
        self.read_pos
    }

    pub fn write_pos(&self) -> (pos: usize)
        ensures
            pos == self.spec_write_pos(),
    {
        self.write_pos
    }

    /// What slot `index` holds, whether or not it belongs to the queue.
    pub fn slot(&self, index: usize) -> (c: Option<char>)
        requires
            index < self.spec_capacity(),
        ensures
            c == self.spec_slot(index as int),
    {
        self.buf[index]
    }

    /// Appends a char at the end of the buffer. A full buffer refuses the
    /// char and stays as it is.
    pub fn push_back(&mut self, c: char) -> (result: Result<(), RingBufferError>)
        requires
            old(self).wf(),
        ensures
            final(self).wf(),
            final(self).spec_capacity() == old(self).spec_capacity(),
            final(self).spec_read_pos() == old(self).spec_read_pos(),
            (final(self)@, result is Ok) == queue_push(old(self)@, old(self).spec_capacity(), c),
            match result {
                Ok(_) => {
                    &&& final(self).spec_write_pos() == wrap_index(
                        old(self).spec_write_pos() as int,
                        1,
                        old(self).spec_capacity() as int,
                    )
                    &&& final(self).spec_slot(old(self).spec_write_pos() as int) == Some(c)
                    &&& forall|i: int|
                        0 <= i < old(self).spec_capacity() && i != old(self).spec_write_pos()
                            ==> final(self).spec_slot(i) == old(self).spec_slot(i)
                },
                Err(err) => *final(self) == *old(self) && err == RingBufferError::NotEnoughSpace,
            },
    {
        if self.len == self.buf.len() {
            return Err(RingBufferError::NotEnoughSpace);
        }
        self.buf.set(self.write_pos, Some(c));
        // Increase write_pos and wrap around if necessary
        self.write_pos = self.write_pos + 1;
        if self.write_pos == self.buf.len() {
            self.write_pos = 0;
        }
        // Increase size
        self.len = self.len + 1;
        assert(self@ =~= old(self)@.push(c));
        assert forall|i: int| 0 <= i < self.len implies (#[trigger] self.buf@[wrap_index(
            self.read_pos as int,
            i,
            self.buf@.len() as int,
        )]) is Some by {
            if i < old(self).len {
                assert(old(self).buf@[wrap_index(
                    old(self).read_pos as int,
                    i,
                    old(self).buf@.len() as int,
                )] is Some);
            }
        }
        Ok(())
    }

    /// Removes the char at the start of the buffer and returns it, or
    /// returns `None` and changes nothing where the buffer is empty. The
    /// slots keep what they hold.
    pub fn pop_front(&mut self) -> (popped: Option<char>)
        requires
            old(self).wf(),
        ensures
            final(self).wf(),
            final(self).spec_capacity() == old(self).spec_capacity(),
            final(self).spec_write_pos() == old(self).spec_write_pos(),
            forall|i: int| final(self).spec_slot(i) == old(self).spec_slot(i),
            (final(self)@, popped) == queue_pop(old(self)@),
            match popped {
                Some(_) => final(self).spec_read_pos() == wrap_index(
                    old(self).spec_read_pos() as int,
                    1,
                    old(self).spec_capacity() as int,
                ),
                None => *final(self) == *old(self),
            },
    {
        if self.empty() {
            return None;
        }
        let capacity = self.buf.len();
        assert(self.buf@[wrap_index(self.read_pos as int, 0, self.buf@.len() as int)] is Some);
        let c = self.buf[self.read_pos];
        // Increase read_pos and wrap around if necessary
        self.read_pos = self.read_pos + 1;
        if self.read_pos == capacity {
            self.read_pos = 0;
        }
        // Decrease size
        self.len = self.len - 1;
        assert(self@ =~= old(self)@.skip(1));
        assert forall|i: int| 0 <= i < self.len implies (#[trigger] self.buf@[wrap_index(
            self.read_pos as int,
            i,
            self.buf@.len() as int,
        )]) is Some by {
            assert(old(self).buf@[wrap_index(
                old(self).read_pos as int,
                i + 1,
                old(self).buf@.len() as int,
            )] is Some);
        }
        c
    }

    /// The char at the start of the buffer, if there is one.
    pub fn peek(&self) -> (peeked: Option<char>)
        requires
            self.wf(),
        ensures
            peeked == queue_pop(self@).1,
    {
        if self.empty() {
            return None;
        }
        assert(self.buf@[wrap_index(self.read_pos as int, 0, self.buf@.len() as int)] is Some);
        self.buf[self.read_pos]
    }

    /// The char `n` places behind the start of the buffer, if the buffer
    /// holds that many.
    pub fn peek_nth(&self, n: usize) -> (peeked: Option<char>)
        requires
            self.wf(),
        ensures
            peeked == (if n < self@.len() {
                Some(self@[n as int])
            } else {
                None
            }),
    {
        if n >= self.len {
            return None;
        }
        let room = self.buf.len() - self.read_pos;
        let pos = if n < room {
            self.read_pos + n
        } else {
            n - room
        };
        assert(self.buf@[wrap_index(self.read_pos as int, n as int, self.buf@.len() as int)] is Some);
        self.buf[pos]
    }
}

} // verus!
