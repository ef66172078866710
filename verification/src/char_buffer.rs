use vstd::prelude::*;
use vstd::string::StringExecFns;

verus! {

/// Why an operation on a `CharBuffer` failed.
#[derive(Debug, Clone, Copy, PartialEq, Eq)]
pub enum CharBufferErrorType {
    /// The buffer is full.
    NotEnoughSpace,
}

/// A failed operation on a `CharBuffer`, with the char it was about.
#[derive(Debug, Clone, Copy, PartialEq, Eq)]
pub struct CharBufferError {
    pub c: char,
    pub error_type: CharBufferErrorType,
}

impl CharBufferError {
    pub fn new(c: char, error_type: CharBufferErrorType) -> (err: Self)
        ensures
            err == (CharBufferError { c, error_type }),
    {
        CharBufferError { c, error_type }
    }

    /// The message of the error.
    pub open spec fn message(self) -> Seq<char> {
        "Not enough space in the buffer to push the char "@.push(self.c)
    }

    /// The message of the error.
    pub fn to_string(&self) -> (text: String)
        ensures
            text@ == self.message(),
    {
        let mut out = String::from_str("Not enough space in the buffer to push the char ");
        out.push(self.c);
        out
    }
}

/// The slot `offset` places after slot `start` in a circle of `capacity`
/// slots, for `start < capacity` and `offset <= capacity`.
pub open spec fn wrap_index(start: int, offset: int, capacity: int) -> int {
    if start + offset < capacity {
        start + offset
    } else {
        start + offset - capacity
    }
}

/// For a slot and an offset within the circle, `wrap_index` is the remainder
/// of their sum by the capacity.
pub proof fn lemma_wrap_index_is_remainder(start: int, offset: int, capacity: int)
    requires
        0 <= start < capacity,
        0 <= offset <= capacity,
    ensures
        0 <= wrap_index(start, offset, capacity) < capacity,
        wrap_index(start, offset, capacity) == (start + offset) % capacity,
{
    if start + offset < capacity {
        vstd::arithmetic::div_mod::lemma_small_mod((start + offset) as nat, capacity as nat);
    } else {
        vstd::arithmetic::div_mod::lemma_small_mod((start + offset - capacity) as nat, capacity as nat);
        vstd::arithmetic::div_mod::lemma_mod_sub_multiples_vanish(start + offset, capacity);
    }
}

/// What pushing `c` makes of a queue that can hold `capacity` chars, and
/// whether the char was accepted: a full queue refuses it and stays as it
/// is.
pub open spec fn queue_push(queue: Seq<char>, capacity: nat, c: char) -> (Seq<char>, bool) {
    if queue.len() < capacity {
        (queue.push(c), true)
    } else {
        (queue, false)
    }
}

/// What popping makes of a queue, and the char popped: the oldest one,
/// which is none where the queue is empty.
pub open spec fn queue_pop(queue: Seq<char>) -> (Seq<char>, Option<char>) {
    if queue.len() > 0 {
        (queue.skip(1), Some(queue[0]))
    } else {
        (queue, None)
    }
}

/// What pushing each of `items` in turn makes of a queue that can hold
/// `capacity` chars.
pub open spec fn queue_push_all(queue: Seq<char>, capacity: nat, items: Seq<char>) -> Seq<char>
    decreases items.len(),
{
    if items.len() == 0 {
        queue
    } else {
        queue_push_all(queue_push(queue, capacity, items[0]).0, capacity, items.skip(1))
    }
}

/// What popping `count` times makes of a queue, and the chars popped, in
/// the order in which they came out.
pub open spec fn queue_pop_many(queue: Seq<char>, count: nat) -> (Seq<char>, Seq<char>)
    decreases count,
{
    if count == 0 {
        (queue, Seq::empty())
    } else {
        match queue_pop(queue) {
            (rest, Some(c)) => {
                let (left, popped) = queue_pop_many(rest, (count - 1) as nat);
                (left, seq![c] + popped)
            },
            (rest, None) => (rest, Seq::empty()),
        }
    }
}

/// Items pushed on a queue that has room for them all stand behind what the
/// queue held, in the order in which they were pushed.
pub proof fn lemma_push_all_appends(queue: Seq<char>, capacity: nat, items: Seq<char>)
    requires
        queue.len() + items.len() <= capacity,
    ensures
        queue_push_all(queue, capacity, items) == queue + items,
    decreases items.len(),
{
    if items.len() == 0 {
        assert(queue + items =~= queue);
    } else {
        lemma_push_all_appends(queue.push(items[0]), capacity, items.skip(1));
        assert(queue.push(items[0]) + items.skip(1) =~= queue + items);
    }
}

/// Popping as many times as a queue is long, or fewer, takes its oldest
/// chars off in order and leaves the rest.
pub proof fn lemma_pop_many_takes_front(queue: Seq<char>, count: nat)
    requires
        count <= queue.len(),
    ensures
        queue_pop_many(queue, count) == (queue.skip(count as int), queue.take(count as int)),
    decreases count,
{
    if count == 0 {
        assert(queue.skip(0) =~= queue);
        assert(queue.take(0) =~= Seq::<char>::empty());
    } else {
        lemma_pop_many_takes_front(queue.skip(1), (count - 1) as nat);
        assert(queue.skip(1).skip(count - 1) =~= queue.skip(count as int));
        assert(seq![queue[0]] + queue.skip(1).take(count - 1) =~= queue.take(count as int));
    }
}

/// First in, first out: as many items as an empty queue has room for,
/// pushed and then popped, come out as they went in and leave the queue
/// empty.
pub proof fn law_queue_round_trip(capacity: nat, items: Seq<char>)
    requires
        items.len() <= capacity,
    ensures
        queue_push_all(Seq::empty(), capacity, items) == items,
        queue_pop_many(queue_push_all(Seq::empty(), capacity, items), items.len()) == (
            Seq::<char>::empty(),
            items,
        ),
{
    lemma_push_all_appends(Seq::empty(), capacity, items);
    assert(Seq::<char>::empty() + items =~= items);
    lemma_pop_many_takes_front(items, items.len());
    assert(items.skip(items.len() as int) =~= Seq::<char>::empty());
    assert(items.take(items.len() as int) =~= items);
}

/// A push on a full queue is refused and leaves the queue as it was.
pub proof fn law_full_queue_refuses(queue: Seq<char>, capacity: nat, c: char)
    requires
        queue.len() >= capacity,
    ensures
        queue_push(queue, capacity, c) == (queue, false),
{
}

/// A queue of chars in a fixed number of slots laid out as a circle.
///
/// Its view is the queue itself, oldest char first. Chars are pushed at the
/// write position and popped at the read position; both positions wrap round
/// to slot 0 after the last slot.
pub struct CharBuffer {
    buf: Vec<char>,
    /// Where to read from next.
    read_pos: usize,
    /// Where to write the next char.
    write_pos: usize,
    /// Number of chars in the buffer.
    size: usize,
}

impl View for CharBuffer {
    type V = Seq<char>;

    closed spec fn view(&self) -> Seq<char> {
        Seq::new(
            self.size as nat,
            |i: int| self.buf@[wrap_index(self.read_pos as int, i, self.buf@.len() as int)],
        )
    }
}

impl CharBuffer {
    /// The number of slots.
    pub closed spec fn spec_capacity(&self) -> nat {
        self.buf@.len()
    }

    /// The slot that the next pop reads.
    pub closed spec fn spec_read_pos(&self) -> nat {
        self.read_pos as nat
    }

    /// The slot that the next push writes.
    pub closed spec fn spec_write_pos(&self) -> nat {
        self.write_pos as nat
    }

    /// What slot `index` holds, whether or not it belongs to the queue.
    pub closed spec fn spec_slot(&self, index: int) -> char {
        self.buf@[index]
    }

    /// The invariant of the buffer: the queue fits in the slots, and the
    /// write position is the read position advanced by the queue's length.
    pub closed spec fn wf(&self) -> bool {
        &&& self.size <= self.buf@.len()
        &&& if self.buf@.len() == 0 {
            self.read_pos == 0 && self.write_pos == 0
        } else {
            &&& self.read_pos < self.buf@.len()
            &&& self.write_pos == wrap_index(
                self.read_pos as int,
                self.size as int,
                self.buf@.len() as int,
            )
        }
    }

    /// In a well-formed buffer the queue is no longer than the capacity, both
    /// positions are slots (or 0 where there is no slot), the write position
    /// is the read position advanced by the queue's length, and the queue is
    /// what the slots hold from the read position on.
    pub proof fn lemma_wf(&self)
        requires
            self.wf(),
        ensures
            self@.len() <= self.spec_capacity(),
            self.spec_capacity() == 0 ==> self.spec_read_pos() == 0 && self.spec_write_pos() == 0,
            self.spec_capacity() > 0 ==> self.spec_read_pos() < self.spec_capacity()
                && self.spec_write_pos() == wrap_index(
                self.spec_read_pos() as int,
                self@.len() as int,
                self.spec_capacity() as int,
            ),
            forall|i: int|
                0 <= i < self@.len() ==> self@[i] == self.spec_slot(
                    wrap_index(self.spec_read_pos() as int, i, self.spec_capacity() as int),
                ),
    {
    }

    /// An empty buffer of `capacity` slots, each holding `'\0'`, with both
    /// positions at slot 0.
    pub fn new(capacity: usize) -> (buffer: Self)
        ensures
            buffer.wf(),
            buffer@ == Seq::<char>::empty(),
            buffer.spec_capacity() == capacity,
            buffer.spec_read_pos() == 0,
            buffer.spec_write_pos() == 0,
            forall|i: int| 0 <= i < capacity ==> buffer.spec_slot(i) == '\0',
    {
        let mut buf: Vec<char> = Vec::new();
        let mut i: usize = 0;
        while i < capacity
            invariant
                i <= capacity,
                buf@.len() == i,
                forall|j: int| 0 <= j < i ==> buf@[j] == '\0',
            decreases capacity - i,
        {
            buf.push('\0');
            i += 1;
        }
        let buffer = CharBuffer { buf, read_pos: 0, write_pos: 0, size: 0 };
        assert(buffer@ =~= Seq::<char>::empty());
        buffer
    }

    pub fn capacity(&self) -> (capacity: usize)
        ensures
            capacity == self.spec_capacity(),
    {
        self.buf.len()
    }

    pub fn size(&self) -> (size: usize)
        ensures
            size == self@.len(),
    {
        self.size
    }

    pub fn read_pos(&self) -> (pos: usize)
        ensures
            pos == self.spec_read_pos(),
    {
        self.read_pos
    }

    pub fn write_pos(&self) -> (pos: usize)
        ensures
            pos == self.spec_write_pos(),
    {
        self.write_pos
    }

    /// What slot `index` holds, whether or not it belongs to the queue.
    pub fn slot(&self, index: usize) -> (c: char)
        requires
            index < self.spec_capacity(),
        ensures
            c == self.spec_slot(index as int),
    {
        self.buf[index]
    }

    /// Appends `c` to the queue, writing it at the write position. A full
    /// buffer refuses the char and stays as it is.
    pub fn push(&mut self, c: char) -> (result: Result<(), CharBufferError>)
        requires
            old(self).wf(),
        ensures
            final(self).wf(),
            final(self).spec_capacity() == old(self).spec_capacity(),
            final(self).spec_read_pos() == old(self).spec_read_pos(),
            (final(self)@, result is Ok) == queue_push(old(self)@, old(self).spec_capacity(), c),
            match result {
                Ok(_) => {
                    &&& old(self)@.len() < old(self).spec_capacity()
                    &&& final(self)@ == old(self)@.push(c)
                    &&& final(self).spec_write_pos() == wrap_index(
                        old(self).spec_write_pos() as int,
                        1,
                        old(self).spec_capacity() as int,
                    )
                    &&& final(self).spec_slot(old(self).spec_write_pos() as int) == c
                    &&& forall|i: int|
                        0 <= i < old(self).spec_capacity() && i != old(self).spec_write_pos()
                            ==> final(self).spec_slot(i) == old(self).spec_slot(i)
                },
                Err(err) => {
                    &&& old(self)@.len() == old(self).spec_capacity()
                    &&& *final(self) == *old(self)
                    &&& err == (CharBufferError {
                        c,
                        error_type: CharBufferErrorType::NotEnoughSpace,
                    })
                },
            },
    {
        if self.size == self.buf.len() {
            return Err(CharBufferError::new(c, CharBufferErrorType::NotEnoughSpace));
        }
        self.buf.set(self.write_pos, c);
        // Increase write_pos and wrap around if necessary
        self.write_pos = self.write_pos + 1;
        if self.write_pos == self.buf.len() {
            self.write_pos = 0;
        }
        self.size = self.size + 1;
        assert(self@ =~= old(self)@.push(c));
        Ok(())
    }

    /// Removes the oldest char of the queue and returns it, or returns `None`
    /// and changes nothing where the queue is empty. The slots keep what they
    /// hold.
    pub fn pop(&mut self) -> (popped: Option<char>)
        requires
            old(self).wf(),
        ensures
            final(self).wf(),
            final(self).spec_capacity() == old(self).spec_capacity(),
            final(self).spec_write_pos() == old(self).spec_write_pos(),
            forall|i: int| final(self).spec_slot(i) == old(self).spec_slot(i),
            (final(self)@, popped) == queue_pop(old(self)@),
            match popped {
                Some(c) => {
                    &&& old(self)@.len() > 0
                    &&& c == old(self)@[0]
                    &&& final(self)@ == old(self)@.skip(1)
                    &&& final(self).spec_read_pos() == wrap_index(
                        old(self).spec_read_pos() as int,
                        1,
                        old(self).spec_capacity() as int,
                    )
                },
                None => old(self)@.len() == 0 && *final(self) == *old(self),
            },
    {
        if self.size == 0 {
            return None;
        }
        let capacity = self.buf.len();
        let c = self.buf[self.read_pos];
        // Increase read_pos and wrap around if necessary
        self.read_pos = self.read_pos + 1;
        if self.read_pos == capacity {
            self.read_pos = 0;
        }
        self.size = self.size - 1;
        assert(self@ =~= old(self)@.skip(1));
        Some(c)
    }

    /// The oldest char of the queue, if there is one.
    pub fn peek(&self) -> (peeked: Option<char>)
        requires
            self.wf(),
        ensures
            peeked == (if self@.len() > 0 {
                Some(self@[0])
            } else {
                None
            }),
    {
        if self.size == 0 {
            return None;
        }
        Some(self.buf[self.read_pos])
    }

    /// The char `n` places behind the oldest one, if the queue is that long.
    pub fn peek_nth(&self, n: usize) -> (peeked: Option<char>)
        requires
            self.wf(),
        ensures
            peeked == (if n < self@.len() {
                Some(self@[n as int])
            } else {
                None
            }),
    {
        if n >= self.size {
            return None;
        }
        let room = self.buf.len() - self.read_pos;
        let pos = if n < room {
            self.read_pos + n
        } else {
            n - room
        };
        Some(self.buf[pos])
    }
}

} // verus!
