use vstd::prelude::*;

verus! {

/// What a stream is, seen from outside: the whole input it reads, how much
/// of it has been consumed, and how far ahead of that it can look.
///
/// The input is the complete sequence of elements the stream will ever
/// produce, consumed or not; it never changes. `cursor` is the number of
/// elements consumed so far, which is also the index of the next element.
/// `window` is the number of elements ahead of the cursor that the stream can
/// retain at once, or `None` where it retains everything.
pub struct StreamState<T> {
    pub input: Seq<T>,
    pub cursor: nat,
    pub window: Option<nat>,
}

impl<T> StreamState<T> {
    /// Whether the element `n` places after the cursor can be looked at: it
    /// exists and lies within the window.
    pub open spec fn reaches(self, n: nat) -> bool {
        &&& self.cursor + n < self.input.len()
        &&& self.window matches Some(w) ==> n < w
    }

    /// The element `n` places after the cursor, where it can be looked at.
    pub open spec fn ahead(self, n: nat) -> Option<T> {
        if self.reaches(n) {
            Some(self.input[(self.cursor + n) as int])
        } else {
            None
        }
    }

    /// The state after consuming the element `n` places after the cursor and
    /// all those before it; the same state where that element cannot be
    /// looked at.
    pub open spec fn consumed_through(self, n: nat) -> Self {
        if self.reaches(n) {
            StreamState { input: self.input, cursor: self.cursor + n + 1, window: self.window }
        } else {
            self
        }
    }
}

/// A forward-only source of elements with lookahead.
pub trait Stream<T> {
    /// The abstract state of the stream.
    spec fn state(&self) -> StreamState<T>;

    /// The invariant of the stream.
    spec fn wf(&self) -> bool;

    /// A well-formed stream has not consumed more than its input, and its
    /// input can be indexed by `usize`.
    proof fn lemma_cursor_in_input(&self)
        requires
            self.wf(),
        ensures
            self.state().cursor <= self.state().input.len() <= usize::MAX,
    ;

    /// Returns the next element of the input without consuming it.
    fn peek(&mut self) -> (elem: Option<T>)
        requires
            old(self).wf(),
        ensures
            final(self).wf(),
            final(self).state() == old(self).state(),
            elem == old(self).state().ahead(0),
    ;

    /// Returns the element `n` places after the next one without consuming
    /// anything: if the next elements are "hello", `peek_nth(4)` is `'o'`.
    fn peek_nth(&mut self, n: usize) -> (elem: Option<T>)
        requires
            old(self).wf(),
        ensures
            final(self).wf(),
            final(self).state() == old(self).state(),
            elem == old(self).state().ahead(n as nat),
    ;

    /// Consumes the next element of the input and returns it.
    fn consume(&mut self) -> (elem: Option<T>)
        requires
            old(self).wf(),
        ensures
            final(self).wf(),
            final(self).state() == old(self).state().consumed_through(0),
            elem == old(self).state().ahead(0),
    ;

    /// Consumes the element `n` places after the next one, and everything
    /// before it, and returns it: if the next elements are "hello world",
    /// `consume_nth(4)` returns `'o'` and leaves the cursor at " world".
    /// Where that element cannot be looked at, nothing is consumed.
    fn consume_nth(&mut self, n: usize) -> (elem: Option<T>)
        requires
            old(self).wf(),
        ensures
            final(self).wf(),
            final(self).state() == old(self).state().consumed_through(n as nat),
            elem == old(self).state().ahead(n as nat),
    ;

    /// Whether no further element can be produced.
    fn is_eof(&mut self) -> (eof: bool)
        requires
            old(self).wf(),
        ensures
            final(self).wf(),
            final(self).state() == old(self).state(),
            eof == !old(self).state().reaches(0),
    ;
}

} // verus!
