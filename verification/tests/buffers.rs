use parser_lib::{CharBuffer, CharBufferError, CharBufferErrorType, CharRingBuffer, RingBufferError};

#[test]
fn char_buffer_test_init() {
    let cb = CharBuffer::new(10);

    assert_eq!(cb.capacity(), 10);
    assert_eq!(cb.read_pos(), 0);
    assert_eq!(cb.write_pos(), 0);

    for i in 0..cb.capacity() {
        assert_eq!(cb.slot(i), '\0');
    }
}

#[test]
fn char_buffer_test_push() {
    let mut cb = CharBuffer::new(5);

    // Move head to middle so we can test wrapping
    assert!(cb.push('x').is_ok());
    assert!(cb.push('x').is_ok());
    assert_eq!(cb.pop(), Some('x'));
    assert_eq!(cb.pop(), Some('x'));
    assert_eq!(cb.write_pos(), 2);

    assert_eq!(cb.size(), 0);

    assert_eq!(cb.push('h').is_ok(), true);
    assert_eq!(cb.size(), 1);
    assert_eq!(cb.write_pos(), 3);
    assert_eq!(cb.slot(2), 'h');

    assert_eq!(cb.push('e').is_ok(), true);
    assert_eq!(cb.size(), 2);
    assert_eq!(cb.write_pos(), 4);
    assert_eq!(cb.slot(3), 'e');

    assert_eq!(cb.push('l').is_ok(), true);
    assert_eq!(cb.size(), 3);
    assert_eq!(cb.write_pos(), 0);
    assert_eq!(cb.slot(4), 'l');

    assert_eq!(cb.push('l').is_ok(), true);
    assert_eq!(cb.size(), 4);
    assert_eq!(cb.write_pos(), 1);
    assert_eq!(cb.slot(0), 'l');

    assert_eq!(cb.push('o').is_ok(), true);
    assert_eq!(cb.size(), 5);
    assert_eq!(cb.write_pos(), 2);
    assert_eq!(cb.slot(1), 'o');

    // Now we should be full
    assert_eq!(cb.push('!').is_ok(), false);
}

#[test]
fn char_buffer_test_pop() {
    let mut cb = CharBuffer::new(5);

    // Move head to middle so we can test wrapping
    assert!(cb.push('x').is_ok());
    assert!(cb.push('x').is_ok());
    assert_eq!(cb.pop(), Some('x'));
    assert_eq!(cb.pop(), Some('x'));
    assert_eq!(cb.read_pos(), 2);
    assert_eq!(cb.write_pos(), 2);

    // First, its empty
    assert_eq!(cb.size(), 0);
    assert_eq!(cb.pop().is_none(), true);

    // Now we push some chars
    assert_eq!(cb.push('h').is_ok(), true);
    assert_eq!(cb.push('e').is_ok(), true);

    // Now we should have 2 chars
    assert_eq!(cb.size(), 2);

    // Pop the first char
    assert_eq!(cb.pop().unwrap(), 'h');
    assert_eq!(cb.size(), 1);
    assert_eq!(cb.read_pos(), 3);

    // Pop the second char
    assert_eq!(cb.pop().unwrap(), 'e');
    assert_eq!(cb.size(), 0);
    assert_eq!(cb.read_pos(), 4);

    // Now we should be empty
    assert_eq!(cb.pop().is_none(), true);

    // Now we push some more chars
    assert_eq!(cb.push('h').is_ok(), true);
    assert_eq!(cb.push('e').is_ok(), true);
    assert_eq!(cb.push('l').is_ok(), true);
    assert_eq!(cb.push('l').is_ok(), true);
    assert_eq!(cb.push('o').is_ok(), true);

    // Now we should have 5 chars
    assert_eq!(cb.size(), 5);

    // Pop the first char
    assert_eq!(cb.pop().unwrap(), 'h');
    assert_eq!(cb.size(), 4);
    assert_eq!(cb.read_pos(), 0);

    // Pop the second char
    assert_eq!(cb.pop().unwrap(), 'e');
    assert_eq!(cb.size(), 3);
    assert_eq!(cb.read_pos(), 1);
}

#[test]
fn char_buffer_test_peek() {
    let mut cb = CharBuffer::new(5);

    // Move head to middle so we can test wrapping
    assert!(cb.push('x').is_ok());
    assert!(cb.push('x').is_ok());
    assert_eq!(cb.pop(), Some('x'));
    assert_eq!(cb.pop(), Some('x'));

    // First, its empty
    assert_eq!(cb.size(), 0);
    assert_eq!(cb.peek().is_none(), true);

    // Now we push some chars
    assert_eq!(cb.push('h').is_ok(), true);
    assert_eq!(cb.push('e').is_ok(), true);

    // Now we should have 2 chars
    assert_eq!(cb.size(), 2);

    // Peek the first char
    assert_eq!(cb.peek().unwrap(), 'h');
    assert_eq!(cb.size(), 2);
    assert_eq!(cb.read_pos(), 2);

    // Peek with nth
    assert_eq!(cb.peek_nth(0).unwrap(), 'h');
    assert_eq!(cb.size(), 2);
    assert_eq!(cb.read_pos(), 2);

    assert_eq!(cb.peek_nth(1).unwrap(), 'e');
    assert_eq!(cb.size(), 2);
    assert_eq!(cb.read_pos(), 2);

    assert_eq!(cb.peek_nth(2).is_none(), true);
}

#[test]
fn ring_buffer_test_init() {
    let cb = CharRingBuffer::new(10);

    assert_eq!(cb.capacity(), 10);
    assert_eq!(cb.read_pos(), 0);
    assert_eq!(cb.write_pos(), 0);

    for i in 0..cb.capacity() {
        assert_eq!(cb.slot(i), None);
    }
}

#[test]
fn ring_buffer_test_push() {
    let mut cb = CharRingBuffer::new(5);

    // Move head to middle so we can test wrapping
    assert!(cb.push_back('x').is_ok());
    assert!(cb.push_back('x').is_ok());
    assert_eq!(cb.pop_front(), Some('x'));
    assert_eq!(cb.pop_front(), Some('x'));
    assert_eq!(cb.write_pos(), 2);

    assert_eq!(cb.len(), 0);

    assert_eq!(cb.push_back('h').is_ok(), true);
    assert_eq!(cb.len(), 1);
    assert_eq!(cb.write_pos(), 3);
    assert_eq!(cb.slot(2), Some('h'));

    assert_eq!(cb.push_back('e').is_ok(), true);
    assert_eq!(cb.len(), 2);
    assert_eq!(cb.write_pos(), 4);
    assert_eq!(cb.slot(3), Some('e'));

    assert_eq!(cb.push_back('l').is_ok(), true);
    assert_eq!(cb.len(), 3);
    assert_eq!(cb.write_pos(), 0);
    assert_eq!(cb.slot(4), Some('l'));

    assert_eq!(cb.push_back('l').is_ok(), true);
    assert_eq!(cb.len(), 4);
    assert_eq!(cb.write_pos(), 1);
    assert_eq!(cb.slot(0), Some('l'));

    assert_eq!(cb.push_back('o').is_ok(), true);
    assert_eq!(cb.len(), 5);
    assert_eq!(cb.write_pos(), 2);
    assert_eq!(cb.slot(1), Some('o'));

    // Now we should be full
    assert_eq!(cb.push_back('!').is_ok(), false);
}

#[test]
fn ring_buffer_test_pop() {
    let mut cb = CharRingBuffer::new(5);

    // Move head to middle so we can test wrapping
    assert!(cb.push_back('x').is_ok());
    assert!(cb.push_back('x').is_ok());
    assert_eq!(cb.pop_front(), Some('x'));
    assert_eq!(cb.pop_front(), Some('x'));
    assert_eq!(cb.read_pos(), 2);
    assert_eq!(cb.write_pos(), 2);

    // First, its empty
    assert_eq!(cb.len(), 0);
    assert_eq!(cb.pop_front().is_none(), true);

    // Now we push some chars
    assert_eq!(cb.push_back('h').is_ok(), true);
    assert_eq!(cb.push_back('e').is_ok(), true);

    // Now we should have 2 chars
    assert_eq!(cb.len(), 2);

    // Pop the first char
    assert_eq!(cb.pop_front().unwrap(), 'h');
    assert_eq!(cb.len(), 1);
    assert_eq!(cb.read_pos(), 3);

    // Pop the second char
    assert_eq!(cb.pop_front().unwrap(), 'e');
    assert_eq!(cb.len(), 0);
    assert_eq!(cb.read_pos(), 4);

    // Now we should be empty
    assert_eq!(cb.pop_front().is_none(), true);

    // Now we push some more chars
    assert_eq!(cb.push_back('h').is_ok(), true);
    assert_eq!(cb.push_back('e').is_ok(), true);
    assert_eq!(cb.push_back('l').is_ok(), true);
    assert_eq!(cb.push_back('l').is_ok(), true);
    assert_eq!(cb.push_back('o').is_ok(), true);

    // Now we should have 5 chars
    assert_eq!(cb.len(), 5);

    // Pop the first char
    assert_eq!(cb.pop_front().unwrap(), 'h');
    assert_eq!(cb.len(), 4);
    assert_eq!(cb.read_pos(), 0);

    // Pop the second char
    assert_eq!(cb.pop_front().unwrap(), 'e');
    assert_eq!(cb.len(), 3);
    assert_eq!(cb.read_pos(), 1);
}

#[test]
fn ring_buffer_test_peek() {
    let mut cb = CharRingBuffer::new(5);

    // Move head to middle so we can test wrapping
    assert!(cb.push_back('x').is_ok());
    assert!(cb.push_back('x').is_ok());
    assert_eq!(cb.pop_front(), Some('x'));
    assert_eq!(cb.pop_front(), Some('x'));

    // First, its empty
    assert_eq!(cb.len(), 0);
    assert_eq!(cb.peek().is_none(), true);

    // Now we push some chars
    assert_eq!(cb.push_back('h').is_ok(), true);
    assert_eq!(cb.push_back('e').is_ok(), true);

    // Now we should have 2 chars
    assert_eq!(cb.len(), 2);

    // Peek the first char
    assert_eq!(cb.peek().unwrap(), 'h');
    assert_eq!(cb.len(), 2);
    assert_eq!(cb.read_pos(), 2);

    // Peek with nth
    assert_eq!(cb.peek_nth(0).unwrap(), 'h');
    assert_eq!(cb.len(), 2);
    assert_eq!(cb.read_pos(), 2);

    assert_eq!(cb.peek_nth(1).unwrap(), 'e');
    assert_eq!(cb.len(), 2);
    assert_eq!(cb.read_pos(), 2);

    assert_eq!(cb.peek_nth(2).is_none(), true);
}

#[test]
fn char_buffer_round_trip_is_fifo() {
    let items = ['a', 'b', 'c', 'd'];
    let mut cb = CharBuffer::new(4);
    for c in items {
        assert!(cb.push(c).is_ok());
    }
    for c in items {
        assert_eq!(cb.pop(), Some(c));
    }
    assert_eq!(cb.pop(), None);
    assert_eq!(cb.size(), 0);
}

#[test]
fn char_buffer_refuses_push_when_full() {
    let mut cb = CharBuffer::new(2);
    assert!(cb.push('a').is_ok());
    assert!(cb.push('b').is_ok());
    let err = cb.push('c').unwrap_err();
    assert_eq!(err, CharBufferError::new('c', CharBufferErrorType::NotEnoughSpace));
    assert_eq!(err.to_string(), "Not enough space in the buffer to push the char c");
    // The contents are as they were
    assert_eq!(cb.size(), 2);
    assert_eq!(cb.peek_nth(0), Some('a'));
    assert_eq!(cb.peek_nth(1), Some('b'));
    assert_eq!(cb.pop(), Some('a'));
    assert_eq!(cb.pop(), Some('b'));
}

#[test]
fn char_buffer_without_slots() {
    let mut cb = CharBuffer::new(0);
    assert_eq!(cb.capacity(), 0);
    assert!(cb.push('a').is_err());
    assert_eq!(cb.pop(), None);
    assert_eq!(cb.peek(), None);
    assert_eq!(cb.peek_nth(0), None);
}

#[test]
fn ring_buffer_round_trip_is_fifo() {
    let mut cb = CharRingBuffer::new(3);
    assert!(cb.empty());
    assert!(cb.push_back('a').is_ok());
    assert!(cb.push_back('b').is_ok());
    assert!(cb.push_back('c').is_ok());
    assert!(!cb.empty());
    assert_eq!(cb.push_back('d'), Err(RingBufferError::NotEnoughSpace));
    assert_eq!(cb.pop_front(), Some('a'));
    assert_eq!(cb.pop_front(), Some('b'));
    assert_eq!(cb.pop_front(), Some('c'));
    assert_eq!(cb.pop_front(), None);
}

#[test]
fn ring_buffer_error_messages() {
    assert_eq!(
        RingBufferError::NotEnoughSpace.to_string(),
        "Not enough space in the buffer to push data."
    );
    assert_eq!(
        RingBufferError::OutOfBounds.to_string(),
        "Tried to read or write outside of the buffer."
    );
}
