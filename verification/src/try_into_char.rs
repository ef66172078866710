use vstd::prelude::*;
use vstd::utf8::{decode_utf8, valid_utf8};

verus! {

/// The text that four bytes encode in UTF-8, if they encode one.
///
/// Calls `std::str::from_utf8`, which checks that the bytes are valid UTF-8
/// and hands them back as a `&str`. The contract states that it succeeds
/// exactly on valid UTF-8 and that the text is then what the bytes decode
/// to, both in the terms in which `vstd` defines UTF-8.
#[verifier::external_body]
fn utf8_text(bytes: &[u8; 4]) -> (text: Option<&str>)
    ensures
        text is Some <==> valid_utf8(bytes@),
        text matches Some(s) ==> s@ == decode_utf8(bytes@),
{
    match std::str::from_utf8(bytes) {
        Ok(s) => Some(s),
        Err(_) => None,
    }
}

/// The char that a window of bytes starts with, where the whole window is
/// valid UTF-8.
pub open spec fn leading_char(window: Seq<u8>) -> Option<char> {
    if valid_utf8(window) && window.len() > 0 {
        Some(decode_utf8(window)[0])
    } else {
        None
    }
}

/// `bytes`, of which there are at most four, followed by zero bytes up to a
/// length of four.
pub open spec fn padded(bytes: Seq<u8>) -> Seq<u8> {
    Seq::new(
        4,
        |i: int|
            if i < bytes.len() {
                bytes[i]
            } else {
                0u8
            },
    )
}

/// The chars that a decoder yields from `bytes` when it already holds
/// `window`, bytes it has taken but not yet decoded.
///
/// The decoder takes one byte at a time into the window. As soon as the
/// window, padded with zero bytes, starts with a char, it yields that char
/// and empties the window. It gives up for good once four bytes in the
/// window yield nothing, and it yields nothing for bytes left in the window
/// when the input ends.
pub open spec fn decode_with_window(window: Seq<u8>, bytes: Seq<u8>) -> Seq<char>
    decreases bytes.len(),
{
    if bytes.len() == 0 || window.len() >= 4 {
        Seq::empty()
    } else {
        let taken = window.push(bytes[0]);
        match leading_char(padded(taken)) {
            Some(c) => seq![c] + decode_with_window(Seq::empty(), bytes.skip(1)),
            None => decode_with_window(taken, bytes.skip(1)),
        }
    }
}

/// The chars that a stream of bytes holds, decoded from its start.
pub open spec fn decode_stream(bytes: Seq<u8>) -> Seq<char> {
    decode_with_window(Seq::empty(), bytes)
}

/// Every char decoded takes at least one byte.
pub proof fn lemma_decode_length(window: Seq<u8>, bytes: Seq<u8>)
    ensures
        decode_with_window(window, bytes).len() <= bytes.len(),
    decreases bytes.len(),
{
    if bytes.len() == 0 || window.len() >= 4 {
    } else {
        let taken = window.push(bytes[0]);
        match leading_char(padded(taken)) {
            Some(c) => lemma_decode_length(Seq::empty(), bytes.skip(1)),
            None => lemma_decode_length(taken, bytes.skip(1)),
        }
    }
}

/// Conversion of a group of bytes to the char it starts with.
pub trait TryIntoChar {
    type Error;

    fn try_into_char(self) -> Result<char, Self::Error>;
}

impl TryIntoChar for [u8; 4] {
    type Error = ();

    /// The first char of the four bytes, which must all be valid UTF-8.
    fn try_into_char(self) -> (result: Result<char, ()>)
        ensures
            result == (match leading_char(self@) {
                Some(c) => Ok::<char, ()>(c),
                None => Err(()),
            }),
    {
        match utf8_text(&self) {
            Some(s) => {
                assert(decode_utf8(self@).len() > 0);
                Ok(s.get_char(0))
            },
            None => Err(()),
        }
    }
}

} // verus!
