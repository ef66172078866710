use vstd::prelude::*;
use vstd::string::StringSliceAdditionalSpecFns;
use vstd::utf8::{
    encode_utf8, encode_utf8_valid_utf8, is_char_boundary, is_char_boundary_iff_not_is_continuation_byte,
    is_char_boundary_start_end_of_seq, valid_utf8_split,
};

verus! {

/// Whether the bytes of a text from index `start` up to `start + width`
/// are whole chars: both ends are char boundaries within the text.
pub open spec fn is_char_slice(bytes: Seq<u8>, start: nat, width: nat) -> bool {
    &&& start + width <= bytes.len()
    &&& is_char_boundary(bytes, start as int)
    &&& is_char_boundary(bytes, (start + width) as int)
}

/// The width in bytes of the char that starts at byte `start` of a text:
/// the least width from 1 to 4 for which the bytes are whole chars.
pub open spec fn char_width_at(bytes: Seq<u8>, start: nat) -> Option<nat> {
    if is_char_slice(bytes, start, 1) {
        Some(1)
    } else if is_char_slice(bytes, start, 2) {
        Some(2)
    } else if is_char_slice(bytes, start, 3) {
        Some(3)
    } else if is_char_slice(bytes, start, 4) {
        Some(4)
    } else {
        None
    }
}

/// Access to the chars of a text by their byte index.
pub trait ReadUTF8<'a> {
    /// Returns the UTF-8 character in the string that starts at the given
    /// byte index.
    ///
    /// Such a character can measure up to 4 bytes in UTF-8.
    ///
    /// The function returns an option:
    /// - if a char is found, it is returned, as well as its size (up to 4
    ///   bytes)
    /// - if the index is invalid, or no char is found, None is returned
    ///
    /// Be careful:
    /// - the index is the **byte index** and not the UTF char index. For
    ///   example, if the string is "éléphant", the index of "l" is 2, not 1.
    /// - the function works if the given index is at the start of a utf8
    ///   char. If not, it will return None.
    fn get_utf8(&'a self, start_index: usize) -> Option<(&'a str, usize)>;
}

/// The part of `text` from byte `start` up to byte `end`, both of which are
/// char boundaries.
fn slice_between<'a>(text: &'a str, start: usize, end: usize) -> (part: &'a str)
    requires
        start <= end <= text.spec_bytes().len(),
        is_char_boundary(text.spec_bytes(), start as int),
        is_char_boundary(text.spec_bytes(), end as int),
    ensures
        part.spec_bytes() == text.spec_bytes().subrange(start as int, end as int),
{
    let ghost bytes = text.spec_bytes();
    proof {
        encode_utf8_valid_utf8(text@);
    }
    let (_, tail) = text.split_at(start);
    proof {
        let rest = tail.spec_bytes();
        valid_utf8_split(bytes, start as int);
        assert(rest =~= bytes.subrange(start as int, bytes.len() as int));
        if end == start {
        } else if end == bytes.len() {
            is_char_boundary_start_end_of_seq(rest);
        } else {
            is_char_boundary_iff_not_is_continuation_byte(bytes, end as int);
            is_char_boundary_iff_not_is_continuation_byte(rest, end - start);
        }
    }
    let (part, _) = tail.split_at(end - start);
    assert(part.spec_bytes() =~= bytes.subrange(start as int, end as int));
    part
}

impl<'a> ReadUTF8<'a> for String {
    fn get_utf8(&'a self, start_index: usize) -> (found: Option<(&'a str, usize)>)
        ensures
            match char_width_at(encode_utf8(self@), start_index as nat) {
                Some(width) => found matches Some((text, size)) && size == width
                    && text.spec_bytes() == encode_utf8(self@).subrange(
                    start_index as int,
                    start_index + width,
                ),
                None => found is None,
            },
    {
        let text = self.as_str();
        let len = text.as_bytes().len();
        proof {
            encode_utf8_valid_utf8(self@);
        }
        if start_index >= len || !text.is_char_boundary(start_index) {
            return None;
        }
        let mut width: usize = 1;

        // Try to take more and more bytes to finally have a valid utf8 char
        // Also don't search if there are more than 4 bytes in the slice: its the max of unicode
        // it would mean that the first index is at the middle of a char
        while width <= 4 && width <= len - start_index
            invariant
                1 <= width <= 5,
                start_index < len,
                len == text.spec_bytes().len(),
                text@ == self@,
                is_char_boundary(text.spec_bytes(), start_index as int),
                forall|w: nat|
                    1 <= w < width ==> !#[trigger] is_char_slice(
                        text.spec_bytes(),
                        start_index as nat,
                        w,
                    ),
            decreases 5 - width,
        {
            if text.is_char_boundary(start_index + width) {
                // Found a valid char !
                let part = slice_between(text, start_index, start_index + width);
                return Some((part, width));
            }
            // Didn't find a char, try a bigger slice
            width = width + 1;
        }
        None
    }
}

} // verus!
