use vstd::prelude::*;
use vstd::string::StringExecFns;
use crate::render::{decimal, push_decimal};

verus! {

/// The ways in which a test against a reader can fail outright.
#[derive(Debug, Clone, Copy, PartialEq, Eq)]
pub enum ParserError {
    /// The position lies before the cursor: the element was consumed and is
    /// no longer retained. Carries the position asked for.
    NoLookBehind(usize),
    /// The query reaches further ahead of the cursor than the reader can
    /// retain. Carries the position just after the last element asked for.
    LookAheadBufferOverflow(usize),
    /// A grammar was used before a root rule was saved in it.
    NoGrammarDefined,
}

impl ParserError {
    /// The message of the error.
    pub open spec fn message(self) -> Seq<char> {
        match self {
            ParserError::NoLookBehind(index) => "Invalid search index: "@ + decimal(index as nat)
                + ". Unable to look behind cursor."@,
            ParserError::LookAheadBufferOverflow(index) => "Could not look ahead char at index "@
                + decimal(index as nat) + ": char read buffer capacity is too small."@,
            ParserError::NoGrammarDefined => "No grammar defined."@,
        }
    }

    /// The message of the error.
    pub fn to_string(&self) -> (text: String)
        ensures
            text@ == self.message(),
    {
        match self {
            ParserError::NoLookBehind(index) => {
                let mut out = String::from_str("Invalid search index: ");
                push_decimal(&mut out, *index);
                out.append(". Unable to look behind cursor.");
                out
            },
            ParserError::LookAheadBufferOverflow(index) => {
                let mut out = String::from_str("Could not look ahead char at index ");
                push_decimal(&mut out, *index);
                out.append(": char read buffer capacity is too small.");
                out
            },
            ParserError::NoGrammarDefined => String::from_str("No grammar defined."),
        }
    }
}

} // verus!
