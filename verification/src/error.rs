//! What the library reports instead of a result.

use vstd::prelude::*;

verus! {

/// A point was to be divided by zero.
#[derive(Debug, Clone, Copy, PartialEq, Eq)]
pub struct DivideByZero;

/// A pattern is no regular expression that can be used.
#[derive(Debug, PartialEq, Eq)]
pub enum PatternError {
    /// The pattern is malformed. The message says where and how.
    Syntax(String),
    /// The pattern is well formed, but what it compiles to is larger than the limit
    /// held here, in bytes.
    TooBig(usize),
    /// The pattern was refused for another reason.
    Other,
}

/// A token does not denote a number that the wanted type can hold.
#[derive(Debug, PartialEq, Eq)]
pub struct ParseError {
    /// The row of the token in a grid of tokens, zero in a single sequence.
    pub row: usize,
    /// The place of the token in its row.
    pub index: usize,
    /// The token itself.
    pub token: String,
}

impl Clone for ParseError {
    /// The same report once more.
    fn clone(&self) -> (e: Self)
        ensures
            e.row == self.row,
            e.index == self.index,
            e.token@ == self.token@,
    {
        ParseError { row: self.row, index: self.index, token: self.token.clone() }
    }
}

} // verus!
