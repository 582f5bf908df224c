//! An interpreter for a small line-numbered BASIC dialect: a lexer that turns
//! source lines into positioned tokens, a recursive-descent parser that builds
//! an abstract syntax tree of numbered lines, and a tree-walking interpreter
//! with a variable table and a call stack for subroutines.

pub mod interpreter;
pub mod parser;
pub mod tokenizer;

use vstd::prelude::*;

verus! {

/// An error from tokenizing or parsing.
#[derive(Debug, PartialEq, Clone)]
pub enum ParseError {
    /// No lexer rule matched at the given column of the given line.
    UnkownToken { line_num: usize, col_start: usize, unkown_code: String },
    /// The token stream ended where a token was required.
    UnexpectedEOF,
    /// A required token kind was absent.
    WrongToken { expected: String, actual: String },
}

} // verus!
