//! From source text to a syntax tree.

use vstd::prelude::*;

pub mod ast;
pub mod chars;
pub mod grammar;
pub mod lexer;
pub mod lexical;
pub mod parser;
pub mod progress;
pub mod sourcecode_compiler;
pub mod token;

pub use self::lexer::Lexer;
pub use self::lexical::LexError;
pub use self::parser::{Error, Parser};
pub use self::sourcecode_compiler::{compile, compile_source, CompileError};
pub use self::token::{Token, TokenKind, TokenView};

verus! {

/// A place in the source text: the line, counted from 1, and the column in
/// that line, counted from 0.
#[derive(Copy, Clone, Debug, PartialEq)]
pub struct Location {
    pub line: usize,
    pub column: usize,
}

impl Default for Location {
    /// The place before anything was read: the start of the first line.
    fn default() -> (location: Location)
        ensures
            location == (Location { line: 1, column: 0 }),
    {
        Location { line: 1, column: 0 }
    }
}

} // verus!
