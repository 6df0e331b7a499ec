//! What can go wrong while lexing.

use vstd::prelude::*;

verus! {

/// A lexical error, with the place in the source that it refers to.
#[derive(Debug, Clone, PartialEq, Eq)]
pub enum LexError {
    /// A byte that starts no token.
    UnexpectedCharacter {
        /// The byte, as a character.
        ch: char,
        /// Line of the byte.
        line: usize,
        /// Column of the byte.
        column: usize,
    },
    /// A quoted literal without its closing quote.
    UnterminatedString {
        /// Line of the opening quote.
        line: usize,
        /// Column of the opening quote.
        column: usize,
    },
    /// A backslash followed by something that is no escape.
    InvalidEscape {
        /// The backslash and what followed it.
        sequence: String,
        /// Line of the literal's opening quote.
        line: usize,
        /// Column of the literal's opening quote.
        column: usize,
    },
    /// A numeric literal without a value.
    InvalidNumber {
        /// The literal's text.
        lexeme: String,
        /// Line of the literal's first digit.
        line: usize,
        /// Column of the literal's first digit.
        column: usize,
    },
    /// The input ended where more was needed. The lexer itself never
    /// reports this.
    UnexpectedEof {
        /// Line of the end of input.
        line: usize,
        /// Column of the end of input.
        column: usize,
    },
    /// A byte sequence that is not UTF-8. The lexer itself never reports
    /// this.
    InvalidUtf8 {
        /// Line of the sequence.
        line: usize,
        /// Column of the sequence.
        column: usize,
    },
    /// The buffer holds no byte.
    EmptyInput,
    /// The buffer is longer than the cursor accepts.
    InputTooLarge {
        /// The buffer's length in bytes.
        size: usize,
    },
}

/// The mathematical value of a [`LexError`].
pub enum LexErrorView {
    UnexpectedCharacter { ch: char, line: usize, column: usize },
    UnterminatedString { line: usize, column: usize },
    InvalidEscape { sequence: Seq<char>, line: usize, column: usize },
    InvalidNumber { lexeme: Seq<char>, line: usize, column: usize },
    UnexpectedEof { line: usize, column: usize },
    InvalidUtf8 { line: usize, column: usize },
    EmptyInput,
    InputTooLarge { size: usize },
}

impl View for LexError {
    type V = LexErrorView;

    open spec fn view(&self) -> LexErrorView {
        match *self {
            LexError::UnexpectedCharacter { ch, line, column } => LexErrorView::UnexpectedCharacter {
                ch,
                line,
                column,
            },
            LexError::UnterminatedString { line, column } => LexErrorView::UnterminatedString {
                line,
                column,
            },
            LexError::InvalidEscape { sequence, line, column } => LexErrorView::InvalidEscape {
                sequence: sequence@,
                line,
                column,
            },
            LexError::InvalidNumber { lexeme, line, column } => LexErrorView::InvalidNumber {
                lexeme: lexeme@,
                line,
                column,
            },
            LexError::UnexpectedEof { line, column } => LexErrorView::UnexpectedEof { line, column },
            LexError::InvalidUtf8 { line, column } => LexErrorView::InvalidUtf8 { line, column },
            LexError::EmptyInput => LexErrorView::EmptyInput,
            LexError::InputTooLarge { size } => LexErrorView::InputTooLarge { size },
        }
    }
}

} // verus!
