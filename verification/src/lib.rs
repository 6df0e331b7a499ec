//! A byte-oriented lexer for the Hummingbird language.
//!
//! - [`charstream::CharStream`]: a cursor over an owned byte buffer that keeps
//!   a byte offset and a 1-based line and column.
//! - [`lexer::Lexer`]: turns the bytes of a cursor into tokens.
//! - [`token::Token`]: a token with its kind, span and source text.
//! - [`lexerror::LexError`]: what can go wrong while lexing.

pub mod ascii;
pub mod charstream;
pub mod lexer;
pub mod lexerror;
pub mod text;
pub mod token;
