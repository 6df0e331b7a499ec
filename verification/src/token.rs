//! Tokens and the types they are made of.

use vstd::prelude::*;
use crate::token::span::Span;
use crate::token::tokenkind::{TokenKind, TokenKindView};

pub mod delimiterkind;
pub mod keywords;
pub mod literals;
pub mod operators;
pub mod span;
pub mod tokenkind;

verus! {

/// One token: what it is, where it lies and how it is written.
#[derive(Debug, Clone, PartialEq, Eq)]
pub struct Token {
    /// What the token is.
    pub kind: TokenKind,
    /// Where the token lies in the source.
    pub span: Span,
    /// The token's source text, quotes and escapes included.
    pub lexeme: String,
}

/// The mathematical value of a [`Token`].
pub struct TokenView {
    pub kind: TokenKindView,
    pub span: Span,
    pub lexeme: Seq<char>,
}

impl View for Token {
    type V = TokenView;

    open spec fn view(&self) -> TokenView {
        TokenView { kind: self.kind@, span: self.span, lexeme: self.lexeme@ }
    }
}

impl Token {
    /// Whether this token marks the end of the input.
    pub fn is_eof(&self) -> (r: bool)
        ensures
            r == (self@.kind is Eof),
    {
        matches!(self.kind, TokenKind::Eof)
    }
}

} // verus!
