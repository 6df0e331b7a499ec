//! Literal tokens and their decoded values.

use vstd::prelude::*;

verus! {

/// A literal, with the value that its source text denotes.
#[derive(Debug, Clone, PartialEq, Eq)]
pub enum Literals {
    /// A double-quoted string, escapes decoded, one character per source byte.
    StringLiteral(String),
    /// A single-quoted character, escape decoded.
    CharacterLiteral(char),
    /// A run of decimal digits that fits a signed 64-bit integer.
    IntLiteral(i64),
    /// A run of decimal digits with the suffix `u` that fits an unsigned
    /// 64-bit integer.
    UnsignedIntLiteral(u64),
    /// A decimal numeral with a fraction, kept as its digits: an integer
    /// part, a dot and a fractional part.
    FloatLiteral(String),
}

/// The mathematical value of a [`Literals`].
pub enum LiteralsView {
    StringLiteral(Seq<char>),
    CharacterLiteral(char),
    IntLiteral(i64),
    UnsignedIntLiteral(u64),
    FloatLiteral(Seq<char>),
}

impl View for Literals {
    type V = LiteralsView;

    open spec fn view(&self) -> LiteralsView {
        match *self {
            Literals::StringLiteral(s) => LiteralsView::StringLiteral(s@),
            Literals::CharacterLiteral(c) => LiteralsView::CharacterLiteral(c),
            Literals::IntLiteral(v) => LiteralsView::IntLiteral(v),
            Literals::UnsignedIntLiteral(v) => LiteralsView::UnsignedIntLiteral(v),
            Literals::FloatLiteral(s) => LiteralsView::FloatLiteral(s@),
        }
    }
}

} // verus!
