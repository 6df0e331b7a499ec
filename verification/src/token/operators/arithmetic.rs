//! Arithmetic operators.

use vstd::prelude::*;

verus! {

/// Operators that compute a number from numbers.
#[derive(Debug, Clone, Copy, PartialEq, Eq, Structural)]
pub enum ArithmeticOps {
    /// `+`
    Plus,
    /// `-`
    Minus,
    /// `*`
    Asterisk,
    /// `/`
    Slash,
    /// `%`
    Modulo,
    /// `**`
    Exponent,
}

} // verus!
