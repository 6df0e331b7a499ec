//! Bitwise operators.

use vstd::prelude::*;

verus! {

/// Operators on the bits of an integer.
#[derive(Debug, Clone, Copy, PartialEq, Eq, Structural)]
pub enum BitwiseOps {
    /// `&`
    And,
    /// `|`
    Or,
    /// `^`
    Xor,
    /// `~`
    Not,
    /// `<<`
    LeftShift,
    /// `>>`
    RightShift,
}

} // verus!
