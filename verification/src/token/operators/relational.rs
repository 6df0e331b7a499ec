//! Relational operators.

use vstd::prelude::*;

verus! {

/// Operators that compare two values.
#[derive(Debug, Clone, Copy, PartialEq, Eq, Structural)]
pub enum RelationalOperator {
    /// `<`
    LessThan,
    /// `>`
    GreaterThan,
    /// `<=`
    LessThanOrEqual,
    /// `>=`
    GreaterThanOrEqual,
    /// `==`
    Equal,
    /// `!=`
    NotEqual,
}

} // verus!
