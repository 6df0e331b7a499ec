//! Logical operators.

use vstd::prelude::*;

verus! {

/// Operators on truth values.
#[derive(Debug, Clone, Copy, PartialEq, Eq, Structural)]
pub enum LogicalOperator {
    /// `&&`
    And,
    /// `||`
    Or,
    /// `!`
    Not,
}

} // verus!
