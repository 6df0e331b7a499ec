//! Operator tokens, one enum per category.

use vstd::prelude::*;

pub mod arithmetic;
pub mod assignment;
pub mod bitwise;
pub mod logical;
pub mod relational;

verus! {

/// Operators that name a member rather than compute a value.
#[derive(Debug, Clone, Copy, PartialEq, Eq, Structural)]
pub enum SpecialOps {
    /// `->`
    PointerAccess,
    /// `::`
    ScopingOperator,
}

} // verus!
