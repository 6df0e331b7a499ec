//! Reserved words.

use vstd::prelude::*;

verus! {

/// The reserved words of the language.
#[derive(Debug, Clone, Copy, PartialEq, Eq, Structural)]
pub enum Keywords {
    /// `func`
    Func,
    /// `return`
    Return,
    /// `if`
    If,
    /// `else`
    Else,
    /// `elif`
    Elif,
    /// `loop`
    Loop,
    /// `switch`
    Switch,
    /// `case`
    Case,
    /// `var`
    Var,
    /// `const`
    Const,
    /// `final`
    Final,
    /// The name of a built-in type.
    Type(TypeKind),
    /// `import`
    Import,
}

/// The built-in type names.
#[derive(Debug, Clone, Copy, PartialEq, Eq, Structural)]
pub enum TypeKind {
    /// `i8`
    Int8,
    /// `i16`
    Int16,
    /// `i32`
    Int32,
    /// `i64`
    Int64,
    /// `u8`
    Unsigned8,
    /// `u16`
    Unsigned16,
    /// `u32`
    Unsigned32,
    /// `u64`
    Unsigned64,
    /// The 32-bit floating point type name.
    Float32,
    /// The 64-bit floating point type name.
    Float64,
    /// `string`
    String,
    /// `char`
    Char,
    /// `struct`
    Struct,
    /// `bool`
    Bool,
}

} // verus!
