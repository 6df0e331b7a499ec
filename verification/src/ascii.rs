//! The ASCII bytes that the lexer tells apart.

use vstd::prelude::*;

verus! {

/// `!`
pub const BANG: u8 = 0x21;

/// `"`
pub const DOUBLE_QUOTE: u8 = 0x22;

/// `%`
pub const PERCENT: u8 = 0x25;

/// `&`
pub const AMPERSAND: u8 = 0x26;

/// `'`
pub const APOSTROPHE: u8 = 0x27;

/// `(`
pub const LEFT_PAREN: u8 = 0x28;

/// `)`
pub const RIGHT_PAREN: u8 = 0x29;

/// `*`
pub const ASTERISK: u8 = 0x2A;

/// `+`
pub const PLUS: u8 = 0x2B;

/// `,`
pub const COMMA: u8 = 0x2C;

/// `-`
pub const MINUS: u8 = 0x2D;

/// `.`
pub const DOT: u8 = 0x2E;

/// `/`
pub const SLASH: u8 = 0x2F;

/// `0`
pub const DIGIT_ZERO: u8 = 0x30;

/// `9`
pub const DIGIT_NINE: u8 = 0x39;

/// `:`
pub const COLON: u8 = 0x3A;

/// `;`
pub const SEMICOLON: u8 = 0x3B;

/// `<`
pub const LESS: u8 = 0x3C;

/// `=`
pub const EQUALS: u8 = 0x3D;

/// `>`
pub const GREATER: u8 = 0x3E;

/// `?`
pub const QUESTION: u8 = 0x3F;

/// `[`
pub const LEFT_BRACKET: u8 = 0x5B;

/// `\`
pub const BACKSLASH: u8 = 0x5C;

/// `]`
pub const RIGHT_BRACKET: u8 = 0x5D;

/// `^`
pub const CARET: u8 = 0x5E;

/// `_`
pub const UNDERSCORE: u8 = 0x5F;

/// `n`
pub const LOWER_N: u8 = 0x6E;

/// `r`
pub const LOWER_R: u8 = 0x72;

/// `t`
pub const LOWER_T: u8 = 0x74;

/// `u`
pub const LOWER_U: u8 = 0x75;

/// `{`
pub const LEFT_BRACE: u8 = 0x7B;

/// `|`
pub const PIPE: u8 = 0x7C;

/// `}`
pub const RIGHT_BRACE: u8 = 0x7D;

/// `~`
pub const TILDE: u8 = 0x7E;

/// The decimal digits `0` to `9`.
pub open spec fn is_digit(b: u8) -> bool {
    DIGIT_ZERO <= b <= DIGIT_NINE
}

/// The ASCII letters `a` to `z` and `A` to `Z`.
pub open spec fn is_letter(b: u8) -> bool {
    (0x61 <= b <= 0x7A) || (0x41 <= b <= 0x5A)
}

/// The bytes that may start an identifier: a letter or `_`.
pub open spec fn is_identifier_start(b: u8) -> bool {
    is_letter(b) || b == UNDERSCORE
}

/// The bytes that may continue an identifier: a letter, a digit or `_`.
pub open spec fn is_identifier_part(b: u8) -> bool {
    is_letter(b) || is_digit(b) || b == UNDERSCORE
}

/// Whether `b` is a decimal digit.
pub fn is_digit_byte(b: u8) -> (r: bool)
    ensures
        r == is_digit(b),
{
    DIGIT_ZERO <= b && b <= DIGIT_NINE
}

/// Whether `b` may start an identifier.
pub fn is_identifier_start_byte(b: u8) -> (r: bool)
    ensures
        r == is_identifier_start(b),
{
    (0x61 <= b && b <= 0x7A) || (0x41 <= b && b <= 0x5A) || b == UNDERSCORE
}

/// Whether `b` may continue an identifier.
pub fn is_identifier_part_byte(b: u8) -> (r: bool)
    ensures
        r == is_identifier_part(b),
{
    is_identifier_start_byte(b) || is_digit_byte(b)
}

} // verus!
