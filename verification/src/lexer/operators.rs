//! Operators: each is one or two bytes long, and the longer form wins.

use vstd::prelude::*;
use vstd::string::*;
use crate::ascii::{
    AMPERSAND, ASTERISK, BANG, CARET, EQUALS, GREATER, LESS, MINUS, PERCENT, PIPE, PLUS, SLASH,
    TILDE,
};
use crate::charstream::{byte_at, CharStream};
use crate::lexer::token_builder::{built, TokenBuilder};
use crate::lexerror::LexError;
use crate::text::ascii_text;
use crate::token::operators::arithmetic::ArithmeticOps;
use crate::token::operators::assignment::AssignmentOperator;
use crate::token::operators::bitwise::BitwiseOps;
use crate::token::operators::logical::LogicalOperator;
use crate::token::operators::relational::RelationalOperator;
use crate::token::operators::SpecialOps;
use crate::token::tokenkind::{TokenKind, TokenKindView};
use crate::token::Token;

verus! {

/// The bytes that start an operator: `= + - * / % < > ! & | ^ ~`.
pub open spec fn is_operator_byte(b: u8) -> bool {
    b == EQUALS || b == PLUS || b == MINUS || b == ASTERISK || b == SLASH || b == PERCENT || b
        == LESS || b == GREATER || b == BANG || b == AMPERSAND || b == PIPE || b == CARET || b
        == TILDE
}

/// Whether the operator that starts with `lead` takes the byte `next` that
/// follows it as its second byte.
pub open spec fn operator_takes(lead: u8, next: Option<u8>) -> bool {
    if lead == EQUALS || lead == PLUS || lead == SLASH || lead == PERCENT || lead == BANG {
        next == Some(EQUALS)
    } else if lead == MINUS {
        next == Some(EQUALS) || next == Some(GREATER)
    } else if lead == ASTERISK {
        next == Some(EQUALS) || next == Some(ASTERISK)
    } else if lead == LESS {
        next == Some(EQUALS) || next == Some(LESS)
    } else if lead == GREATER {
        next == Some(EQUALS) || next == Some(GREATER)
    } else if lead == AMPERSAND {
        next == Some(AMPERSAND)
    } else if lead == PIPE {
        next == Some(PIPE)
    } else {
        false
    }
}

/// The width in bytes of the operator that starts with `lead` when `next`
/// follows.
pub open spec fn operator_width(lead: u8, next: Option<u8>) -> int {
    if operator_takes(lead, next) {
        2
    } else {
        1
    }
}

/// The text of the operator that starts with `lead` when `next` follows.
pub open spec fn operator_text(lead: u8, next: Option<u8>) -> Seq<char> {
    if operator_takes(lead, next) {
        ascii_text(seq![lead, next.unwrap()])
    } else {
        ascii_text(seq![lead])
    }
}

/// The kind of the operator that starts with `lead` when `next` follows.
///
/// | lead | before `=` | before another byte | alone |
/// |------|------------|---------------------|-------|
/// | `=` | `==` equal | | `=` assign |
/// | `+` | `+=` add-assign | | `+` plus |
/// | `-` | `-=` subtract-assign | `->` pointer access | `-` minus |
/// | `*` | `*=` multiply-assign | `**` exponent | `*` asterisk |
/// | `/` | `/=` divide-assign | | `/` slash |
/// | `%` | `%=` modulo-assign | | `%` modulo |
/// | `<` | `<=` less-or-equal | `<<` left shift | `<` less |
/// | `>` | `>=` greater-or-equal | `>>` right shift | `>` greater |
/// | `!` | `!=` not-equal | | `!` logical not |
/// | `&` | | `&&` logical and | `&` bitwise and |
/// | `\|` | | `\|\|` logical or | `\|` bitwise or |
/// | `^` | | | `^` bitwise xor |
/// | `~` | | | `~` bitwise not |
pub open spec fn operator_kind(lead: u8, next: Option<u8>) -> TokenKindView
    recommends
        is_operator_byte(lead),
{
    if lead == EQUALS {
        if next == Some(EQUALS) {
            TokenKindView::RelationalOperator(RelationalOperator::Equal)
        } else {
            TokenKindView::AssignmentOperator(AssignmentOperator::Assign)
        }
    } else if lead == PLUS {
        if next == Some(EQUALS) {
            TokenKindView::AssignmentOperator(AssignmentOperator::AddAssign)
        } else {
            TokenKindView::ArithmeticOperator(ArithmeticOps::Plus)
        }
    } else if lead == MINUS {
        if next == Some(EQUALS) {
            TokenKindView::AssignmentOperator(AssignmentOperator::SubtractAssign)
        } else if next == Some(GREATER) {
            TokenKindView::SpecialOperator(SpecialOps::PointerAccess)
        } else {
            TokenKindView::ArithmeticOperator(ArithmeticOps::Minus)
        }
    } else if lead == ASTERISK {
        if next == Some(EQUALS) {
            TokenKindView::AssignmentOperator(AssignmentOperator::MultiplyAssign)
        } else if next == Some(ASTERISK) {
            TokenKindView::ArithmeticOperator(ArithmeticOps::Exponent)
        } else {
            TokenKindView::ArithmeticOperator(ArithmeticOps::Asterisk)
        }
    } else if lead == SLASH {
        if next == Some(EQUALS) {
            TokenKindView::AssignmentOperator(AssignmentOperator::DivideAssign)
        } else {
            TokenKindView::ArithmeticOperator(ArithmeticOps::Slash)
        }
    } else if lead == PERCENT {
        if next == Some(EQUALS) {
            TokenKindView::AssignmentOperator(AssignmentOperator::ModuloAssign)
        } else {
            TokenKindView::ArithmeticOperator(ArithmeticOps::Modulo)
        }
    } else if lead == LESS {
        if next == Some(EQUALS) {
            TokenKindView::RelationalOperator(RelationalOperator::LessThanOrEqual)
        } else if next == Some(LESS) {
            TokenKindView::BitwiseOperator(BitwiseOps::LeftShift)
        } else {
            TokenKindView::RelationalOperator(RelationalOperator::LessThan)
        }
    } else if lead == GREATER {
        if next == Some(EQUALS) {
            TokenKindView::RelationalOperator(RelationalOperator::GreaterThanOrEqual)
        } else if next == Some(GREATER) {
            TokenKindView::BitwiseOperator(BitwiseOps::RightShift)
        } else {
            TokenKindView::RelationalOperator(RelationalOperator::GreaterThan)
        }
    } else if lead == BANG {
        if next == Some(EQUALS) {
            TokenKindView::RelationalOperator(RelationalOperator::NotEqual)
        } else {
            TokenKindView::LogicalOperator(LogicalOperator::Not)
        }
    } else if lead == AMPERSAND {
        if next == Some(AMPERSAND) {
            TokenKindView::LogicalOperator(LogicalOperator::And)
        } else {
            TokenKindView::BitwiseOperator(BitwiseOps::And)
        }
    } else if lead == PIPE {
        if next == Some(PIPE) {
            TokenKindView::LogicalOperator(LogicalOperator::Or)
        } else {
            TokenKindView::BitwiseOperator(BitwiseOps::Or)
        }
    } else if lead == CARET {
        TokenKindView::BitwiseOperator(BitwiseOps::Xor)
    } else {
        TokenKindView::BitwiseOperator(BitwiseOps::Not)
    }
}

/// What holds once the operator that starts with `lead` has been lexed at
/// the cursor `before`: the result is its token, of the kind and width that
/// the byte after the cursor's next byte decides, and the cursor has moved
/// past it.
pub open spec fn operator_lexed(
    before: CharStream,
    after: CharStream,
    r: Result<Token, LexError>,
    lead: u8,
) -> bool {
    let next = byte_at(before.buffer(), before.offset() + 1);
    &&& r is Ok
    &&& built(
        before,
        after,
        r.unwrap(),
        operator_kind(lead, next),
        operator_width(lead, next),
        operator_text(lead, next),
    )
}

/// Whether `b` starts an operator.
pub fn is_operator_lead(b: u8) -> (r: bool)
    ensures
        r == is_operator_byte(b),
{
    b == EQUALS || b == PLUS || b == MINUS || b == ASTERISK || b == SLASH || b == PERCENT || b
        == LESS || b == GREATER || b == BANG || b == AMPERSAND || b == PIPE || b == CARET || b
        == TILDE
}

/// Whether `next` holds the byte `b`.
fn follows(next: Option<u8>, b: u8) -> (r: bool)
    ensures
        r == (next == Some(b)),
{
    match next {
        Some(n) => n == b,
        None => false,
    }
}

/// Lexes the operator at the cursor, given its first byte.
pub fn lex_operator(stream: &mut CharStream, byte: u8) -> (r: Result<Token, LexError>)
    requires
        is_operator_byte(byte),
    ensures
        operator_lexed(*old(stream), *final(stream), r, byte),
{
    if byte == EQUALS {
        lex_equals(stream)
    } else if byte == PLUS {
        lex_plus(stream)
    } else if byte == MINUS {
        lex_minus(stream)
    } else if byte == ASTERISK {
        lex_asterisk(stream)
    } else if byte == SLASH {
        lex_slash(stream)
    } else if byte == PERCENT {
        lex_modulo(stream)
    } else if byte == LESS {
        lex_less_than(stream)
    } else if byte == GREATER {
        lex_greater_than(stream)
    } else if byte == BANG {
        lex_not(stream)
    } else if byte == AMPERSAND {
        lex_ampersand(stream)
    } else if byte == PIPE {
        lex_pipe(stream)
    } else if byte == CARET {
        let builder = TokenBuilder::new(stream);
        proof {
            reveal_strlit("^");
        }
        let token = builder.single_char_token(
            stream,
            TokenKind::BitwiseOperator(BitwiseOps::Xor),
            "^",
        );
        assert(token@.lexeme =~= ascii_text(seq![CARET]));
        Ok(token)
    } else {
        let builder = TokenBuilder::new(stream);
        proof {
            reveal_strlit("~");
        }
        let token = builder.single_char_token(
            stream,
            TokenKind::BitwiseOperator(BitwiseOps::Not),
            "~",
        );
        assert(token@.lexeme =~= ascii_text(seq![TILDE]));
        Ok(token)
    }
}

/// Lexes `=` or `==`.
fn lex_equals(stream: &mut CharStream) -> (r: Result<Token, LexError>)
    ensures
        operator_lexed(*old(stream), *final(stream), r, EQUALS),
{
    let is_equal = follows(stream.peek_n(1), EQUALS);
    let builder = TokenBuilder::new(stream);
    proof {
        reveal_strlit("==");
        reveal_strlit("=");
    }
    let token = if is_equal {
        builder.multi_char_token(
            stream,
            2,
            TokenKind::RelationalOperator(RelationalOperator::Equal),
            "==",
        )
    } else {
        builder.single_char_token(
            stream,
            TokenKind::AssignmentOperator(AssignmentOperator::Assign),
            "=",
        )
    };
    assert(token@.lexeme =~= operator_text(
        EQUALS,
        byte_at(old(stream).buffer(), old(stream).offset() + 1),
    ));
    Ok(token)
}

/// Lexes `+` or `+=`.
fn lex_plus(stream: &mut CharStream) -> (r: Result<Token, LexError>)
    ensures
        operator_lexed(*old(stream), *final(stream), r, PLUS),
{
    let is_assign = follows(stream.peek_n(1), EQUALS);
    let builder = TokenBuilder::new(stream);
    proof {
        reveal_strlit("+=");
        reveal_strlit("+");
    }
    let token = if is_assign {
        builder.multi_char_token(
            stream,
            2,
            TokenKind::AssignmentOperator(AssignmentOperator::AddAssign),
            "+=",
        )
    } else {
        builder.single_char_token(stream, TokenKind::ArithmeticOperator(ArithmeticOps::Plus), "+")
    };
    assert(token@.lexeme =~= operator_text(
        PLUS,
        byte_at(old(stream).buffer(), old(stream).offset() + 1),
    ));
    Ok(token)
}

/// Lexes `-`, `-=` or `->`.
fn lex_minus(stream: &mut CharStream) -> (r: Result<Token, LexError>)
    ensures
        operator_lexed(*old(stream), *final(stream), r, MINUS),
{
    let next = stream.peek_n(1);
    let builder = TokenBuilder::new(stream);
    proof {
        reveal_strlit("-=");
        reveal_strlit("->");
        reveal_strlit("-");
    }
    let token = if follows(next, EQUALS) {
        builder.multi_char_token(
            stream,
            2,
            TokenKind::AssignmentOperator(AssignmentOperator::SubtractAssign),
            "-=",
        )
    } else if follows(next, GREATER) {
        builder.multi_char_token(
            stream,
            2,
            TokenKind::SpecialOperator(SpecialOps::PointerAccess),
            "->",
        )
    } else {
        builder.single_char_token(stream, TokenKind::ArithmeticOperator(ArithmeticOps::Minus), "-")
    };
    assert(token@.lexeme =~= operator_text(MINUS, next));
    Ok(token)
}

/// Lexes `*`, `*=` or `**`.
fn lex_asterisk(stream: &mut CharStream) -> (r: Result<Token, LexError>)
    ensures
        operator_lexed(*old(stream), *final(stream), r, ASTERISK),
{
    let next = stream.peek_n(1);
    let builder = TokenBuilder::new(stream);
    proof {
        reveal_strlit("*=");
        reveal_strlit("**");
        reveal_strlit("*");
    }
    let token = if follows(next, EQUALS) {
        builder.multi_char_token(
            stream,
            2,
            TokenKind::AssignmentOperator(AssignmentOperator::MultiplyAssign),
            "*=",
        )
    } else if follows(next, ASTERISK) {
        builder.multi_char_token(
            stream,
            2,
            TokenKind::ArithmeticOperator(ArithmeticOps::Exponent),
            "**",
        )
    } else {
        builder.single_char_token(
            stream,
            TokenKind::ArithmeticOperator(ArithmeticOps::Asterisk),
            "*",
        )
    };
    assert(token@.lexeme =~= operator_text(ASTERISK, next));
    Ok(token)
}

/// Lexes `/` or `/=`.
fn lex_slash(stream: &mut CharStream) -> (r: Result<Token, LexError>)
    ensures
        operator_lexed(*old(stream), *final(stream), r, SLASH),
{
    let is_assign = follows(stream.peek_n(1), EQUALS);
    let builder = TokenBuilder::new(stream);
    proof {
        reveal_strlit("/=");
        reveal_strlit("/");
    }
    let token = if is_assign {
        builder.multi_char_token(
            stream,
            2,
            TokenKind::AssignmentOperator(AssignmentOperator::DivideAssign),
            "/=",
        )
    } else {
        builder.single_char_token(stream, TokenKind::ArithmeticOperator(ArithmeticOps::Slash), "/")
    };
    assert(token@.lexeme =~= operator_text(
        SLASH,
        byte_at(old(stream).buffer(), old(stream).offset() + 1),
    ));
    Ok(token)
}

/// Lexes `%` or `%=`.
fn lex_modulo(stream: &mut CharStream) -> (r: Result<Token, LexError>)
    ensures
        operator_lexed(*old(stream), *final(stream), r, PERCENT),
{
    let is_assign = follows(stream.peek_n(1), EQUALS);
    let builder = TokenBuilder::new(stream);
    proof {
        reveal_strlit("%=");
        reveal_strlit("%");
    }
    let token = if is_assign {
        builder.multi_char_token(
            stream,
            2,
            TokenKind::AssignmentOperator(AssignmentOperator::ModuloAssign),
            "%=",
        )
    } else {
        builder.single_char_token(
            stream,
            TokenKind::ArithmeticOperator(ArithmeticOps::Modulo),
            "%",
        )
    };
    assert(token@.lexeme =~= operator_text(
        PERCENT,
        byte_at(old(stream).buffer(), old(stream).offset() + 1),
    ));
    Ok(token)
}

/// Lexes `<`, `<=` or `<<`.
fn lex_less_than(stream: &mut CharStream) -> (r: Result<Token, LexError>)
    ensures
        operator_lexed(*old(stream), *final(stream), r, LESS),
{
    let next = stream.peek_n(1);
    let builder = TokenBuilder::new(stream);
    proof {
        reveal_strlit("<=");
        reveal_strlit("<<");
        reveal_strlit("<");
    }
    let token = if follows(next, EQUALS) {
        builder.multi_char_token(
            stream,
            2,
            TokenKind::RelationalOperator(RelationalOperator::LessThanOrEqual),
            "<=",
        )
    } else if follows(next, LESS) {
        builder.multi_char_token(
            stream,
            2,
            TokenKind::BitwiseOperator(BitwiseOps::LeftShift),
            "<<",
        )
    } else {
        builder.single_char_token(
            stream,
            TokenKind::RelationalOperator(RelationalOperator::LessThan),
            "<",
        )
    };
    assert(token@.lexeme =~= operator_text(LESS, next));
    Ok(token)
}

/// Lexes `>`, `>=` or `>>`.
fn lex_greater_than(stream: &mut CharStream) -> (r: Result<Token, LexError>)
    ensures
        operator_lexed(*old(stream), *final(stream), r, GREATER),
{
    let next = stream.peek_n(1);
    let builder = TokenBuilder::new(stream);
    proof {
        reveal_strlit(">=");
        reveal_strlit(">>");
        reveal_strlit(">");
    }
    let token = if follows(next, EQUALS) {
        builder.multi_char_token(
            stream,
            2,
            TokenKind::RelationalOperator(RelationalOperator::GreaterThanOrEqual),
            ">=",
        )
    } else if follows(next, GREATER) {
        builder.multi_char_token(
            stream,
            2,
            TokenKind::BitwiseOperator(BitwiseOps::RightShift),
            ">>",
        )
    } else {
        builder.single_char_token(
            stream,
            TokenKind::RelationalOperator(RelationalOperator::GreaterThan),
            ">",
        )
    };
    assert(token@.lexeme =~= operator_text(GREATER, next));
    Ok(token)
}

/// Lexes `!` or `!=`.
fn lex_not(stream: &mut CharStream) -> (r: Result<Token, LexError>)
    ensures
        operator_lexed(*old(stream), *final(stream), r, BANG),
{
    let is_not_equal = follows(stream.peek_n(1), EQUALS);
    let builder = TokenBuilder::new(stream);
    proof {
        reveal_strlit("!=");
        reveal_strlit("!");
    }
    let token = if is_not_equal {
        builder.multi_char_token(
            stream,
            2,
            TokenKind::RelationalOperator(RelationalOperator::NotEqual),
            "!=",
        )
    } else {
        builder.single_char_token(stream, TokenKind::LogicalOperator(LogicalOperator::Not), "!")
    };
    assert(token@.lexeme =~= operator_text(
        BANG,
        byte_at(old(stream).buffer(), old(stream).offset() + 1),
    ));
    Ok(token)
}

/// Lexes `&` or `&&`.
fn lex_ampersand(stream: &mut CharStream) -> (r: Result<Token, LexError>)
    ensures
        operator_lexed(*old(stream), *final(stream), r, AMPERSAND),
{
    let is_logical = follows(stream.peek_n(1), AMPERSAND);
    let builder = TokenBuilder::new(stream);
    proof {
        reveal_strlit("&&");
        reveal_strlit("&");
    }
    let token = if is_logical {
        builder.multi_char_token(
            stream,
            2,
            TokenKind::LogicalOperator(LogicalOperator::And),
            "&&",
        )
    } else {
        builder.single_char_token(stream, TokenKind::BitwiseOperator(BitwiseOps::And), "&")
    };
    assert(token@.lexeme =~= operator_text(
        AMPERSAND,
        byte_at(old(stream).buffer(), old(stream).offset() + 1),
    ));
    Ok(token)
}

/// Lexes `|` or `||`.
fn lex_pipe(stream: &mut CharStream) -> (r: Result<Token, LexError>)
    ensures
        operator_lexed(*old(stream), *final(stream), r, PIPE),
{
    let is_logical = follows(stream.peek_n(1), PIPE);
    let builder = TokenBuilder::new(stream);
    proof {
        reveal_strlit("||");
        reveal_strlit("|");
    }
    let token = if is_logical {
        builder.multi_char_token(stream, 2, TokenKind::LogicalOperator(LogicalOperator::Or), "||")
    } else {
        builder.single_char_token(stream, TokenKind::BitwiseOperator(BitwiseOps::Or), "|")
    };
    assert(token@.lexeme =~= operator_text(
        PIPE,
        byte_at(old(stream).buffer(), old(stream).offset() + 1),
    ));
    Ok(token)
}

} // verus!
