//! Delimiters: the punctuation marks, and `:` with its longer form `::`.

use vstd::prelude::*;
use vstd::string::*;
use crate::ascii::{
    COLON, COMMA, DOT, LEFT_BRACE, LEFT_BRACKET, LEFT_PAREN, QUESTION, RIGHT_BRACE, RIGHT_BRACKET,
    RIGHT_PAREN, SEMICOLON,
};
use crate::charstream::{byte_at, CharStream};
use crate::lexer::token_builder::{built, TokenBuilder};
use crate::text::ascii_text;
use crate::token::delimiterkind::DelimiterKind;
use crate::token::operators::SpecialOps;
use crate::token::tokenkind::{TokenKind, TokenKindView};
use crate::token::Token;

verus! {

/// The delimiter that the single byte `b` spells. `:` is not among them: it
/// may start `::`.
pub open spec fn delimiter_kind(b: u8) -> Option<DelimiterKind> {
    if b == LEFT_PAREN {
        Some(DelimiterKind::LeftParen)
    } else if b == RIGHT_PAREN {
        Some(DelimiterKind::RightParen)
    } else if b == LEFT_BRACE {
        Some(DelimiterKind::LeftBrace)
    } else if b == RIGHT_BRACE {
        Some(DelimiterKind::RightBrace)
    } else if b == LEFT_BRACKET {
        Some(DelimiterKind::LeftBracket)
    } else if b == RIGHT_BRACKET {
        Some(DelimiterKind::RightBracket)
    } else if b == SEMICOLON {
        Some(DelimiterKind::Semicolon)
    } else if b == COMMA {
        Some(DelimiterKind::Comma)
    } else if b == DOT {
        Some(DelimiterKind::Dot)
    } else if b == QUESTION {
        Some(DelimiterKind::QuestionMark)
    } else {
        None
    }
}

/// The kind of the token that starts with `:` when `next` follows: the
/// scope operator before another `:`, the colon otherwise.
pub open spec fn colon_kind(next: Option<u8>) -> TokenKindView {
    if next == Some(COLON) {
        TokenKindView::SpecialOperator(SpecialOps::ScopingOperator)
    } else {
        TokenKindView::Delimiter(DelimiterKind::Colon)
    }
}

/// The width in bytes of the token that starts with `:` when `next`
/// follows.
pub open spec fn colon_width(next: Option<u8>) -> int {
    if next == Some(COLON) {
        2
    } else {
        1
    }
}

/// The text of the token that starts with `:` when `next` follows.
pub open spec fn colon_text(next: Option<u8>) -> Seq<char> {
    if next == Some(COLON) {
        ascii_text(seq![COLON, COLON])
    } else {
        ascii_text(seq![COLON])
    }
}

/// Whether `b` is one of the single-byte delimiters.
pub fn is_delimiter_byte(b: u8) -> (r: bool)
    ensures
        r == delimiter_kind(b) is Some,
{
    b == LEFT_PAREN || b == RIGHT_PAREN || b == LEFT_BRACE || b == RIGHT_BRACE || b
        == LEFT_BRACKET || b == RIGHT_BRACKET || b == SEMICOLON || b == COMMA || b == DOT || b
        == QUESTION
}

/// Consumes one byte and returns the delimiter token that `byte` spells.
pub fn lex_delimiter(stream: &mut CharStream, byte: u8) -> (r: Token)
    requires
        delimiter_kind(byte) is Some,
    ensures
        built(
            *old(stream),
            *final(stream),
            r,
            TokenKindView::Delimiter(delimiter_kind(byte).unwrap()),
            1,
            ascii_text(seq![byte]),
        ),
{
    let builder = TokenBuilder::new(stream);
    proof {
        reveal_strlit("(");
        reveal_strlit(")");
        reveal_strlit("{");
        reveal_strlit("}");
        reveal_strlit("[");
        reveal_strlit("]");
        reveal_strlit(";");
        reveal_strlit(",");
        reveal_strlit(".");
        reveal_strlit("?");
    }
    let token = if byte == LEFT_PAREN {
        builder.single_char_token(stream, TokenKind::Delimiter(DelimiterKind::LeftParen), "(")
    } else if byte == RIGHT_PAREN {
        builder.single_char_token(stream, TokenKind::Delimiter(DelimiterKind::RightParen), ")")
    } else if byte == LEFT_BRACE {
        builder.single_char_token(stream, TokenKind::Delimiter(DelimiterKind::LeftBrace), "{")
    } else if byte == RIGHT_BRACE {
        builder.single_char_token(stream, TokenKind::Delimiter(DelimiterKind::RightBrace), "}")
    } else if byte == LEFT_BRACKET {
        builder.single_char_token(stream, TokenKind::Delimiter(DelimiterKind::LeftBracket), "[")
    } else if byte == RIGHT_BRACKET {
        builder.single_char_token(stream, TokenKind::Delimiter(DelimiterKind::RightBracket), "]")
    } else if byte == SEMICOLON {
        builder.single_char_token(stream, TokenKind::Delimiter(DelimiterKind::Semicolon), ";")
    } else if byte == COMMA {
        builder.single_char_token(stream, TokenKind::Delimiter(DelimiterKind::Comma), ",")
    } else if byte == DOT {
        builder.single_char_token(stream, TokenKind::Delimiter(DelimiterKind::Dot), ".")
    } else {
        builder.single_char_token(stream, TokenKind::Delimiter(DelimiterKind::QuestionMark), "?")
    };
    assert(token@.lexeme =~= ascii_text(seq![byte]));
    token
}

/// Returns the token that starts with `:` at the cursor: `::` where a
/// second `:` follows, and `:` otherwise.
pub fn lex_colon(stream: &mut CharStream) -> (r: Token)
    ensures
        built(
            *old(stream),
            *final(stream),
            r,
            colon_kind(byte_at(old(stream).buffer(), old(stream).offset() + 1)),
            colon_width(byte_at(old(stream).buffer(), old(stream).offset() + 1)),
            colon_text(byte_at(old(stream).buffer(), old(stream).offset() + 1)),
        ),
{
    let is_scope = match stream.peek_n(1) {
        Some(b) => b == COLON,
        None => false,
    };
    let builder = TokenBuilder::new(stream);
    proof {
        reveal_strlit("::");
        reveal_strlit(":");
    }
    let token = if is_scope {
        builder.multi_char_token(
            stream,
            2,
            TokenKind::SpecialOperator(SpecialOps::ScopingOperator),
            "::",
        )
    } else {
        builder.single_char_token(stream, TokenKind::Delimiter(DelimiterKind::Colon), ":")
    };
    assert(token@.lexeme =~= colon_text(byte_at(old(stream).buffer(), old(stream).offset() + 1)));
    token
}

} // verus!
