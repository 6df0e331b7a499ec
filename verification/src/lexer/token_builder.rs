//! Building tokens whose text is known beforehand.

use vstd::prelude::*;
use vstd::string::*;
use crate::charstream::{column_of, line_of, CharStream};
use crate::token::span::{span_between, Span};
use crate::token::tokenkind::{TokenKind, TokenKindView};
use crate::token::{Token, TokenView};

verus! {

/// The offset that lies `width` bytes after `offset`, or the end of `buf`
/// where fewer bytes are left.
pub open spec fn offset_after(buf: Seq<u8>, offset: int, width: int) -> int {
    if offset + width <= buf.len() {
        offset + width
    } else {
        buf.len() as int
    }
}

/// What holds once a token of `width` bytes has been built at the cursor
/// `before`: the cursor has moved past the token's bytes, and the token has
/// the given kind and text and the span of the bytes passed.
pub open spec fn built(
    before: CharStream,
    after: CharStream,
    token: Token,
    kind: TokenKindView,
    width: int,
    text: Seq<char>,
) -> bool {
    &&& after.buffer() == before.buffer()
    &&& after.offset() == offset_after(before.buffer(), before.offset(), width)
    &&& token@ == (TokenView {
        kind,
        span: span_between(before.buffer(), before.offset(), after.offset()),
        lexeme: text,
    })
}

/// Remembers where a token starts, to give the token its span once the
/// cursor has moved past it.
///
/// A builder is made at the cursor and finished with the same cursor. A
/// token finished with a cursor that stands elsewhere starts where the
/// builder was made and ends where that cursor is left.
pub struct TokenBuilder {
    start_idx: usize,
    start_line: usize,
    start_col: usize,
}

impl TokenBuilder {
    /// The remembered offset, line and column.
    pub closed spec fn start(&self) -> (usize, usize, usize) {
        (self.start_idx, self.start_line, self.start_col)
    }

    /// Whether this builder remembers the position of `stream`.
    pub open spec fn is_at(&self, stream: CharStream) -> bool {
        self.start() == (
            stream.offset() as usize,
            line_of(stream.buffer(), stream.offset()) as usize,
            column_of(stream.buffer(), stream.offset()) as usize,
        )
    }

    /// The span from the remembered position to the position of `stream`.
    pub open spec fn span_to(&self, stream: CharStream) -> Span {
        Span {
            start: self.start().0,
            end: stream.offset() as usize,
            line_start: self.start().1,
            column_start: self.start().2,
            line_end: line_of(stream.buffer(), stream.offset()) as usize,
            column_end: column_of(stream.buffer(), stream.offset()) as usize,
        }
    }

    /// A builder for a token that starts at the cursor.
    pub fn new(stream: &CharStream) -> (r: Self)
        ensures
            r.is_at(*stream),
    {
        let (start_idx, start_line, start_col) = stream.current_position();
        TokenBuilder { start_idx, start_line, start_col }
    }

    /// Consumes one byte and returns the token of kind `kind` and text
    /// `lexeme` that spans it.
    pub fn single_char_token(self, stream: &mut CharStream, kind: TokenKind, lexeme: &str) -> (r:
        Token)
        ensures
            final(stream).buffer() == old(stream).buffer(),
            final(stream).offset() == offset_after(old(stream).buffer(), old(stream).offset(), 1),
            r.kind == kind,
            r.span == self.span_to(*final(stream)),
            r.lexeme@ == lexeme@,
            self.is_at(*old(stream)) ==> built(*old(stream), *final(stream), r, kind@, 1, lexeme@),
    {
        self.multi_char_token(stream, 1, kind, lexeme)
    }

    /// Consumes `chars` bytes, or all that are left where they are fewer,
    /// and returns the token of kind `kind` and text `lexeme` that spans
    /// them.
    pub fn multi_char_token(
        self,
        stream: &mut CharStream,
        chars: usize,
        kind: TokenKind,
        lexeme: &str,
    ) -> (r: Token)
        ensures
            final(stream).buffer() == old(stream).buffer(),
            final(stream).offset() == offset_after(
                old(stream).buffer(),
                old(stream).offset(),
                chars as int,
            ),
            r.kind == kind,
            r.span == self.span_to(*final(stream)),
            r.lexeme@ == lexeme@,
            self.is_at(*old(stream)) ==> built(
                *old(stream),
                *final(stream),
                r,
                kind@,
                chars as int,
                lexeme@,
            ),
    {
        stream.advance_n(chars);
        let (end_idx, end_line, end_col) = stream.current_position();
        Token {
            kind,
            span: Span {
                start: self.start_idx,
                end: end_idx,
                line_start: self.start_line,
                column_start: self.start_col,
                line_end: end_line,
                column_end: end_col,
            },
            lexeme: String::from_str(lexeme),
        }
    }
}

} // verus!
