//! The lexer.

use vstd::prelude::*;
use crate::ascii::{
    is_digit, is_digit_byte, is_identifier_part, is_identifier_start, is_identifier_start_byte,
    APOSTROPHE, COLON, DOUBLE_QUOTE,
};
use crate::charstream::{byte_at, column_of, lemma_run_end, line_of, run_end, CharStream};
use crate::lexer::delimiters::{
    colon_kind, colon_width, delimiter_kind, is_delimiter_byte, lex_colon, lex_delimiter,
};
use crate::lexer::operators::{
    is_operator_byte, is_operator_lead, lex_operator, operator_kind, operator_width,
};
use crate::lexer::parsing::{
    character_literal_at, identifier_at, lemma_string_scan_bounds, number_at, string_literal_at,
};
use crate::lexer::trivia::{lemma_trivia_end, trivia_end};
use crate::lexerror::{LexError, LexErrorView};
use crate::text::{ascii_text, lemma_ascii_text, lexeme_text};
use crate::token::span::{span_between, Span};
use crate::token::tokenkind::{TokenKind, TokenKindView};
use crate::token::{Token, TokenView};

pub mod delimiters;
pub mod operators;
pub mod parsing;
pub mod theorems;
pub mod token_builder;
pub mod trivia;

verus! {

/// What lexing finds at an offset of a buffer: a token that ends at `end`,
/// or an error that leaves the cursor at `stop`.
pub enum Scan {
    Token { kind: TokenKindView, end: int },
    Error { error: LexErrorView, stop: int },
}

/// The token of kind `kind` that the bytes of `buf` from `start` up to
/// `end` make: its span is theirs and its text is their text.
pub open spec fn token_view(buf: Seq<u8>, start: int, kind: TokenKindView, end: int) -> TokenView {
    TokenView {
        kind,
        span: span_between(buf, start, end),
        lexeme: lexeme_text(buf.subrange(start, end)),
    }
}

/// What holds once a cursor has lexed what `scan` describes, for a token
/// that starts at `start`: the result is that token, with the span and the
/// text of its bytes, or that error, and the cursor stands where the scan
/// ended.
pub open spec fn scanned(
    before: CharStream,
    after: CharStream,
    r: Result<Token, LexError>,
    start: int,
    scan: Scan,
) -> bool {
    &&& after.buffer() == before.buffer()
    &&& match scan {
        Scan::Token { kind, end } => {
            &&& r is Ok
            &&& r.unwrap()@ == token_view(before.buffer(), start, kind, end)
            &&& after.offset() == end
        },
        Scan::Error { error, stop } => {
            &&& r is Err
            &&& r.unwrap_err()@ == error
            &&& after.offset() == stop
        },
    }
}

/// The token that starts at `s`, decided by the byte at `s`:
///
/// - the end of the buffer: the end-of-input token, which is empty;
/// - `'`: a character literal; `"`: a string literal;
/// - a letter or `_`: an identifier or keyword; a digit: a numeric literal;
/// - `( ) { } [ ] ; , . ?`: a delimiter of one byte;
/// - `:`: the scope operator `::`, or the colon;
/// - `= + - * / % < > ! & | ^ ~`: an operator, two bytes long where the
///   next byte makes it so;
/// - any other byte: an error at `s`.
pub open spec fn token_at(buf: Seq<u8>, s: int) -> Scan {
    match byte_at(buf, s) {
        None => Scan::Token { kind: TokenKindView::Eof, end: s },
        Some(b) => {
            let next = byte_at(buf, s + 1);
            if b == APOSTROPHE {
                character_literal_at(buf, s)
            } else if b == DOUBLE_QUOTE {
                string_literal_at(buf, s)
            } else if is_identifier_start(b) {
                identifier_at(buf, s)
            } else if is_digit(b) {
                number_at(buf, s)
            } else if delimiter_kind(b) is Some {
                Scan::Token {
                    kind: TokenKindView::Delimiter(delimiter_kind(b).unwrap()),
                    end: s + 1,
                }
            } else if b == COLON {
                Scan::Token { kind: colon_kind(next), end: s + colon_width(next) }
            } else if is_operator_byte(b) {
                Scan::Token { kind: operator_kind(b, next), end: s + operator_width(b, next) }
            } else {
                Scan::Error {
                    error: LexErrorView::UnexpectedCharacter {
                        ch: b as char,
                        line: line_of(buf, s) as usize,
                        column: column_of(buf, s) as usize,
                    },
                    stop: s,
                }
            }
        },
    }
}

/// What the next call of [`Lexer::next_token`] finds when the cursor
/// stands at `pos`: the token that starts where the trivia at `pos` ends.
pub open spec fn next_token_at(buf: Seq<u8>, pos: int) -> Scan {
    token_at(buf, trivia_end(buf, pos))
}

/// The mathematical values of `tokens`.
pub open spec fn token_views(tokens: Seq<Token>) -> Seq<TokenView> {
    tokens.map_values(|t: Token| t@)
}

/// What holds of the result of lexing `buf` from `pos` to the end: it holds
/// the tokens of [`tokens_from`], or its error.
pub open spec fn tokenized(buf: Seq<u8>, pos: int, r: Result<Vec<Token>, LexError>) -> bool {
    match tokens_from(buf, pos) {
        Ok(tokens) => r is Ok && token_views(r.unwrap()@) == tokens,
        Err(error) => r is Err && r.unwrap_err()@ == error,
    }
}

/// `prefix` before the tokens of `rest`, or the error of `rest`.
pub open spec fn token_all(prefix: Seq<TokenView>, rest: Result<Seq<TokenView>, LexErrorView>) -> Result<
    Seq<TokenView>,
    LexErrorView,
> {
    match rest {
        Ok(tokens) => Ok(prefix + tokens),
        Err(error) => Err(error),
    }
}

/// The tokens that lexing yields from `pos` on, up to and including the
/// end-of-input token, or the first error.
pub open spec fn tokens_from(buf: Seq<u8>, pos: int) -> Result<Seq<TokenView>, LexErrorView>
    decreases buf.len() - pos,
    via tokens_from_decreases
{
    let start = trivia_end(buf, pos);
    match token_at(buf, start) {
        Scan::Error { error, stop } => Err(error),
        Scan::Token { kind, end } => {
            let token = token_view(buf, start, kind, end);
            if kind is Eof {
                Ok(seq![token])
            } else {
                token_all(seq![token], tokens_from(buf, end))
            }
        },
    }
}

#[via_fn]
proof fn tokens_from_decreases(buf: Seq<u8>, pos: int) {
    if 0 <= pos <= buf.len() {
        lemma_trivia_end(buf, pos);
        lemma_token_bounds(buf, trivia_end(buf, pos));
    }
}

/// Where the cursor stands once lexing from `pos` on has reached the end of
/// the input or the first error.
pub open spec fn stop_from(buf: Seq<u8>, pos: int) -> int
    decreases buf.len() - pos,
    via stop_from_decreases
{
    let start = trivia_end(buf, pos);
    match token_at(buf, start) {
        Scan::Error { error, stop } => stop,
        Scan::Token { kind, end } => if kind is Eof {
            end
        } else {
            stop_from(buf, end)
        },
    }
}

#[via_fn]
proof fn stop_from_decreases(buf: Seq<u8>, pos: int) {
    if 0 <= pos <= buf.len() {
        lemma_trivia_end(buf, pos);
        lemma_token_bounds(buf, trivia_end(buf, pos));
    }
}

/// A token lies inside the buffer and is empty only at the end of the
/// input, where it is the end-of-input token; an error leaves the cursor
/// inside the buffer.
pub proof fn lemma_token_bounds(buf: Seq<u8>, s: int)
    requires
        0 <= s <= buf.len(),
    ensures
        match token_at(buf, s) {
            Scan::Token { kind, end } => {
                &&& s <= end <= buf.len()
                &&& (kind is Eof <==> s == buf.len())
                &&& (end == s <==> s == buf.len())
            },
            Scan::Error { error, stop } => s <= stop <= buf.len(),
        },
{
    match byte_at(buf, s) {
        None => {},
        Some(b) => {
            if b == APOSTROPHE {
            } else if b == DOUBLE_QUOTE {
                lemma_string_scan_bounds(
                    buf,
                    s + 1,
                    Seq::empty(),
                    line_of(buf, s) as usize,
                    column_of(buf, s) as usize,
                );
            } else if is_identifier_start(b) {
                lemma_run_end(buf, s + 1, |b: u8| is_identifier_part(b));
            } else if is_digit(b) {
                let int_end = run_end(buf, s, |b: u8| is_digit(b));
                lemma_run_end(buf, s + 1, |b: u8| is_digit(b));
                if int_end + 1 <= buf.len() {
                    lemma_run_end(buf, int_end + 1, |b: u8| is_digit(b));
                }
            }
        },
    }
}

/// Turns the bytes of a [`CharStream`] into tokens, one per call of
/// [`Lexer::next_token`].
#[derive(Debug)]
pub struct Lexer {
    stream: CharStream,
}

impl Lexer {
    /// The cursor that the lexer reads from.
    pub closed spec fn cursor(&self) -> CharStream {
        self.stream
    }

    /// The bytes that the lexer reads.
    pub open spec fn buffer(&self) -> Seq<u8> {
        self.cursor().buffer()
    }

    /// The offset of the next byte to read.
    pub open spec fn offset(&self) -> int {
        self.cursor().offset()
    }

    /// A lexer that reads from `stream`.
    pub fn new(stream: CharStream) -> (r: Self)
        ensures
            r.cursor() == stream,
    {
        Lexer { stream }
    }

    /// Skips the trivia at the cursor and lexes the token after it.
    ///
    /// At the end of the input the token is the end-of-input token, again
    /// at every further call. An error is final: the cursor is left where
    /// the scan stopped.
    pub fn next_token(&mut self) -> (r: Result<Token, LexError>)
        ensures
            scanned(
                old(self).cursor(),
                final(self).cursor(),
                r,
                trivia_end(old(self).buffer(), old(self).offset()),
                next_token_at(old(self).buffer(), old(self).offset()),
            ),
    {
        self.skip_trivia();
        let (start_idx, start_line, start_col) = self.stream.current_position();
        let ghost buf = self.buffer();
        let ghost s = start_idx as int;
        match self.stream.peek() {
            None => {
                proof {
                    lemma_ascii_text(buf.subrange(s, s));
                    assert(ascii_text(buf.subrange(s, s)) =~= Seq::<char>::empty());
                }
                Ok(
                    Token {
                        kind: TokenKind::Eof,
                        span: Span {
                            start: start_idx,
                            end: start_idx,
                            line_start: start_line,
                            column_start: start_col,
                            line_end: start_line,
                            column_end: start_col,
                        },
                        lexeme: String::new(),
                    },
                )
            },
            Some(byte) => {
                if byte == APOSTROPHE {
                    self.lex_character_literal()
                } else if byte == DOUBLE_QUOTE {
                    self.lex_string_literal()
                } else if is_identifier_start_byte(byte) {
                    self.lex_identifier_or_keyword()
                } else if is_digit_byte(byte) {
                    self.lex_number()
                } else if is_delimiter_byte(byte) {
                    proof {
                        lemma_ascii_text(buf.subrange(s, s + 1));
                        assert(buf.subrange(s, s + 1) =~= seq![byte]);
                    }
                    Ok(lex_delimiter(&mut self.stream, byte))
                } else if byte == COLON {
                    proof {
                        let next = byte_at(buf, s + 1);
                        if next == Some(COLON) {
                            lemma_ascii_text(buf.subrange(s, s + 2));
                            assert(buf.subrange(s, s + 2) =~= seq![COLON, COLON]);
                        } else {
                            lemma_ascii_text(buf.subrange(s, s + 1));
                            assert(buf.subrange(s, s + 1) =~= seq![COLON]);
                        }
                    }
                    Ok(lex_colon(&mut self.stream))
                } else if is_operator_lead(byte) {
                    proof {
                        let next = byte_at(buf, s + 1);
                        if operator_width(byte, next) == 2 {
                            lemma_ascii_text(buf.subrange(s, s + 2));
                            assert(buf.subrange(s, s + 2) =~= seq![byte, next.unwrap()]);
                        } else {
                            lemma_ascii_text(buf.subrange(s, s + 1));
                            assert(buf.subrange(s, s + 1) =~= seq![byte]);
                        }
                    }
                    lex_operator(&mut self.stream, byte)
                } else {
                    Err(
                        LexError::UnexpectedCharacter {
                            ch: byte as char,
                            line: start_line,
                            column: start_col,
                        },
                    )
                }
            },
        }
    }

    /// Lexes the rest of the input: the tokens up to and including the
    /// end-of-input token, or the first error.
    pub fn tokenize(&mut self) -> (r: Result<Vec<Token>, LexError>)
        ensures
            final(self).buffer() == old(self).buffer(),
            final(self).offset() == stop_from(old(self).buffer(), old(self).offset()),
            tokenized(old(self).buffer(), old(self).offset(), r),
    {
        proof {
            use_type_invariant(&self.stream);
            self.stream.lemma_bounds();
        }
        let mut tokens: Vec<Token> = Vec::new();
        loop
            invariant_except_break
                tokens_from(old(self).buffer(), old(self).offset()) == token_all(
                    token_views(tokens@),
                    tokens_from(self.buffer(), self.offset()),
                ),
                stop_from(old(self).buffer(), old(self).offset()) == stop_from(
                    self.buffer(),
                    self.offset(),
                ),
            invariant
                self.buffer() == old(self).buffer(),
                0 <= self.offset() <= self.buffer().len(),
            ensures
                tokens_from(old(self).buffer(), old(self).offset()) == Ok::<
                    Seq<TokenView>,
                    LexErrorView,
                >(token_views(tokens@)),
                self.offset() == stop_from(old(self).buffer(), old(self).offset()),
            decreases self.buffer().len() - self.offset(),
        {
            let ghost before = token_views(tokens@);
            let ghost pos = self.offset();
            proof {
                lemma_trivia_end(self.buffer(), pos);
                lemma_token_bounds(self.buffer(), trivia_end(self.buffer(), pos));
            }
            match self.next_token() {
                Ok(token) => {
                    let done = token.is_eof();
                    let ghost view = token@;
                    tokens.push(token);
                    proof {
                        assert(token_views(tokens@) =~= before.push(view));
                        match tokens_from(self.buffer(), self.offset()) {
                            Ok(rest) => {
                                assert(before + (seq![view] + rest) =~= before.push(view) + rest);
                            },
                            Err(e) => {},
                        }
                        if done {
                            assert(before + seq![view] =~= before.push(view));
                        }
                    }
                    if done {
                        break ;
                    }
                },
                Err(e) => {
                    return Err(e);
                },
            }
        }
        Ok(tokens)
    }
}

} // verus!
