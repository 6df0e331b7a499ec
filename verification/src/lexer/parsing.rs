//! Identifiers, keywords and literals.

use vstd::prelude::*;
use vstd::string::*;
use crate::ascii::{
    is_digit, is_digit_byte, is_identifier_part, is_identifier_part_byte, APOSTROPHE, BACKSLASH,
    DIGIT_ZERO, DOT, DOUBLE_QUOTE, LOWER_N, LOWER_R, LOWER_T, LOWER_U,
};
use crate::charstream::{
    byte_at, column_of, lemma_run_end, lemma_run_end_unique, line_of, run_end,
};
use crate::lexer::token_builder::offset_after;
use crate::lexer::{scanned, Lexer, Scan};
use crate::lexerror::{LexError, LexErrorView};
use crate::text::{lexeme_text, text_of};
use crate::token::literals::{Literals, LiteralsView};
use crate::token::span::Span;
use crate::token::tokenkind::{keyword_of, TokenKind, TokenKindView};
use crate::token::Token;

verus! {

/// The number that a run of decimal digits denotes.
pub open spec fn decimal_value(digits: Seq<u8>) -> nat
    decreases digits.len(),
{
    if digits.len() == 0 {
        0
    } else {
        decimal_value(digits.drop_last()) * 10 + (digits.last() - DIGIT_ZERO) as nat
    }
}

/// Every byte is a decimal digit.
pub open spec fn all_digits(bytes: Seq<u8>) -> bool {
    forall|i: int| 0 <= i < bytes.len() ==> is_digit(#[trigger] bytes[i])
}

/// The character that a backslash stands for before the byte `next`, inside
/// a literal quoted by `quote`; `None` where `next` makes no escape.
pub open spec fn escape_value(next: Option<u8>, quote: u8) -> Option<char> {
    match next {
        None => None,
        Some(b) => if b == LOWER_N {
            Some('\n')
        } else if b == LOWER_T {
            Some('\t')
        } else if b == LOWER_R {
            Some('\r')
        } else if b == DIGIT_ZERO {
            Some('\0')
        } else if b == BACKSLASH {
            Some('\\')
        } else if b == quote {
            Some(b as char)
        } else {
            None
        },
    }
}

/// How an invalid escape is reported: the backslash and the byte after it,
/// or the backslash and `(EOF)` where the buffer ends.
pub open spec fn escape_text(next: Option<u8>) -> Seq<char> {
    match next {
        Some(b) => seq!['\\', b as char],
        None => "\\(EOF)"@,
    }
}

/// The identifier or keyword at `s`: the longest run of letters, digits
/// and `_`, a keyword where the run spells one.
pub open spec fn identifier_at(buf: Seq<u8>, s: int) -> Scan {
    let end = run_end(buf, s, |b: u8| is_identifier_part(b));
    let text = lexeme_text(buf.subrange(s, end));
    Scan::Token {
        kind: match keyword_of(text) {
            Some(k) => TokenKindView::Keyword(k),
            None => TokenKindView::Identifier(text),
        },
        end,
    }
}

/// The numeric literal at `s`.
///
/// The literal is a run of digits. A dot that a digit follows continues it
/// with a fraction; a dot without a digit after it is not part of it. A `u`
/// right after the digits marks an unsigned integer and ends the literal; a
/// `u` after a fraction is an error that leaves the `u` unread. An integer
/// without digits, or one that does not fit its 64 bits, is an error.
pub open spec fn number_at(buf: Seq<u8>, s: int) -> Scan {
    let line = line_of(buf, s) as usize;
    let column = column_of(buf, s) as usize;
    let int_end = run_end(buf, s, |b: u8| is_digit(b));
    let digits = buf.subrange(s, int_end);
    let is_float = byte_at(buf, int_end) == Some(DOT) && byte_at(buf, int_end + 1) is Some
        && is_digit(byte_at(buf, int_end + 1).unwrap());
    if is_float {
        let end = run_end(buf, int_end + 1, |b: u8| is_digit(b));
        let text = lexeme_text(buf.subrange(s, end));
        if byte_at(buf, end) == Some(LOWER_U) {
            Scan::Error { error: LexErrorView::InvalidNumber { lexeme: text, line, column }, stop: end }
        } else {
            Scan::Token { kind: TokenKindView::Literal(LiteralsView::FloatLiteral(text)), end }
        }
    } else if byte_at(buf, int_end) == Some(LOWER_U) {
        let end = int_end + 1;
        if digits.len() > 0 && decimal_value(digits) <= u64::MAX {
            Scan::Token {
                kind: TokenKindView::Literal(
                    LiteralsView::UnsignedIntLiteral(decimal_value(digits) as u64),
                ),
                end,
            }
        } else {
            Scan::Error {
                error: LexErrorView::InvalidNumber {
                    lexeme: lexeme_text(buf.subrange(s, end)),
                    line,
                    column,
                },
                stop: end,
            }
        }
    } else {
        if digits.len() > 0 && decimal_value(digits) <= i64::MAX {
            Scan::Token {
                kind: TokenKindView::Literal(LiteralsView::IntLiteral(decimal_value(digits) as i64)),
                end: int_end,
            }
        } else {
            Scan::Error {
                error: LexErrorView::InvalidNumber {
                    lexeme: lexeme_text(buf.subrange(s, int_end)),
                    line,
                    column,
                },
                stop: int_end,
            }
        }
    }
}

/// The end of the character literal that opens at `s` and holds `ch`, where
/// `q` is the offset right after its content: the closing quote must stand
/// at `q`.
pub open spec fn character_closing(buf: Seq<u8>, s: int, q: int, ch: char) -> Scan {
    if byte_at(buf, q) == Some(APOSTROPHE) {
        Scan::Token { kind: TokenKindView::Literal(LiteralsView::CharacterLiteral(ch)), end: q + 1 }
    } else {
        Scan::Error {
            error: LexErrorView::UnterminatedString {
                line: line_of(buf, s) as usize,
                column: column_of(buf, s) as usize,
            },
            stop: q,
        }
    }
}

/// The character literal that opens at `s`: the opening quote, then one
/// byte or one escape, then the closing quote.
pub open spec fn character_literal_at(buf: Seq<u8>, s: int) -> Scan {
    let line = line_of(buf, s) as usize;
    let column = column_of(buf, s) as usize;
    let c = offset_after(buf, s, 1);
    match byte_at(buf, c) {
        None => Scan::Error { error: LexErrorView::UnterminatedString { line, column }, stop: c },
        Some(b) => if b == BACKSLASH {
            match escape_value(byte_at(buf, c + 1), APOSTROPHE) {
                Some(ch) => character_closing(buf, s, c + 2, ch),
                None => Scan::Error {
                    error: LexErrorView::InvalidEscape {
                        sequence: escape_text(byte_at(buf, c + 1)),
                        line,
                        column,
                    },
                    stop: c + 1,
                },
            }
        } else {
            character_closing(buf, s, c + 1, b as char)
        },
    }
}

/// The rest of a string literal from `i` on, where `decoded` is what its
/// content before `i` stands for and `line` and `column` are those of its
/// opening quote. The literal ends at the first `"` that no backslash
/// escapes; every other byte stands for the character of its value.
pub open spec fn string_scan(
    buf: Seq<u8>,
    i: int,
    decoded: Seq<char>,
    line: usize,
    column: usize,
) -> Scan
    decreases buf.len() - i,
{
    match byte_at(buf, i) {
        None => Scan::Error { error: LexErrorView::UnterminatedString { line, column }, stop: i },
        Some(b) => if b == DOUBLE_QUOTE {
            Scan::Token {
                kind: TokenKindView::Literal(LiteralsView::StringLiteral(decoded)),
                end: i + 1,
            }
        } else if b == BACKSLASH {
            match escape_value(byte_at(buf, i + 1), DOUBLE_QUOTE) {
                Some(ch) => string_scan(buf, i + 2, decoded.push(ch), line, column),
                None => Scan::Error {
                    error: LexErrorView::InvalidEscape {
                        sequence: escape_text(byte_at(buf, i + 1)),
                        line,
                        column,
                    },
                    stop: i + 1,
                },
            }
        } else {
            string_scan(buf, i + 1, decoded.push(b as char), line, column)
        },
    }
}

/// The string literal that opens at `s`.
pub open spec fn string_literal_at(buf: Seq<u8>, s: int) -> Scan {
    string_scan(
        buf,
        offset_after(buf, s, 1),
        Seq::empty(),
        line_of(buf, s) as usize,
        column_of(buf, s) as usize,
    )
}

/// Whether `error` is one that a quoted literal may end in, located at
/// `line` and `column`: it lacks its closing quote, or holds an invalid
/// escape.
pub open spec fn is_literal_error(error: LexErrorView, line: usize, column: usize) -> bool {
    ||| error == (LexErrorView::UnterminatedString { line, column })
    ||| error matches LexErrorView::InvalidEscape { line: l, column: c, .. } && l == line && c
        == column
}

/// The scan of a string literal stops inside the buffer; where it finds a
/// token, that is a string literal that ends after the offset from which it
/// was scanned, and where it fails, the error is located at the literal's
/// opening quote.
pub proof fn lemma_string_scan_bounds(
    buf: Seq<u8>,
    i: int,
    decoded: Seq<char>,
    line: usize,
    column: usize,
)
    requires
        0 <= i <= buf.len(),
    ensures
        match string_scan(buf, i, decoded, line, column) {
            Scan::Token { kind, end } => {
                &&& i < end <= buf.len()
                &&& kind matches TokenKindView::Literal(l) && l is StringLiteral
            },
            Scan::Error { error, stop } => {
                &&& i <= stop <= buf.len()
                &&& is_literal_error(error, line, column)
            },
        },
    decreases buf.len() - i,
{
    match byte_at(buf, i) {
        None => {},
        Some(b) => {
            if b == DOUBLE_QUOTE {
            } else if b == BACKSLASH {
                match escape_value(byte_at(buf, i + 1), DOUBLE_QUOTE) {
                    Some(ch) => {
                        lemma_string_scan_bounds(buf, i + 2, decoded.push(ch), line, column);
                    },
                    None => {},
                }
            } else {
                lemma_string_scan_bounds(buf, i + 1, decoded.push(b as char), line, column);
            }
        },
    }
}

/// The number of a prefix of a run of digits is at most the number of the
/// run.
pub proof fn lemma_decimal_value_prefix(digits: Seq<u8>, k: int)
    requires
        0 <= k <= digits.len(),
    ensures
        decimal_value(digits.take(k)) <= decimal_value(digits),
    decreases digits.len(),
{
    if k == digits.len() {
        assert(digits.take(k) =~= digits);
    } else {
        assert(digits.drop_last().take(k) =~= digits.take(k));
        lemma_decimal_value_prefix(digits.drop_last(), k);
    }
}

/// The number that `digits` denotes: `None` where `digits` is empty, holds
/// a byte that is no decimal digit, or denotes a number above `u64::MAX`.
pub fn parse_decimal(digits: &[u8]) -> (r: Option<u64>)
    ensures
        r == if digits@.len() > 0 && all_digits(digits@) && decimal_value(digits@) <= u64::MAX {
            Some(decimal_value(digits@) as u64)
        } else {
            None
        },
{
    if digits.len() == 0 {
        return None;
    }
    let mut value: u64 = 0;
    let mut i: usize = 0;
    while i < digits.len()
        invariant
            i <= digits@.len(),
            all_digits(digits@.take(i as int)),
            value == decimal_value(digits@.take(i as int)),
        decreases digits@.len() - i,
    {
        let b = digits[i];
        proof {
            assert(digits@.take(i + 1).drop_last() =~= digits@.take(i as int));
            assert(digits@.take(i + 1).last() == b);
            lemma_decimal_value_prefix(digits@, i + 1);
        }
        if !is_digit_byte(b) {
            assert(!all_digits(digits@)) by {
                assert(!is_digit(digits@[i as int]));
            }
            return None;
        }
        let d: u64 = (b - DIGIT_ZERO) as u64;
        let next = match value.checked_mul(10) {
            Some(tens) => tens.checked_add(d),
            None => None,
        };
        match next {
            Some(v) => {
                value = v;
            },
            None => {
                return None;
            },
        }
        assert(all_digits(digits@.take(i + 1))) by {
            assert forall|k: int| 0 <= k < i + 1 implies is_digit(
                #[trigger] digits@.take(i + 1)[k],
            ) by {
                if k < i {
                    assert(digits@.take(i as int)[k] == digits@.take(i + 1)[k]);
                }
            }
        }
        i += 1;
    }
    proof {
        assert(digits@.take(i as int) =~= digits@);
    }
    Some(value)
}

impl Lexer {
    /// Lexes the identifier or keyword at the cursor.
    pub fn lex_identifier_or_keyword(&mut self) -> (r: Result<Token, LexError>)
        ensures
            scanned(
                old(self).cursor(),
                final(self).cursor(),
                r,
                old(self).offset(),
                identifier_at(old(self).buffer(), old(self).offset()),
            ),
    {
        let (start_idx, start_line, start_col) = self.stream.current_position();
        let part = |b: u8| -> (r: bool)
            ensures
                r == is_identifier_part(b),
            { is_identifier_part_byte(b) };
        let (lex_start, lex_end) = self.stream.consume_while(part);
        proof {
            lemma_run_end_unique(
                self.buffer(),
                start_idx as int,
                lex_end as int,
                |b: u8| is_identifier_part(b),
            );
        }
        let (end_idx, end_line, end_col) = self.stream.current_position();
        let lexeme = text_of(self.stream.slice(lex_start, lex_end));
        let kind = match TokenKind::keyword(lexeme.as_str()) {
            Some(k) => k,
            None => TokenKind::Identifier(lexeme.clone()),
        };
        let span = Span {
            start: start_idx,
            end: end_idx,
            line_start: start_line,
            column_start: start_col,
            line_end: end_line,
            column_end: end_col,
        };
        Ok(Token { kind, span, lexeme })
    }

    /// Lexes the numeric literal at the cursor.
    pub fn lex_number(&mut self) -> (r: Result<Token, LexError>)
        ensures
            scanned(
                old(self).cursor(),
                final(self).cursor(),
                r,
                old(self).offset(),
                number_at(old(self).buffer(), old(self).offset()),
            ),
    {
        let (start_idx, start_line, start_col) = self.stream.current_position();
        let digit = |b: u8| -> (r: bool)
            ensures
                r == is_digit(b),
            { is_digit_byte(b) };
        let (lex_start, int_end) = self.stream.consume_while(digit);
        proof {
            lemma_run_end_unique(
                self.buffer(),
                start_idx as int,
                int_end as int,
                |b: u8| is_digit(b),
            );
            lemma_run_end(self.buffer(), start_idx as int, |b: u8| is_digit(b));
        }
        let dot = match self.stream.peek() {
            Some(b) => b == DOT,
            None => false,
        };
        let fraction = match self.stream.peek_n(1) {
            Some(b) => is_digit_byte(b),
            None => false,
        };
        let is_float = dot && fraction;
        if is_float {
            self.stream.advance();
            let more = |b: u8| -> (r: bool)
                ensures
                    r == is_digit(b),
                { is_digit_byte(b) };
            let (_, frac_end) = self.stream.consume_while(more);
            proof {
                lemma_run_end_unique(
                    self.buffer(),
                    int_end as int + 1,
                    frac_end as int,
                    |b: u8| is_digit(b),
                );
            }
        }
        let is_unsigned = match self.stream.peek() {
            Some(b) => b == LOWER_U,
            None => false,
        };
        if is_unsigned {
            if is_float {
                let (end_idx, _, _) = self.stream.current_position();
                let lexeme = text_of(self.stream.slice(lex_start, end_idx));
                return Err(LexError::InvalidNumber { lexeme, line: start_line, column: start_col });
            }
            self.stream.advance();
        }
        let (end_idx, end_line, end_col) = self.stream.current_position();
        let lexeme = text_of(self.stream.slice(lex_start, end_idx));
        let kind = if is_float {
            TokenKind::Literal(Literals::FloatLiteral(lexeme.clone()))
        } else {
            let digits = self.stream.slice(lex_start, int_end);
            match parse_decimal(digits) {
                Some(value) => {
                    if is_unsigned {
                        TokenKind::Literal(Literals::UnsignedIntLiteral(value))
                    } else if value <= 0x7FFF_FFFF_FFFF_FFFF {
                        TokenKind::Literal(Literals::IntLiteral(value as i64))
                    } else {
                        return Err(
                            LexError::InvalidNumber { lexeme, line: start_line, column: start_col },
                        );
                    }
                },
                None => {
                    return Err(
                        LexError::InvalidNumber { lexeme, line: start_line, column: start_col },
                    );
                },
            }
        };
        let span = Span {
            start: start_idx,
            end: end_idx,
            line_start: start_line,
            column_start: start_col,
            line_end: end_line,
            column_end: end_col,
        };
        Ok(Token { kind, span, lexeme })
    }

    /// Consumes a backslash and the byte after it, and returns the
    /// character that the two stand for inside a literal quoted by `quote`.
    /// Where they make no escape, only the backslash is consumed, and the
    /// error names the literal's start at `line` and `column`.
    fn decode_escape(&mut self, quote: u8, line: usize, column: usize) -> (r: Result<
        char,
        LexError,
    >)
        ensures
            final(self).buffer() == old(self).buffer(),
            match escape_value(
                byte_at(
                    old(self).buffer(),
                    offset_after(old(self).buffer(), old(self).offset(), 1),
                ),
                quote,
            ) {
                Some(ch) => r == Ok::<char, LexError>(ch) && final(self).offset() == offset_after(
                    old(self).buffer(),
                    old(self).offset(),
                    1,
                ) + 1,
                None => r is Err && r.unwrap_err()@ == (LexErrorView::InvalidEscape {
                    sequence: escape_text(
                        byte_at(
                            old(self).buffer(),
                            offset_after(old(self).buffer(), old(self).offset(), 1),
                        ),
                    ),
                    line,
                    column,
                }) && final(self).offset() == offset_after(
                    old(self).buffer(),
                    old(self).offset(),
                    1,
                ),
            },
    {
        proof {
            use_type_invariant(&self.stream);
            self.stream.lemma_bounds();
        }
        self.stream.advance();
        match self.stream.peek() {
            Some(b) => {
                let ch = if b == LOWER_N {
                    Some('\n')
                } else if b == LOWER_T {
                    Some('\t')
                } else if b == LOWER_R {
                    Some('\r')
                } else if b == DIGIT_ZERO {
                    Some('\0')
                } else if b == BACKSLASH {
                    Some('\\')
                } else if b == quote {
                    Some(b as char)
                } else {
                    None
                };
                match ch {
                    Some(c) => {
                        self.stream.advance();
                        Ok(c)
                    },
                    None => {
                        let mut sequence = String::new();
                        sequence.push('\\');
                        sequence.push(b as char);
                        assert(sequence@ =~= escape_text(Some(b)));
                        Err(LexError::InvalidEscape { sequence, line, column })
                    },
                }
            },
            None => Err(
                LexError::InvalidEscape { sequence: String::from_str("\\(EOF)"), line, column },
            ),
        }
    }

    /// Lexes the character literal at the cursor.
    pub fn lex_character_literal(&mut self) -> (r: Result<Token, LexError>)
        ensures
            scanned(
                old(self).cursor(),
                final(self).cursor(),
                r,
                old(self).offset(),
                character_literal_at(old(self).buffer(), old(self).offset()),
            ),
    {
        let (start_idx, start_line, start_col) = self.stream.current_position();
        self.stream.advance();
        let ch = match self.stream.peek() {
            None => {
                return Err(LexError::UnterminatedString { line: start_line, column: start_col });
            },
            Some(b) => {
                if b == BACKSLASH {
                    match self.decode_escape(APOSTROPHE, start_line, start_col) {
                        Ok(c) => c,
                        Err(e) => {
                            return Err(e);
                        },
                    }
                } else {
                    self.stream.advance();
                    b as char
                }
            },
        };
        if !self.stream.match_byte(APOSTROPHE) {
            return Err(LexError::UnterminatedString { line: start_line, column: start_col });
        }
        let (end_idx, end_line, end_col) = self.stream.current_position();
        let lexeme = text_of(self.stream.slice(start_idx, end_idx));
        let span = Span {
            start: start_idx,
            end: end_idx,
            line_start: start_line,
            column_start: start_col,
            line_end: end_line,
            column_end: end_col,
        };
        Ok(Token { kind: TokenKind::Literal(Literals::CharacterLiteral(ch)), span, lexeme })
    }

    /// Lexes the string literal at the cursor.
    pub fn lex_string_literal(&mut self) -> (r: Result<Token, LexError>)
        ensures
            scanned(
                old(self).cursor(),
                final(self).cursor(),
                r,
                old(self).offset(),
                string_literal_at(old(self).buffer(), old(self).offset()),
            ),
    {
        let (start_idx, start_line, start_col) = self.stream.current_position();
        self.stream.advance();
        let mut decoded = String::new();
        loop
            invariant_except_break
                string_scan(self.buffer(), self.offset(), decoded@, start_line, start_col)
                    == string_literal_at(old(self).buffer(), old(self).offset()),
            invariant
                self.buffer() == old(self).buffer(),
                start_idx == old(self).offset(),
                start_line == line_of(self.buffer(), start_idx as int),
                start_col == column_of(self.buffer(), start_idx as int),
                start_idx <= self.offset() <= self.buffer().len(),
            ensures
                string_literal_at(old(self).buffer(), old(self).offset()) == (Scan::Token {
                    kind: TokenKindView::Literal(LiteralsView::StringLiteral(decoded@)),
                    end: self.offset(),
                }),
            decreases self.buffer().len() - self.offset(),
        {
            match self.stream.peek() {
                None => {
                    return Err(
                        LexError::UnterminatedString { line: start_line, column: start_col },
                    );
                },
                Some(b) => {
                    if b == DOUBLE_QUOTE {
                        self.stream.advance();
                        break ;
                    } else if b == BACKSLASH {
                        match self.decode_escape(DOUBLE_QUOTE, start_line, start_col) {
                            Ok(ch) => {
                                decoded.push(ch);
                            },
                            Err(e) => {
                                return Err(e);
                            },
                        }
                    } else {
                        decoded.push(b as char);
                        self.stream.advance();
                    }
                },
            }
        }
        let (end_idx, end_line, end_col) = self.stream.current_position();
        let lexeme = text_of(self.stream.slice(start_idx, end_idx));
        let span = Span {
            start: start_idx,
            end: end_idx,
            line_start: start_line,
            column_start: start_col,
            line_end: end_line,
            column_end: end_col,
        };
        Ok(Token { kind: TokenKind::Literal(Literals::StringLiteral(decoded)), span, lexeme })
    }
}

} // verus!
