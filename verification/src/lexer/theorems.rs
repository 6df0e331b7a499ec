//! What holds of every run of the lexer.

use vstd::prelude::*;
use vstd::utf8::{encode_utf8, valid_utf8};
use crate::ascii::{
    is_digit, is_identifier_part, is_identifier_start, AMPERSAND, APOSTROPHE, ASTERISK, BANG,
    CARET, COLON, COMMA, DOT, DOUBLE_QUOTE, EQUALS, GREATER, LEFT_BRACE, LEFT_BRACKET, LEFT_PAREN,
    LESS, MINUS, PERCENT, PIPE, PLUS, QUESTION, RIGHT_BRACE, RIGHT_BRACKET, RIGHT_PAREN,
    SEMICOLON, SLASH, TILDE,
};
use crate::charstream::{byte_at, column_of, lemma_run_end, line_of, run_end, CharStream, MAX_INPUT_SIZE};
use crate::lexer::parsing::{is_literal_error, lemma_string_scan_bounds};
use crate::lexer::trivia::{lemma_trivia_end, trivia_end};
use crate::lexer::{
    lemma_token_bounds, next_token_at, scanned, stop_from, token_at, token_view, tokenized,
    tokens_from, Scan,
};
use crate::lexerror::{LexError, LexErrorView};
use crate::text::{ascii_text, is_ascii_bytes, lemma_ascii_text, lemma_text_round_trip};
use crate::token::delimiterkind::DelimiterKind;
use crate::token::operators::arithmetic::ArithmeticOps;
use crate::token::operators::assignment::AssignmentOperator;
use crate::token::operators::bitwise::BitwiseOps;
use crate::token::operators::logical::LogicalOperator;
use crate::token::operators::relational::RelationalOperator;
use crate::token::operators::SpecialOps;
use crate::token::tokenkind::TokenKindView;
use crate::token::{Token, TokenView};

verus! {

/// The delimiter or operator that the single byte `a` spells.
pub open spec fn symbol_of_one(a: u8) -> Option<TokenKindView> {
    if a == LEFT_PAREN {
        Some(TokenKindView::Delimiter(DelimiterKind::LeftParen))
    } else if a == RIGHT_PAREN {
        Some(TokenKindView::Delimiter(DelimiterKind::RightParen))
    } else if a == LEFT_BRACE {
        Some(TokenKindView::Delimiter(DelimiterKind::LeftBrace))
    } else if a == RIGHT_BRACE {
        Some(TokenKindView::Delimiter(DelimiterKind::RightBrace))
    } else if a == LEFT_BRACKET {
        Some(TokenKindView::Delimiter(DelimiterKind::LeftBracket))
    } else if a == RIGHT_BRACKET {
        Some(TokenKindView::Delimiter(DelimiterKind::RightBracket))
    } else if a == COLON {
        Some(TokenKindView::Delimiter(DelimiterKind::Colon))
    } else if a == SEMICOLON {
        Some(TokenKindView::Delimiter(DelimiterKind::Semicolon))
    } else if a == COMMA {
        Some(TokenKindView::Delimiter(DelimiterKind::Comma))
    } else if a == DOT {
        Some(TokenKindView::Delimiter(DelimiterKind::Dot))
    } else if a == QUESTION {
        Some(TokenKindView::Delimiter(DelimiterKind::QuestionMark))
    } else if a == EQUALS {
        Some(TokenKindView::AssignmentOperator(AssignmentOperator::Assign))
    } else if a == PLUS {
        Some(TokenKindView::ArithmeticOperator(ArithmeticOps::Plus))
    } else if a == MINUS {
        Some(TokenKindView::ArithmeticOperator(ArithmeticOps::Minus))
    } else if a == ASTERISK {
        Some(TokenKindView::ArithmeticOperator(ArithmeticOps::Asterisk))
    } else if a == SLASH {
        Some(TokenKindView::ArithmeticOperator(ArithmeticOps::Slash))
    } else if a == PERCENT {
        Some(TokenKindView::ArithmeticOperator(ArithmeticOps::Modulo))
    } else if a == LESS {
        Some(TokenKindView::RelationalOperator(RelationalOperator::LessThan))
    } else if a == GREATER {
        Some(TokenKindView::RelationalOperator(RelationalOperator::GreaterThan))
    } else if a == BANG {
        Some(TokenKindView::LogicalOperator(LogicalOperator::Not))
    } else if a == AMPERSAND {
        Some(TokenKindView::BitwiseOperator(BitwiseOps::And))
    } else if a == PIPE {
        Some(TokenKindView::BitwiseOperator(BitwiseOps::Or))
    } else if a == CARET {
        Some(TokenKindView::BitwiseOperator(BitwiseOps::Xor))
    } else if a == TILDE {
        Some(TokenKindView::BitwiseOperator(BitwiseOps::Not))
    } else {
        None
    }
}

/// The operator that the two bytes `a` and `b` spell together.
pub open spec fn symbol_of_two(a: u8, b: u8) -> Option<TokenKindView> {
    if a == COLON && b == COLON {
        Some(TokenKindView::SpecialOperator(SpecialOps::ScopingOperator))
    } else if a == MINUS && b == GREATER {
        Some(TokenKindView::SpecialOperator(SpecialOps::PointerAccess))
    } else if a == EQUALS && b == EQUALS {
        Some(TokenKindView::RelationalOperator(RelationalOperator::Equal))
    } else if a == BANG && b == EQUALS {
        Some(TokenKindView::RelationalOperator(RelationalOperator::NotEqual))
    } else if a == LESS && b == EQUALS {
        Some(TokenKindView::RelationalOperator(RelationalOperator::LessThanOrEqual))
    } else if a == GREATER && b == EQUALS {
        Some(TokenKindView::RelationalOperator(RelationalOperator::GreaterThanOrEqual))
    } else if a == PLUS && b == EQUALS {
        Some(TokenKindView::AssignmentOperator(AssignmentOperator::AddAssign))
    } else if a == MINUS && b == EQUALS {
        Some(TokenKindView::AssignmentOperator(AssignmentOperator::SubtractAssign))
    } else if a == ASTERISK && b == EQUALS {
        Some(TokenKindView::AssignmentOperator(AssignmentOperator::MultiplyAssign))
    } else if a == SLASH && b == EQUALS {
        Some(TokenKindView::AssignmentOperator(AssignmentOperator::DivideAssign))
    } else if a == PERCENT && b == EQUALS {
        Some(TokenKindView::AssignmentOperator(AssignmentOperator::ModuloAssign))
    } else if a == ASTERISK && b == ASTERISK {
        Some(TokenKindView::ArithmeticOperator(ArithmeticOps::Exponent))
    } else if a == LESS && b == LESS {
        Some(TokenKindView::BitwiseOperator(BitwiseOps::LeftShift))
    } else if a == GREATER && b == GREATER {
        Some(TokenKindView::BitwiseOperator(BitwiseOps::RightShift))
    } else if a == AMPERSAND && b == AMPERSAND {
        Some(TokenKindView::LogicalOperator(LogicalOperator::And))
    } else if a == PIPE && b == PIPE {
        Some(TokenKindView::LogicalOperator(LogicalOperator::Or))
    } else {
        None
    }
}

/// The delimiter or operator that `spelling` spells in full, if it spells
/// one. Every such symbol is one or two bytes long.
pub open spec fn symbol_kind(spelling: Seq<u8>) -> Option<TokenKindView> {
    if spelling.len() == 1 {
        symbol_of_one(spelling[0])
    } else if spelling.len() == 2 {
        symbol_of_two(spelling[0], spelling[1])
    } else {
        None
    }
}

/// Whether `kind` is a string or character literal, whose text may hold
/// bytes that are not ASCII.
pub open spec fn is_quoted(kind: TokenKindView) -> bool {
    kind matches TokenKindView::Literal(l) && (l is StringLiteral || l is CharacterLiteral)
}

/// The tokens' texts, encoded, with the bytes of `buf` that lie between
/// them, from `pos` on.
pub open spec fn reassembled(buf: Seq<u8>, pos: int, tokens: Seq<TokenView>) -> Seq<u8>
    decreases tokens.len(),
{
    if tokens.len() == 0 {
        Seq::empty()
    } else {
        buf.subrange(pos, tokens[0].span.start as int) + encode_utf8(tokens[0].lexeme)
            + reassembled(buf, tokens[0].span.end as int, tokens.drop_first())
    }
}

/// Maximal munch: where the bytes at `s` start with the spelling of a
/// delimiter or operator that is `n` bytes long, the token at `s` is a
/// delimiter or operator of at least `n` bytes, and it is the one that its
/// own bytes spell. So `<=` is never lexed as `<` and then `=`.
pub proof fn lemma_longest_symbol_wins(buf: Seq<u8>, s: int, n: int)
    requires
        0 <= s,
        1 <= n,
        s + n <= buf.len(),
        symbol_kind(buf.subrange(s, s + n)) is Some,
    ensures
        token_at(buf, s) is Token,
        token_at(buf, s)->end >= s + n,
        token_at(buf, s)->end <= buf.len(),
        symbol_kind(buf.subrange(s, token_at(buf, s)->end)) == Some(token_at(buf, s)->kind),
{
    let spelling = buf.subrange(s, s + n);
    assert(spelling[0] == buf[s]);
    if n == 2 {
        assert(spelling[1] == buf[s + 1]);
    }
    let end = token_at(buf, s)->end;
    let taken = buf.subrange(s, end);
    if end == s + 1 {
        assert(taken[0] == buf[s]);
    } else if end == s + 2 {
        assert(taken[0] == buf[s]);
        assert(taken[1] == buf[s + 1]);
    }
}

/// The bytes of every token that is no string or character literal are
/// ASCII.
pub proof fn lemma_token_bytes_ascii(buf: Seq<u8>, s: int)
    requires
        0 <= s <= buf.len(),
    ensures
        token_at(buf, s) matches Scan::Token { kind, end } ==> is_quoted(kind) || is_ascii_bytes(
            buf.subrange(s, end),
        ),
{
    lemma_token_bounds(buf, s);
    match byte_at(buf, s) {
        None => {},
        Some(b) => {
            if b == APOSTROPHE {
            } else if b == DOUBLE_QUOTE {
                lemma_string_scan_bounds(
                    buf,
                    s + 1,
                    Seq::empty(),
                    line_of(buf, s) as usize,
                    column_of(buf, s) as usize,
                );
            } else if is_identifier_start(b) {
                let end = run_end(buf, s, |b: u8| is_identifier_part(b));
                lemma_run_end(buf, s, |b: u8| is_identifier_part(b));
                let bytes = buf.subrange(s, end);
                assert forall|i: int| 0 <= i < bytes.len() implies #[trigger] bytes[i] < 0x80 by {
                    assert(is_identifier_part(buf[s + i]));
                }
            } else if is_digit(b) {
                let int_end = run_end(buf, s, |b: u8| is_digit(b));
                lemma_run_end(buf, s, |b: u8| is_digit(b));
                if int_end + 1 <= buf.len() {
                    lemma_run_end(buf, int_end + 1, |b: u8| is_digit(b));
                }
                match token_at(buf, s) {
                    Scan::Token { kind, end } => {
                        let bytes = buf.subrange(s, end);
                        assert forall|i: int| 0 <= i < bytes.len() implies #[trigger] bytes[i]
                            < 0x80 by {
                            let k = s + i;
                            if k < int_end {
                                assert(is_digit(buf[k]));
                            } else if k == int_end {
                            } else {
                                assert(is_digit(buf[k]));
                            }
                        }
                    },
                    Scan::Error { error, stop } => {},
                }
            } else {
                match token_at(buf, s) {
                    Scan::Token { kind, end } => {
                        let bytes = buf.subrange(s, end);
                        assert forall|i: int| 0 <= i < bytes.len() implies #[trigger] bytes[i]
                            < 0x80 by {
                            assert(bytes[i] == buf[s + i]);
                        }
                    },
                    Scan::Error { error, stop } => {},
                }
            }
        },
    }
}

/// A token's span lies inside the buffer, and its text is the source that
/// it spans: for every token that is no string or character literal, the
/// spanned bytes are ASCII and the text holds one character per byte; for
/// every token whose spanned bytes are UTF-8, the text encodes to those
/// bytes.
pub proof fn lemma_lexeme_is_source(buf: Seq<u8>, pos: int)
    requires
        0 <= pos <= buf.len() <= MAX_INPUT_SIZE,
    ensures
        next_token_at(buf, pos) matches Scan::Token { kind, end } ==> {
            let start = trivia_end(buf, pos);
            let token = token_view(buf, start, kind, end);
            let bytes = buf.subrange(token.span.start as int, token.span.end as int);
            &&& token.span.start == start
            &&& token.span.end == end
            &&& token.span.start <= token.span.end <= buf.len()
            &&& !is_quoted(kind) ==> token.lexeme == ascii_text(bytes) && encode_utf8(token.lexeme)
                == bytes
            &&& valid_utf8(bytes) ==> encode_utf8(token.lexeme) == bytes
        },
{
    let start = trivia_end(buf, pos);
    lemma_trivia_end(buf, pos);
    lemma_token_bounds(buf, start);
    lemma_token_bytes_ascii(buf, start);
    match token_at(buf, start) {
        Scan::Token { kind, end } => {
            let bytes = buf.subrange(start, end);
            if !is_quoted(kind) {
                lemma_ascii_text(bytes);
            }
            if valid_utf8(bytes) {
                lemma_text_round_trip(bytes);
            }
        },
        Scan::Error { error, stop } => {},
    }
}

/// The first token of a run that yields `tokens` from `pos` on, and the
/// run that yields the others.
proof fn lemma_tokens_from_step(buf: Seq<u8>, pos: int, tokens: Seq<TokenView>)
    requires
        0 <= pos <= buf.len() <= MAX_INPUT_SIZE,
        tokens_from(buf, pos) == Ok::<Seq<TokenView>, LexErrorView>(tokens),
    ensures
        tokens.len() > 0,
        tokens[0].span.start == trivia_end(buf, pos),
        pos <= tokens[0].span.start <= tokens[0].span.end <= buf.len(),
        !is_quoted(tokens[0].kind) || valid_utf8(
            buf.subrange(tokens[0].span.start as int, tokens[0].span.end as int),
        ) ==> encode_utf8(tokens[0].lexeme) == buf.subrange(
            tokens[0].span.start as int,
            tokens[0].span.end as int,
        ),
        tokens[0].kind is Eof ==> tokens.len() == 1 && tokens[0].span.end == buf.len()
            && stop_from(buf, pos) == buf.len(),
        !(tokens[0].kind is Eof) ==> {
            &&& tokens[0].span.start < tokens[0].span.end
            &&& tokens_from(buf, tokens[0].span.end as int) == Ok::<Seq<TokenView>, LexErrorView>(
                tokens.drop_first(),
            )
            &&& stop_from(buf, pos) == stop_from(buf, tokens[0].span.end as int)
        },
{
    let start = trivia_end(buf, pos);
    lemma_trivia_end(buf, pos);
    lemma_token_bounds(buf, start);
    lemma_lexeme_is_source(buf, pos);
    match token_at(buf, start) {
        Scan::Token { kind, end } => {
            let token = token_view(buf, start, kind, end);
            if kind is Eof {
                assert(tokens =~= seq![token]);
            } else {
                let rest = tokens_from(buf, end)->Ok_0;
                assert(tokens =~= seq![token] + rest);
                assert(tokens.drop_first() =~= rest);
            }
        },
        Scan::Error { error, stop } => {},
    }
}

/// Whether the bytes of every string and character literal among `tokens`
/// are UTF-8.
pub open spec fn quoted_bytes_are_utf8(buf: Seq<u8>, tokens: Seq<TokenView>) -> bool {
    forall|i: int|
        0 <= i < tokens.len() && is_quoted((#[trigger] tokens[i]).kind) ==> valid_utf8(
            buf.subrange(tokens[i].span.start as int, tokens[i].span.end as int),
        )
}

/// Lexing to the end loses nothing: where it yields `tokens` without an
/// error and the bytes of each string and character literal are UTF-8, the
/// texts of the tokens with the trivia between them make up the buffer
/// from `pos` on.
pub proof fn lemma_tokens_cover_buffer(buf: Seq<u8>, pos: int, tokens: Seq<TokenView>)
    requires
        0 <= pos <= buf.len() <= MAX_INPUT_SIZE,
        tokens_from(buf, pos) == Ok::<Seq<TokenView>, LexErrorView>(tokens),
        quoted_bytes_are_utf8(buf, tokens),
    ensures
        reassembled(buf, pos, tokens) == buf.subrange(pos, buf.len() as int),
    decreases buf.len() - pos,
{
    lemma_tokens_from_step(buf, pos, tokens);
    let first = tokens[0];
    let start = first.span.start as int;
    let end = first.span.end as int;
    let rest = tokens.drop_first();
    assert(is_quoted(tokens[0].kind) ==> valid_utf8(
        buf.subrange(tokens[0].span.start as int, tokens[0].span.end as int),
    ));
    if first.kind is Eof {
        assert(rest =~= Seq::<TokenView>::empty());
        assert(reassembled(buf, end, rest) =~= Seq::<u8>::empty());
        assert(reassembled(buf, pos, tokens) =~= buf.subrange(pos, buf.len() as int));
    } else {
        assert forall|i: int| 0 <= i < rest.len() && is_quoted(
            (#[trigger] rest[i]).kind,
        ) implies valid_utf8(
            buf.subrange(rest[i].span.start as int, rest[i].span.end as int),
        ) by {
            assert(rest[i] == tokens[i + 1]);
        }
        lemma_tokens_cover_buffer(buf, end, rest);
        assert(reassembled(buf, pos, tokens) =~= buf.subrange(pos, buf.len() as int));
    }
}

/// Lexing to the end reaches the end: where it yields `tokens` without an
/// error, the first token starts where the trivia at `pos` ends and each
/// later one where the trivia after its predecessor ends; the last token,
/// and no other, is the end-of-input token, which lies at the end of the
/// buffer, where the cursor is left.
pub proof fn lemma_tokens_reach_end(buf: Seq<u8>, pos: int, tokens: Seq<TokenView>)
    requires
        0 <= pos <= buf.len() <= MAX_INPUT_SIZE,
        tokens_from(buf, pos) == Ok::<Seq<TokenView>, LexErrorView>(tokens),
    ensures
        tokens.len() > 0,
        tokens[0].span.start == trivia_end(buf, pos),
        forall|i: int|
            0 < i < tokens.len() ==> (#[trigger] tokens[i]).span.start == trivia_end(
                buf,
                tokens[i - 1].span.end as int,
            ),
        forall|i: int|
            0 <= i < tokens.len() ==> ((#[trigger] tokens[i]).kind is Eof <==> i == tokens.len()
                - 1),
        tokens.last().span.end == buf.len(),
        stop_from(buf, pos) == buf.len(),
    decreases buf.len() - pos,
{
    lemma_tokens_from_step(buf, pos, tokens);
    let first = tokens[0];
    let end = first.span.end as int;
    let rest = tokens.drop_first();
    if !(first.kind is Eof) {
        lemma_tokens_reach_end(buf, end, rest);
        assert forall|i: int| 0 < i < tokens.len() implies (#[trigger] tokens[i]).span.start
            == trivia_end(buf, tokens[i - 1].span.end as int) by {
            assert(tokens[i] == rest[i - 1]);
            if i > 1 {
                assert(tokens[i - 1] == rest[i - 2]);
            }
        }
        assert forall|i: int| 0 <= i < tokens.len() implies ((#[trigger] tokens[i]).kind is Eof
            <==> i == tokens.len() - 1) by {
            if i > 0 {
                assert(tokens[i] == rest[i - 1]);
            }
        }
        assert(tokens.last() == rest.last());
    }
}

/// Every error is located at the start of the token that it is about, and
/// is one of four: a byte that starts no token, a quoted literal without its
/// closing quote, an invalid escape inside a quoted literal, or a numeric
/// literal without a value.
pub proof fn lemma_error_is_located(buf: Seq<u8>, pos: int)
    requires
        0 <= pos <= buf.len(),
    ensures
        next_token_at(buf, pos) matches Scan::Error { error, stop } ==> {
            let start = trivia_end(buf, pos);
            let line = line_of(buf, start) as usize;
            let column = column_of(buf, start) as usize;
            &&& start < buf.len()
            &&& start <= stop <= buf.len()
            &&& {
                ||| error == (LexErrorView::UnexpectedCharacter {
                    ch: buf[start] as char,
                    line,
                    column,
                })
                ||| is_literal_error(error, line, column)
                ||| error matches LexErrorView::InvalidNumber { line: l, column: c, .. } && l
                    == line && c == column
            }
        },
{
    let start = trivia_end(buf, pos);
    lemma_trivia_end(buf, pos);
    lemma_token_bounds(buf, start);
    if byte_at(buf, start) == Some(DOUBLE_QUOTE) {
        lemma_string_scan_bounds(
            buf,
            start + 1,
            Seq::empty(),
            line_of(buf, start) as usize,
            column_of(buf, start) as usize,
        );
    }
}

/// Lexing is a function of the buffer and the offset: two cursors over the
/// same bytes at the same offset yield the same token or the same error,
/// and are left at the same offset.
pub proof fn lemma_next_token_deterministic(
    a: CharStream,
    a_after: CharStream,
    ra: Result<Token, LexError>,
    b: CharStream,
    b_after: CharStream,
    rb: Result<Token, LexError>,
)
    requires
        a.buffer() == b.buffer(),
        a.offset() == b.offset(),
        scanned(
            a,
            a_after,
            ra,
            trivia_end(a.buffer(), a.offset()),
            next_token_at(a.buffer(), a.offset()),
        ),
        scanned(
            b,
            b_after,
            rb,
            trivia_end(b.buffer(), b.offset()),
            next_token_at(b.buffer(), b.offset()),
        ),
    ensures
        a_after.buffer() == b_after.buffer(),
        a_after.offset() == b_after.offset(),
        ra is Ok <==> rb is Ok,
        ra is Ok ==> ra.unwrap()@ == rb.unwrap()@,
        ra is Err ==> ra.unwrap_err()@ == rb.unwrap_err()@,
{
}

/// Lexing the same bytes twice yields the same tokens: two runs of
/// [`crate::lexer::Lexer::tokenize`] from the same offset of equal buffers
/// yield the same sequence of tokens, or the same error.
pub proof fn lemma_tokenize_deterministic(
    buf_a: Seq<u8>,
    ra: Result<Vec<Token>, LexError>,
    buf_b: Seq<u8>,
    rb: Result<Vec<Token>, LexError>,
    pos: int,
)
    requires
        buf_a == buf_b,
        tokenized(buf_a, pos, ra),
        tokenized(buf_b, pos, rb),
    ensures
        ra is Ok <==> rb is Ok,
        ra is Ok ==> crate::lexer::token_views(ra.unwrap()@) == crate::lexer::token_views(
            rb.unwrap()@,
        ),
        ra is Err ==> ra.unwrap_err()@ == rb.unwrap_err()@,
{
}

} // verus!
