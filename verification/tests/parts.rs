use hm_lexer::ascii::{is_digit_byte, is_identifier_part_byte, is_identifier_start_byte};
use hm_lexer::charstream::{is_whitespace_byte, CharStream};
use hm_lexer::lexer::delimiters::{is_delimiter_byte, lex_colon, lex_delimiter};
use hm_lexer::lexer::operators::{is_operator_lead, lex_operator};
use hm_lexer::lexer::parsing::parse_decimal;
use hm_lexer::lexer::token_builder::TokenBuilder;
use hm_lexer::lexer::Lexer;
use hm_lexer::lexerror::LexError;
use hm_lexer::text::{same_text, text_of};
use hm_lexer::token::delimiterkind::DelimiterKind;
use hm_lexer::token::keywords::Keywords;
use hm_lexer::token::literals::Literals;
use hm_lexer::token::operators::arithmetic::ArithmeticOps;
use hm_lexer::token::operators::assignment::AssignmentOperator;
use hm_lexer::token::operators::bitwise::BitwiseOps;
use hm_lexer::token::operators::relational::RelationalOperator;
use hm_lexer::token::operators::SpecialOps;
use hm_lexer::token::span::Span;
use hm_lexer::token::tokenkind::TokenKind;

fn stream(src: &str) -> CharStream {
    CharStream::from_bytes(src.as_bytes()).expect("non-empty input")
}

fn lexer_at(src: &str, skip: usize) -> Lexer {
    let mut s = stream(src);
    s.advance_n(skip);
    Lexer::new(s)
}

#[test]
fn byte_classes() {
    for b in 0..=255u8 {
        assert_eq!(is_digit_byte(b), b.is_ascii_digit());
        assert_eq!(is_identifier_start_byte(b), b.is_ascii_alphabetic() || b == b'_');
        assert_eq!(is_identifier_part_byte(b), b.is_ascii_alphanumeric() || b == b'_');
        assert_eq!(is_whitespace_byte(b), matches!(b, b' ' | b'\t' | b'\r' | b'\n'));
        assert_eq!(is_delimiter_byte(b), b"(){}[];,.?".contains(&b));
        assert_eq!(is_operator_lead(b), b"=+-*/%<>!&|^~".contains(&b));
    }
}

#[test]
fn parse_decimal_values() {
    assert_eq!(parse_decimal(b"0"), Some(0));
    assert_eq!(parse_decimal(b"7"), Some(7));
    assert_eq!(parse_decimal(b"42"), Some(42));
    assert_eq!(parse_decimal(b"2320"), Some(2320));
    assert_eq!(parse_decimal(b"0012"), Some(12));
    assert_eq!(parse_decimal(b"18446744073709551615"), Some(u64::MAX));
}

#[test]
fn parse_decimal_rejections() {
    assert_eq!(parse_decimal(b""), None);
    assert_eq!(parse_decimal(b"18446744073709551616"), None);
    assert_eq!(parse_decimal(b"99999999999999999999"), None);
    assert_eq!(parse_decimal(b"184467440737095516150"), None);
    assert_eq!(parse_decimal(b"12a"), None);
    assert_eq!(parse_decimal(b"+1"), None);
    assert_eq!(parse_decimal(b"-1"), None);
    assert_eq!(parse_decimal(b" 1"), None);
    assert_eq!(parse_decimal(b"1.5"), None);
}

#[test]
fn same_text_compares_characters() {
    assert!(same_text("", ""));
    assert!(same_text("func", "func"));
    assert!(!same_text("func", "fund"));
    assert!(!same_text("func", "fun"));
    assert!(!same_text("fun", "func"));
    assert!(same_text("h\u{e9}", "h\u{e9}"));
    assert!(!same_text("h\u{e9}", "he"));
}

#[test]
fn text_of_bytes() {
    assert_eq!(text_of(b""), "");
    assert_eq!(text_of(b"abc"), "abc");
    assert_eq!(text_of(&[0xC3, 0xA9]), "\u{e9}");
    assert_eq!(text_of(&[b'a', 0xFF, b'b']), "a\u{fffd}b");
}

#[test]
fn builder_makes_a_token_of_one_byte() {
    let mut s = stream("a+b");
    s.advance();
    let builder = TokenBuilder::new(&s);
    let token = builder.single_char_token(
        &mut s,
        TokenKind::ArithmeticOperator(ArithmeticOps::Plus),
        "+",
    );
    assert_eq!(token.kind, TokenKind::ArithmeticOperator(ArithmeticOps::Plus));
    assert_eq!(token.lexeme, "+");
    assert_eq!(
        token.span,
        Span { start: 1, end: 2, line_start: 1, column_start: 2, line_end: 1, column_end: 3 }
    );
    assert_eq!(s.index(), 2);
}

#[test]
fn builder_makes_a_token_of_several_bytes() {
    let mut s = stream("\nfunc x");
    s.advance();
    let builder = TokenBuilder::new(&s);
    let token = builder.multi_char_token(&mut s, 4, TokenKind::Keyword(Keywords::Func), "func");
    assert_eq!(token.kind, TokenKind::Keyword(Keywords::Func));
    assert_eq!(token.lexeme, "func");
    assert_eq!(
        token.span,
        Span { start: 1, end: 5, line_start: 2, column_start: 1, line_end: 2, column_end: 5 }
    );
    assert_eq!(s.current_position(), (5, 2, 5));
}

#[test]
fn builder_stops_at_the_end_of_input() {
    let mut s = stream("ab");
    s.advance();
    let builder = TokenBuilder::new(&s);
    let token = builder.multi_char_token(&mut s, 5, TokenKind::Eof, "");
    assert_eq!(
        token.span,
        Span { start: 1, end: 2, line_start: 1, column_start: 2, line_end: 1, column_end: 3 }
    );
    assert!(s.is_eof());
}

#[test]
fn lex_delimiter_by_byte() {
    let table = [
        (b'(', DelimiterKind::LeftParen),
        (b')', DelimiterKind::RightParen),
        (b'{', DelimiterKind::LeftBrace),
        (b'}', DelimiterKind::RightBrace),
        (b'[', DelimiterKind::LeftBracket),
        (b']', DelimiterKind::RightBracket),
        (b';', DelimiterKind::Semicolon),
        (b',', DelimiterKind::Comma),
        (b'.', DelimiterKind::Dot),
        (b'?', DelimiterKind::QuestionMark),
    ];
    for (byte, kind) in table {
        let src = [b' ', byte, b'x'];
        let mut s = CharStream::from_bytes(&src).unwrap();
        s.advance();
        let token = lex_delimiter(&mut s, byte);
        assert_eq!(token.kind, TokenKind::Delimiter(kind));
        assert_eq!(token.lexeme.as_bytes(), &[byte]);
        assert_eq!(
            token.span,
            Span { start: 1, end: 2, line_start: 1, column_start: 2, line_end: 1, column_end: 3 }
        );
        assert_eq!(s.index(), 2);
    }
}

#[test]
fn lex_colon_alone_and_doubled() {
    let mut s = stream("::a:b:");
    let scope = lex_colon(&mut s);
    assert_eq!(scope.kind, TokenKind::SpecialOperator(SpecialOps::ScopingOperator));
    assert_eq!(scope.lexeme, "::");
    assert_eq!(scope.span.end, 2);
    s.advance();
    let colon = lex_colon(&mut s);
    assert_eq!(colon.kind, TokenKind::Delimiter(DelimiterKind::Colon));
    assert_eq!(colon.lexeme, ":");
    assert_eq!(colon.span.start, 3);
    assert_eq!(colon.span.end, 4);
    s.advance();
    let last = lex_colon(&mut s);
    assert_eq!(last.kind, TokenKind::Delimiter(DelimiterKind::Colon));
    assert!(s.is_eof());
}

#[test]
fn lex_operator_by_lead_byte() {
    let mut s = stream("<= <");
    let le = lex_operator(&mut s, b'<').unwrap();
    assert_eq!(le.kind, TokenKind::RelationalOperator(RelationalOperator::LessThanOrEqual));
    assert_eq!(le.lexeme, "<=");
    assert_eq!(
        le.span,
        Span { start: 0, end: 2, line_start: 1, column_start: 1, line_end: 1, column_end: 3 }
    );
    s.advance();
    let lt = lex_operator(&mut s, b'<').unwrap();
    assert_eq!(lt.kind, TokenKind::RelationalOperator(RelationalOperator::LessThan));
    assert_eq!(lt.lexeme, "<");
    assert!(s.is_eof());
}

#[test]
fn lex_operator_of_one_form() {
    let mut s = stream("^=~~");
    let xor = lex_operator(&mut s, b'^').unwrap();
    assert_eq!(xor.kind, TokenKind::BitwiseOperator(BitwiseOps::Xor));
    assert_eq!(xor.lexeme, "^");
    assert_eq!(s.index(), 1);
    let assign = lex_operator(&mut s, b'=').unwrap();
    assert_eq!(assign.kind, TokenKind::AssignmentOperator(AssignmentOperator::Assign));
    let not = lex_operator(&mut s, b'~').unwrap();
    assert_eq!(not.kind, TokenKind::BitwiseOperator(BitwiseOps::Not));
    assert_eq!(not.lexeme, "~");
    assert_eq!(s.index(), 3);
}

#[test]
fn skip_trivia_stops_before_a_token() {
    let mut lx = lexer_at("  // c\n /* d */\t x", 0);
    lx.skip_trivia();
    assert_eq!(lx.next_token().unwrap().span.start, 17);
    let mut none = lexer_at("x  ", 0);
    none.skip_trivia();
    assert_eq!(none.next_token().unwrap().span.start, 0);
}

#[test]
fn lex_identifier_or_keyword_directly() {
    let mut lx = lexer_at("  loop9 x", 2);
    let token = lx.lex_identifier_or_keyword().unwrap();
    assert_eq!(token.kind, TokenKind::Identifier("loop9".to_string()));
    assert_eq!(token.span.start, 2);
    assert_eq!(token.span.end, 7);
    let mut kw = lexer_at("loop 9", 0);
    assert_eq!(kw.lex_identifier_or_keyword().unwrap().kind, TokenKind::Keyword(Keywords::Loop));
}

#[test]
fn lex_identifier_without_a_letter_is_empty() {
    let mut lx = lexer_at("+a", 0);
    let token = lx.lex_identifier_or_keyword().unwrap();
    assert_eq!(token.kind, TokenKind::Identifier(String::new()));
    assert_eq!(token.lexeme, "");
    assert_eq!(
        token.span,
        Span { start: 0, end: 0, line_start: 1, column_start: 1, line_end: 1, column_end: 1 }
    );
}

#[test]
fn lex_number_directly() {
    let mut lx = lexer_at("x 12.5;", 2);
    let token = lx.lex_number().unwrap();
    assert_eq!(token.kind, TokenKind::Literal(Literals::FloatLiteral("12.5".to_string())));
    assert_eq!(token.span.start, 2);
    assert_eq!(token.span.end, 6);
    assert_eq!(token.span.column_end, 7);
}

#[test]
fn lex_number_without_digits() {
    let mut lx = lexer_at("abc", 0);
    assert_eq!(
        lx.lex_number().unwrap_err(),
        LexError::InvalidNumber { lexeme: String::new(), line: 1, column: 1 }
    );
    let mut suffix = lexer_at(" u", 1);
    assert_eq!(
        suffix.lex_number().unwrap_err(),
        LexError::InvalidNumber { lexeme: "u".to_string(), line: 1, column: 2 }
    );
    let mut fraction = lexer_at(".5", 0);
    assert_eq!(
        fraction.lex_number().unwrap().kind,
        TokenKind::Literal(Literals::FloatLiteral(".5".to_string()))
    );
}

#[test]
fn lex_character_literal_directly() {
    let mut lx = lexer_at("='z';", 1);
    let token = lx.lex_character_literal().unwrap();
    assert_eq!(token.kind, TokenKind::Literal(Literals::CharacterLiteral('z')));
    assert_eq!(token.lexeme, "'z'");
    assert_eq!(token.span.start, 1);
    assert_eq!(token.span.end, 4);
}

#[test]
fn lex_string_literal_directly() {
    let mut lx = lexer_at("=\"hi\\\\\";", 1);
    let token = lx.lex_string_literal().unwrap();
    assert_eq!(token.kind, TokenKind::Literal(Literals::StringLiteral("hi\\".to_string())));
    assert_eq!(token.lexeme, "\"hi\\\\\"");
    assert_eq!(token.span.start, 1);
    assert_eq!(token.span.end, 7);
}
