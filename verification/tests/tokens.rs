use hm_lexer::charstream::CharStream;
use hm_lexer::lexer::Lexer;
use hm_lexer::lexerror::LexError;
use hm_lexer::token::delimiterkind::DelimiterKind;
use hm_lexer::token::keywords::{Keywords, TypeKind};
use hm_lexer::token::literals::Literals;
use hm_lexer::token::operators::arithmetic::ArithmeticOps;
use hm_lexer::token::operators::assignment::AssignmentOperator;
use hm_lexer::token::operators::bitwise::BitwiseOps;
use hm_lexer::token::operators::logical::LogicalOperator;
use hm_lexer::token::operators::relational::RelationalOperator;
use hm_lexer::token::operators::SpecialOps;
use hm_lexer::token::span::Span;
use hm_lexer::token::tokenkind::TokenKind;
use hm_lexer::token::Token;

fn lexer(src: &[u8]) -> Lexer {
    Lexer::new(CharStream::from_bytes(src).expect("non-empty input"))
}

fn tokens(src: &str) -> Vec<Token> {
    lexer(src.as_bytes()).tokenize().expect("input without errors")
}

fn kinds(src: &str) -> Vec<TokenKind> {
    tokens(src).into_iter().map(|t| t.kind).collect()
}

fn first(src: &str) -> Token {
    lexer(src.as_bytes()).next_token().expect("a token")
}

fn error(src: &str) -> LexError {
    lexer(src.as_bytes()).tokenize().expect_err("an error")
}

fn ident(name: &str) -> TokenKind {
    TokenKind::Identifier(name.to_string())
}

fn signed(value: i64) -> TokenKind {
    TokenKind::Literal(Literals::IntLiteral(value))
}

fn unsigned(value: u64) -> TokenKind {
    TokenKind::Literal(Literals::UnsignedIntLiteral(value))
}

fn delimiter(kind: DelimiterKind) -> TokenKind {
    TokenKind::Delimiter(kind)
}

#[test]
fn variable_declaration() {
    assert_eq!(
        kinds("var x = 10;"),
        vec![
            TokenKind::Keyword(Keywords::Var),
            ident("x"),
            TokenKind::AssignmentOperator(AssignmentOperator::Assign),
            signed(10),
            delimiter(DelimiterKind::Semicolon),
            TokenKind::Eof,
        ]
    );
}

#[test]
fn function_definition() {
    assert_eq!(
        kinds("func main(): u32 { return 2320u; }"),
        vec![
            TokenKind::Keyword(Keywords::Func),
            ident("main"),
            delimiter(DelimiterKind::LeftParen),
            delimiter(DelimiterKind::RightParen),
            delimiter(DelimiterKind::Colon),
            TokenKind::Keyword(Keywords::Type(TypeKind::Unsigned32)),
            delimiter(DelimiterKind::LeftBrace),
            TokenKind::Keyword(Keywords::Return),
            unsigned(2320),
            delimiter(DelimiterKind::Semicolon),
            delimiter(DelimiterKind::RightBrace),
            TokenKind::Eof,
        ]
    );
}

#[test]
fn comparison_and_logic() {
    assert_eq!(
        kinds("a == b && c != d"),
        vec![
            ident("a"),
            TokenKind::RelationalOperator(RelationalOperator::Equal),
            ident("b"),
            TokenKind::LogicalOperator(LogicalOperator::And),
            ident("c"),
            TokenKind::RelationalOperator(RelationalOperator::NotEqual),
            ident("d"),
            TokenKind::Eof,
        ]
    );
}

#[test]
fn scope_and_pointer_access() {
    assert_eq!(
        kinds("x::y->z"),
        vec![
            ident("x"),
            TokenKind::SpecialOperator(SpecialOps::ScopingOperator),
            ident("y"),
            TokenKind::SpecialOperator(SpecialOps::PointerAccess),
            ident("z"),
            TokenKind::Eof,
        ]
    );
}

#[test]
fn line_comment_is_skipped() {
    let all = tokens("// comment\nvar");
    assert_eq!(all.len(), 2);
    assert_eq!(all[0].kind, TokenKind::Keyword(Keywords::Var));
    assert_eq!(all[0].lexeme, "var");
    assert_eq!(
        all[0].span,
        Span { start: 11, end: 14, line_start: 2, column_start: 1, line_end: 2, column_end: 4 }
    );
    assert_eq!(all[1].kind, TokenKind::Eof);
}

#[test]
fn unterminated_block_comment_reaches_the_end_without_error() {
    let mut lx = lexer(b"/* unterminated");
    let token = lx.next_token().expect("no error");
    assert!(token.is_eof());
    assert_eq!(token.lexeme, "");
    assert_eq!(
        token.span,
        Span { start: 15, end: 15, line_start: 1, column_start: 16, line_end: 1, column_end: 16 }
    );
}

#[test]
fn block_comments_do_not_nest() {
    assert_eq!(
        kinds("/* a /* b */ c */"),
        vec![
            ident("c"),
            TokenKind::ArithmeticOperator(ArithmeticOps::Asterisk),
            TokenKind::ArithmeticOperator(ArithmeticOps::Slash),
            TokenKind::Eof,
        ]
    );
}

#[test]
fn block_comment_needs_its_own_star() {
    assert_eq!(kinds("/*/ x"), vec![TokenKind::Eof]);
    assert_eq!(kinds("/**/ x"), vec![ident("x"), TokenKind::Eof]);
    assert_eq!(kinds("/***/x"), vec![ident("x"), TokenKind::Eof]);
}

#[test]
fn block_comment_spans_lines() {
    let all = tokens("/* one\ntwo */ x");
    assert_eq!(all[0].kind, ident("x"));
    assert_eq!(
        all[0].span,
        Span { start: 14, end: 15, line_start: 2, column_start: 8, line_end: 2, column_end: 9 }
    );
}

#[test]
fn line_comment_at_the_end_of_input() {
    assert_eq!(kinds("x // done"), vec![ident("x"), TokenKind::Eof]);
    assert_eq!(kinds("//"), vec![TokenKind::Eof]);
}

#[test]
fn slash_alone_is_an_operator() {
    assert_eq!(
        kinds("a / b"),
        vec![
            ident("a"),
            TokenKind::ArithmeticOperator(ArithmeticOps::Slash),
            ident("b"),
            TokenKind::Eof
        ]
    );
    assert_eq!(
        kinds("/ /"),
        vec![
            TokenKind::ArithmeticOperator(ArithmeticOps::Slash),
            TokenKind::ArithmeticOperator(ArithmeticOps::Slash),
            TokenKind::Eof
        ]
    );
    assert_eq!(
        kinds("/="),
        vec![TokenKind::AssignmentOperator(AssignmentOperator::DivideAssign), TokenKind::Eof]
    );
}

#[test]
fn whitespace_only_input_is_just_the_end() {
    let all = tokens(" \t\r\n ");
    assert_eq!(all.len(), 1);
    assert!(all[0].is_eof());
    assert_eq!(
        all[0].span,
        Span { start: 5, end: 5, line_start: 2, column_start: 2, line_end: 2, column_end: 2 }
    );
}

#[test]
fn end_of_input_repeats() {
    let mut lx = lexer(b"x");
    assert_eq!(lx.next_token().unwrap().kind, ident("x"));
    let a = lx.next_token().unwrap();
    let b = lx.next_token().unwrap();
    assert!(a.is_eof());
    assert!(b.is_eof());
    assert_eq!(a, b);
}

#[test]
fn integer_then_dot() {
    assert_eq!(kinds("42."), vec![signed(42), delimiter(DelimiterKind::Dot), TokenKind::Eof]);
    let all = tokens("42.");
    assert_eq!(all[0].lexeme, "42");
    assert_eq!(all[1].lexeme, ".");
}

#[test]
fn integer_then_member() {
    assert_eq!(
        kinds("42.foo"),
        vec![signed(42), delimiter(DelimiterKind::Dot), ident("foo"), TokenKind::Eof]
    );
}

#[test]
fn unsigned_suffix() {
    let token = first("2320u");
    assert_eq!(token.kind, unsigned(2320));
    assert_eq!(token.lexeme, "2320u");
    assert_eq!(
        token.span,
        Span { start: 0, end: 5, line_start: 1, column_start: 1, line_end: 1, column_end: 6 }
    );
}

#[test]
fn unsigned_suffix_ends_the_literal() {
    assert_eq!(kinds("7u8"), vec![unsigned(7), signed(8), TokenKind::Eof]);
    assert_eq!(kinds("7uu"), vec![unsigned(7), ident("u"), TokenKind::Eof]);
}

#[test]
fn float_literal_keeps_its_digits() {
    let token = first("3.14");
    assert_eq!(token.kind, TokenKind::Literal(Literals::FloatLiteral("3.14".to_string())));
    assert_eq!(token.lexeme, "3.14");
    match token.kind {
        TokenKind::Literal(Literals::FloatLiteral(text)) => {
            assert_eq!(text.parse::<f64>().unwrap(), 3.14);
        }
        other => panic!("not a float literal: {:?}", other),
    }
}

#[test]
fn float_literal_takes_one_fraction() {
    assert_eq!(
        kinds("1.2.3"),
        vec![
            TokenKind::Literal(Literals::FloatLiteral("1.2".to_string())),
            delimiter(DelimiterKind::Dot),
            signed(3),
            TokenKind::Eof
        ]
    );
    assert_eq!(
        kinds("0.50"),
        vec![TokenKind::Literal(Literals::FloatLiteral("0.50".to_string())), TokenKind::Eof]
    );
}

#[test]
fn float_with_unsigned_suffix_is_invalid() {
    assert_eq!(
        error("3.14u"),
        LexError::InvalidNumber { lexeme: "3.14".to_string(), line: 1, column: 1 }
    );
    assert_eq!(
        error("x =\n  3.14u"),
        LexError::InvalidNumber { lexeme: "3.14".to_string(), line: 2, column: 3 }
    );
}

#[test]
fn signed_integer_limits() {
    assert_eq!(first("9223372036854775807").kind, signed(i64::MAX));
    assert_eq!(
        error("9223372036854775808"),
        LexError::InvalidNumber { lexeme: "9223372036854775808".to_string(), line: 1, column: 1 }
    );
    assert_eq!(
        error("100000000000000000000000000"),
        LexError::InvalidNumber {
            lexeme: "100000000000000000000000000".to_string(),
            line: 1,
            column: 1
        }
    );
}

#[test]
fn unsigned_integer_limits() {
    assert_eq!(first("9223372036854775808u").kind, unsigned(9223372036854775808));
    assert_eq!(first("18446744073709551615u").kind, unsigned(u64::MAX));
    assert_eq!(
        error("18446744073709551616u"),
        LexError::InvalidNumber { lexeme: "18446744073709551616u".to_string(), line: 1, column: 1 }
    );
}

#[test]
fn leading_zeros_do_not_overflow() {
    assert_eq!(first("0").kind, signed(0));
    assert_eq!(first("0007").kind, signed(7));
    assert_eq!(first("000000000000000000000000000000042").kind, signed(42));
    assert_eq!(first("00000000000000000000000018446744073709551615u").kind, unsigned(u64::MAX));
}

#[test]
fn unterminated_string_points_at_the_opening_quote() {
    assert_eq!(error("\"abc"), LexError::UnterminatedString { line: 1, column: 1 });
    assert_eq!(error("x\n  \"abc\ndef"), LexError::UnterminatedString { line: 2, column: 3 });
}

#[test]
fn unknown_escape_is_invalid() {
    assert_eq!(
        error("\"\\q\""),
        LexError::InvalidEscape { sequence: "\\q".to_string(), line: 1, column: 1 }
    );
    assert_eq!(
        error("  \"ab\\xcd\""),
        LexError::InvalidEscape { sequence: "\\x".to_string(), line: 1, column: 3 }
    );
}

#[test]
fn escape_at_the_end_of_input() {
    assert_eq!(
        error("\"abc\\"),
        LexError::InvalidEscape { sequence: "\\(EOF)".to_string(), line: 1, column: 1 }
    );
    assert_eq!(
        error("'\\"),
        LexError::InvalidEscape { sequence: "\\(EOF)".to_string(), line: 1, column: 1 }
    );
}

#[test]
fn string_literal_is_decoded() {
    let token = first("\"a\\n\\t\\r\\0\\\\\\\"b\" rest");
    assert_eq!(
        token.kind,
        TokenKind::Literal(Literals::StringLiteral("a\n\t\r\0\\\"b".to_string()))
    );
    assert_eq!(token.lexeme, "\"a\\n\\t\\r\\0\\\\\\\"b\"");
    assert_eq!(token.span.start, 0);
    assert_eq!(token.span.end, 16);
}

#[test]
fn empty_string_literal() {
    let token = first("\"\"");
    assert_eq!(token.kind, TokenKind::Literal(Literals::StringLiteral(String::new())));
    assert_eq!(token.lexeme, "\"\"");
}

#[test]
fn string_literal_may_span_lines() {
    let all = tokens("\"a\nb\" c");
    assert_eq!(all[0].kind, TokenKind::Literal(Literals::StringLiteral("a\nb".to_string())));
    assert_eq!(
        all[0].span,
        Span { start: 0, end: 5, line_start: 1, column_start: 1, line_end: 2, column_end: 3 }
    );
    assert_eq!(all[1].span.line_start, 2);
    assert_eq!(all[1].span.column_start, 4);
}

#[test]
fn single_quote_needs_no_escape_in_a_string() {
    assert_eq!(
        first("\"it's\"").kind,
        TokenKind::Literal(Literals::StringLiteral("it's".to_string()))
    );
    assert_eq!(
        error("\"\\'\""),
        LexError::InvalidEscape { sequence: "\\'".to_string(), line: 1, column: 1 }
    );
}

#[test]
fn string_bytes_are_decoded_one_by_one() {
    let mut lx = lexer(&[b'"', 0xC3, 0xA9, b'"']);
    let token = lx.next_token().unwrap();
    assert_eq!(
        token.kind,
        TokenKind::Literal(Literals::StringLiteral("\u{c3}\u{a9}".to_string()))
    );
    assert_eq!(token.lexeme, "\"\u{e9}\"");
    assert_eq!(token.lexeme.as_bytes(), &[b'"', 0xC3, 0xA9, b'"']);
    assert_eq!(token.span.end, 4);
}

#[test]
fn bytes_that_are_not_utf8_are_replaced_in_the_text() {
    let mut lx = lexer(&[b'"', 0xFF, b'"']);
    let token = lx.next_token().unwrap();
    assert_eq!(token.kind, TokenKind::Literal(Literals::StringLiteral("\u{ff}".to_string())));
    assert_eq!(token.lexeme, "\"\u{fffd}\"");
    assert_eq!(token.span.end, 3);
}

#[test]
fn character_literals() {
    assert_eq!(first("'a'").kind, TokenKind::Literal(Literals::CharacterLiteral('a')));
    assert_eq!(first("'a'").lexeme, "'a'");
    assert_eq!(first("'\\n'").kind, TokenKind::Literal(Literals::CharacterLiteral('\n')));
    assert_eq!(first("'\\t'").kind, TokenKind::Literal(Literals::CharacterLiteral('\t')));
    assert_eq!(first("'\\r'").kind, TokenKind::Literal(Literals::CharacterLiteral('\r')));
    assert_eq!(first("'\\0'").kind, TokenKind::Literal(Literals::CharacterLiteral('\0')));
    assert_eq!(first("'\\\\'").kind, TokenKind::Literal(Literals::CharacterLiteral('\\')));
    assert_eq!(first("'\\''").kind, TokenKind::Literal(Literals::CharacterLiteral('\'')));
    assert_eq!(first("'\\''").lexeme, "'\\''");
    assert_eq!(first("'\"'").kind, TokenKind::Literal(Literals::CharacterLiteral('"')));
    assert_eq!(first("'''").kind, TokenKind::Literal(Literals::CharacterLiteral('\'')));
}

#[test]
fn character_literal_span() {
    let all = tokens(" '\\n' x");
    assert_eq!(
        all[0].span,
        Span { start: 1, end: 5, line_start: 1, column_start: 2, line_end: 1, column_end: 6 }
    );
    assert_eq!(all[1].kind, ident("x"));
}

#[test]
fn character_literal_errors() {
    assert_eq!(error("'"), LexError::UnterminatedString { line: 1, column: 1 });
    assert_eq!(error("'a"), LexError::UnterminatedString { line: 1, column: 1 });
    assert_eq!(error("'ab'"), LexError::UnterminatedString { line: 1, column: 1 });
    assert_eq!(error("''"), LexError::UnterminatedString { line: 1, column: 1 });
    assert_eq!(error("\n 'ab'"), LexError::UnterminatedString { line: 2, column: 2 });
    assert_eq!(
        error("'\\q'"),
        LexError::InvalidEscape { sequence: "\\q".to_string(), line: 1, column: 1 }
    );
    assert_eq!(
        error("'\\\"'"),
        LexError::InvalidEscape { sequence: "\\\"".to_string(), line: 1, column: 1 }
    );
}

#[test]
fn character_literal_takes_one_byte() {
    let mut lx = lexer(&[b'\'', 0xE9, b'\'']);
    let token = lx.next_token().unwrap();
    assert_eq!(token.kind, TokenKind::Literal(Literals::CharacterLiteral('\u{e9}')));
    assert_eq!(token.lexeme, "'\u{fffd}'");
    let mut two = lexer(&[b'\'', 0xC3, 0xA9, b'\'']);
    assert_eq!(two.next_token().unwrap_err(), LexError::UnterminatedString { line: 1, column: 1 });
}

#[test]
fn unexpected_character() {
    assert_eq!(error("@"), LexError::UnexpectedCharacter { ch: '@', line: 1, column: 1 });
    assert_eq!(error("a #"), LexError::UnexpectedCharacter { ch: '#', line: 1, column: 3 });
    assert_eq!(error("a\n\n $"), LexError::UnexpectedCharacter { ch: '$', line: 3, column: 2 });
    assert_eq!(error("`"), LexError::UnexpectedCharacter { ch: '`', line: 1, column: 1 });
    assert_eq!(error("\\"), LexError::UnexpectedCharacter { ch: '\\', line: 1, column: 1 });
}

#[test]
fn unexpected_byte_outside_ascii() {
    let mut lx = lexer(&[b'a', b' ', 0xE9]);
    assert_eq!(lx.next_token().unwrap().kind, ident("a"));
    assert_eq!(
        lx.next_token().unwrap_err(),
        LexError::UnexpectedCharacter { ch: '\u{e9}', line: 1, column: 3 }
    );
    let mut nul = lexer(&[0]);
    assert_eq!(
        nul.next_token().unwrap_err(),
        LexError::UnexpectedCharacter { ch: '\0', line: 1, column: 1 }
    );
}

#[test]
fn unexpected_character_is_not_consumed() {
    let mut lx = lexer(b"  @x");
    let e1 = lx.next_token().unwrap_err();
    let e2 = lx.next_token().unwrap_err();
    assert_eq!(e1, LexError::UnexpectedCharacter { ch: '@', line: 1, column: 3 });
    assert_eq!(e1, e2);
}

#[test]
fn every_delimiter() {
    assert_eq!(
        kinds("( ) { } [ ] : ; , . ?"),
        vec![
            delimiter(DelimiterKind::LeftParen),
            delimiter(DelimiterKind::RightParen),
            delimiter(DelimiterKind::LeftBrace),
            delimiter(DelimiterKind::RightBrace),
            delimiter(DelimiterKind::LeftBracket),
            delimiter(DelimiterKind::RightBracket),
            delimiter(DelimiterKind::Colon),
            delimiter(DelimiterKind::Semicolon),
            delimiter(DelimiterKind::Comma),
            delimiter(DelimiterKind::Dot),
            delimiter(DelimiterKind::QuestionMark),
            TokenKind::Eof,
        ]
    );
    assert_eq!(kinds("(){}[]:;,.?").len(), 12);
}

#[test]
fn every_single_byte_operator() {
    assert_eq!(
        kinds("= + - * / % < > ! & | ^ ~"),
        vec![
            TokenKind::AssignmentOperator(AssignmentOperator::Assign),
            TokenKind::ArithmeticOperator(ArithmeticOps::Plus),
            TokenKind::ArithmeticOperator(ArithmeticOps::Minus),
            TokenKind::ArithmeticOperator(ArithmeticOps::Asterisk),
            TokenKind::ArithmeticOperator(ArithmeticOps::Slash),
            TokenKind::ArithmeticOperator(ArithmeticOps::Modulo),
            TokenKind::RelationalOperator(RelationalOperator::LessThan),
            TokenKind::RelationalOperator(RelationalOperator::GreaterThan),
            TokenKind::LogicalOperator(LogicalOperator::Not),
            TokenKind::BitwiseOperator(BitwiseOps::And),
            TokenKind::BitwiseOperator(BitwiseOps::Or),
            TokenKind::BitwiseOperator(BitwiseOps::Xor),
            TokenKind::BitwiseOperator(BitwiseOps::Not),
            TokenKind::Eof,
        ]
    );
}

#[test]
fn every_two_byte_operator() {
    assert_eq!(
        kinds("== += -= -> *= ** /= %= <= << >= >> != && || ::"),
        vec![
            TokenKind::RelationalOperator(RelationalOperator::Equal),
            TokenKind::AssignmentOperator(AssignmentOperator::AddAssign),
            TokenKind::AssignmentOperator(AssignmentOperator::SubtractAssign),
            TokenKind::SpecialOperator(SpecialOps::PointerAccess),
            TokenKind::AssignmentOperator(AssignmentOperator::MultiplyAssign),
            TokenKind::ArithmeticOperator(ArithmeticOps::Exponent),
            TokenKind::AssignmentOperator(AssignmentOperator::DivideAssign),
            TokenKind::AssignmentOperator(AssignmentOperator::ModuloAssign),
            TokenKind::RelationalOperator(RelationalOperator::LessThanOrEqual),
            TokenKind::BitwiseOperator(BitwiseOps::LeftShift),
            TokenKind::RelationalOperator(RelationalOperator::GreaterThanOrEqual),
            TokenKind::BitwiseOperator(BitwiseOps::RightShift),
            TokenKind::RelationalOperator(RelationalOperator::NotEqual),
            TokenKind::LogicalOperator(LogicalOperator::And),
            TokenKind::LogicalOperator(LogicalOperator::Or),
            TokenKind::SpecialOperator(SpecialOps::ScopingOperator),
            TokenKind::Eof,
        ]
    );
}

#[test]
fn longer_operator_is_preferred() {
    let pairs = [
        "==", "+=", "-=", "->", "*=", "**", "/=", "%=", "<=", "<<", ">=", ">>", "!=", "&&", "||",
        "::",
    ];
    for op in pairs {
        let all = tokens(op);
        assert_eq!(all.len(), 2, "{} is one token", op);
        assert_eq!(all[0].lexeme, op);
        assert_eq!(all[0].span.start, 0);
        assert_eq!(all[0].span.end, 2);
        let split = format!("{} {}", &op[..1], &op[1..]);
        let apart = tokens(&split);
        assert_eq!(apart.len(), 3, "{} is two tokens", split);
        assert_ne!(apart[0].kind, all[0].kind);
        assert_eq!(apart[0].lexeme, &op[..1]);
    }
}

#[test]
fn operators_are_at_most_two_bytes() {
    assert_eq!(
        kinds("==="),
        vec![
            TokenKind::RelationalOperator(RelationalOperator::Equal),
            TokenKind::AssignmentOperator(AssignmentOperator::Assign),
            TokenKind::Eof
        ]
    );
    assert_eq!(
        kinds("<<="),
        vec![
            TokenKind::BitwiseOperator(BitwiseOps::LeftShift),
            TokenKind::AssignmentOperator(AssignmentOperator::Assign),
            TokenKind::Eof
        ]
    );
    assert_eq!(
        kinds("***"),
        vec![
            TokenKind::ArithmeticOperator(ArithmeticOps::Exponent),
            TokenKind::ArithmeticOperator(ArithmeticOps::Asterisk),
            TokenKind::Eof
        ]
    );
    assert_eq!(
        kinds(":::"),
        vec![
            TokenKind::SpecialOperator(SpecialOps::ScopingOperator),
            delimiter(DelimiterKind::Colon),
            TokenKind::Eof
        ]
    );
    assert_eq!(
        kinds("&=|=^="),
        vec![
            TokenKind::BitwiseOperator(BitwiseOps::And),
            TokenKind::AssignmentOperator(AssignmentOperator::Assign),
            TokenKind::BitwiseOperator(BitwiseOps::Or),
            TokenKind::AssignmentOperator(AssignmentOperator::Assign),
            TokenKind::BitwiseOperator(BitwiseOps::Xor),
            TokenKind::AssignmentOperator(AssignmentOperator::Assign),
            TokenKind::Eof
        ]
    );
}

#[test]
fn every_keyword() {
    let table = [
        ("func", Keywords::Func),
        ("return", Keywords::Return),
        ("if", Keywords::If),
        ("else", Keywords::Else),
        ("elif", Keywords::Elif),
        ("loop", Keywords::Loop),
        ("switch", Keywords::Switch),
        ("case", Keywords::Case),
        ("var", Keywords::Var),
        ("const", Keywords::Const),
        ("final", Keywords::Final),
        ("i8", Keywords::Type(TypeKind::Int8)),
        ("i16", Keywords::Type(TypeKind::Int16)),
        ("i32", Keywords::Type(TypeKind::Int32)),
        ("i64", Keywords::Type(TypeKind::Int64)),
        ("u8", Keywords::Type(TypeKind::Unsigned8)),
        ("u16", Keywords::Type(TypeKind::Unsigned16)),
        ("u32", Keywords::Type(TypeKind::Unsigned32)),
        ("u64", Keywords::Type(TypeKind::Unsigned64)),
        ("f32", Keywords::Type(TypeKind::Float32)),
        ("f64", Keywords::Type(TypeKind::Float64)),
        ("string", Keywords::Type(TypeKind::String)),
        ("char", Keywords::Type(TypeKind::Char)),
        ("struct", Keywords::Type(TypeKind::Struct)),
        ("bool", Keywords::Type(TypeKind::Bool)),
        ("import", Keywords::Import),
    ];
    for (text, keyword) in table {
        assert_eq!(TokenKind::keyword(text), Some(TokenKind::Keyword(keyword)));
        let token = first(text);
        assert_eq!(token.kind, TokenKind::Keyword(keyword));
        assert_eq!(token.lexeme, text);
    }
}

#[test]
fn other_words_are_no_keywords() {
    for text in ["", "Func", "FUNC", "fun", "funcs", "func ", "i128", "u", "f", "f16", "int", "void", "while"] {
        assert_eq!(TokenKind::keyword(text), None, "{:?}", text);
    }
}

#[test]
fn identifiers() {
    for text in ["x", "_", "_x1", "funcx", "Var", "a_b_c", "X9", "__init__", "returns"] {
        let token = first(text);
        assert_eq!(token.kind, ident(text));
        assert_eq!(token.lexeme, text);
        assert_eq!(token.span.end, text.len());
    }
}

#[test]
fn identifier_stops_at_other_bytes() {
    assert_eq!(
        kinds("ab-cd"),
        vec![
            ident("ab"),
            TokenKind::ArithmeticOperator(ArithmeticOps::Minus),
            ident("cd"),
            TokenKind::Eof
        ]
    );
    assert_eq!(kinds("1a"), vec![signed(1), ident("a"), TokenKind::Eof]);
}

#[test]
fn spans_carry_line_and_column() {
    let all = tokens("a\n  bc +\n\td");
    assert_eq!(
        all[0].span,
        Span { start: 0, end: 1, line_start: 1, column_start: 1, line_end: 1, column_end: 2 }
    );
    assert_eq!(
        all[1].span,
        Span { start: 4, end: 6, line_start: 2, column_start: 3, line_end: 2, column_end: 5 }
    );
    assert_eq!(
        all[2].span,
        Span { start: 7, end: 8, line_start: 2, column_start: 6, line_end: 2, column_end: 7 }
    );
    assert_eq!(
        all[3].span,
        Span { start: 10, end: 11, line_start: 3, column_start: 2, line_end: 3, column_end: 3 }
    );
    assert_eq!(
        all[4].span,
        Span { start: 11, end: 11, line_start: 3, column_start: 3, line_end: 3, column_end: 3 }
    );
}

#[test]
fn lexemes_and_trivia_make_up_the_source() {
    let src = "func f(a: i32): i32 { // body\n  return a ** 2 /* sq */ + 'x' - \"s\\n\"; }\n";
    let all = tokens(src);
    let bytes = src.as_bytes();
    let mut rebuilt: Vec<u8> = Vec::new();
    let mut at = 0;
    for token in &all {
        assert!(at <= token.span.start);
        rebuilt.extend_from_slice(&bytes[at..token.span.start]);
        rebuilt.extend_from_slice(token.lexeme.as_bytes());
        at = token.span.end;
    }
    assert_eq!(at, bytes.len());
    assert_eq!(rebuilt, bytes);
    assert!(all.last().unwrap().is_eof());
    assert_eq!(all.iter().filter(|t| t.is_eof()).count(), 1);
}

#[test]
fn lexeme_is_the_spanned_source() {
    let src = "var total = 10u + 2.50 * (x1 - 3) >= limit && !done; 'c' \"str\"";
    for token in tokens(src) {
        assert!(token.span.start <= token.span.end);
        assert!(token.span.end <= src.len());
        assert_eq!(token.lexeme, &src[token.span.start..token.span.end]);
    }
}

#[test]
fn lexing_twice_gives_the_same_tokens() {
    let src = "func main(): u32 { return 2320u; } // end\n";
    let a = tokens(src);
    let b = tokens(src);
    assert_eq!(a, b);
    assert_eq!(a.len(), 12);
    let bad = "x = \"open";
    assert_eq!(error(bad), error(bad));
}

#[test]
fn tokenize_stops_at_the_first_error() {
    let mut lx = lexer(b"a b @ c");
    assert_eq!(
        lx.tokenize().unwrap_err(),
        LexError::UnexpectedCharacter { ch: '@', line: 1, column: 5 }
    );
}

#[test]
fn tokenize_continues_from_the_cursor() {
    let mut lx = lexer(b"a b c");
    assert_eq!(lx.next_token().unwrap().kind, ident("a"));
    let rest = lx.tokenize().unwrap();
    assert_eq!(rest.len(), 3);
    assert_eq!(rest[0].kind, ident("b"));
    assert_eq!(rest[1].kind, ident("c"));
    assert!(rest[2].is_eof());
    let again = lx.tokenize().unwrap();
    assert_eq!(again.len(), 1);
    assert!(again[0].is_eof());
}

#[test]
fn is_eof_tells_the_end_token() {
    let all = tokens("x");
    assert!(!all[0].is_eof());
    assert!(all[1].is_eof());
}
