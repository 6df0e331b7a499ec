use hm_lexer::charstream::{CharStream, MAX_INPUT_SIZE};
use hm_lexer::lexerror::LexError;
use std::str::FromStr;

fn cursor(src: &str) -> CharStream {
    CharStream::from_bytes(src.as_bytes()).expect("non-empty input")
}

#[test]
fn empty_buffer_is_rejected() {
    assert_eq!(CharStream::new(Vec::new()).unwrap_err(), LexError::EmptyInput);
    assert_eq!(CharStream::from_bytes(b"").unwrap_err(), LexError::EmptyInput);
    assert_eq!(CharStream::from_str("").unwrap_err(), LexError::EmptyInput);
}

#[test]
fn oversized_buffer_is_rejected() {
    let size = MAX_INPUT_SIZE + 1;
    let input = vec![0u8; size];
    assert_eq!(CharStream::new(input).unwrap_err(), LexError::InputTooLarge { size });
}

#[test]
fn buffer_of_maximum_size_is_accepted() {
    assert_eq!(MAX_INPUT_SIZE, 1 << 30);
    let input = vec![0u8; MAX_INPUT_SIZE];
    let stream = CharStream::new(input).expect("a buffer at the limit");
    assert_eq!(stream.index(), 0);
    assert_eq!(stream.line_column(), (1, 1));
}

#[test]
fn new_cursor_stands_at_the_start() {
    let stream = CharStream::new(vec![b'a', b'b']).unwrap();
    assert_eq!(stream.index(), 0);
    assert_eq!(stream.line(), 1);
    assert_eq!(stream.column(), 1);
    assert_eq!(stream.line_column(), (1, 1));
    assert_eq!(stream.current_position(), (0, 1, 1));
    assert_eq!(stream.current_start_pos(), (0, 1, 1));
    assert!(!stream.is_eof());
}

#[test]
fn from_str_copies_the_bytes() {
    let stream = CharStream::from_str("hi").unwrap();
    assert_eq!(stream.slice(0, 2), b"hi");
    assert_eq!(stream.peek(), Some(b'h'));
}

#[test]
fn peek_does_not_consume() {
    let stream = cursor("xy");
    assert_eq!(stream.peek(), Some(b'x'));
    assert_eq!(stream.peek(), Some(b'x'));
    assert_eq!(stream.index(), 0);
}

#[test]
fn peek_n_looks_ahead() {
    let stream = cursor("xyz");
    assert_eq!(stream.peek_n(0), Some(b'x'));
    assert_eq!(stream.peek_n(1), Some(b'y'));
    assert_eq!(stream.peek_n(2), Some(b'z'));
    assert_eq!(stream.peek_n(3), None);
}

#[test]
fn peek_n_survives_overflow() {
    let mut stream = cursor("xyz");
    stream.advance();
    assert_eq!(stream.peek_n(usize::MAX), None);
    assert_eq!(stream.peek_n(usize::MAX - 1), None);
    assert_eq!(stream.index(), 1);
}

#[test]
fn advance_consumes_one_byte() {
    let mut stream = cursor("ab");
    assert_eq!(stream.advance(), Some(b'a'));
    assert_eq!(stream.current_position(), (1, 1, 2));
    assert_eq!(stream.advance(), Some(b'b'));
    assert_eq!(stream.current_position(), (2, 1, 3));
    assert!(stream.is_eof());
}

#[test]
fn advance_at_end_does_nothing() {
    let mut stream = cursor("a");
    stream.advance();
    assert_eq!(stream.advance(), None);
    assert_eq!(stream.peek(), None);
    assert_eq!(stream.current_position(), (1, 1, 2));
}

#[test]
fn line_feed_starts_a_new_line() {
    let mut stream = cursor("ab\ncd\n\ne");
    stream.advance_n(2);
    assert_eq!(stream.line_column(), (1, 3));
    stream.advance();
    assert_eq!(stream.line_column(), (2, 1));
    stream.advance_n(2);
    assert_eq!(stream.line_column(), (2, 3));
    stream.advance();
    assert_eq!(stream.line_column(), (3, 1));
    stream.advance();
    assert_eq!(stream.line_column(), (4, 1));
    stream.advance();
    assert_eq!(stream.line_column(), (4, 2));
    assert_eq!(stream.index(), 8);
}

#[test]
fn carriage_return_is_one_column() {
    let mut stream = cursor("a\r\nb");
    stream.advance_n(2);
    assert_eq!(stream.line_column(), (1, 3));
    stream.advance();
    assert_eq!(stream.line_column(), (2, 1));
}

#[test]
fn advance_n_stops_at_the_end() {
    let mut stream = cursor("abc");
    stream.advance_n(0);
    assert_eq!(stream.index(), 0);
    stream.advance_n(2);
    assert_eq!(stream.index(), 2);
    stream.advance_n(10);
    assert_eq!(stream.index(), 3);
    stream.advance_n(usize::MAX);
    assert_eq!(stream.current_position(), (3, 1, 4));
}

#[test]
fn advance_n_counts_lines() {
    let mut stream = cursor("a\nb\nc");
    stream.advance_n(4);
    assert_eq!(stream.current_position(), (4, 3, 1));
}

#[test]
fn match_byte_consumes_only_the_expected_byte() {
    let mut stream = cursor("ab");
    assert!(!stream.match_byte(b'b'));
    assert_eq!(stream.index(), 0);
    assert!(stream.match_byte(b'a'));
    assert_eq!(stream.index(), 1);
    assert!(stream.match_byte(b'b'));
    assert!(!stream.match_byte(b'b'));
    assert_eq!(stream.index(), 2);
}

#[test]
fn slice_borrows_the_buffer() {
    let stream = cursor("hello");
    assert_eq!(stream.slice(1, 4), b"ell");
    assert_eq!(stream.slice(0, 5), b"hello");
    assert_eq!(stream.slice(2, 2), b"");
    assert_eq!(stream.slice(5, 5), b"");
}

#[test]
fn consume_while_returns_the_run() {
    let mut stream = cursor("123abc");
    let run = stream.consume_while(|b| b.is_ascii_digit());
    assert_eq!(run, (0, 3));
    assert_eq!(stream.slice(run.0, run.1), b"123");
    assert_eq!(stream.current_position(), (3, 1, 4));
}

#[test]
fn consume_while_may_consume_nothing() {
    let mut stream = cursor("abc");
    stream.advance();
    let run = stream.consume_while(|b| b.is_ascii_digit());
    assert_eq!(run, (1, 1));
    assert_eq!(stream.index(), 1);
}

#[test]
fn consume_while_stops_at_the_end() {
    let mut stream = cursor("777");
    assert_eq!(stream.consume_while(|b| b == b'7'), (0, 3));
    assert!(stream.is_eof());
    assert_eq!(stream.consume_while(|b| b == b'7'), (3, 3));
}

#[test]
fn skip_while_discards_the_run() {
    let mut stream = cursor("aaab");
    stream.skip_while(|b| b == b'a');
    assert_eq!(stream.peek(), Some(b'b'));
    stream.skip_while(|b| b == b'a');
    assert_eq!(stream.index(), 3);
}

#[test]
fn skip_whitespace_skips_the_four_bytes() {
    let mut stream = cursor(" \t\r\n x");
    stream.skip_whitespace();
    assert_eq!(stream.peek(), Some(b'x'));
    assert_eq!(stream.current_position(), (5, 2, 2));
}

#[test]
fn skip_whitespace_leaves_other_control_bytes() {
    let mut stream = cursor("\x0bx");
    stream.skip_whitespace();
    assert_eq!(stream.index(), 0);
    let mut form_feed = cursor(" \x0cx");
    form_feed.skip_whitespace();
    assert_eq!(form_feed.index(), 1);
}

#[test]
fn line_and_column_start_at_one_everywhere() {
    let src = "a\n\nbc\n";
    let mut stream = cursor(src);
    let mut previous = None;
    loop {
        assert!(stream.line() >= 1);
        assert!(stream.column() >= 1);
        if previous == Some(b'\n') {
            assert_eq!(stream.column(), 1);
        }
        previous = stream.advance();
        if previous.is_none() {
            break;
        }
    }
    assert_eq!(stream.current_position(), (6, 4, 1));
}
