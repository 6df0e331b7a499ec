//! Trivia: the whitespace and comments between tokens.

use vstd::prelude::*;
use crate::ascii::{ASTERISK, SLASH};
use crate::charstream::{byte_at, is_whitespace, is_whitespace_byte, run_end, lemma_run_end, NEWLINE};
use crate::lexer::Lexer;

verus! {

/// Where the line comment ends whose text starts at `i`: at the next line
/// feed, which is not part of it, or at the end of the buffer.
pub open spec fn line_comment_end(buf: Seq<u8>, i: int) -> int {
    run_end(buf, i, |b: u8| b != NEWLINE)
}

/// Where the block comment ends whose text starts at `i`: after the first
/// `*/`, or at the end of the buffer where there is none. Block comments do
/// not nest.
pub open spec fn block_comment_end(buf: Seq<u8>, i: int) -> int
    decreases buf.len() - i,
{
    if !(0 <= i < buf.len()) {
        i
    } else if buf[i] == ASTERISK && byte_at(buf, i + 1) == Some(SLASH) {
        i + 2
    } else {
        block_comment_end(buf, i + 1)
    }
}

/// Where the trivia ends that starts at `i`: at the first byte that is
/// neither whitespace nor the start of a comment, or at the end of the
/// buffer. A `/` that neither `/` nor `*` follows is no trivia.
pub open spec fn trivia_end(buf: Seq<u8>, i: int) -> int
    decreases buf.len() - i,
    via trivia_end_decreases
{
    match byte_at(buf, i) {
        None => i,
        Some(b) => if is_whitespace(b) {
            trivia_end(buf, i + 1)
        } else if b == SLASH && byte_at(buf, i + 1) == Some(SLASH) {
            trivia_end(buf, line_comment_end(buf, i + 2))
        } else if b == SLASH && byte_at(buf, i + 1) == Some(ASTERISK) {
            trivia_end(buf, block_comment_end(buf, i + 2))
        } else {
            i
        },
    }
}

#[via_fn]
proof fn trivia_end_decreases(buf: Seq<u8>, i: int) {
    if 0 <= i && i + 2 <= buf.len() {
        lemma_run_end(buf, i + 2, |b: u8| b != NEWLINE);
        lemma_block_comment_end(buf, i + 2);
    }
}

/// A block comment ends after its start and inside the buffer.
pub proof fn lemma_block_comment_end(buf: Seq<u8>, i: int)
    requires
        0 <= i <= buf.len(),
    ensures
        i <= block_comment_end(buf, i) <= buf.len(),
    decreases buf.len() - i,
{
    if i < buf.len() && !(buf[i] == ASTERISK && byte_at(buf, i + 1) == Some(SLASH)) {
        lemma_block_comment_end(buf, i + 1);
    }
}

/// Trivia ends after its start and inside the buffer, and what follows it
/// is no trivia.
pub proof fn lemma_trivia_end(buf: Seq<u8>, i: int)
    requires
        0 <= i <= buf.len(),
    ensures
        i <= trivia_end(buf, i) <= buf.len(),
        trivia_end(buf, trivia_end(buf, i)) == trivia_end(buf, i),
    decreases buf.len() - i,
{
    match byte_at(buf, i) {
        None => {},
        Some(b) => {
            if is_whitespace(b) {
                lemma_trivia_end(buf, i + 1);
            } else if b == SLASH && byte_at(buf, i + 1) == Some(SLASH) {
                lemma_run_end(buf, i + 2, |b: u8| b != NEWLINE);
                lemma_trivia_end(buf, line_comment_end(buf, i + 2));
            } else if b == SLASH && byte_at(buf, i + 1) == Some(ASTERISK) {
                lemma_block_comment_end(buf, i + 2);
                lemma_trivia_end(buf, block_comment_end(buf, i + 2));
            }
        },
    }
}

impl Lexer {
    /// Consumes the rest of a line comment, up to the line feed that ends
    /// it.
    fn skip_line_comment(&mut self)
        ensures
            final(self).buffer() == old(self).buffer(),
            final(self).offset() == line_comment_end(old(self).buffer(), old(self).offset()),
    {
        proof {
            use_type_invariant(&self.stream);
            self.stream.lemma_bounds();
        }
        loop
            invariant
                self.buffer() == old(self).buffer(),
                old(self).offset() <= self.offset() <= self.buffer().len(),
                line_comment_end(self.buffer(), self.offset()) == line_comment_end(
                    old(self).buffer(),
                    old(self).offset(),
                ),
            ensures
                self.offset() == line_comment_end(self.buffer(), self.offset()),
            decreases self.buffer().len() - self.offset(),
        {
            proof {
                use_type_invariant(&self.stream);
            }
            match self.stream.peek() {
                Some(b) => {
                    if b == NEWLINE {
                        break ;
                    }
                    self.stream.advance();
                },
                None => {
                    break ;
                },
            }
        }
    }

    /// Consumes the rest of a block comment, its closing `*/` included.
    fn skip_block_comment(&mut self)
        ensures
            final(self).buffer() == old(self).buffer(),
            final(self).offset() == block_comment_end(old(self).buffer(), old(self).offset()),
    {
        proof {
            use_type_invariant(&self.stream);
            self.stream.lemma_bounds();
        }
        loop
            invariant_except_break
                block_comment_end(self.buffer(), self.offset()) == block_comment_end(
                    old(self).buffer(),
                    old(self).offset(),
                ),
            invariant
                self.buffer() == old(self).buffer(),
                old(self).offset() <= self.offset() <= self.buffer().len(),
            ensures
                self.buffer() == old(self).buffer(),
                self.offset() == block_comment_end(old(self).buffer(), old(self).offset()),
            decreases self.buffer().len() - self.offset(),
        {
            proof {
                use_type_invariant(&self.stream);
            }
            match self.stream.peek() {
                Some(b) => {
                    let closes = match self.stream.peek_n(1) {
                        Some(n) => b == ASTERISK && n == SLASH,
                        None => false,
                    };
                    if closes {
                        self.stream.advance_n(2);
                        break ;
                    }
                    self.stream.advance();
                },
                None => {
                    break ;
                },
            }
        }
    }

    /// Consumes the whitespace and comments at the cursor. An unterminated
    /// block comment reaches to the end of the buffer.
    pub fn skip_trivia(&mut self)
        ensures
            final(self).buffer() == old(self).buffer(),
            final(self).offset() == trivia_end(old(self).buffer(), old(self).offset()),
    {
        proof {
            use_type_invariant(&self.stream);
            self.stream.lemma_bounds();
        }
        loop
            invariant
                self.buffer() == old(self).buffer(),
                old(self).offset() <= self.offset() <= self.buffer().len(),
                trivia_end(self.buffer(), self.offset()) == trivia_end(
                    old(self).buffer(),
                    old(self).offset(),
                ),
            ensures
                self.buffer() == old(self).buffer(),
                self.offset() == trivia_end(old(self).buffer(), old(self).offset()),
            decreases self.buffer().len() - self.offset(),
        {
            proof {
                use_type_invariant(&self.stream);
            }
            let ghost here = self.offset();
            match self.stream.peek() {
                None => {
                    break ;
                },
                Some(b) => {
                    if is_whitespace_byte(b) {
                        self.stream.advance();
                    } else if b == SLASH {
                        let next = self.stream.peek_n(1);
                        let line = match next {
                            Some(n) => n == SLASH,
                            None => false,
                        };
                        let block = match next {
                            Some(n) => n == ASTERISK,
                            None => false,
                        };
                        if line {
                            self.stream.advance_n(2);
                            self.skip_line_comment();
                            proof {
                                lemma_run_end(self.buffer(), here + 2, |b: u8| b != NEWLINE);
                            }
                        } else if block {
                            self.stream.advance_n(2);
                            self.skip_block_comment();
                            proof {
                                lemma_block_comment_end(self.buffer(), here + 2);
                            }
                        } else {
                            break ;
                        }
                    } else {
                        break ;
                    }
                },
            }
        }
    }
}

} // verus!
