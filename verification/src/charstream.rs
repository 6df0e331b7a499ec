//! The byte cursor that the lexer reads from.

use vstd::prelude::*;
use vstd::slice::{slice_subrange, slice_to_vec};
use vstd::string::StringSliceAdditionalSpecFns;
use crate::lexerror::LexError;

verus! {

/// The largest buffer a [`CharStream`] accepts, in bytes (1 GiB).
pub const MAX_INPUT_SIZE: usize = 0x4000_0000;

/// The line feed byte, which ends a line.
pub const NEWLINE: u8 = 0x0A;

/// The 1-based line of the byte offset `i` in `buf`: one more than the number
/// of line feeds before `i`.
pub open spec fn line_of(buf: Seq<u8>, i: int) -> int
    decreases i,
{
    if i <= 0 {
        1
    } else if buf[i - 1] == NEWLINE {
        line_of(buf, i - 1) + 1
    } else {
        line_of(buf, i - 1)
    }
}

/// The 1-based column of the byte offset `i` in `buf`: one more than the
/// number of bytes between the last line feed before `i` and `i`.
pub open spec fn column_of(buf: Seq<u8>, i: int) -> int
    decreases i,
{
    if i <= 0 {
        1
    } else if buf[i - 1] == NEWLINE {
        1
    } else {
        column_of(buf, i - 1) + 1
    }
}

/// The byte of `buf` at offset `i`, if there is one.
pub open spec fn byte_at(buf: Seq<u8>, i: int) -> Option<u8> {
    if 0 <= i < buf.len() {
        Some(buf[i])
    } else {
        None
    }
}

/// The end of the longest run of bytes that satisfy `pred`, starting at `i`.
pub open spec fn run_end(buf: Seq<u8>, i: int, pred: spec_fn(u8) -> bool) -> int
    decreases buf.len() - i,
{
    if 0 <= i < buf.len() && pred(buf[i]) {
        run_end(buf, i + 1, pred)
    } else {
        i
    }
}

/// Lines and columns start at 1, the column right after a line feed is 1,
/// and neither exceeds the offset plus one.
pub proof fn lemma_line_column_bounds(buf: Seq<u8>, i: int)
    ensures
        1 <= line_of(buf, i),
        1 <= column_of(buf, i),
        i >= 0 ==> line_of(buf, i) <= i + 1,
        i >= 0 ==> column_of(buf, i) <= i + 1,
        i > 0 && buf[i - 1] == NEWLINE ==> column_of(buf, i) == 1,
    decreases i,
{
    if i > 0 {
        lemma_line_column_bounds(buf, i - 1);
    }
}

/// A run ends inside the buffer, holds only bytes that satisfy the
/// predicate, and stops at the end of the buffer or before a byte that does
/// not satisfy it.
pub proof fn lemma_run_end(buf: Seq<u8>, i: int, pred: spec_fn(u8) -> bool)
    requires
        0 <= i <= buf.len(),
    ensures
        i <= run_end(buf, i, pred) <= buf.len(),
        forall|k: int| i <= k < run_end(buf, i, pred) ==> pred(#[trigger] buf[k]),
        run_end(buf, i, pred) < buf.len() ==> !pred(buf[run_end(buf, i, pred)]),
    decreases buf.len() - i,
{
    if i < buf.len() && pred(buf[i]) {
        lemma_run_end(buf, i + 1, pred);
    }
}

/// The end of a run is the only offset with the properties of
/// [`lemma_run_end`].
pub proof fn lemma_run_end_unique(buf: Seq<u8>, i: int, end: int, pred: spec_fn(u8) -> bool)
    requires
        0 <= i <= end <= buf.len(),
        forall|k: int| i <= k < end ==> pred(#[trigger] buf[k]),
        end < buf.len() ==> !pred(buf[end]),
    ensures
        run_end(buf, i, pred) == end,
    decreases end - i,
{
    if i < end {
        assert(pred(buf[i]));
        lemma_run_end_unique(buf, i + 1, end, pred);
    }
}

/// The ASCII whitespace bytes: space, tab, carriage return and line feed.
pub open spec fn is_whitespace(b: u8) -> bool {
    b == 0x20 || b == 0x09 || b == 0x0D || b == 0x0A
}

/// Whether `b` is an ASCII whitespace byte.
pub fn is_whitespace_byte(b: u8) -> (r: bool)
    ensures
        r == is_whitespace(b),
{
    b == 0x20 || b == 0x09 || b == 0x0D || b == 0x0A
}

#[derive(Debug, Clone, Copy)]
struct Position {
    index: usize,
    line: usize,
    column: usize,
}

/// A cursor over an owned, non-empty byte buffer.
///
/// The cursor keeps the offset of the next byte to read and the 1-based
/// line and column of that offset. Bytes are never decoded: a line feed ends
/// a line, and every other byte is one column wide.
#[derive(Debug)]
pub struct CharStream {
    input: Vec<u8>,
    pos: Position,
}

impl CharStream {
    /// What holds of every cursor: the buffer is neither empty nor longer
    /// than [`MAX_INPUT_SIZE`], the offset lies inside it or at its end, and
    /// line and column are those of the offset.
    #[verifier::type_invariant]
    pub closed spec fn wf(self) -> bool {
        &&& 0 < self.input@.len() <= MAX_INPUT_SIZE
        &&& self.pos.index <= self.input@.len()
        &&& self.pos.line == line_of(self.input@, self.pos.index as int)
        &&& self.pos.column == column_of(self.input@, self.pos.index as int)
    }

    /// The bytes that the cursor reads.
    pub closed spec fn buffer(&self) -> Seq<u8> {
        self.input@
    }

    /// The offset of the next byte to read.
    pub closed spec fn offset(&self) -> int {
        self.pos.index as int
    }

    /// The bounds that [`CharStream::wf`] gives.
    pub proof fn lemma_bounds(self)
        requires
            self.wf(),
        ensures
            0 < self.buffer().len() <= MAX_INPUT_SIZE,
            0 <= self.offset() <= self.buffer().len(),
    {
    }

    /// A cursor at the start of `input`.
    ///
    /// Fails with `EmptyInput` on an empty buffer and with `InputTooLarge`
    /// on one longer than [`MAX_INPUT_SIZE`].
    pub fn new(input: Vec<u8>) -> (r: Result<Self, LexError>)
        ensures
            input@.len() == 0 ==> r == Err::<Self, LexError>(LexError::EmptyInput),
            input@.len() > MAX_INPUT_SIZE ==> r == Err::<Self, LexError>(
                LexError::InputTooLarge { size: input@.len() as usize },
            ),
            0 < input@.len() <= MAX_INPUT_SIZE ==> r is Ok && r.unwrap().buffer() == input@
                && r.unwrap().offset() == 0,
    {
        if input.len() == 0 {
            return Err(LexError::EmptyInput);
        }
        if input.len() > MAX_INPUT_SIZE {
            return Err(LexError::InputTooLarge { size: input.len() });
        }
        Ok(CharStream { input, pos: Position { index: 0, line: 1, column: 1 } })
    }

    /// A cursor at the start of a copy of `bytes`.
    pub fn from_bytes(bytes: &[u8]) -> (r: Result<Self, LexError>)
        ensures
            bytes@.len() == 0 ==> r == Err::<Self, LexError>(LexError::EmptyInput),
            bytes@.len() > MAX_INPUT_SIZE ==> r == Err::<Self, LexError>(
                LexError::InputTooLarge { size: bytes@.len() as usize },
            ),
            0 < bytes@.len() <= MAX_INPUT_SIZE ==> r is Ok && r.unwrap().buffer() == bytes@
                && r.unwrap().offset() == 0,
    {
        Self::new(slice_to_vec(bytes))
    }

    /// Whether every byte has been consumed.
    pub fn is_eof(&self) -> (r: bool)
        ensures
            r == (self.offset() == self.buffer().len()),
    {
        proof {
            use_type_invariant(self);
        }
        self.pos.index >= self.input.len()
    }

    /// The offset of the next byte to read.
    pub fn index(&self) -> (r: usize)
        ensures
            r == self.offset(),
            r <= self.buffer().len(),
    {
        proof {
            use_type_invariant(self);
        }
        self.pos.index
    }

    /// The 1-based line of the next byte to read.
    pub fn line(&self) -> (r: usize)
        ensures
            r == line_of(self.buffer(), self.offset()),
            r >= 1,
    {
        proof {
            use_type_invariant(self);
            lemma_line_column_bounds(self.input@, self.pos.index as int);
        }
        self.pos.line
    }

    /// The 1-based column of the next byte to read.
    pub fn column(&self) -> (r: usize)
        ensures
            r == column_of(self.buffer(), self.offset()),
            r >= 1,
    {
        proof {
            use_type_invariant(self);
            lemma_line_column_bounds(self.input@, self.pos.index as int);
        }
        self.pos.column
    }

    /// Line and column of the next byte to read.
    pub fn line_column(&self) -> (r: (usize, usize))
        ensures
            r.0 == line_of(self.buffer(), self.offset()),
            r.1 == column_of(self.buffer(), self.offset()),
            r.0 >= 1,
            r.1 >= 1,
    {
        (self.line(), self.column())
    }

    /// The next byte, without consuming it.
    pub fn peek(&self) -> (r: Option<u8>)
        ensures
            r == byte_at(self.buffer(), self.offset()),
    {
        self.peek_n(0)
    }

    /// The byte `n` places after the next one, without consuming anything.
    /// `None` where that place lies outside the buffer or cannot be
    /// computed.
    pub fn peek_n(&self, n: usize) -> (r: Option<u8>)
        ensures
            r == byte_at(self.buffer(), self.offset() + n),
    {
        proof {
            use_type_invariant(self);
        }
        match self.pos.index.checked_add(n) {
            Some(idx) => {
                if idx < self.input.len() {
                    Some(self.input[idx])
                } else {
                    None
                }
            },
            None => None,
        }
    }

    /// Consumes and returns the next byte; does nothing at the end of the
    /// buffer.
    pub fn advance(&mut self) -> (r: Option<u8>)
        ensures
            final(self).buffer() == old(self).buffer(),
            r == byte_at(old(self).buffer(), old(self).offset()),
            final(self).offset() == if r is Some {
                old(self).offset() + 1
            } else {
                old(self).offset()
            },
    {
        proof {
            use_type_invariant(&*self);
            lemma_line_column_bounds(self.input@, self.pos.index as int);
        }
        if self.pos.index >= self.input.len() {
            return None;
        }
        let b = self.input[self.pos.index];
        if b == NEWLINE {
            self.pos = Position { index: self.pos.index + 1, line: self.pos.line + 1, column: 1 };
        } else {
            self.pos = Position {
                index: self.pos.index + 1,
                line: self.pos.line,
                column: self.pos.column + 1,
            };
        }
        Some(b)
    }

    /// Consumes the next `n` bytes, or all that are left where they are
    /// fewer.
    pub fn advance_n(&mut self, n: usize)
        ensures
            final(self).buffer() == old(self).buffer(),
            final(self).offset() == if old(self).offset() + n <= old(self).buffer().len() {
                old(self).offset() + n
            } else {
                old(self).buffer().len() as int
            },
    {
        proof {
            use_type_invariant(&*self);
        }
        let mut i: usize = 0;
        while i < n && !self.is_eof()
            invariant
                self.buffer() == old(self).buffer(),
                i <= n,
                self.offset() == old(self).offset() + i,
                self.offset() <= self.buffer().len(),
            decreases n - i,
        {
            self.advance();
            i += 1;
        }
    }

    /// Consumes the next byte where it is `expected`, and says whether it
    /// did.
    pub fn match_byte(&mut self, expected: u8) -> (r: bool)
        ensures
            final(self).buffer() == old(self).buffer(),
            r == (byte_at(old(self).buffer(), old(self).offset()) == Some(expected)),
            final(self).offset() == if r {
                old(self).offset() + 1
            } else {
                old(self).offset()
            },
    {
        match self.peek() {
            Some(b) => {
                if b == expected {
                    self.advance();
                    true
                } else {
                    false
                }
            },
            None => false,
        }
    }

    /// The bytes of the buffer from `start` up to `end`.
    pub fn slice(&self, start: usize, end: usize) -> (r: &[u8])
        requires
            start <= end <= self.buffer().len(),
        ensures
            r@ == self.buffer().subrange(start as int, end as int),
    {
        slice_subrange(self.input.as_slice(), start, end)
    }

    /// Consumes bytes for as long as `f` accepts them, and returns the
    /// offsets where the consumed run starts and ends.
    pub fn consume_while<F: Fn(u8) -> bool>(&mut self, f: F) -> (r: (usize, usize))
        requires
            forall|b: u8| f.requires((b,)),
        ensures
            final(self).buffer() == old(self).buffer(),
            r.0 == old(self).offset(),
            r.1 == final(self).offset(),
            r.0 <= r.1 <= old(self).buffer().len(),
            forall|k: int| r.0 <= k < r.1 ==> f.ensures((#[trigger] old(self).buffer()[k],), true),
            r.1 < old(self).buffer().len() ==> f.ensures((old(self).buffer()[r.1 as int],), false),
    {
        let start = self.index();
        loop
            invariant
                forall|b: u8| f.requires((b,)),
                self.buffer() == old(self).buffer(),
                start == old(self).offset(),
                start <= self.offset() <= self.buffer().len(),
                forall|k: int|
                    start <= k < self.offset() ==> f.ensures((#[trigger] self.buffer()[k],), true),
            ensures
                self.offset() < self.buffer().len() ==> f.ensures(
                    (self.buffer()[self.offset()],),
                    false,
                ),
            decreases self.buffer().len() - self.offset(),
        {
            match self.peek() {
                Some(b) => {
                    if f(b) {
                        self.advance();
                    } else {
                        break ;
                    }
                },
                None => {
                    break ;
                },
            }
        }
        let end = self.index();
        (start, end)
    }

    /// Consumes bytes for as long as `f` accepts them.
    pub fn skip_while<F: Fn(u8) -> bool>(&mut self, f: F)
        requires
            forall|b: u8| f.requires((b,)),
        ensures
            final(self).buffer() == old(self).buffer(),
            old(self).offset() <= final(self).offset() <= old(self).buffer().len(),
            forall|k: int|
                old(self).offset() <= k < final(self).offset() ==> f.ensures(
                    (#[trigger] old(self).buffer()[k],),
                    true,
                ),
            final(self).offset() < old(self).buffer().len() ==> f.ensures(
                (old(self).buffer()[final(self).offset()],),
                false,
            ),
    {
        let _ = self.consume_while(f);
    }

    /// Consumes the ASCII whitespace at the cursor.
    pub fn skip_whitespace(&mut self)
        ensures
            final(self).buffer() == old(self).buffer(),
            final(self).offset() == run_end(
                old(self).buffer(),
                old(self).offset(),
                |b: u8| is_whitespace(b),
            ),
    {
        let ghost start = self.offset();
        let f = |b: u8| -> (r: bool)
            ensures
                r == is_whitespace(b),
            { is_whitespace_byte(b) };
        self.skip_while(f);
        proof {
            lemma_run_end_unique(self.buffer(), start, self.offset(), |b: u8| is_whitespace(b));
        }
    }

    /// Offset, line and column of the next byte to read.
    pub fn current_position(&self) -> (r: (usize, usize, usize))
        ensures
            r.0 == self.offset(),
            r.0 <= self.buffer().len(),
            r.1 == line_of(self.buffer(), self.offset()),
            r.2 == column_of(self.buffer(), self.offset()),
            r.1 >= 1,
            r.2 >= 1,
    {
        (self.index(), self.line(), self.column())
    }

    /// Offset, line and column of the next byte to read, to mark where a
    /// token starts.
    pub fn current_start_pos(&self) -> (r: (usize, usize, usize))
        ensures
            r.0 == self.offset(),
            r.0 <= self.buffer().len(),
            r.1 == line_of(self.buffer(), self.offset()),
            r.2 == column_of(self.buffer(), self.offset()),
            r.1 >= 1,
            r.2 >= 1,
    {
        self.current_position()
    }
}

impl core::str::FromStr for CharStream {
    type Err = LexError;

    /// A cursor at the start of a copy of the bytes of `s`.
    fn from_str(s: &str) -> (r: Result<Self, LexError>)
        ensures
            s.spec_bytes().len() == 0 ==> r == Err::<Self, LexError>(LexError::EmptyInput),
            s.spec_bytes().len() > MAX_INPUT_SIZE ==> r == Err::<Self, LexError>(
                LexError::InputTooLarge { size: s.spec_bytes().len() as usize },
            ),
            0 < s.spec_bytes().len() <= MAX_INPUT_SIZE ==> r is Ok && r.unwrap().buffer()
                == s.spec_bytes() && r.unwrap().offset() == 0,
    {
        Self::from_bytes(s.as_bytes())
    }
}

} // verus!
