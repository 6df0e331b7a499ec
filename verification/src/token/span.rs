//! Source locations of tokens.

use vstd::prelude::*;
use crate::charstream::{column_of, line_of};

verus! {

/// Where a token lies in the source: a half-open byte range and the 1-based
/// line and column of both of its ends.
#[derive(Debug, Clone, Copy, PartialEq, Eq, Structural)]
pub struct Span {
    /// Byte offset of the token's first byte.
    pub start: usize,
    /// Byte offset just past the token's last byte.
    pub end: usize,
    /// Line of `start`.
    pub line_start: usize,
    /// Column of `start`.
    pub column_start: usize,
    /// Line of `end`.
    pub line_end: usize,
    /// Column of `end`.
    pub column_end: usize,
}

/// The span of the bytes of `buf` from `start` up to `end`.
pub open spec fn span_between(buf: Seq<u8>, start: int, end: int) -> Span {
    Span {
        start: start as usize,
        end: end as usize,
        line_start: line_of(buf, start) as usize,
        column_start: column_of(buf, start) as usize,
        line_end: line_of(buf, end) as usize,
        column_end: column_of(buf, end) as usize,
    }
}

} // verus!
