//! Source span tracking for error reporting: positions and spans with
//! line and column information.

use vstd::prelude::*;
use crate::text::chars_of;

verus! {

broadcast use vstd::std_specs::vec::group_vec_axioms;

/// A position in source text.
#[derive(Debug, Clone, Copy, PartialEq, Eq, Structural)]
pub struct Position {
    /// Byte offset from the start of the source.
    pub offset: usize,
    /// 1-indexed line number.
    pub line: u32,
    /// 1-indexed column number.
    pub column: u32,
}

impl Position {
    /// Creates a new position.
    pub fn new(offset: usize, line: u32, column: u32) -> (r: Position)
        ensures
            r == (Position { offset, line, column }),
    {
        Position { offset, line, column }
    }

    /// The position at the start of the source: line 1, column 1.
    pub fn start() -> (r: Position)
        ensures
            r == (Position { offset: 0, line: 1, column: 1 }),
    {
        Position { offset: 0, line: 1, column: 1 }
    }
}

impl Default for Position {
    /// The start position.
    fn default() -> (r: Position)
        ensures
            r == (Position { offset: 0, line: 1, column: 1 }),
    {
        Position::start()
    }
}

/// A span of source text: start and exclusive end positions.
#[derive(Debug, Clone, Copy, PartialEq, Eq, Structural)]
pub struct Span {
    /// Start position of the span.
    pub start: Position,
    /// End position of the span (exclusive).
    pub end: Position,
}

impl Span {
    /// Creates a span from line and column ranges, with zero offsets.
    pub fn from_line_col(start_line: u32, start_col: u32, end_line: u32, end_col: u32) -> (r: Span)
        ensures
            r == (Span {
                start: Position { offset: 0, line: start_line, column: start_col },
                end: Position { offset: 0, line: end_line, column: end_col },
            }),
    {
        Span {
            start: Position { offset: 0, line: start_line, column: start_col },
            end: Position { offset: 0, line: end_line, column: end_col },
        }
    }
}

/// The number of bytes the UTF-8 encoding of a character takes.
pub open spec fn utf8_len(c: char) -> int {
    if (c as u32) < 0x80 {
        1
    } else if (c as u32) < 0x800 {
        2
    } else if (c as u32) < 0x10000 {
        3
    } else {
        4
    }
}

/// Computes the number of bytes the UTF-8 encoding of a character takes.
pub fn utf8_len_exec(c: char) -> (r: usize)
    ensures
        r == utf8_len(c),
{
    let u = c as u32;
    if u < 0x80 {
        1
    } else if u < 0x800 {
        2
    } else if u < 0x10000 {
        3
    } else {
        4
    }
}

/// The line and column at a byte offset: characters are walked from the
/// start until the offset is reached; a line break starts a new line.
pub open spec fn line_col_at(
    s: Seq<char>,
    offset: int,
    i: int,
    off: int,
    line: int,
    col: int,
) -> (int, int)
    decreases s.len() - i when 0 <= i <= s.len()
{
    if i >= s.len() || off >= offset {
        (line, col)
    } else if s[i] == '\n' {
        line_col_at(s, offset, i + 1, off + utf8_len(s[i]), line + 1, 1)
    } else {
        line_col_at(s, offset, i + 1, off + utf8_len(s[i]), line, col + 1)
    }
}

/// Calculates the position at a given byte offset in the source.
#[verifier::loop_isolation(false)]
pub fn position_at_offset(source: &str, offset: usize) -> (r: Position)
    requires
        source@.len() < 0x4000_0000,
    ensures
        r.offset == offset,
        (r.line as int, r.column as int) == line_col_at(source@, offset as int, 0, 0, 1, 1),
{
    let cs = chars_of(source);
    let n = cs.len();
    let mut line: u32 = 1;
    let mut column: u32 = 1;
    let mut current_offset: usize = 0;
    let mut i: usize = 0;
    while i < n
        invariant
            i <= n,
            n == cs@.len(),
            cs@ == source@,
            1 <= line <= i + 1,
            1 <= column <= i + 1,
            current_offset <= 4 * i,
            line_col_at(source@, offset as int, 0, 0, 1, 1) == line_col_at(
                source@,
                offset as int,
                i as int,
                current_offset as int,
                line as int,
                column as int,
            ),
        decreases n - i,
    {
        if current_offset >= offset {
            proof {
                assert(line_col_at(
                    source@,
                    offset as int,
                    i as int,
                    current_offset as int,
                    line as int,
                    column as int,
                ) == (line as int, column as int));
            }
            return Position { offset, line, column };
        }
        let ch = cs[i];
        if ch == '\n' {
            line = line + 1;
            column = 1;
        } else {
            column = column + 1;
        }
        current_offset = current_offset + utf8_len_exec(ch);
        i = i + 1;
    }
    Position { offset, line, column }
}

} // verus!
