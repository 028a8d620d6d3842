//! The position index of one document snapshot: from byte offsets to the
//! line and column that an editor speaks of, and back.

use vstd::prelude::*;
use vstd::string::{StrSliceExecFns, StringSliceAdditionalSpecFns};
use vstd::utf8::{encode_utf8_valid_utf8, is_continuation_byte, valid_utf8};
use crate::text::{
    column_at, is_line_start, lemma_boundary_bytewise, lemma_coordinates_bounded,
    lemma_coordinates_unique, lemma_line_start_of,
    lemma_line_start_of_is_start, lemma_line_starts_unique, lemma_newline_count_step,
    lemma_units_split, line_at, line_start_of, newline_count, unit_weight, utf16_units,
    valid_offset, NEWLINE,
};

verus! {

/// A place in a document as an editor names it: a line, counted from zero,
/// and a column on it, counted in UTF-16 code units.
#[derive(Clone, Copy, Debug, PartialEq, Eq, Structural)]
pub struct Position {
    pub line: u32,
    pub character: u32,
}

/// A stretch of a document between two positions.
#[derive(Clone, Copy, Debug, PartialEq, Eq, Structural)]
pub struct Range {
    pub start: Position,
    pub end: Position,
}

/// A coordinate that names no place in the document.
#[derive(Clone, Copy, Debug, PartialEq, Eq, Structural)]
pub struct OutOfRange;

/// Whether offset `o` is a place in the text and `p` are its coordinates.
pub open spec fn names(bytes: Seq<u8>, o: int, p: Position) -> bool {
    &&& valid_offset(bytes, o)
    &&& line_at(bytes, o) == p.line
    &&& column_at(bytes, o) == p.character
}

/// The coordinates of offset `o`.
pub open spec fn position_at(bytes: Seq<u8>, o: int) -> Position {
    Position { line: line_at(bytes, o) as u32, character: column_at(bytes, o) as u32 }
}

/// The offset that `p` names, if it names one.
pub open spec fn offset_at(bytes: Seq<u8>, p: Position) -> Option<u32> {
    if exists|o: int| names(bytes, o, p) {
        Some((choose|o: int| names(bytes, o, p)) as u32)
    } else {
        None
    }
}

/// The range between the two ends of `span`, each end by its coordinates.
pub open spec fn range_at(bytes: Seq<u8>, start: u32, end: u32) -> Range {
    Range { start: position_at(bytes, start as int), end: position_at(bytes, end as int) }
}

/// Going from a place to its coordinates and back gives the place again.
pub proof fn lemma_offset_round_trip(bytes: Seq<u8>, o: int)
    requires
        valid_utf8(bytes),
        bytes.len() <= u32::MAX,
        valid_offset(bytes, o),
    ensures
        offset_at(bytes, position_at(bytes, o)) == Some(o as u32),
{
    let p = position_at(bytes, o);
    lemma_coordinates_bounded(bytes, o);
    assert(names(bytes, o, p));
    let found = choose|o2: int| names(bytes, o2, p);
    lemma_coordinates_unique(bytes, found, o);
}

/// An offset that coordinates name is a place in the text, and its
/// coordinates are those.
pub proof fn lemma_position_round_trip(bytes: Seq<u8>, p: Position)
    requires
        valid_utf8(bytes),
        bytes.len() <= u32::MAX,
        offset_at(bytes, p) is Some,
    ensures
        valid_offset(bytes, offset_at(bytes, p)->0 as int),
        position_at(bytes, offset_at(bytes, p)->0 as int) == p,
{
    let found = choose|o2: int| names(bytes, o2, p);
    assert(names(bytes, found, p));
}

/// The line starts of one document, with the text they were taken from.
pub struct PositionIndex {
    bytes: Vec<u8>,
    line_starts: Vec<u32>,
}

impl View for PositionIndex {
    type V = Seq<u8>;

    /// The UTF-8 bytes of the document.
    closed spec fn view(&self) -> Seq<u8> {
        self.bytes@
    }
}

impl PositionIndex {
    #[verifier::type_invariant]
    spec fn inv(&self) -> bool {
        &&& valid_utf8(self.bytes@)
        &&& self.bytes@.len() <= u32::MAX
        &&& self.line_starts@.len() == newline_count(self.bytes@, self.bytes@.len() as int) + 1
        &&& forall|k: int|
            0 <= k < self.line_starts@.len() ==> {
                &&& (#[trigger] self.line_starts@[k]) <= self.bytes@.len()
                &&& is_line_start(self.bytes@, self.line_starts@[k] as int)
                &&& newline_count(self.bytes@, self.line_starts@[k] as int) == k
            }
    }

    /// Indexes `src`. A text longer than the largest offset has no index.
    pub fn new(src: &str) -> (index: Option<PositionIndex>)
        ensures
            index is Some <==> src.spec_bytes().len() <= u32::MAX,
            index matches Some(i) ==> i@ == src.spec_bytes(),
    {
        let bytes = src.as_bytes_vec();
        if bytes.len() > u32::MAX as usize {
            return None;
        }
        proof {
            encode_utf8_valid_utf8(src@);
        }
        let mut line_starts: Vec<u32> = Vec::new();
        line_starts.push(0);
        let mut i: usize = 0;
        while i < bytes.len()
            invariant
                i <= bytes.len() <= u32::MAX,
                line_starts@.len() == newline_count(bytes@, i as int) + 1,
                forall|k: int|
                    0 <= k < line_starts@.len() ==> {
                        &&& (#[trigger] line_starts@[k]) <= i
                        &&& is_line_start(bytes@, line_starts@[k] as int)
                        &&& newline_count(bytes@, line_starts@[k] as int) == k
                    },
            decreases bytes.len() - i,
        {
            if bytes[i] == NEWLINE {
                line_starts.push((i + 1) as u32);
            }
            i += 1;
        }
        Some(PositionIndex { bytes, line_starts })
    }

    /// The number of lines of the document.
    pub fn line_count(&self) -> (n: usize)
        ensures
            n == newline_count(self@, self@.len() as int) + 1,
    {
        proof {
            use_type_invariant(self);
        }
        self.line_starts.len()
    }

    /// The coordinates of byte offset `offset`.
    ///
    /// Fails when the offset lies past the end of the text or inside the
    /// encoding of a scalar value.
    pub fn position(&self, offset: u32) -> (result: Result<Position, OutOfRange>)
        ensures
            result == if valid_offset(self@, offset as int) {
                Ok::<Position, OutOfRange>(position_at(self@, offset as int))
            } else {
                Err::<Position, OutOfRange>(OutOfRange)
            },
    {
        proof {
            use_type_invariant(self);
        }
        let o = offset as usize;
        if o > self.bytes.len() {
            return Err(OutOfRange);
        }
        proof {
            lemma_boundary_bytewise(self.bytes@, o as int);
        }
        if o < self.bytes.len() && is_continuation(self.bytes[o]) {
            return Err(OutOfRange);
        }
        let n = self.line_starts.len();
        let mut lo: usize = 0;
        let mut hi: usize = n;
        while hi - lo > 1
            invariant
                0 <= lo < hi <= n,
                n == self.line_starts@.len(),
                self.line_starts@[lo as int] <= offset,
                hi < n ==> self.line_starts@[hi as int] > offset,
            decreases hi - lo,
        {
            let mid = lo + (hi - lo) / 2;
            if self.line_starts[mid] <= offset {
                lo = mid;
            } else {
                hi = mid;
            }
        }
        let start = self.line_starts[lo] as usize;
        proof {
            let bytes = self.bytes@;
            lemma_newline_count_step(bytes, start as int, o as int);
            if hi < n {
                let next = self.line_starts@[hi as int] as int;
                assert(bytes[next - 1] == NEWLINE);
                lemma_newline_count_step(bytes, o as int, next - 1);
            } else {
                lemma_newline_count_step(bytes, o as int, bytes.len() as int);
            }
            assert(newline_count(bytes, o as int) == lo);
            lemma_line_start_of(bytes, start as int, o as int);
            lemma_coordinates_bounded(bytes, o as int);
        }
        let mut column: u64 = 0;
        let mut j: usize = start;
        while j < o
            invariant
                start <= j <= o <= self.bytes@.len() <= u32::MAX,
                column == utf16_units(self.bytes@, start as int, j as int),
                column <= 2 * (j - start),
            decreases o - j,
        {
            column = column + weight_of(self.bytes[j]);
            j += 1;
        }
        Ok(Position { line: lo as u32, character: column as u32 })
    }

    /// The range between byte offsets `start` and `end`, in coordinates.
    /// Fails unless both offsets are places in the text.
    pub fn range(&self, start: u32, end: u32) -> (result: Result<Range, OutOfRange>)
        ensures
            result == if valid_offset(self@, start as int) && valid_offset(self@, end as int) {
                Ok::<Range, OutOfRange>(range_at(self@, start, end))
            } else {
                Err::<Range, OutOfRange>(OutOfRange)
            },
    {
        let from = match self.position(start) {
            Ok(p) => p,
            Err(e) => {
                return Err(e);
            },
        };
        match self.position(end) {
            Ok(to) => Ok(Range { start: from, end: to }),
            Err(e) => Err(e),
        }
    }

    /// The byte offset of the place at `line` and `character`.
    ///
    /// Fails when the document has no such line, when the line is shorter
    /// than `character` code units, its line end not counted, and when
    /// `character` falls between the two halves of a surrogate pair.
    pub fn byte_offset(&self, line: u32, character: u32) -> (result: Result<u32, OutOfRange>)
        ensures
            result == match offset_at(self@, Position { line, character }) {
                Some(o) => Ok::<u32, OutOfRange>(o),
                None => Err::<u32, OutOfRange>(OutOfRange),
            },
    {
        proof {
            use_type_invariant(self);
        }
        let ghost bytes = self.bytes@;
        let ghost p = Position { line, character };
        let len = self.bytes.len();
        if line as usize >= self.line_starts.len() {
            proof {
                assert forall|o2: int| !names(bytes, o2, p) by {
                    if valid_offset(bytes, o2) {
                        lemma_newline_count_step(bytes, o2, bytes.len() as int);
                    }
                }
            }
            return Err(OutOfRange);
        }
        let start = self.line_starts[line as usize] as usize;
        let target = character as u64;
        let mut o: usize = start;
        let mut column: u64 = 0;
        loop
            invariant
                bytes == self.bytes@,
                valid_utf8(bytes),
                len == bytes.len() <= u32::MAX,
                p == (Position { line, character }),
                target == character,
                is_line_start(bytes, start as int),
                newline_count(bytes, start as int) == line,
                start <= o <= len,
                column == utf16_units(bytes, start as int, o as int),
                forall|j: int| start <= j < o ==> bytes[j] != NEWLINE,
                forall|j: int|
                    start <= j < o && valid_offset(bytes, j) ==> utf16_units(
                        bytes,
                        start as int,
                        j,
                    ) != target,
            decreases len - o,
        {
            proof {
                lemma_boundary_bytewise(bytes, o as int);
            }
            let boundary = o == len || !is_continuation(self.bytes[o]);
            if boundary && column == target {
                proof {
                    lemma_newline_count_step(bytes, start as int, o as int);
                    lemma_line_start_of(bytes, start as int, o as int);
                    assert(names(bytes, o as int, p));
                    let found = choose|o2: int| names(bytes, o2, p);
                    lemma_coordinates_unique(bytes, found, o as int);
                }
                return Ok(o as u32);
            }
            if o == len || self.bytes[o] == NEWLINE || column > target {
                proof {
                    assert forall|o2: int| !names(bytes, o2, p) by {
                        if names(bytes, o2, p) {
                            lemma_line_start_of_is_start(bytes, o2);
                            let s2 = line_start_of(bytes, o2);
                            lemma_line_starts_unique(bytes, s2, start as int);
                            if o2 > o {
                                if column > target {
                                    lemma_units_split(bytes, start as int, o as int, o2);
                                }
                            }
                        }
                    }
                }
                return Err(OutOfRange);
            }
            column = column + weight_of(self.bytes[o]);
            o += 1;
        }
    }
}

/// Whether `b` is a continuation byte of UTF-8.
fn is_continuation(b: u8) -> (yes: bool)
    ensures
        yes == is_continuation_byte(b),
{
    0x80 <= b && b <= 0xbf
}

/// The UTF-16 code units of the scalar value that `b` leads.
fn weight_of(b: u8) -> (units: u64)
    ensures
        units == unit_weight(b),
{
    if is_continuation(b) {
        0
    } else if b >= 0xf0 {
        2
    } else {
        1
    }
}

} // verus!
