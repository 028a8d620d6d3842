//! Editor coordinates over UTF-8 text, as mathematics.
//!
//! A document is a sequence of bytes holding valid UTF-8. An editor names a
//! place in it by a line number and a column counted in UTF-16 code units;
//! the syntax tree names the same place by a byte offset. The functions here
//! define the correspondence, and the lemmas show that it is one to one.

use vstd::prelude::*;
use vstd::utf8::{
    char_is_scalar, decode_first_scalar, decode_utf8, decode_utf8_first_scalar, encode_scalar,
    is_char_boundary, is_char_boundary_iff_not_is_continuation_byte,
    is_char_boundary_start_end_of_seq, is_continuation_byte, length_of_first_scalar,
    pop_first_scalar, take_first_scalar, valid_first_scalar, valid_utf8, valid_utf8_split,
};

verus! {

/// The byte that ends a line.
pub const NEWLINE: u8 = 10;

/// The number of line ends among the first `o` bytes: the number of the line
/// that offset `o` lies on, counting from zero.
pub open spec fn newline_count(bytes: Seq<u8>, o: int) -> nat
    decreases o,
{
    if o <= 0 || o > bytes.len() {
        0
    } else {
        newline_count(bytes, o - 1) + if bytes[o - 1] == NEWLINE {
            1nat
        } else {
            0nat
        }
    }
}

/// Whether a line begins at offset `o`: at the start of the document and
/// after every line end.
pub open spec fn is_line_start(bytes: Seq<u8>, o: int) -> bool {
    o == 0 || (0 < o <= bytes.len() && bytes[o - 1] == NEWLINE)
}

/// The offset at which the line that holds offset `o` begins.
pub open spec fn line_start_of(bytes: Seq<u8>, o: int) -> int
    decreases o,
{
    if o <= 0 {
        0
    } else if o <= bytes.len() && bytes[o - 1] == NEWLINE {
        o
    } else {
        line_start_of(bytes, o - 1)
    }
}

/// The UTF-16 code units that the scalar value led by byte `b` takes: two
/// for a scalar of four bytes, which UTF-16 writes as a surrogate pair, one
/// for any shorter scalar. A continuation byte leads nothing.
pub open spec fn unit_weight(b: u8) -> nat {
    if is_continuation_byte(b) {
        0
    } else if b >= 0xf0 {
        2
    } else {
        1
    }
}

/// The UTF-16 code units of the scalar values that begin in `[from, to)`.
pub open spec fn utf16_units(bytes: Seq<u8>, from: int, to: int) -> nat
    decreases to - from,
{
    if to <= from {
        0
    } else {
        utf16_units(bytes, from, to - 1) + unit_weight(bytes[to - 1])
    }
}

/// An offset names a place in the text when it lies within the text, its
/// end included, and does not fall inside the encoding of a scalar value.
pub open spec fn valid_offset(bytes: Seq<u8>, o: int) -> bool {
    0 <= o <= bytes.len() && is_char_boundary(bytes, o)
}

/// The line of offset `o`.
pub open spec fn line_at(bytes: Seq<u8>, o: int) -> nat {
    newline_count(bytes, o)
}

/// The column of offset `o`, in UTF-16 code units from the start of its line.
pub open spec fn column_at(bytes: Seq<u8>, o: int) -> nat {
    utf16_units(bytes, line_start_of(bytes, o), o)
}

/// The UTF-16 code units that `chars` take.
pub open spec fn utf16_len(chars: Seq<char>) -> nat
    decreases chars.len(),
{
    if chars.len() == 0 {
        0
    } else {
        utf16_len(chars.drop_first()) + if chars[0] as u32 >= 0x10000 {
            2nat
        } else {
            1nat
        }
    }
}

pub proof fn lemma_newline_count_step(bytes: Seq<u8>, a: int, b: int)
    requires
        0 <= a <= b <= bytes.len(),
    ensures
        newline_count(bytes, a) <= newline_count(bytes, b),
        newline_count(bytes, b) <= newline_count(bytes, a) + (b - a),
        (forall|j: int| a <= j < b ==> bytes[j] != NEWLINE) ==> newline_count(bytes, a)
            == newline_count(bytes, b),
        (exists|j: int| a <= j < b && bytes[j] == NEWLINE) ==> newline_count(bytes, a)
            < newline_count(bytes, b),
    decreases b - a,
{
    if a < b {
        lemma_newline_count_step(bytes, a, b - 1);
    }
}

/// An offset lies on the line that begins at `s` when no line ends between
/// the two.
pub proof fn lemma_line_start_of(bytes: Seq<u8>, s: int, o: int)
    requires
        is_line_start(bytes, s),
        s <= o <= bytes.len(),
        forall|j: int| s <= j < o ==> bytes[j] != NEWLINE,
    ensures
        line_start_of(bytes, o) == s,
    decreases o - s,
{
    if s < o {
        lemma_line_start_of(bytes, s, o - 1);
    }
}

/// The start of the line of `o` is a line start at or before `o`, and no
/// line ends between the two.
pub proof fn lemma_line_start_of_is_start(bytes: Seq<u8>, o: int)
    requires
        0 <= o <= bytes.len(),
    ensures
        is_line_start(bytes, line_start_of(bytes, o)),
        0 <= line_start_of(bytes, o) <= o,
        forall|j: int| line_start_of(bytes, o) <= j < o ==> bytes[j] != NEWLINE,
        newline_count(bytes, line_start_of(bytes, o)) == newline_count(bytes, o),
    decreases o,
{
    if o > 0 && bytes[o - 1] != NEWLINE {
        lemma_line_start_of_is_start(bytes, o - 1);
    }
}

pub proof fn lemma_units_split(bytes: Seq<u8>, a: int, b: int, c: int)
    requires
        a <= b <= c,
    ensures
        utf16_units(bytes, a, c) == utf16_units(bytes, a, b) + utf16_units(bytes, b, c),
    decreases c - b,
{
    if b < c {
        lemma_units_split(bytes, a, b, c - 1);
    }
}

/// The bytes that the scalar value led by byte `b` takes.
pub open spec fn scalar_width(b: u8) -> int {
    if b < 0x80 {
        1
    } else if b < 0xe0 {
        2
    } else if b < 0xf0 {
        3
    } else {
        4
    }
}

/// In valid UTF-8 the places between scalar values are the end of the text
/// and every byte that is not a continuation byte.
pub proof fn lemma_boundary_bytewise(bytes: Seq<u8>, o: int)
    requires
        valid_utf8(bytes),
        0 <= o <= bytes.len(),
    ensures
        is_char_boundary(bytes, o) <==> (o == bytes.len() || !is_continuation_byte(bytes[o])),
{
    if o == bytes.len() {
        is_char_boundary_start_end_of_seq(bytes);
    } else {
        is_char_boundary_iff_not_is_continuation_byte(bytes, o);
    }
}

/// The shape of the text at a scalar value that begins at offset `i`: a
/// leading byte, then continuation bytes only, then the next boundary.
pub proof fn lemma_scalar_at(bytes: Seq<u8>, i: int)
    requires
        valid_utf8(bytes),
        0 <= i < bytes.len(),
        is_char_boundary(bytes, i),
    ensures
        !is_continuation_byte(bytes[i]),
        i + scalar_width(bytes[i]) <= bytes.len(),
        forall|k: int| 1 <= k < scalar_width(bytes[i]) ==> is_continuation_byte(#[trigger] bytes[i + k]),
        is_char_boundary(bytes, i + scalar_width(bytes[i])),
        valid_first_scalar(bytes.subrange(i, bytes.len() as int)),
        length_of_first_scalar(bytes.subrange(i, bytes.len() as int)) == scalar_width(bytes[i]),
{
    let tail = bytes.subrange(i, bytes.len() as int);
    valid_utf8_split(bytes, i);
    assert(valid_first_scalar(tail));
    let w = length_of_first_scalar(tail);
    assert(tail[0] == bytes[i]);
    assert(w == scalar_width(bytes[i]));
    if w >= 2 {
        assert(tail[1] == bytes[i + 1]);
    }
    if w >= 3 {
        assert(tail[2] == bytes[i + 2]);
    }
    if w >= 4 {
        assert(tail[3] == bytes[i + 3]);
    }
    let rest = pop_first_scalar(tail);
    assert(valid_utf8(rest));
    if i + w < bytes.len() {
        assert(valid_first_scalar(rest));
        assert(rest[0] == bytes[i + w]);
    }
    lemma_boundary_bytewise(bytes, i + w);
    lemma_boundary_bytewise(bytes, i);
}

/// Between two boundaries of valid UTF-8, the count by leading bytes is the
/// UTF-16 length of the characters encoded there. It is at most the number
/// of bytes, and positive unless the two boundaries coincide.
pub proof fn lemma_units_are_utf16_len(bytes: Seq<u8>, a: int, b: int)
    requires
        valid_utf8(bytes),
        valid_offset(bytes, a),
        valid_offset(bytes, b),
        a <= b,
    ensures
        valid_utf8(bytes.subrange(a, b)),
        utf16_units(bytes, a, b) == utf16_len(decode_utf8(bytes.subrange(a, b))),
        utf16_units(bytes, a, b) <= b - a,
        a < b ==> utf16_units(bytes, a, b) >= 1,
    decreases b - a,
{
    let sub = bytes.subrange(a, b);
    let tail = bytes.subrange(a, bytes.len() as int);
    valid_utf8_split(bytes, a);
    assert(valid_utf8(tail));
    lemma_boundary_bytewise(bytes, b);
    if b < bytes.len() {
        assert(tail[b - a] == bytes[b]);
    }
    lemma_boundary_bytewise(tail, b - a);
    valid_utf8_split(tail, b - a);
    assert(tail.subrange(0, b - a) =~= sub);
    if a < b {
        lemma_scalar_at(bytes, a);
        let w = scalar_width(bytes[a]);
        // b is a boundary after a, so it lies at or after the next one
        if b < a + w {
            assert(is_continuation_byte(bytes[a + (b - a)]));
        }
        assert(sub[0] == bytes[a]);
        assert(valid_first_scalar(sub));
        assert(length_of_first_scalar(sub) == w);
        assert(pop_first_scalar(sub) =~= bytes.subrange(a + w, b));
        lemma_units_are_utf16_len(bytes, a + w, b);
        lemma_units_split(bytes, a, a + w, b);
        lemma_units_of_scalar(bytes, a);
        let c = decode_first_scalar(sub) as char;
        let chars = decode_utf8(sub);
        assert(chars =~= seq![c] + decode_utf8(pop_first_scalar(sub)));
        assert(chars[0] == c);
        assert(chars.drop_first() =~= decode_utf8(bytes.subrange(a + w, b)));
        decode_utf8_first_scalar(sub);
        char_is_scalar(c);
        assert(take_first_scalar(sub).len() == w);
        assert(encode_scalar(c as u32).len() == w);
        assert((c as u32 >= 0x10000) <==> w == 4);
    } else {
        assert(sub =~= Seq::<u8>::empty());
    }
}

/// A scalar value counts for one code unit, or for two when it takes four
/// bytes.
pub proof fn lemma_units_of_scalar(bytes: Seq<u8>, i: int)
    requires
        valid_utf8(bytes),
        0 <= i < bytes.len(),
        is_char_boundary(bytes, i),
    ensures
        utf16_units(bytes, i, i + scalar_width(bytes[i])) == unit_weight(bytes[i]),
        unit_weight(bytes[i]) == if scalar_width(bytes[i]) == 4 {
            2nat
        } else {
            1nat
        },
{
    lemma_scalar_at(bytes, i);
    let w = scalar_width(bytes[i]);
    reveal_with_fuel(utf16_units, 5);
    assert(utf16_units(bytes, i, i) == 0);
    if w >= 2 {
        assert(is_continuation_byte(bytes[i + 1]));
    }
    if w >= 3 {
        assert(is_continuation_byte(bytes[i + 2]));
    }
    if w >= 4 {
        assert(is_continuation_byte(bytes[i + 3]));
    }
}

/// A line start is a boundary between scalar values.
pub proof fn lemma_line_start_is_boundary(bytes: Seq<u8>, s: int)
    requires
        valid_utf8(bytes),
        is_line_start(bytes, s),
    ensures
        valid_offset(bytes, s),
{
    if s > 0 {
        lemma_boundary_bytewise(bytes, s - 1);
        lemma_scalar_at(bytes, s - 1);
    }
}

/// Two line starts with the same line number are the same offset.
pub proof fn lemma_line_starts_unique(bytes: Seq<u8>, s1: int, s2: int)
    requires
        is_line_start(bytes, s1),
        is_line_start(bytes, s2),
        newline_count(bytes, s1) == newline_count(bytes, s2),
    ensures
        s1 == s2,
{
    if s1 < s2 {
        assert(bytes[s2 - 1] == NEWLINE);
        lemma_newline_count_step(bytes, s1, s2);
    } else if s2 < s1 {
        assert(bytes[s1 - 1] == NEWLINE);
        lemma_newline_count_step(bytes, s2, s1);
    }
}

/// No two places in a text share a line and a column.
pub proof fn lemma_coordinates_unique(bytes: Seq<u8>, o1: int, o2: int)
    requires
        valid_utf8(bytes),
        valid_offset(bytes, o1),
        valid_offset(bytes, o2),
        line_at(bytes, o1) == line_at(bytes, o2),
        column_at(bytes, o1) == column_at(bytes, o2),
    ensures
        o1 == o2,
{
    lemma_line_start_of_is_start(bytes, o1);
    lemma_line_start_of_is_start(bytes, o2);
    let s = line_start_of(bytes, o1);
    lemma_line_starts_unique(bytes, s, line_start_of(bytes, o2));
    if o1 < o2 {
        lemma_units_split(bytes, s, o1, o2);
        lemma_units_are_utf16_len(bytes, o1, o2);
    } else if o2 < o1 {
        lemma_units_split(bytes, s, o2, o1);
        lemma_units_are_utf16_len(bytes, o2, o1);
    }
}

/// The line and the column of a place fit the integers that editors use
/// whenever the length of the text does.
pub proof fn lemma_coordinates_bounded(bytes: Seq<u8>, o: int)
    requires
        valid_utf8(bytes),
        valid_offset(bytes, o),
    ensures
        line_at(bytes, o) <= o,
        column_at(bytes, o) <= o,
{
    lemma_newline_count_step(bytes, 0, o);
    lemma_line_start_of_is_start(bytes, o);
    let s = line_start_of(bytes, o);
    lemma_line_start_is_boundary(bytes, s);
    lemma_units_are_utf16_len(bytes, s, o);
}

/// Coordinates grow with the offset: a later place is on a later line, or
/// on the same line at the same or a later column.
pub proof fn lemma_coordinates_monotonic(bytes: Seq<u8>, o1: int, o2: int)
    requires
        valid_utf8(bytes),
        valid_offset(bytes, o1),
        valid_offset(bytes, o2),
        o1 <= o2,
    ensures
        line_at(bytes, o1) < line_at(bytes, o2) || (line_at(bytes, o1) == line_at(bytes, o2)
            && column_at(bytes, o1) <= column_at(bytes, o2)),
{
    lemma_newline_count_step(bytes, o1, o2);
    if line_at(bytes, o1) == line_at(bytes, o2) {
        lemma_line_start_of_is_start(bytes, o1);
        lemma_line_start_of_is_start(bytes, o2);
        let s = line_start_of(bytes, o1);
        lemma_line_starts_unique(bytes, s, line_start_of(bytes, o2));
        lemma_units_split(bytes, s, o1, o2);
    }
}

/// The column of a place is the UTF-16 length of the characters between
/// the start of its line and the place.
pub proof fn lemma_column_is_utf16_length(bytes: Seq<u8>, o: int)
    requires
        valid_utf8(bytes),
        valid_offset(bytes, o),
    ensures
        column_at(bytes, o) == utf16_len(
            decode_utf8(bytes.subrange(line_start_of(bytes, o), o)),
        ),
{
    lemma_line_start_of_is_start(bytes, o);
    lemma_line_start_is_boundary(bytes, line_start_of(bytes, o));
    lemma_units_are_utf16_len(bytes, line_start_of(bytes, o), o);
}

} // verus!
