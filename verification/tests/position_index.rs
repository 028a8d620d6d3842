use pipeline_actions::position::{OutOfRange, Position, PositionIndex, Range};
use pipeline_actions::span::SrcSpan;

fn at(line: u32, character: u32) -> Position {
    Position { line, character }
}

#[test]
fn position_of_each_offset_of_plain_text() {
    let index = PositionIndex::new("ab\ncd\n").unwrap();
    assert_eq!(index.position(0), Ok(at(0, 0)));
    assert_eq!(index.position(1), Ok(at(0, 1)));
    assert_eq!(index.position(2), Ok(at(0, 2)));
    assert_eq!(index.position(3), Ok(at(1, 0)));
    assert_eq!(index.position(5), Ok(at(1, 2)));
    assert_eq!(index.position(6), Ok(at(2, 0)));
    assert_eq!(index.position(7), Err(OutOfRange));
    assert_eq!(index.line_count(), 3);
}

#[test]
fn byte_offset_of_each_position_of_plain_text() {
    let index = PositionIndex::new("ab\ncd\n").unwrap();
    assert_eq!(index.byte_offset(0, 0), Ok(0));
    assert_eq!(index.byte_offset(0, 2), Ok(2));
    assert_eq!(index.byte_offset(1, 0), Ok(3));
    assert_eq!(index.byte_offset(1, 2), Ok(5));
    assert_eq!(index.byte_offset(2, 0), Ok(6));
}

#[test]
fn byte_offset_out_of_range() {
    let index = PositionIndex::new("ab\ncd\n").unwrap();
    // past the end of a line: the line end is not part of the line
    assert_eq!(index.byte_offset(0, 3), Err(OutOfRange));
    assert_eq!(index.byte_offset(1, 3), Err(OutOfRange));
    assert_eq!(index.byte_offset(2, 1), Err(OutOfRange));
    // no such line
    assert_eq!(index.byte_offset(3, 0), Err(OutOfRange));
    assert_eq!(index.byte_offset(u32::MAX, u32::MAX), Err(OutOfRange));
}

#[test]
fn empty_text_has_one_place() {
    let index = PositionIndex::new("").unwrap();
    assert_eq!(index.line_count(), 1);
    assert_eq!(index.position(0), Ok(at(0, 0)));
    assert_eq!(index.position(1), Err(OutOfRange));
    assert_eq!(index.byte_offset(0, 0), Ok(0));
    assert_eq!(index.byte_offset(0, 1), Err(OutOfRange));
    assert_eq!(index.byte_offset(1, 0), Err(OutOfRange));
}

#[test]
fn columns_count_utf16_code_units() {
    // a: 1 byte, 1 unit; é: 2 bytes, 1 unit; €: 3 bytes, 1 unit;
    // 😀: 4 bytes, 2 units
    let text = "aé€😀b";
    let index = PositionIndex::new(text).unwrap();
    assert_eq!(text.len(), 11);
    assert_eq!(index.position(0), Ok(at(0, 0)));
    assert_eq!(index.position(1), Ok(at(0, 1)));
    assert_eq!(index.position(3), Ok(at(0, 2)));
    assert_eq!(index.position(6), Ok(at(0, 3)));
    assert_eq!(index.position(10), Ok(at(0, 5)));
    assert_eq!(index.position(11), Ok(at(0, 6)));
    assert_eq!(index.byte_offset(0, 1), Ok(1));
    assert_eq!(index.byte_offset(0, 2), Ok(3));
    assert_eq!(index.byte_offset(0, 3), Ok(6));
    assert_eq!(index.byte_offset(0, 5), Ok(10));
    assert_eq!(index.byte_offset(0, 6), Ok(11));
    assert_eq!(index.byte_offset(0, 7), Err(OutOfRange));
}

#[test]
fn no_place_inside_a_scalar_value() {
    let index = PositionIndex::new("aé€😀b").unwrap();
    for inside in [2, 4, 5, 7, 8, 9] {
        assert_eq!(index.position(inside), Err(OutOfRange));
    }
    // between the two halves of the surrogate pair
    assert_eq!(index.byte_offset(0, 4), Err(OutOfRange));
}

#[test]
fn offset_to_position_and_back() {
    let text = "let x = \"é😀\"\n\n  y€\r\nz";
    let index = PositionIndex::new(text).unwrap();
    let mut places = 0;
    for offset in 0..=text.len() as u32 {
        match index.position(offset) {
            Ok(p) => {
                assert!(text.is_char_boundary(offset as usize));
                assert_eq!(index.byte_offset(p.line, p.character), Ok(offset));
                places += 1;
            }
            Err(OutOfRange) => assert!(!text.is_char_boundary(offset as usize)),
        }
    }
    assert_eq!(places, text.chars().count() + 1);
}

#[test]
fn position_to_offset_and_back() {
    let text = "a😀\nbc\n";
    let index = PositionIndex::new(text).unwrap();
    let mut places = 0;
    for line in 0..5 {
        for character in 0..6 {
            if let Ok(offset) = index.byte_offset(line, character) {
                assert_eq!(index.position(offset), Ok(at(line, character)));
                places += 1;
            }
        }
    }
    assert_eq!(places, 7);
}

#[test]
fn columns_agree_with_the_utf16_encoding() {
    let text = "fn a() { \"ß→𝄞\" }";
    let index = PositionIndex::new(text).unwrap();
    for (offset, _) in text.char_indices() {
        let units = text[..offset].encode_utf16().count() as u32;
        assert_eq!(index.position(offset as u32), Ok(at(0, units)));
    }
}

#[test]
fn range_of_a_span() {
    let index = PositionIndex::new("ab\ncd\n").unwrap();
    let span = SrcSpan::new(1, 4);
    assert_eq!(index.range(span.start, span.end), Ok(Range { start: at(0, 1), end: at(1, 1) }));
    assert_eq!(index.range(1, 7), Err(OutOfRange));
    assert_eq!(index.range(9, 1), Err(OutOfRange));
}

#[test]
fn span_contains_its_start_and_not_its_end() {
    let span = SrcSpan::new(3, 5);
    assert!(!span.contains(2));
    assert!(span.contains(3));
    assert!(span.contains(4));
    assert!(!span.contains(5));
    assert!(!SrcSpan::new(3, 3).contains(3));
    assert!(span.same(SrcSpan { start: 3, end: 5 }));
    assert!(!span.same(SrcSpan::new(3, 6)));
}
