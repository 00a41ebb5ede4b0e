use renderware::bytes::{to_signed, u16_at, u32_at};
use renderware::cursor::{Cursor, Float32};
use renderware::error::DecodeError;

#[test]
fn read_u32_is_little_endian() {
    let data = [0x78u8, 0x56, 0x34, 0x12, 0xff];
    let mut cursor = Cursor::new(&data);
    assert_eq!(cursor.read_u32(), Ok(0x1234_5678));
    assert_eq!(cursor.position(), 4);
    assert_eq!(cursor.remaining(), 1);
    assert_eq!(cursor.read_u32(), Err(DecodeError::TruncatedData));
    assert_eq!(cursor.position(), 4);
}

#[test]
fn read_u16_is_little_endian() {
    let data = [0x34u8, 0x12, 0xff, 0xff, 0x01];
    let mut cursor = Cursor::new(&data);
    assert_eq!(cursor.read_u16(), Ok(0x1234));
    assert_eq!(cursor.read_u16(), Ok(0xffff));
    assert_eq!(cursor.read_u16(), Err(DecodeError::TruncatedData));
    assert_eq!(cursor.position(), 4);
    assert_eq!(cursor.read_u8(), Ok(1));
    assert_eq!(cursor.read_u8(), Err(DecodeError::TruncatedData));
}

#[test]
fn byte_functions_read_at_an_offset() {
    let data = [0u8, 0x01, 0x02, 0x03, 0x04, 0x05];
    assert_eq!(u16_at(&data, 1), 0x0201);
    assert_eq!(u32_at(&data, 2), 0x0504_0302);
    assert_eq!(u32_at(&[0xff, 0xff, 0xff, 0xff], 0), u32::MAX);
    assert_eq!(u16_at(&[0xff, 0xff], 0), u16::MAX);
}

#[test]
fn signed_words_are_twos_complement() {
    assert_eq!(to_signed(0), 0);
    assert_eq!(to_signed(0x7fff_ffff), i32::MAX);
    assert_eq!(to_signed(0x8000_0000), i32::MIN);
    assert_eq!(to_signed(0xffff_ffff), -1);
    assert_eq!(to_signed(0xffff_fffe), -2);
}

#[test]
fn read_i32_reads_negative_values() {
    let data = [0xffu8, 0xff, 0xff, 0xff, 0x2a, 0, 0, 0, 0, 0, 0, 0x80];
    let mut cursor = Cursor::new(&data);
    assert_eq!(cursor.read_i32(), Ok(-1));
    assert_eq!(cursor.read_i32(), Ok(42));
    assert_eq!(cursor.read_i32(), Ok(i32::MIN));
    assert_eq!(cursor.read_i32(), Err(DecodeError::TruncatedData));
}

#[test]
fn read_f32_returns_the_bit_pattern() {
    let mut data = Vec::new();
    data.extend_from_slice(&1.5f32.to_le_bytes());
    data.extend_from_slice(&(-0.25f32).to_le_bytes());
    let mut cursor = Cursor::new(&data);
    let first = cursor.read_f32().unwrap();
    assert_eq!(first, Float32 { bits: 0x3fc0_0000 });
    assert_eq!(f32::from_bits(first.bits), 1.5);
    let second = cursor.read_f32().unwrap();
    assert_eq!(f32::from_bits(second.bits), -0.25);
    assert_eq!(cursor.read_f32(), Err(DecodeError::TruncatedData));
}

#[test]
fn read_fixed_bytes_copies_and_advances() {
    let data = [1u8, 2, 3, 4, 5];
    let mut cursor = Cursor::new(&data);
    assert_eq!(cursor.read_fixed_bytes(0), Ok(vec![]));
    assert_eq!(cursor.read_fixed_bytes(3), Ok(vec![1, 2, 3]));
    assert_eq!(cursor.position(), 3);
    assert_eq!(cursor.read_fixed_bytes(3), Err(DecodeError::TruncatedData));
    assert_eq!(cursor.position(), 3);
    assert_eq!(cursor.read_fixed_bytes(2), Ok(vec![4, 5]));
    assert_eq!(cursor.remaining(), 0);
}

#[test]
fn read_fixed_string_stops_at_the_first_nul_and_consumes_the_field() {
    let data = *b"ab\0cd\0\0\0XY";
    let mut cursor = Cursor::new(&data);
    assert_eq!(cursor.read_fixed_string(8), Ok(b"ab".to_vec()));
    assert_eq!(cursor.position(), 8);
    assert_eq!(cursor.read_fixed_string(2), Ok(b"XY".to_vec()));
    assert_eq!(cursor.remaining(), 0);
    assert_eq!(cursor.read_fixed_string(0), Ok(vec![]));
    assert_eq!(cursor.read_fixed_string(1), Err(DecodeError::TruncatedData));
}

#[test]
fn read_fixed_string_of_a_field_that_starts_with_nul_is_empty() {
    let data = *b"\0abc";
    let mut cursor = Cursor::new(&data);
    assert_eq!(cursor.read_fixed_string(4), Ok(vec![]));
    assert_eq!(cursor.position(), 4);
}

#[test]
fn skip_and_seek_stay_within_the_limit() {
    let data = [0u8; 10];
    let mut cursor = Cursor::new(&data);
    assert_eq!(cursor.skip(4), Ok(()));
    assert_eq!(cursor.position(), 4);
    assert_eq!(cursor.skip(7), Err(DecodeError::TruncatedData));
    assert_eq!(cursor.position(), 4);
    assert_eq!(cursor.seek(10), Ok(()));
    assert_eq!(cursor.remaining(), 0);
    assert_eq!(cursor.seek(11), Err(DecodeError::TruncatedData));
    assert_eq!(cursor.position(), 10);
    assert_eq!(cursor.seek(2), Ok(()));
    assert_eq!(cursor.remaining(), 8);
}

#[test]
fn seek_past_the_limit_of_a_sub_cursor_is_refused() {
    let data = [0u8; 10];
    let mut parent = Cursor::new(&data);
    parent.skip(2).unwrap();
    let mut child = parent.sub_cursor(4).unwrap();
    assert_eq!(child.position(), 2);
    assert_eq!(child.remaining(), 4);
    assert_eq!(child.seek(6), Ok(()));
    assert_eq!(child.seek(7), Err(DecodeError::TruncatedData));
    assert_eq!(child.position(), 6);
}

#[test]
fn sub_cursor_parent_advances_by_the_declared_length() {
    let data = [10u8, 11, 12, 13, 14, 15, 16, 17];
    let mut parent = Cursor::new(&data);
    assert_eq!(parent.read_u8(), Ok(10));
    let start = parent.position();
    let mut child = parent.sub_cursor(5).unwrap();
    assert_eq!(parent.position(), start + 5);
    // The child reads only one of its five bytes.
    assert_eq!(child.read_u8(), Ok(11));
    assert_eq!(child.remaining(), 4);
    assert_eq!(parent.position(), start + 5);
    assert_eq!(parent.read_u8(), Ok(16));
}

#[test]
fn sub_cursor_cannot_read_past_its_scope() {
    let data = [1u8, 2, 3, 4, 5, 6];
    let mut parent = Cursor::new(&data);
    let mut child = parent.sub_cursor(3).unwrap();
    assert_eq!(child.read_u32(), Err(DecodeError::TruncatedData));
    assert_eq!(child.read_u16(), Ok(0x0201));
    assert_eq!(child.read_u8(), Ok(3));
    assert_eq!(child.read_u8(), Err(DecodeError::TruncatedData));
    assert_eq!(parent.read_u8(), Ok(4));
}

#[test]
fn sub_cursor_longer_than_what_remains_is_refused() {
    let data = [1u8, 2, 3];
    let mut parent = Cursor::new(&data);
    assert!(matches!(parent.sub_cursor(4), Err(DecodeError::TruncatedData)));
    assert_eq!(parent.position(), 0);
    let child = parent.sub_cursor(3).unwrap();
    assert_eq!(child.remaining(), 3);
    assert_eq!(parent.remaining(), 0);
    let empty = parent.sub_cursor(0).unwrap();
    assert_eq!(empty.remaining(), 0);
}

#[test]
fn empty_buffer_yields_truncated_data() {
    let data: [u8; 0] = [];
    let mut cursor = Cursor::new(&data);
    assert_eq!(cursor.remaining(), 0);
    assert_eq!(cursor.read_u8(), Err(DecodeError::TruncatedData));
    assert_eq!(cursor.read_u16(), Err(DecodeError::TruncatedData));
    assert_eq!(cursor.read_u32(), Err(DecodeError::TruncatedData));
    assert_eq!(cursor.read_i32(), Err(DecodeError::TruncatedData));
    assert_eq!(cursor.skip(1), Err(DecodeError::TruncatedData));
    assert_eq!(cursor.skip(0), Ok(()));
}

#[test]
fn errors_describe_themselves() {
    assert_eq!(DecodeError::TruncatedData.describe(), "truncated data");
    assert_eq!(DecodeError::UnexpectedFormat.describe(), "unexpected format");
    assert_eq!(DecodeError::CountOutOfBounds.describe(), "count out of bounds");
    assert_eq!(DecodeError::MalformedChunk.describe(), "malformed chunk");
}

#[test]
fn fork_reads_without_moving_the_cursor_it_came_from() {
    let data = [1u8, 2, 3, 4];
    let mut cursor = Cursor::new(&data);
    cursor.skip(1).unwrap();
    let mut twin = cursor.fork();
    assert_eq!(twin.position(), 1);
    assert_eq!(twin.remaining(), 3);
    assert_eq!(twin.read_u16(), Ok(0x0302));
    assert_eq!(cursor.position(), 1);
    assert_eq!(cursor.read_u8(), Ok(2));
    assert_eq!(twin.position(), 3);
}
