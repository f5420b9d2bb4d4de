use mach_imports::error::BindError;
use mach_imports::reader::{read_name, read_opcode, read_sleb128, read_uleb128};

#[test]
fn opcode_is_the_byte_at_the_offset() {
    let bytes = [0x11u8, 0x72, 0x90];
    let mut offset = 1usize;
    assert_eq!(read_opcode(&bytes, &mut offset), Ok(0x72));
    assert_eq!(offset, 2);
}

#[test]
fn opcode_with_the_high_bit_set_is_read_unsigned() {
    let bytes = [0xC3u8];
    let mut offset = 0usize;
    assert_eq!(read_opcode(&bytes, &mut offset), Ok(0xC3));
    assert_eq!(offset, 1);
}

#[test]
fn opcode_at_the_end_is_a_decode_error() {
    let bytes = [0x11u8, 0x72];
    let mut offset = 2usize;
    assert_eq!(read_opcode(&bytes, &mut offset), Err(BindError::Decode { offset: 2 }));
    assert_eq!(offset, 2);
}

#[test]
fn opcode_behind_the_end_is_a_decode_error() {
    let bytes = [0x11u8, 0x72];
    let mut offset = 9usize;
    assert_eq!(read_opcode(&bytes, &mut offset), Err(BindError::Decode { offset: 9 }));
    assert_eq!(offset, 9);
}

#[test]
fn uleb128_of_one_byte() {
    let bytes = [0x7fu8, 0x01];
    let mut offset = 0usize;
    assert_eq!(read_uleb128(&bytes, &mut offset), Ok(127));
    assert_eq!(offset, 1);
}

#[test]
fn uleb128_of_three_bytes() {
    let bytes = [0x00u8, 0xE5, 0x8E, 0x26, 0x00];
    let mut offset = 1usize;
    assert_eq!(read_uleb128(&bytes, &mut offset), Ok(624485));
    assert_eq!(offset, 4);
}

#[test]
fn uleb128_of_the_greatest_value() {
    let bytes = [0xffu8, 0xff, 0xff, 0xff, 0xff, 0xff, 0xff, 0xff, 0xff, 0x01];
    let mut offset = 0usize;
    assert_eq!(read_uleb128(&bytes, &mut offset), Ok(u64::MAX));
    assert_eq!(offset, 10);
}

#[test]
fn uleb128_cut_short_is_a_decode_error() {
    let bytes = [0x01u8, 0x80, 0x80];
    let mut offset = 1usize;
    assert_eq!(read_uleb128(&bytes, &mut offset), Err(BindError::Decode { offset: 1 }));
    assert_eq!(offset, 1);
}

#[test]
fn uleb128_too_long_is_a_decode_error() {
    let bytes = [0x82u8, 0x82, 0x82, 0x82, 0x82, 0x82, 0x82, 0x82, 0x82, 0x82, 0x01];
    let mut offset = 0usize;
    assert_eq!(read_uleb128(&bytes, &mut offset), Err(BindError::Decode { offset: 0 }));
    assert_eq!(offset, 0);
}

#[test]
fn uleb128_at_the_end_is_a_decode_error() {
    let bytes = [0x01u8];
    let mut offset = 1usize;
    assert_eq!(read_uleb128(&bytes, &mut offset), Err(BindError::Decode { offset: 1 }));
    assert_eq!(offset, 1);
}

#[test]
fn sleb128_of_a_negative_number() {
    let bytes = [0xffu8, 0x7e];
    let mut offset = 0usize;
    assert_eq!(read_sleb128(&bytes, &mut offset), Ok(-129));
    assert_eq!(offset, 2);
}

#[test]
fn sleb128_of_a_positive_number() {
    let bytes = [0x00u8, 0x3f];
    let mut offset = 1usize;
    assert_eq!(read_sleb128(&bytes, &mut offset), Ok(63));
    assert_eq!(offset, 2);
}

#[test]
fn sleb128_of_minus_one() {
    let bytes = [0x7fu8];
    let mut offset = 0usize;
    assert_eq!(read_sleb128(&bytes, &mut offset), Ok(-1));
    assert_eq!(offset, 1);
}

#[test]
fn sleb128_cut_short_is_a_decode_error() {
    let bytes = [0x80u8];
    let mut offset = 0usize;
    assert_eq!(read_sleb128(&bytes, &mut offset), Err(BindError::Decode { offset: 0 }));
    assert_eq!(offset, 0);
}

#[test]
fn name_ends_at_the_zero_byte() {
    let bytes = [0x40u8, b'_', b'f', b'o', b'o', 0, b'x', 0];
    let mut offset = 1usize;
    assert_eq!(read_name(&bytes, &mut offset), Ok("_foo"));
    assert_eq!(offset, 6);
}

#[test]
fn name_may_be_empty() {
    let bytes = [0x40u8, 0, b'x'];
    let mut offset = 1usize;
    assert_eq!(read_name(&bytes, &mut offset), Ok(""));
    assert_eq!(offset, 2);
}

#[test]
fn name_may_hold_characters_of_several_bytes() {
    let bytes = [0xc3u8, 0xa9, b't', 0xc3, 0xa9, 0];
    let mut offset = 0usize;
    assert_eq!(read_name(&bytes, &mut offset), Ok("\u{e9}t\u{e9}"));
    assert_eq!(offset, 6);
}

#[test]
fn name_without_a_zero_byte_is_a_decode_error() {
    let bytes = [0x40u8, b'f', b'o', b'o'];
    let mut offset = 1usize;
    assert_eq!(read_name(&bytes, &mut offset), Err(BindError::Decode { offset: 1 }));
    assert_eq!(offset, 1);
}

#[test]
fn name_at_the_end_is_a_decode_error() {
    let bytes = [0x40u8];
    let mut offset = 1usize;
    assert_eq!(read_name(&bytes, &mut offset), Err(BindError::Decode { offset: 1 }));
    assert_eq!(offset, 1);
}

#[test]
fn name_behind_the_end_is_a_decode_error() {
    let bytes = [0x40u8, 0];
    let mut offset = 5usize;
    assert_eq!(read_name(&bytes, &mut offset), Err(BindError::Decode { offset: 5 }));
    assert_eq!(offset, 5);
}

#[test]
fn name_that_is_not_utf8_is_a_decode_error() {
    let bytes = [0xffu8, 0xfe, 0];
    let mut offset = 0usize;
    assert_eq!(read_name(&bytes, &mut offset), Err(BindError::Decode { offset: 0 }));
    assert_eq!(offset, 0);
}
