use dust_devil_core::text::{read_small_string, read_string, write_small_str, write_str};
use dust_devil_core::wire::{
    read_bool, read_char, read_i64, read_u16, read_u32, read_u64, read_u8, write_bool, write_char,
    write_i64, write_u16, write_u32, write_u64, write_u8, WireError,
};

#[test]
fn integers_are_big_endian() {
    let mut out = Vec::new();
    write_u8(0xAB, &mut out);
    write_u16(0x1234, &mut out);
    write_u32(0xDEADBEEF, &mut out);
    write_u64(0x0102030405060708, &mut out);
    assert_eq!(
        out,
        vec![
            0xAB, 0x12, 0x34, 0xDE, 0xAD, 0xBE, 0xEF, 1, 2, 3, 4, 5, 6, 7, 8
        ]
    );
    assert_eq!(read_u8(&out, 0), Ok((0xAB, 1)));
    assert_eq!(read_u16(&out, 1), Ok((0x1234, 3)));
    assert_eq!(read_u32(&out, 3), Ok((0xDEADBEEF, 7)));
    assert_eq!(read_u64(&out, 7), Ok((0x0102030405060708, 15)));
}

#[test]
fn i64_is_written_as_its_bits() {
    let mut out = Vec::new();
    write_i64(-1, &mut out);
    assert_eq!(out, vec![0xFF; 8]);
    assert_eq!(read_i64(&out, 0), Ok((-1, 8)));
    let mut out = Vec::new();
    write_i64(1_700_000_000, &mut out);
    assert_eq!(out, vec![0, 0, 0, 0, 0x65, 0x53, 0xF1, 0x00]);
    assert_eq!(read_i64(&out, 0), Ok((1_700_000_000, 8)));
}

#[test]
fn short_input_is_unexpected_eof() {
    let buf = [1u8, 2, 3];
    assert_eq!(read_u32(&buf, 0), Err(WireError::UnexpectedEof));
    assert_eq!(read_u16(&buf, 2), Err(WireError::UnexpectedEof));
    assert_eq!(read_u8(&buf, 3), Err(WireError::UnexpectedEof));
    assert_eq!(read_u64(&[0u8; 7], 0), Err(WireError::UnexpectedEof));
}

#[test]
fn bools() {
    let mut out = Vec::new();
    write_bool(true, &mut out);
    write_bool(false, &mut out);
    assert_eq!(out, vec![1, 0]);
    assert_eq!(read_bool(&[0], 0), Ok((false, 1)));
    assert_eq!(read_bool(&[1], 0), Ok((true, 1)));
    assert_eq!(read_bool(&[7], 0), Ok((true, 1)));
}

#[test]
fn chars_are_their_scalar_value() {
    let mut out = Vec::new();
    write_char('é', &mut out);
    write_char('🦀', &mut out);
    assert_eq!(out, vec![0, 0, 0, 0xE9, 0, 1, 0xF9, 0x80]);
    assert_eq!(read_char(&out, 0), Ok(('é', 4)));
    assert_eq!(read_char(&out, 4), Ok(('🦀', 8)));
}

#[test]
fn non_chars_are_refused() {
    assert_eq!(read_char(&[0, 0, 0xD8, 0], 0), Err(WireError::InvalidData));
    assert_eq!(read_char(&[0, 0, 0xDF, 0xFF], 0), Err(WireError::InvalidData));
    assert_eq!(read_char(&[0, 0x11, 0, 0], 0), Err(WireError::InvalidData));
    assert_eq!(read_char(&[0, 0x10, 0xFF, 0xFF], 0), Ok(('\u{10FFFF}', 4)));
}

#[test]
fn strings_have_a_two_byte_length() {
    let mut out = Vec::new();
    assert_eq!(write_str("héllo", &mut out), Ok(()));
    assert_eq!(out, vec![0, 6, b'h', 0xC3, 0xA9, b'l', b'l', b'o']);
    let (s, n) = read_string(&out, 0).unwrap();
    assert_eq!(s, "héllo");
    assert_eq!(n, 8);
}

#[test]
fn empty_string() {
    let mut out = Vec::new();
    assert_eq!(write_str("", &mut out), Ok(()));
    assert_eq!(out, vec![0, 0]);
    assert_eq!(read_string(&out, 0).unwrap(), (String::new(), 2));
}

#[test]
fn too_long_string_is_refused_and_nothing_written() {
    let long = "a".repeat(65536);
    let mut out = vec![9u8];
    assert_eq!(write_str(&long, &mut out), Err(WireError::InvalidData));
    assert_eq!(out, vec![9u8]);
    let longest = "a".repeat(65535);
    let mut out = Vec::new();
    assert_eq!(write_str(&longest, &mut out), Ok(()));
    assert_eq!(&out[..2], &[0xFF, 0xFF]);
    assert_eq!(read_string(&out, 0).unwrap(), (longest, 65537));
}

#[test]
fn small_strings_have_a_one_byte_length() {
    let mut out = Vec::new();
    assert_eq!(write_small_str("bob", &mut out), Ok(()));
    assert_eq!(out, vec![3, b'b', b'o', b'b']);
    assert_eq!(read_small_string(&out, 0).unwrap(), ("bob".to_string(), 4));
    let mut out = Vec::new();
    assert_eq!(write_small_str(&"x".repeat(256), &mut out), Err(WireError::InvalidData));
    assert!(out.is_empty());
    assert_eq!(write_small_str(&"x".repeat(255), &mut out), Ok(()));
    assert_eq!(out.len(), 256);
}

#[test]
fn invalid_utf8_is_refused() {
    assert_eq!(read_string(&[0, 2, 0xC3, 0x28], 0), Err(WireError::InvalidData));
    assert_eq!(read_small_string(&[1, 0xFF], 0), Err(WireError::InvalidData));
    // a surrogate encoded in UTF-8 form
    assert_eq!(read_small_string(&[3, 0xED, 0xA0, 0x80], 0), Err(WireError::InvalidData));
}

#[test]
fn truncated_string_is_unexpected_eof() {
    assert_eq!(read_string(&[0, 5, b'a', b'b'], 0), Err(WireError::UnexpectedEof));
    assert_eq!(read_string(&[0], 0), Err(WireError::UnexpectedEof));
    assert_eq!(read_small_string(&[], 0), Err(WireError::UnexpectedEof));
}
