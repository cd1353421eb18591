use gm8poconverter::bytes::{put_block, put_bool, put_i32, put_pas, put_str, put_u16, put_u32, put_u32_be, put_u64};
use gm8poconverter::zlib::compress;

#[test]
fn integers_are_little_endian() {
    let mut out = Vec::new();
    put_u16(&mut out, 0x1234);
    put_u32(&mut out, 0xA1B2C3D4);
    put_i32(&mut out, -2);
    put_u64(&mut out, 0x0102030405060708);
    assert_eq!(
        out,
        vec![0x34, 0x12, 0xD4, 0xC3, 0xB2, 0xA1, 0xFE, 0xFF, 0xFF, 0xFF, 8, 7, 6, 5, 4, 3, 2, 1]
    );
}

#[test]
fn big_endian_u32() {
    let mut out = Vec::new();
    put_u32_be(&mut out, 0xA1B2C3D4);
    assert_eq!(out, vec![0xA1, 0xB2, 0xC3, 0xD4]);
}

#[test]
fn booleans_are_four_byte_integers() {
    let mut out = Vec::new();
    put_bool(&mut out, true);
    put_bool(&mut out, false);
    assert_eq!(out, vec![1, 0, 0, 0, 0, 0, 0, 0]);
}

#[test]
fn strings_are_length_prefixed_bytes() {
    let mut out = vec![9];
    put_pas(&mut out, &b"hi\x00\xff".to_vec());
    assert_eq!(out, vec![9, 4, 0, 0, 0, b'h', b'i', 0, 0xff]);
    let mut out2 = Vec::new();
    assert!(put_str(&mut out2, &Vec::new()));
    assert_eq!(out2, vec![0, 0, 0, 0]);
}

#[test]
fn compressed_block_framing() {
    let data = b"pixels".to_vec();
    let mut out = Vec::new();
    assert!(put_block(&mut out, &data));
    let c = compress(&data);
    let mut expected = vec![6, 0, 0, 0];
    expected.extend_from_slice(&(c.len() as u32).to_le_bytes());
    expected.extend_from_slice(&c);
    assert_eq!(out, expected);
}
