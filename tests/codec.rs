use gm8poconverter::zlib::{adler32, compress, decompress, round_trip, InflateError};

fn pseudo_random(n: usize, seed: u32) -> Vec<u8> {
    let mut x = seed;
    let mut v = Vec::with_capacity(n);
    for _ in 0..n {
        x = x.wrapping_mul(1664525).wrapping_add(1013904223);
        v.push((x >> 24) as u8);
    }
    v
}

#[test]
fn adler32_of_known_text() {
    assert_eq!(adler32(&b"Wikipedia".to_vec()), 0x11E6_0398);
    assert_eq!(adler32(&Vec::new()), 1);
}

#[test]
fn compress_empty_is_one_final_stored_block() {
    let c = compress(&Vec::new());
    assert_eq!(c, vec![0x78, 0x01, 0x01, 0x00, 0x00, 0xff, 0xff, 0x00, 0x00, 0x00, 0x01]);
}

#[test]
fn compress_small_input_exact_bytes() {
    let c = compress(&b"abc".to_vec());
    assert_eq!(
        c,
        vec![0x78, 0x01, 0x01, 0x03, 0x00, 0xfc, 0xff, b'a', b'b', b'c', 0x02, 0x4d, 0x01, 0x27]
    );
}

#[test]
fn round_trip_empty() {
    let d: Vec<u8> = Vec::new();
    assert_eq!(decompress(&compress(&d)), Ok(d.clone()));
    assert_eq!(round_trip(&d), Ok(d));
}

#[test]
fn round_trip_small() {
    let d = b"hello, project file".to_vec();
    assert_eq!(decompress(&compress(&d)), Ok(d));
}

#[test]
fn round_trip_large_random_spans_several_blocks() {
    let d = pseudo_random(200_000, 7);
    let c = compress(&d);
    // four stored blocks: three full ones and the rest
    assert_eq!(c.len(), 2 + 4 * 5 + d.len() + 4);
    assert_eq!(c[2], 0x00);
    assert_eq!(decompress(&c), Ok(d.clone()));
    assert_eq!(round_trip(&d), Ok(d));
}

#[test]
fn round_trip_exactly_one_full_block() {
    let d = pseudo_random(65535, 3);
    let c = compress(&d);
    assert_eq!(c.len(), 2 + 5 + 65535 + 4);
    assert_eq!(decompress(&c), Ok(d));
}

#[test]
fn decompress_rejects_bad_header() {
    assert_eq!(decompress(&vec![0x78]), Err(InflateError::CorruptStream));
    assert_eq!(decompress(&vec![0x78, 0x02, 0x01, 0, 0, 0xff, 0xff, 0, 0, 0, 1]), Err(InflateError::CorruptStream));
}

#[test]
fn decompress_rejects_bad_checksum() {
    let mut c = compress(&b"abc".to_vec());
    let n = c.len();
    c[n - 1] ^= 1;
    assert_eq!(decompress(&c), Err(InflateError::CorruptStream));
}

#[test]
fn decompress_rejects_bad_length_complement() {
    let mut c = compress(&b"abc".to_vec());
    c[5] = 0;
    assert_eq!(decompress(&c), Err(InflateError::CorruptStream));
}

#[test]
fn decompress_rejects_truncated_stream() {
    let c = compress(&b"abcdef".to_vec());
    assert_eq!(decompress(&c[..c.len() - 3].to_vec()), Err(InflateError::CorruptStream));
}

#[test]
fn decompress_reports_huffman_blocks_as_unsupported() {
    // a zlib stream of "a" made with fixed Huffman codes
    let c = vec![0x78, 0x9c, 0x4b, 0x04, 0x00, 0x00, 0x62, 0x00, 0x62];
    assert_eq!(decompress(&c), Err(InflateError::UnsupportedBlock));
}
