use gm8poconverter::asset::{Category, Font, FormatVersion, Record, Script};
use gm8poconverter::list::{encode_asset_list, encode_slot, EncodeError};
use gm8poconverter::zlib::decompress;

fn script(name: &str, source: &str) -> Script {
    Script { name: name.as_bytes().to_vec(), source: source.as_bytes().to_vec() }
}

fn font(name: &str, aa_level: u32) -> Font {
    Font {
        name: name.as_bytes().to_vec(),
        sys_name: b"Arial".to_vec(),
        size: 12,
        bold: false,
        italic: true,
        range_start: 32,
        range_end: 127,
        charset: 1,
        aa_level,
    }
}

fn u32_at(b: &[u8], at: usize) -> u32 {
    u32::from_le_bytes([b[at], b[at + 1], b[at + 2], b[at + 3]])
}

/// Splits an encoded list into its count and, per slot, the decompressed
/// record of an occupied slot.
fn parse_list(b: &[u8]) -> (u32, Vec<Option<Vec<u8>>>) {
    let count = u32_at(b, 0);
    let mut at = 4;
    let mut slots = Vec::new();
    for _ in 0..count {
        let flag = u32_at(b, at);
        at += 4;
        if flag == 1 {
            let raw_len = u32_at(b, at) as usize;
            let clen = u32_at(b, at + 4) as usize;
            at += 8;
            let record = decompress(&b[at..at + clen].to_vec()).unwrap();
            assert_eq!(record.len(), raw_len);
            slots.push(Some(record));
            at += clen;
        } else {
            assert_eq!(flag, 0);
            slots.push(None);
        }
    }
    assert_eq!(at, b.len());
    (count, slots)
}

#[test]
fn slot_fidelity_flags_and_count() {
    let mut items: Vec<Option<Script>> = vec![None; 6];
    items[0] = Some(script("a", "x = 1"));
    items[2] = Some(script("b", "y = 2"));
    items[5] = Some(script("c", "z = 3"));
    let bytes = encode_asset_list(&items, Category::Scripts, FormatVersion::Gm81, false).unwrap();
    let (count, slots) = parse_list(&bytes);
    assert_eq!(count, 6);
    let flags: Vec<bool> = slots.iter().map(|s| s.is_some()).collect();
    assert_eq!(flags, vec![true, false, true, false, false, true]);
    assert_eq!(slots[2].clone().unwrap(), items[2].as_ref().unwrap().encode(FormatVersion::Gm81).unwrap());
}

#[test]
fn empty_list_is_a_zero_count() {
    let items: Vec<Option<Script>> = Vec::new();
    assert_eq!(encode_asset_list(&items, Category::Scripts, FormatVersion::Gm80, true), Ok(vec![0, 0, 0, 0]));
}

#[test]
fn empty_slot_is_a_false_flag() {
    let slot: Option<Script> = None;
    assert_eq!(encode_slot(&slot, FormatVersion::Gm80), Some(vec![0, 0, 0, 0]));
}

#[test]
fn order_preserved_under_concurrency() {
    // later items are the cheapest, so with threads they tend to finish first
    let n = 64;
    let items: Vec<Option<Script>> = (0..n)
        .map(|i| Some(script(&format!("s{}", i), &"x".repeat((n - i) * 5000))))
        .collect();
    let par = encode_asset_list(&items, Category::Scripts, FormatVersion::Gm81, true).unwrap();
    let seq = encode_asset_list(&items, Category::Scripts, FormatVersion::Gm81, false).unwrap();
    assert_eq!(par, seq);
    let (count, slots) = parse_list(&par);
    assert_eq!(count as usize, n);
    for (i, s) in slots.iter().enumerate() {
        let rec = s.clone().unwrap();
        let name = format!("s{}", i);
        assert_eq!(u32_at(&rec, 0) as usize, name.len());
        assert_eq!(&rec[4..4 + name.len()], name.as_bytes());
    }
}

#[test]
fn failure_reports_index_seven_and_gives_no_bytes() {
    let mut items: Vec<Option<Font>> = (0..10).map(|i| Some(font(&format!("f{}", i), 2))).collect();
    items[7] = Some(font("bad", 300));
    for parallel in [false, true] {
        let r = encode_asset_list(&items, Category::Fonts, FormatVersion::Gm81, parallel);
        assert_eq!(r, Err(EncodeError::Slot { category: Category::Fonts, index: 7 }));
    }
    // the older revision has no anti-aliasing field, so the same list encodes
    assert!(encode_asset_list(&items, Category::Fonts, FormatVersion::Gm80, true).is_ok());
}

#[test]
fn first_failing_slot_is_reported() {
    let mut items: Vec<Option<Font>> = (0..10).map(|i| Some(font(&format!("f{}", i), 2))).collect();
    items[3] = Some(font("bad", 256));
    items[8] = Some(font("bad", 999));
    let r = encode_asset_list(&items, Category::Fonts, FormatVersion::Gm81, true);
    assert_eq!(r, Err(EncodeError::Slot { category: Category::Fonts, index: 3 }));
}

#[test]
fn font_range_field_is_packed_in_the_newer_revision() {
    let f = font("f", 4);
    let new = f.encode(FormatVersion::Gm81).unwrap();
    let old = f.encode(FormatVersion::Gm80).unwrap();
    assert_eq!(new.len(), old.len());
    let at = new.len() - 8;
    assert_eq!(u32_at(&new, at), 32 + (1 << 16) + (4 << 24));
    assert_eq!(u32_at(&old, at), 32);
    assert_eq!(&new[..at], &old[..at]);
}

#[test]
fn script_record_exact_bytes() {
    let s = script("ab", "c");
    assert_eq!(
        s.encode(FormatVersion::Gm80),
        Some(vec![2, 0, 0, 0, b'a', b'b', 0x20, 0x03, 0, 0, 1, 0, 0, 0, b'c'])
    );
}
