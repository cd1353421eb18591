use gm8poconverter::asset::{Category, FormatVersion, Script};
use gm8poconverter::game::{GameAssets, Settings};
use gm8poconverter::sections::{put_header, put_room_order, put_settings};
use gm8poconverter::tree::put_group;
use gm8poconverter::zlib::decompress;

fn settings() -> Settings {
    Settings {
        fullscreen: true,
        interpolate_pixels: false,
        dont_draw_border: false,
        display_cursor: true,
        scaling: -1,
        allow_resize: false,
        window_on_top: false,
        clear_colour: 0x123456,
        set_resolution: false,
        vsync: true,
        esc_close_game: true,
        f1_help_menu: false,
        priority: 1,
        version_major: 2,
        version_minor: 3,
        author: b"ann".to_vec(),
        version_info: Vec::new(),
        information: Vec::new(),
    }
}

fn body_of(section: &[u8]) -> (u32, Vec<u8>) {
    let code = u32::from_le_bytes([section[0], section[1], section[2], section[3]]);
    let raw = u32::from_le_bytes([section[4], section[5], section[6], section[7]]) as usize;
    let clen = u32::from_le_bytes([section[8], section[9], section[10], section[11]]) as usize;
    assert_eq!(section.len(), 12 + clen);
    let body = decompress(&section[12..].to_vec()).unwrap();
    assert_eq!(body.len(), raw);
    (code, body)
}

#[test]
fn settings_differ_by_revision_only_in_gated_fields() {
    let icon = Some(vec![7u8, 7, 7]);
    let mut old = Vec::new();
    assert!(put_settings(&mut old, &settings(), &icon, FormatVersion::Gm80));
    let mut new = Vec::new();
    assert!(put_settings(&mut new, &settings(), &icon, FormatVersion::Gm81));
    let (c80, b80) = body_of(&old);
    let (c81, b81) = body_of(&new);
    assert_eq!((c80, c81), (800, 810));
    // the newer revision adds the vsync flag and the icon (flag, length, bytes)
    assert_eq!(b81.len(), b80.len() + 4 + 4 + 4 + 3);
    assert_eq!(&b81[..36], &b80[..36]);
    assert_eq!(&b81[36..40], &[1, 0, 0, 0]);
    assert_eq!(&b81[b81.len() - 11..], &[1, 0, 0, 0, 3, 0, 0, 0, 7, 7, 7]);
    let mut no_icon = Vec::new();
    assert!(put_settings(&mut no_icon, &settings(), &None, FormatVersion::Gm81));
    let (_, b) = body_of(&no_icon);
    assert_eq!(&b[b.len() - 4..], &[0, 0, 0, 0]);
}

#[test]
fn room_order_exact_bytes() {
    let mut out = Vec::new();
    assert!(put_room_order(&mut out, &vec![2, -1]));
    assert_eq!(out, vec![0xBC, 0x02, 0, 0, 2, 0, 0, 0, 2, 0, 0, 0, 0xFF, 0xFF, 0xFF, 0xFF]);
}

#[test]
fn tree_group_lists_occupied_slots_in_order() {
    let scripts = vec![
        Some(Script { name: b"a".to_vec(), source: Vec::new() }),
        None,
        Some(Script { name: b"bc".to_vec(), source: Vec::new() }),
    ];
    let mut out = Vec::new();
    assert!(put_group(&mut out, Category::Scripts, &scripts));
    let mut expected: Vec<u8> = Vec::new();
    for w in [1u32, 7, 0, 7] {
        expected.extend_from_slice(&w.to_le_bytes());
    }
    expected.extend_from_slice(b"Scripts");
    expected.extend_from_slice(&2u32.to_le_bytes());
    for (index, name) in [(0u32, &b"a"[..]), (2, &b"bc"[..])] {
        for w in [3u32, 7, index, name.len() as u32] {
            expected.extend_from_slice(&w.to_le_bytes());
        }
        expected.extend_from_slice(name);
        expected.extend_from_slice(&0u32.to_le_bytes());
    }
    assert_eq!(out, expected);
}

#[test]
fn header_of_the_older_revision() {
    let g = GameAssets {
        game_id: 7,
        guid: [9, 8, 7, 6],
        settings: settings(),
        icon: None,
        triggers: Vec::new(),
        constants: Vec::new(),
        sounds: Vec::new(),
        sprites: Vec::new(),
        backgrounds: Vec::new(),
        paths: Vec::new(),
        scripts: Vec::new(),
        fonts: Vec::new(),
        timelines: Vec::new(),
        objects: Vec::new(),
        rooms: Vec::new(),
        last_instance_id: 0,
        last_tile_id: 0,
        included_files: Vec::new(),
        extensions: Vec::new(),
        help_dialog: gm8poconverter::game::GameInformation {
            bg_colour: 0,
            new_window: false,
            caption: Vec::new(),
            left: 0,
            top: 0,
            width: 0,
            height: 0,
            border: false,
            resizable: false,
            window_on_top: false,
            freeze_game: false,
            content: Vec::new(),
        },
        library_init_strings: Vec::new(),
        room_order: Vec::new(),
    };
    let mut out = Vec::new();
    put_header(&mut out, &g, FormatVersion::Gm80);
    let words: Vec<u32> = out.chunks(4).map(|c| u32::from_le_bytes([c[0], c[1], c[2], c[3]])).collect();
    assert_eq!(words, vec![1234321, 800, 7, 9, 8, 7, 6]);
    let all = gm8poconverter::gmk::encode_game(&g, FormatVersion::Gm80, 5, false).unwrap();
    assert_eq!(&all[..28], &out[..]);
}
