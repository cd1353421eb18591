use gm8poconverter::action::{ActionList, CodeAction};
use gm8poconverter::asset::{
    Background, Category, Font, FormatVersion, Frame, Instance, Object, Path, PathPoint, Room,
    Script, Sound, Sprite, Timeline, Trigger,
};
use gm8poconverter::game::{
    deobfuscate, is_obfuscated, normalize_names, repair_code_actions, should_deobfuscate,
    Constant, DeobfuscateMode, Extension, GameAssets, GameInformation, IncludedFile, Settings,
};
use gm8poconverter::gmk::{encode_game, expected_extension, extension_mismatch, Section, WriteError};
use gm8poconverter::list::EncodeError;
use gm8poconverter::names::make_synthetic_name;
use gm8poconverter::repair::repair_action;

fn s(t: &str) -> Vec<u8> {
    t.as_bytes().to_vec()
}

fn action(kind: u32, exec: u32, id: u32, lib: u32, code: &str) -> CodeAction {
    CodeAction {
        id,
        applies_to: -1,
        is_condition: false,
        invert_condition: false,
        is_relative: false,
        lib_id: lib,
        action_kind: kind,
        execution_type: exec,
        can_be_relative: 0,
        applies_to_something: true,
        fn_name: Vec::new(),
        fn_code: Vec::new(),
        param_count: 1,
        param_types: vec![1, 0, 0, 0, 0, 0, 0, 0],
        param_strings: vec![s(code), vec![], vec![], vec![], vec![], vec![], vec![], vec![]],
    }
}

fn object(name: &str) -> Object {
    let mut events: Vec<Vec<ActionList>> = vec![Vec::new(); 12];
    events[0].push(ActionList {
        key: 0,
        actions: vec![action(7, 2, 900, 5, "x = 1"), action(1, 1, 101, 1, "")],
    });
    events[3].push(ActionList { key: 2, actions: vec![action(7, 2, 603, 1, "y = 2")] });
    Object {
        name: s(name),
        sprite_index: 0,
        solid: false,
        visible: true,
        depth: -5,
        persistent: false,
        parent_index: -1,
        mask_index: -1,
        events,
    }
}

fn sample(name_sprites: bool) -> GameAssets {
    let sprite = |n: &str| Sprite {
        name: if name_sprites { s(n) } else { Vec::new() },
        origin_x: 1,
        origin_y: 2,
        frames: vec![Frame { width: 2, height: 1, data: vec![1, 2, 3, 4, 5, 6, 7, 8] }],
        collision: vec![0, 1],
    };
    GameAssets {
        game_id: 42,
        guid: [1, 2, 3, 4],
        settings: Settings {
            fullscreen: false,
            interpolate_pixels: true,
            dont_draw_border: false,
            display_cursor: true,
            scaling: -1,
            allow_resize: false,
            window_on_top: false,
            clear_colour: 0,
            set_resolution: false,
            vsync: true,
            esc_close_game: true,
            f1_help_menu: true,
            priority: 0,
            version_major: 1,
            version_minor: 0,
            author: s("me"),
            version_info: s("1.0"),
            information: s(""),
        },
        icon: Some(vec![0, 0, 1, 0]),
        triggers: vec![Some(Trigger { name: s("t"), condition: s("true"), moment: 0, constant_name: s("tr") })],
        constants: vec![Constant { name: s("K"), expression: s("3") }],
        sounds: vec![Some(Sound {
            name: s("snd"),
            kind: 0,
            extension: s(".wav"),
            source: s("a.wav"),
            data: Some(vec![1, 2, 3]),
            effects: 0,
            volume: 0x3FF0000000000000,
            pan: 0,
            preload: true,
        })],
        sprites: vec![Some(sprite("spr_a")), None, Some(sprite("spr_b"))],
        backgrounds: vec![Some(Background { name: s("bg"), image: Frame { width: 1, height: 1, data: vec![9, 9, 9, 9] } })],
        paths: vec![Some(Path {
            name: s("pth"),
            connection: 0,
            closed: true,
            precision: 4,
            points: vec![PathPoint { x: 0, y: 0, speed: 0x4059000000000000 }],
        })],
        scripts: vec![Some(Script { name: s("scr"), source: s("return 1") }), None],
        fonts: vec![Some(Font {
            name: s("fnt"),
            sys_name: s("Arial"),
            size: 10,
            bold: true,
            italic: false,
            range_start: 32,
            range_end: 127,
            charset: 0,
            aa_level: 3,
        })],
        timelines: vec![None, Some(Timeline { name: s("tl"), moments: vec![ActionList { key: 5, actions: vec![action(7, 2, 0, 0, "z")] }] })],
        objects: vec![Some(object("obj")), Some(object("obj2"))],
        rooms: vec![Some(Room {
            name: s("rm"),
            caption: s("Room"),
            width: 800,
            height: 608,
            speed: 50,
            persistent: false,
            bg_colour: 0xC0C0C0,
            creation_code: s(""),
            instances: vec![Instance { x: 32, y: 64, object: 0, id: 100001, creation_code: s("") }],
        })],
        last_instance_id: 100001,
        last_tile_id: 1000000,
        included_files: vec![IncludedFile {
            file_name: s("a.txt"),
            source_path: s("a.txt"),
            source_length: 2,
            data: Some(s("hi")),
            export_setting: 0,
            export_folder: s(""),
            overwrite_file: true,
            free_memory: true,
            remove_at_end: true,
        }],
        extensions: vec![Extension { name: s("Ext"), folder_name: s("") }],
        help_dialog: GameInformation {
            bg_colour: 0xFFFFFF,
            new_window: true,
            caption: s("Help"),
            left: -1,
            top: -1,
            width: 600,
            height: 400,
            border: true,
            resizable: true,
            window_on_top: false,
            freeze_game: true,
            content: s("{\\rtf1 hello}"),
        },
        library_init_strings: vec![s("init")],
        room_order: vec![0],
    }
}

#[test]
fn parallel_and_sequential_files_are_identical() {
    let g = sample(true);
    for v in [FormatVersion::Gm80, FormatVersion::Gm81] {
        let a = encode_game(&g, v, 0x40E5_0000_0000_0000, true).unwrap();
        let b = encode_game(&g, v, 0x40E5_0000_0000_0000, false).unwrap();
        assert_eq!(a, b);
        let c = encode_game(&g, v, 0x40E5_0000_0000_0000, true).unwrap();
        assert_eq!(a, c);
    }
}

#[test]
fn header_names_magic_revision_and_game() {
    let g = sample(true);
    let b = encode_game(&g, FormatVersion::Gm81, 0, false).unwrap();
    let words: Vec<u32> = (0..7).map(|i| u32::from_le_bytes([b[4 * i], b[4 * i + 1], b[4 * i + 2], b[4 * i + 3]])).collect();
    assert_eq!(words, vec![1234321, 810, 42, 1, 2, 3, 4]);
}

#[test]
fn versions_differ_in_the_revision_dependent_fields() {
    let g = sample(true);
    let a = encode_game(&g, FormatVersion::Gm80, 0, false).unwrap();
    let b = encode_game(&g, FormatVersion::Gm81, 0, false).unwrap();
    assert_ne!(a, b);
    assert_eq!(&a[4..8], &800u32.to_le_bytes());
    assert_eq!(&b[4..8], &810u32.to_le_bytes());
    assert_eq!(&a[..4], &b[..4]);
    assert_eq!(&a[8..28], &b[8..28]);
    // the tail (room order and resource tree) does not depend on the revision
    let tail = 200;
    assert_eq!(&a[a.len() - tail..], &b[b.len() - tail..]);
}

#[test]
fn version_gating_of_the_extension() {
    assert_eq!(expected_extension(FormatVersion::Gm80), s("gmk"));
    assert_eq!(expected_extension(FormatVersion::Gm81), s("gm81"));
    assert!(!extension_mismatch(FormatVersion::Gm80, &s("gmk")));
    assert!(!extension_mismatch(FormatVersion::Gm81, &s("gm81")));
    assert!(extension_mismatch(FormatVersion::Gm81, &s("gmk")));
    assert!(extension_mismatch(FormatVersion::Gm80, &s("gm81")));
    assert!(!extension_mismatch(FormatVersion::Gm80, &s("txt")));
}

#[test]
fn failing_asset_aborts_the_file() {
    let mut g = sample(true);
    if let Some(f) = g.fonts[0].as_mut() {
        f.aa_level = 1000;
    }
    assert_eq!(
        encode_game(&g, FormatVersion::Gm81, 0, true),
        Err(WriteError::Asset(EncodeError::Slot { category: Category::Fonts, index: 0 }))
    );
    assert!(encode_game(&g, FormatVersion::Gm80, 0, true).is_ok());
    let _ = Section::ResourceTree;
}

#[test]
fn repair_rewrites_broken_code_actions_only() {
    let mut a = action(7, 2, 900, 5, "x = 1");
    repair_action(&mut a);
    assert_eq!((a.id, a.lib_id), (603, 1));
    assert_eq!(a.param_strings[0], s("x = 1"));
    let mut b = action(1, 1, 101, 1, "");
    repair_action(&mut b);
    assert_eq!((b.id, b.lib_id), (101, 1));
    let mut c = action(7, 1, 900, 5, "");
    repair_action(&mut c);
    assert_eq!((c.id, c.lib_id), (900, 5));
}

#[test]
fn repair_twice_equals_repair_once() {
    let mut once = sample(true);
    repair_code_actions(&mut once);
    let mut twice = once.clone();
    repair_code_actions(&mut twice);
    let a = encode_game(&once, FormatVersion::Gm81, 0, false).unwrap();
    let b = encode_game(&twice, FormatVersion::Gm81, 0, false).unwrap();
    assert_eq!(a, b);
    let o = once.objects[0].as_ref().unwrap();
    assert_eq!(o.events[0][0].actions[0].id, 603);
    assert_eq!(o.events[0][0].actions[1].id, 101);
    let t = once.timelines[1].as_ref().unwrap();
    assert_eq!((t.moments[0].actions[0].id, t.moments[0].actions[0].lib_id), (603, 1));
    let unrepaired = sample(true);
    assert_ne!(encode_game(&unrepaired, FormatVersion::Gm81, 0, false).unwrap(), a);
}

#[test]
fn named_graph_is_not_obfuscated() {
    let g = sample(true);
    assert!(!is_obfuscated(&g));
    assert!(!should_deobfuscate(DeobfuscateMode::Auto, &g));
    assert!(should_deobfuscate(DeobfuscateMode::On, &g));
    let mut h = g.clone();
    assert!(!deobfuscate(DeobfuscateMode::Auto, &mut h));
    assert_eq!(h.sprites[0].as_ref().unwrap().name, s("spr_a"));
}

#[test]
fn unnamed_sprites_make_the_graph_obfuscated() {
    let mut g = sample(false);
    assert!(is_obfuscated(&g));
    assert!(!should_deobfuscate(DeobfuscateMode::Off, &g));
    assert!(deobfuscate(DeobfuscateMode::Auto, &mut g));
    let mut names: Vec<Vec<u8>> = Vec::new();
    names.extend(g.triggers.iter().flatten().map(|a| a.name.clone()));
    names.extend(g.sounds.iter().flatten().map(|a| a.name.clone()));
    names.extend(g.sprites.iter().flatten().map(|a| a.name.clone()));
    names.extend(g.backgrounds.iter().flatten().map(|a| a.name.clone()));
    names.extend(g.paths.iter().flatten().map(|a| a.name.clone()));
    names.extend(g.scripts.iter().flatten().map(|a| a.name.clone()));
    names.extend(g.fonts.iter().flatten().map(|a| a.name.clone()));
    names.extend(g.timelines.iter().flatten().map(|a| a.name.clone()));
    names.extend(g.objects.iter().flatten().map(|a| a.name.clone()));
    names.extend(g.rooms.iter().flatten().map(|a| a.name.clone()));
    assert_eq!(names.len(), 12);
    assert_eq!(g.triggers[0].as_ref().unwrap().name, s("trg_0"));
    assert!(names.iter().all(|n| !n.is_empty()));
    let mut sorted = names.clone();
    sorted.sort();
    sorted.dedup();
    assert_eq!(sorted.len(), names.len());
    assert_eq!(g.sprites[2].as_ref().unwrap().name, s("spr_2"));
    assert!(g.sprites[1].is_none());
    assert_eq!(g.objects[1].as_ref().unwrap().name, s("obj_1"));
    assert!(!is_obfuscated(&g));
}

#[test]
fn synthetic_names_are_prefix_and_decimal_index() {
    assert_eq!(make_synthetic_name(Category::Sprites, 12), s("spr_12"));
    assert_eq!(make_synthetic_name(Category::Rooms, 0), s("rom_0"));
    assert_eq!(make_synthetic_name(Category::Timelines, 1234567), s("tml_1234567"));
    let mut g = sample(true);
    normalize_names(&mut g);
    assert_eq!(g.scripts[0].as_ref().unwrap().name, s("scr_0"));
    assert_eq!(g.scripts[0].as_ref().unwrap().source, s("return 1"));
}

#[test]
fn unnamed_trigger_or_script_makes_the_graph_obfuscated() {
    let mut g = sample(true);
    g.triggers[0].as_mut().unwrap().name = Vec::new();
    assert!(is_obfuscated(&g));
    assert!(deobfuscate(DeobfuscateMode::On, &mut g));
    assert_eq!(g.triggers[0].as_ref().unwrap().name, s("trg_0"));
    assert_eq!(g.triggers[0].as_ref().unwrap().condition, s("true"));
    let mut h = sample(true);
    h.scripts[0].as_mut().unwrap().name = Vec::new();
    assert!(is_obfuscated(&h));
}
