use gm8poconverter::action::ActionList;
use gm8poconverter::asset::{Object, Script};
use gm8poconverter::console::{is_cmd, pause};
use gm8poconverter::online::{
    add_online_objects, append_to_scripts, code_action, object_add_code, patch_world_objects,
};
use gm8poconverter::online_patch::{apply_online_patch, PatchError, PatchTexts};
use gm8poconverter::patch::{detect_engine, game_id, lower_hex, replace_all, Engine};

fn s(t: &str) -> Vec<u8> {
    t.as_bytes().to_vec()
}

fn script(name: &str) -> Option<Script> {
    Some(Script { name: s(name), source: s("src") })
}

fn object(name: &str) -> Object {
    Object {
        name: s(name),
        sprite_index: -1,
        solid: false,
        visible: true,
        depth: 0,
        persistent: false,
        parent_index: -1,
        mask_index: -1,
        events: vec![Vec::new(); 12],
    }
}

#[test]
fn engine_is_told_by_script_names() {
    assert_eq!(detect_engine(&vec![script("a"), None, script("b")]), Engine::Unknown);
    assert_eq!(detect_engine(&vec![script("a"), script("save_save")]), Engine::Verve);
    assert_eq!(detect_engine(&vec![script("player_air_jump"), None]), Engine::Verve);
    assert_eq!(detect_engine(&vec![script("custom_sound_properties")]), Engine::Renex);
    // the last telling script decides
    assert_eq!(detect_engine(&vec![script("save_save"), script("custom_sound_properties")]), Engine::Renex);
    assert_eq!(detect_engine(&vec![script("custom_sound_properties"), script("save_save"), script("x")]), Engine::Verve);
}

#[test]
fn game_id_is_md5_in_lower_hex() {
    assert_eq!(game_id(&Vec::new()), s("d41d8cd98f00b204e9800998ecf8427e"));
    assert_eq!(game_id(&s("abc")), s("900150983cd24fb0d6963f7d28e17f72"));
    assert_eq!(lower_hex(&vec![0x00, 0x0f, 0xa0, 0xff]), s("000fa0ff"));
}

#[test]
fn template_substitution() {
    let t = s("id=$GAME_ID;name=$GAME_NAME;again=$GAME_ID");
    let once = replace_all(&t, &s("$GAME_ID"), &s("42"));
    assert_eq!(once, s("id=42;name=$GAME_NAME;again=42"));
    let twice = replace_all(&once, &s("$GAME_NAME"), &s("My Game"));
    assert_eq!(twice, s("id=42;name=My Game;again=42"));
    assert_eq!(replace_all(&s("aaa"), &s("aa"), &s("b")), s("ba"));
    assert_eq!(replace_all(&s("abc"), &Vec::new(), &s("x")), s("abc"));
    assert_eq!(replace_all(&Vec::new(), &s("a"), &s("x")), Vec::<u8>::new());
}

#[test]
fn code_action_is_standard_execute_code() {
    let a = code_action(s("x = 1"));
    assert_eq!((a.id, a.lib_id, a.action_kind, a.execution_type), (603, 1, 7, 2));
    assert_eq!(a.applies_to, -1);
    assert_eq!(a.param_count, 1);
    assert_eq!(a.param_types, vec![1, 0, 0, 0, 0, 0, 0, 0]);
    assert_eq!(a.param_strings.len(), 8);
    assert_eq!(a.param_strings[0], s("x = 1"));
}

#[test]
fn add_code_creates_then_extends_a_sub_event() {
    let mut o = object("o");
    object_add_code(&mut o, 3, 2, s("a"));
    assert_eq!(o.events[3].len(), 1);
    assert_eq!(o.events[3][0].key, 2);
    object_add_code(&mut o, 3, 2, s("b"));
    assert_eq!(o.events[3].len(), 1);
    assert_eq!(o.events[3][0].actions.len(), 2);
    assert_eq!(o.events[3][0].actions[1].param_strings[0], s("b"));
    object_add_code(&mut o, 3, 0, s("c"));
    assert_eq!(o.events[3].len(), 2);
    assert_eq!(o.events[3][1].key, 0);
    assert!(o.events[0].is_empty());
}

#[test]
fn add_code_uses_the_first_matching_sub_event() {
    let mut o = object("o");
    o.events[0].push(ActionList { key: 1, actions: Vec::new() });
    o.events[0].push(ActionList { key: 0, actions: Vec::new() });
    o.events[0].push(ActionList { key: 0, actions: Vec::new() });
    object_add_code(&mut o, 0, 0, s("x"));
    assert_eq!(o.events[0][1].actions.len(), 1);
    assert_eq!(o.events[0][2].actions.len(), 0);
}

#[test]
fn online_objects_are_appended() {
    let mut objects = vec![Some(object("World")), None];
    add_online_objects(&mut objects, s("1"), s("2"), s("3"), s("4"), s("5"), s("6"), s("7"), s("8"));
    assert_eq!(objects.len(), 5);
    let p = objects[2].as_ref().unwrap();
    assert_eq!(p.name, s("__ONLINE_onlinePlayer"));
    assert_eq!((p.visible, p.depth, p.persistent), (false, -10, true));
    assert_eq!(p.events.len(), 11);
    assert_eq!(p.events[8][0].actions[0].param_strings[0], s("3"));
    let c = objects[3].as_ref().unwrap();
    assert_eq!(c.name, s("__ONLINE_chatbox"));
    assert_eq!((c.visible, c.depth, c.persistent), (true, -11, true));
    assert_eq!(c.events[3][0].key, 2);
    assert_eq!(c.events[3][0].actions[0].param_strings[0], s("5"));
    let v = objects[4].as_ref().unwrap();
    assert_eq!(v.name, s("__ONLINE_playerSaved"));
    assert!(v.events[0].is_empty());
    assert_eq!(v.events[3][0].actions[0].param_strings[0], s("8"));
    assert_eq!(v.events[8][0].actions[0].param_strings[0], s("7"));
}

#[test]
fn world_objects_get_the_patch_code() {
    let mut objects = vec![Some(object("World")), Some(object("player")), None];
    patch_world_objects(&mut objects, &s("create"), &s("step"), &s("end"));
    let w = objects[0].as_ref().unwrap();
    assert_eq!(w.events[0][0].actions[0].param_strings[0], s("create"));
    assert_eq!(w.events[3][0].key, 2);
    assert_eq!(w.events[7][0].key, 3);
    assert_eq!(w.events[7][0].actions[0].param_strings[0], s("end"));
    assert!(objects[1].as_ref().unwrap().events.iter().all(|e| e.is_empty()));
}

#[test]
fn scripts_get_appended_code() {
    let mut scripts = vec![script("save_save"), None, script("other")];
    append_to_scripts(&mut scripts, &s("save_save"), &s("extra();"));
    assert_eq!(scripts[0].as_ref().unwrap().source, s("src\nextra();"));
    assert_eq!(scripts[2].as_ref().unwrap().source, s("src"));
}

#[test]
fn console_decisions() {
    assert!(is_cmd(true, true, false));
    assert!(!is_cmd(true, true, true));
    assert!(!is_cmd(true, false, false));
    assert!(!is_cmd(false, true, false));
    assert_eq!(pause(false), s("<< Press Any Key >>\n"));
    assert_eq!(
        pause(true),
        s("\nTip: To convert a game, click and drag it on top of the executable.\n<< Press Any Key >>\n")
    );
}

fn texts(tag: &str, aa: u32) -> PatchTexts {
    PatchTexts {
        http_scripts: vec![
            Script { name: s("hsocket_create"), source: s("return 1") },
            Script { name: s(&format!("{}_save", tag)), source: s("s") },
        ],
        online_player_create: s("pc"),
        online_player_endstep: s("pe"),
        online_player_draw: s("pd"),
        chatbox_create: s("cc"),
        chatbox_endstep: s("ce"),
        chatbox_draw: s("cd"),
        player_saved_draw: s("sd"),
        player_saved_endstep: s("se"),
        world_create: s("id=$GAME_ID name=$GAME_NAME ip=$SERVER_IP"),
        world_end_step: s("we"),
        world_game_end: s("wg"),
        save_script: s(&format!("{}_save", tag)),
        save_extra: s("saved();"),
        load_script: s("save_load"),
        load_extra: s("loaded();"),
        font_aa_level: aa,
        sound_chatbox: vec![1, 2, 3],
        sound_saved: vec![4, 5],
    }
}

fn patch_graph(scripts: Vec<Option<Script>>, objects: Vec<Option<Object>>) -> gm8poconverter::game::GameAssets {
    let mut g = gm8poconverter::game::GameAssets {
        game_id: 1,
        guid: [0; 4],
        settings: gm8poconverter::game::Settings {
            fullscreen: false,
            interpolate_pixels: false,
            dont_draw_border: false,
            display_cursor: true,
            scaling: 0,
            allow_resize: false,
            window_on_top: false,
            clear_colour: 0,
            set_resolution: false,
            vsync: false,
            esc_close_game: true,
            f1_help_menu: true,
            priority: 0,
            version_major: 1,
            version_minor: 0,
            author: Vec::new(),
            version_info: Vec::new(),
            information: Vec::new(),
        },
        icon: None,
        triggers: Vec::new(),
        constants: Vec::new(),
        sounds: Vec::new(),
        sprites: Vec::new(),
        backgrounds: Vec::new(),
        paths: Vec::new(),
        scripts: Vec::new(),
        fonts: vec![None],
        timelines: Vec::new(),
        objects: Vec::new(),
        rooms: Vec::new(),
        last_instance_id: 0,
        last_tile_id: 0,
        included_files: Vec::new(),
        extensions: Vec::new(),
        help_dialog: gm8poconverter::game::GameInformation {
            bg_colour: 0,
            new_window: false,
            caption: Vec::new(),
            left: 0,
            top: 0,
            width: 0,
            height: 0,
            border: false,
            resizable: false,
            window_on_top: false,
            freeze_game: false,
            content: Vec::new(),
        },
        library_init_strings: Vec::new(),
        room_order: Vec::new(),
    };
    g.scripts = scripts;
    g.objects = objects;
    g
}

#[test]
fn online_patch_of_a_verve_game() {
    let mut g = patch_graph(vec![script("save_save"), script("save_load"), None], vec![Some(object("World")), None]);
    let r = apply_online_patch(&mut g, &texts("save", 3), &texts("savedata", 4), &s("abc"), &s("My Game"));
    assert_eq!(r, Ok(Engine::Verve));
    assert_eq!(g.scripts.len(), 5);
    assert_eq!(g.scripts[0].as_ref().unwrap().source, s("src\nsaved();"));
    assert_eq!(g.scripts[1].as_ref().unwrap().source, s("src\nloaded();"));
    assert_eq!(g.scripts[3].as_ref().unwrap().name, s("hsocket_create"));
    assert_eq!(g.scripts[4].as_ref().unwrap().source, s("s\nsaved();"));
    assert_eq!(g.objects.len(), 5);
    let w = g.objects[0].as_ref().unwrap();
    assert_eq!(
        w.events[0][0].actions[0].param_strings[0],
        s("id=900150983cd24fb0d6963f7d28e17f72 name=My Game ip=81.70.53.71")
    );
    assert_eq!(w.events[7][0].actions[0].param_strings[0], s("wg"));
    assert_eq!(g.objects[4].as_ref().unwrap().name, s("__ONLINE_playerSaved"));
    assert_eq!(g.extensions.len(), 1);
    assert_eq!(g.extensions[0].name, s("GM Windows Dialogs"));
    assert_eq!(g.included_files.len(), 2);
    assert_eq!(g.included_files[1].file_name, s("__ONLINE_sndSaved.wav"));
    assert_eq!(g.included_files[1].data, Some(vec![4, 5]));
    assert_eq!(g.included_files[1].source_length, 3);
    assert_eq!(g.fonts.len(), 2);
    assert_eq!(g.fonts[1].as_ref().unwrap().aa_level, 3);
}

#[test]
fn online_patch_of_a_renex_game_uses_its_texts() {
    let mut g = patch_graph(vec![script("custom_sound_properties"), script("savedata_save")], vec![]);
    assert_eq!(apply_online_patch(&mut g, &texts("save", 3), &texts("savedata", 4), &s(""), &s("x")), Ok(Engine::Renex));
    assert_eq!(g.scripts[1].as_ref().unwrap().source, s("src\nsaved();"));
    assert_eq!(g.fonts[1].as_ref().unwrap().aa_level, 4);
    assert_eq!(g.objects.len(), 3);
}

#[test]
fn online_patch_errors_leave_the_game_unchanged() {
    let mut g = patch_graph(vec![script("a")], vec![Some(object("World"))]);
    assert_eq!(apply_online_patch(&mut g, &texts("save", 3), &texts("savedata", 4), &s(""), &s("x")), Err(PatchError::UnknownEngine));
    assert_eq!(g.scripts.len(), 1);
    assert_eq!(g.objects.len(), 1);
    let mut short = object("World");
    short.events.truncate(5);
    let mut h = patch_graph(vec![script("save_save")], vec![Some(short)]);
    assert_eq!(
        apply_online_patch(&mut h, &texts("save", 3), &texts("savedata", 4), &s(""), &s("x")),
        Err(PatchError::WorldWithoutEvents)
    );
    assert_eq!(h.scripts.len(), 1);
    assert!(h.extensions.is_empty());
}
