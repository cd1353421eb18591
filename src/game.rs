//! The asset graph of a project, and the normalization pass that runs on it
//! before encoding: repair of code actions and renaming of obfuscated assets.
use vstd::prelude::*;
use crate::asset::{
    Background, Category, Font, Object, Path, Room, Script, Sound, Sprite, Timeline, Trigger,
};
use crate::names::{
    has_unnamed, any_unnamed, lemma_synthetic_names_unique, rename_slots, slots_renamed,
    synthetic_name, unnamed, Named,
};
use crate::repair::{object_repaired, repair_object, repair_timeline, timeline_repaired};

verus! {

/// A constant: a name and the expression it stands for.
#[derive(Debug, Clone)]
pub struct Constant {
    pub name: Vec<u8>,
    pub expression: Vec<u8>,
}

/// A file shipped with the game, with its data when the project stores it.
#[derive(Debug, Clone)]
pub struct IncludedFile {
    pub file_name: Vec<u8>,
    pub source_path: Vec<u8>,
    pub source_length: u32,
    pub data: Option<Vec<u8>>,
    pub export_setting: u32,
    pub export_folder: Vec<u8>,
    pub overwrite_file: bool,
    pub free_memory: bool,
    pub remove_at_end: bool,
}

/// An extension package the game uses.
#[derive(Debug, Clone)]
pub struct Extension {
    pub name: Vec<u8>,
    pub folder_name: Vec<u8>,
}

/// Global game settings.
#[derive(Debug, Clone)]
pub struct Settings {
    pub fullscreen: bool,
    pub interpolate_pixels: bool,
    pub dont_draw_border: bool,
    pub display_cursor: bool,
    pub scaling: i32,
    pub allow_resize: bool,
    pub window_on_top: bool,
    pub clear_colour: u32,
    pub set_resolution: bool,
    pub vsync: bool,
    pub esc_close_game: bool,
    pub f1_help_menu: bool,
    pub priority: u32,
    pub version_major: u32,
    pub version_minor: u32,
    pub author: Vec<u8>,
    pub version_info: Vec<u8>,
    pub information: Vec<u8>,
}

/// The help text shown in game, and the window that shows it.
#[derive(Debug, Clone)]
pub struct GameInformation {
    pub bg_colour: u32,
    pub new_window: bool,
    pub caption: Vec<u8>,
    pub left: i32,
    pub top: i32,
    pub width: u32,
    pub height: u32,
    pub border: bool,
    pub resizable: bool,
    pub window_on_top: bool,
    pub freeze_game: bool,
    pub content: Vec<u8>,
}

/// Everything a project file holds. Each list of assets is a list of slots;
/// an empty slot is a deleted asset whose id stays reserved.
#[derive(Debug, Clone)]
pub struct GameAssets {
    pub game_id: u32,
    pub guid: [u32; 4],
    pub settings: Settings,
    pub icon: Option<Vec<u8>>,
    pub triggers: Vec<Option<Trigger>>,
    pub constants: Vec<Constant>,
    pub sounds: Vec<Option<Sound>>,
    pub sprites: Vec<Option<Sprite>>,
    pub backgrounds: Vec<Option<Background>>,
    pub paths: Vec<Option<Path>>,
    pub scripts: Vec<Option<Script>>,
    pub fonts: Vec<Option<Font>>,
    pub timelines: Vec<Option<Timeline>>,
    pub objects: Vec<Option<Object>>,
    pub rooms: Vec<Option<Room>>,
    pub last_instance_id: i32,
    pub last_tile_id: i32,
    pub included_files: Vec<IncludedFile>,
    pub extensions: Vec<Extension>,
    pub help_dialog: GameInformation,
    pub library_init_strings: Vec<Vec<u8>>,
    pub room_order: Vec<i32>,
}

/// When names are normalized.
#[derive(Debug, Clone, Copy, PartialEq, Eq, Structural)]
pub enum DeobfuscateMode {
    /// Always.
    On,
    /// Never.
    Off,
    /// When the project looks obfuscated.
    Auto,
}

/// Whether a project looks obfuscated: some asset of some category has an
/// empty name.
pub open spec fn looks_obfuscated(g: GameAssets) -> bool {
    ||| has_unnamed(g.triggers@)
    ||| has_unnamed(g.scripts@)
    ||| has_unnamed(g.backgrounds@)
    ||| has_unnamed(g.fonts@)
    ||| has_unnamed(g.objects@)
    ||| has_unnamed(g.paths@)
    ||| has_unnamed(g.rooms@)
    ||| has_unnamed(g.sounds@)
    ||| has_unnamed(g.sprites@)
    ||| has_unnamed(g.timelines@)
}

/// Tells whether a project looks obfuscated.
pub fn is_obfuscated(g: &GameAssets) -> (r: bool)
    ensures
        r == looks_obfuscated(*g),
{
    any_unnamed(&g.triggers) || any_unnamed(&g.scripts) || any_unnamed(&g.backgrounds)
        || any_unnamed(&g.fonts) || any_unnamed(&g.objects) || any_unnamed(
        &g.paths,
    ) || any_unnamed(&g.rooms) || any_unnamed(&g.sounds) || any_unnamed(&g.sprites)
        || any_unnamed(&g.timelines)
}

/// Whether names are normalized under `mode`.
pub open spec fn deobfuscation_enabled(mode: DeobfuscateMode, g: GameAssets) -> bool {
    match mode {
        DeobfuscateMode::On => true,
        DeobfuscateMode::Off => false,
        DeobfuscateMode::Auto => looks_obfuscated(g),
    }
}

/// Decides whether names are normalized.
pub fn should_deobfuscate(mode: DeobfuscateMode, g: &GameAssets) -> (r: bool)
    ensures
        r == deobfuscation_enabled(mode, *g),
{
    match mode {
        DeobfuscateMode::On => true,
        DeobfuscateMode::Off => false,
        DeobfuscateMode::Auto => is_obfuscated(g),
    }
}

/// Whether `n` is `o` with every asset of every category renamed to the
/// synthetic name of its slot, and nothing else changed.
pub open spec fn names_normalized(o: GameAssets, n: GameAssets) -> bool {
    &&& slots_renamed(Category::Triggers, o.triggers@, n.triggers@)
    &&& slots_renamed(Category::Sounds, o.sounds@, n.sounds@)
    &&& slots_renamed(Category::Sprites, o.sprites@, n.sprites@)
    &&& slots_renamed(Category::Backgrounds, o.backgrounds@, n.backgrounds@)
    &&& slots_renamed(Category::Paths, o.paths@, n.paths@)
    &&& slots_renamed(Category::Scripts, o.scripts@, n.scripts@)
    &&& slots_renamed(Category::Fonts, o.fonts@, n.fonts@)
    &&& slots_renamed(Category::Timelines, o.timelines@, n.timelines@)
    &&& slots_renamed(Category::Objects, o.objects@, n.objects@)
    &&& slots_renamed(Category::Rooms, o.rooms@, n.rooms@)
    &&& n == (GameAssets {
        triggers: n.triggers,
        sounds: n.sounds,
        sprites: n.sprites,
        backgrounds: n.backgrounds,
        paths: n.paths,
        scripts: n.scripts,
        fonts: n.fonts,
        timelines: n.timelines,
        objects: n.objects,
        rooms: n.rooms,
        ..o
    })
}

/// Gives every trigger, sound, sprite, background, path, script, font,
/// timeline, object and room the synthetic name of its category and slot.
pub fn normalize_names(g: &mut GameAssets)
    ensures
        names_normalized(*old(g), *final(g)),
{
    rename_slots(Category::Triggers, &mut g.triggers);
    rename_slots(Category::Sounds, &mut g.sounds);
    rename_slots(Category::Sprites, &mut g.sprites);
    rename_slots(Category::Backgrounds, &mut g.backgrounds);
    rename_slots(Category::Paths, &mut g.paths);
    rename_slots(Category::Scripts, &mut g.scripts);
    rename_slots(Category::Fonts, &mut g.fonts);
    rename_slots(Category::Timelines, &mut g.timelines);
    rename_slots(Category::Objects, &mut g.objects);
    rename_slots(Category::Rooms, &mut g.rooms);
}

/// Normalizes names when `mode` asks for it; tells whether it did.
pub fn deobfuscate(mode: DeobfuscateMode, g: &mut GameAssets) -> (r: bool)
    ensures
        r == deobfuscation_enabled(mode, *old(g)),
        r ==> names_normalized(*old(g), *final(g)),
        !r ==> *final(g) == *old(g),
{
    let on = should_deobfuscate(mode, g);
    if on {
        normalize_names(g);
    }
    on
}

/// The name of the asset in slot `i` of a list, if that slot is occupied.
pub open spec fn slot_name<T: Named>(s: Seq<Option<T>>, i: int) -> Option<Seq<u8>> {
    if 0 <= i < s.len() {
        match s[i] {
            Some(a) => Some(a.name_of()),
            None => None,
        }
    } else {
        None
    }
}

/// The name of the asset in slot `i` of category `c`, if that slot is
/// occupied.
pub open spec fn name_at(g: GameAssets, c: Category, i: int) -> Option<Seq<u8>> {
    match c {
        Category::Triggers => slot_name(g.triggers@, i),
        Category::Sounds => slot_name(g.sounds@, i),
        Category::Sprites => slot_name(g.sprites@, i),
        Category::Backgrounds => slot_name(g.backgrounds@, i),
        Category::Paths => slot_name(g.paths@, i),
        Category::Scripts => slot_name(g.scripts@, i),
        Category::Fonts => slot_name(g.fonts@, i),
        Category::Timelines => slot_name(g.timelines@, i),
        Category::Objects => slot_name(g.objects@, i),
        Category::Rooms => slot_name(g.rooms@, i),
    }
}

proof fn lemma_unnamed_slot<T: Named>(s: Seq<Option<T>>)
    ensures
        has_unnamed(s) <==> exists|i: int| slot_name(s, i) == Some(Seq::<u8>::empty()),
{
    if has_unnamed(s) {
        let i = choose|i: int| 0 <= i < s.len() && unnamed(#[trigger] s[i]);
        assert(slot_name(s, i) =~= Some(Seq::<u8>::empty()));
    }
    if exists|i: int| slot_name(s, i) == Some(Seq::<u8>::empty()) {
        let i = choose|i: int| slot_name(s, i) == Some(Seq::<u8>::empty());
        assert(unnamed(s[i]));
    }
}

/// Automatic mode leaves a project whose assets all have names as it is,
/// and normalizes one in which some sprite has an empty name.
pub proof fn lemma_auto_detection(g: GameAssets)
    ensures
        (forall|c: Category, i: int| #[trigger] name_at(g, c, i) is Some ==> name_at(g, c, i)->Some_0.len() > 0)
            ==> !deobfuscation_enabled(DeobfuscateMode::Auto, g),
        (exists|i: int| name_at(g, Category::Sprites, i) == Some(Seq::<u8>::empty()))
            ==> deobfuscation_enabled(DeobfuscateMode::Auto, g),
{
    lemma_unnamed_slot(g.triggers@);
    lemma_unnamed_slot(g.scripts@);
    lemma_unnamed_slot(g.backgrounds@);
    lemma_unnamed_slot(g.fonts@);
    lemma_unnamed_slot(g.objects@);
    lemma_unnamed_slot(g.paths@);
    lemma_unnamed_slot(g.rooms@);
    lemma_unnamed_slot(g.sounds@);
    lemma_unnamed_slot(g.sprites@);
    lemma_unnamed_slot(g.timelines@);
    if forall|c: Category, i: int| #[trigger] name_at(g, c, i) is Some ==> name_at(g, c, i)->Some_0.len() > 0 {
        assert forall|i: int| slot_name(g.triggers@, i) != Some(Seq::<u8>::empty()) by {
            assert(name_at(g, Category::Triggers, i) == slot_name(g.triggers@, i));
        }
        assert forall|i: int| slot_name(g.scripts@, i) != Some(Seq::<u8>::empty()) by {
            assert(name_at(g, Category::Scripts, i) == slot_name(g.scripts@, i));
        }
        assert forall|i: int| slot_name(g.backgrounds@, i) != Some(Seq::<u8>::empty()) by {
            assert(name_at(g, Category::Backgrounds, i) == slot_name(g.backgrounds@, i));
        }
        assert forall|i: int| slot_name(g.fonts@, i) != Some(Seq::<u8>::empty()) by {
            assert(name_at(g, Category::Fonts, i) == slot_name(g.fonts@, i));
        }
        assert forall|i: int| slot_name(g.objects@, i) != Some(Seq::<u8>::empty()) by {
            assert(name_at(g, Category::Objects, i) == slot_name(g.objects@, i));
        }
        assert forall|i: int| slot_name(g.paths@, i) != Some(Seq::<u8>::empty()) by {
            assert(name_at(g, Category::Paths, i) == slot_name(g.paths@, i));
        }
        assert forall|i: int| slot_name(g.rooms@, i) != Some(Seq::<u8>::empty()) by {
            assert(name_at(g, Category::Rooms, i) == slot_name(g.rooms@, i));
        }
        assert forall|i: int| slot_name(g.sounds@, i) != Some(Seq::<u8>::empty()) by {
            assert(name_at(g, Category::Sounds, i) == slot_name(g.sounds@, i));
        }
        assert forall|i: int| slot_name(g.sprites@, i) != Some(Seq::<u8>::empty()) by {
            assert(name_at(g, Category::Sprites, i) == slot_name(g.sprites@, i));
        }
        assert forall|i: int| slot_name(g.timelines@, i) != Some(Seq::<u8>::empty()) by {
            assert(name_at(g, Category::Timelines, i) == slot_name(g.timelines@, i));
        }
    }
}

proof fn lemma_renamed_slot<T: Named>(c: Category, o: Seq<Option<T>>, n: Seq<Option<T>>, i: int)
    requires
        slots_renamed(c, o, n),
    ensures
        slot_name(o, i) is Some <==> slot_name(n, i) is Some,
        slot_name(n, i) is Some ==> slot_name(n, i) == Some(synthetic_name(c, i as nat)),
{
    if 0 <= i < o.len() {
        assert(match (o[i], n[i]) {
            (None, None) => true,
            (Some(a), Some(b)) => b.name_of() == synthetic_name(c, i as nat) && b.same_but_name(&a),
            _ => false,
        });
    }
}

proof fn lemma_normalized_name(o: GameAssets, n: GameAssets, c: Category, i: int)
    requires
        names_normalized(o, n),
    ensures
        name_at(o, c, i) is Some <==> name_at(n, c, i) is Some,
        name_at(n, c, i) is Some ==> name_at(n, c, i) == Some(synthetic_name(c, i as nat)),
{
    match c {
        Category::Triggers => lemma_renamed_slot(c, o.triggers@, n.triggers@, i),
        Category::Sounds => lemma_renamed_slot(c, o.sounds@, n.sounds@, i),
        Category::Sprites => lemma_renamed_slot(c, o.sprites@, n.sprites@, i),
        Category::Backgrounds => lemma_renamed_slot(c, o.backgrounds@, n.backgrounds@, i),
        Category::Paths => lemma_renamed_slot(c, o.paths@, n.paths@, i),
        Category::Scripts => lemma_renamed_slot(c, o.scripts@, n.scripts@, i),
        Category::Fonts => lemma_renamed_slot(c, o.fonts@, n.fonts@, i),
        Category::Timelines => lemma_renamed_slot(c, o.timelines@, n.timelines@, i),
        Category::Objects => lemma_renamed_slot(c, o.objects@, n.objects@, i),
        Category::Rooms => lemma_renamed_slot(c, o.rooms@, n.rooms@, i),
    }
}

/// After names are normalized, every asset of every category is
/// still in its slot and has a non-empty name, and no two slots share a name.
pub proof fn lemma_normalized_names_unique(
    o: GameAssets,
    n: GameAssets,
    c1: Category,
    i1: int,
    c2: Category,
    i2: int,
)
    requires
        names_normalized(o, n),
    ensures
        name_at(o, c1, i1) is Some <==> name_at(n, c1, i1) is Some,
        name_at(n, c1, i1) is Some ==> name_at(n, c1, i1)->Some_0.len() > 0,
        name_at(n, c1, i1) is Some && name_at(n, c2, i2) is Some && (c1 != c2 || i1 != i2)
            ==> name_at(n, c1, i1) != name_at(n, c2, i2),
{
    lemma_normalized_name(o, n, c1, i1);
    lemma_normalized_name(o, n, c2, i2);
    if name_at(n, c1, i1) is Some {
        assert(0 <= i1);
        lemma_synthetic_names_unique(c1, i1 as nat, c2, i2 as nat);
        if name_at(n, c2, i2) is Some {
            assert(0 <= i2);
        }
    }
}

/// Whether `n` is the objects of `o` with their actions repaired.
pub open spec fn objects_repaired(o: Seq<Option<Object>>, n: Seq<Option<Object>>) -> bool {
    &&& n.len() == o.len()
    &&& forall|i: int|
        0 <= i < o.len() ==> match (#[trigger] o[i], n[i]) {
            (None, None) => true,
            (Some(a), Some(b)) => object_repaired(a, b),
            _ => false,
        }
}

/// Whether `n` is the timelines of `o` with their actions repaired.
pub open spec fn timelines_repaired(o: Seq<Option<Timeline>>, n: Seq<Option<Timeline>>) -> bool {
    &&& n.len() == o.len()
    &&& forall|i: int|
        0 <= i < o.len() ==> match (#[trigger] o[i], n[i]) {
            (None, None) => true,
            (Some(a), Some(b)) => timeline_repaired(a, b),
            _ => false,
        }
}

/// Whether `n` is `o` with every action of every object and timeline
/// repaired, and nothing else changed.
pub open spec fn actions_repaired(o: GameAssets, n: GameAssets) -> bool {
    &&& objects_repaired(o.objects@, n.objects@)
    &&& timelines_repaired(o.timelines@, n.timelines@)
    &&& n == (GameAssets { objects: n.objects, timelines: n.timelines, ..o })
}

/// Repairs the code actions of every object event and timeline moment.
pub fn repair_code_actions(g: &mut GameAssets)
    ensures
        actions_repaired(*old(g), *final(g)),
{
    let ghost start = g.objects@;
    let mut i: usize = 0;
    while i < g.objects.len()
        invariant
            i <= g.objects.len(),
            g.objects.len() == start.len(),
            start == old(g).objects@,
            *g == (GameAssets { objects: g.objects, ..*old(g) }),
            forall|j: int|
                0 <= j < i ==> match (#[trigger] start[j], g.objects@[j]) {
                    (None, None) => true,
                    (Some(a), Some(b)) => object_repaired(a, b),
                    _ => false,
                },
            forall|j: int| i <= j < g.objects.len() ==> g.objects@[j] == start[j],
        decreases g.objects.len() - i,
    {
        match &mut g.objects[i] {
            None => {},
            Some(o) => repair_object(o),
        }
        i = i + 1;
    }
    let ghost mid = *g;
    let ghost tstart = g.timelines@;
    let mut k: usize = 0;
    while k < g.timelines.len()
        invariant
            k <= g.timelines.len(),
            g.timelines.len() == tstart.len(),
            tstart == mid.timelines@,
            *g == (GameAssets { timelines: g.timelines, ..mid }),
            forall|j: int|
                0 <= j < k ==> match (#[trigger] tstart[j], g.timelines@[j]) {
                    (None, None) => true,
                    (Some(a), Some(b)) => timeline_repaired(a, b),
                    _ => false,
                },
            forall|j: int| k <= j < g.timelines.len() ==> g.timelines@[j] == tstart[j],
        decreases g.timelines.len() - k,
    {
        match &mut g.timelines[k] {
            None => {},
            Some(t) => repair_timeline(t),
        }
        k = k + 1;
    }
}

} // verus!
