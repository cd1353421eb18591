//! The online patch as one step on a project: it tells the engine, then adds
//! the engine's scripts, objects, extension, sounds and font, and hooks the
//! engine's World object and save scripts. The texts it adds are given to it.
use vstd::prelude::*;
use crate::asset::{Font, Object, Script};
use crate::bytes::same_bytes;
use crate::game::{Extension, GameAssets, IncludedFile};
use crate::online::{
    add_online_objects, append_to_scripts, chatbox_name, clone_bytes, holds_only_code,
    is_online_object, online_player_name, patch_world_objects, player_saved_name, world_name,
    world_patched, worlds_have_events,
};
use crate::patch::{detect_engine, engine_of, game_id, hex_of, md5_of, replace_all, replaced, Engine};

verus! {

/// The texts an engine's patch adds.
#[derive(Debug, Clone)]
pub struct PatchTexts {
    /// The scripts of the HTTP extension, added after the game's scripts.
    pub http_scripts: Vec<Script>,
    pub online_player_create: Vec<u8>,
    pub online_player_endstep: Vec<u8>,
    pub online_player_draw: Vec<u8>,
    pub chatbox_create: Vec<u8>,
    pub chatbox_endstep: Vec<u8>,
    pub chatbox_draw: Vec<u8>,
    pub player_saved_draw: Vec<u8>,
    pub player_saved_endstep: Vec<u8>,
    /// The create code of World, with the placeholders `$GAME_ID`,
    /// `$GAME_NAME` and `$SERVER_IP`.
    pub world_create: Vec<u8>,
    pub world_end_step: Vec<u8>,
    pub world_game_end: Vec<u8>,
    /// The script that saves the game, and the code appended to it.
    pub save_script: Vec<u8>,
    pub save_extra: Vec<u8>,
    /// The script that loads the game, and the code appended to it.
    pub load_script: Vec<u8>,
    pub load_extra: Vec<u8>,
    /// The anti-aliasing level of the added font.
    pub font_aa_level: u32,
    /// The two sounds added as included files: chat message and save.
    pub sound_chatbox: Vec<u8>,
    pub sound_saved: Vec<u8>,
}

/// Why the online patch cannot be applied.
#[derive(Debug, Clone, Copy, PartialEq, Eq, Structural)]
pub enum PatchError {
    /// No script tells which engine the game was built with.
    UnknownEngine,
    /// An object named World lacks the event types the patch adds code to.
    WorldWithoutEvents,
}

/// The address of the online service.
pub open spec fn server_ip() -> Seq<u8> {
    seq![56u8, 49u8, 46u8, 55u8, 48u8, 46u8, 53u8, 51u8, 46u8, 55u8, 49u8]
}

/// The create code of World for a game: the template with the game's id,
/// name and the service's address put in.
pub open spec fn world_create_code(template: Seq<u8>, exe: Seq<u8>, game_name: Seq<u8>) -> Seq<u8> {
    replaced(
        replaced(replaced(template, seq![36u8, 71u8, 65u8, 77u8, 69u8, 95u8, 73u8, 68u8], hex_of(md5_of(exe))), seq![36u8, 71u8, 65u8, 77u8, 69u8, 95u8, 78u8, 65u8, 77u8, 69u8], game_name),
        seq![36u8, 83u8, 69u8, 82u8, 86u8, 69u8, 82u8, 95u8, 73u8, 80u8],
        server_ip(),
    )
}

/// Whether a slot holds a script with the given name and source.
pub open spec fn script_is(slot: Option<Script>, name: Seq<u8>, source: Seq<u8>) -> bool {
    match slot {
        Some(b) => b.name@ == name && b.source@ == source,
        None => false,
    }
}

/// A line break and `extra` when `name` is `target`, else nothing.
pub open spec fn extra_for(name: Seq<u8>, target: Seq<u8>, extra: Seq<u8>) -> Seq<u8> {
    if name == target {
        seq![10u8] + extra
    } else {
        Seq::empty()
    }
}

/// A script's source after the patch: the save and load code appended when
/// its name is that of the save or load script.
pub open spec fn patched_source(name: Seq<u8>, source: Seq<u8>, t: PatchTexts) -> Seq<u8> {
    source + extra_for(name, t.save_script@, t.save_extra@) + extra_for(name, t.load_script@, t.load_extra@)
}

/// The texts used for `engine`.
pub open spec fn texts_for(engine: Engine, verve: PatchTexts, renex: PatchTexts) -> PatchTexts {
    if engine == Engine::Verve {
        verve
    } else {
        renex
    }
}

/// Whether the scripts of `n` are those of `o` followed by the HTTP scripts,
/// each with its source patched.
pub open spec fn scripts_patched(o: Seq<Option<Script>>, n: Seq<Option<Script>>, t: PatchTexts) -> bool {
    &&& n.len() == o.len() + t.http_scripts.len()
    &&& forall|i: int|
        0 <= i < o.len() ==> match (#[trigger] o[i], n[i]) {
            (Some(a), Some(b)) => b.name == a.name && b.source@ == patched_source(a.name@, a.source@, t),
            (None, None) => true,
            _ => false,
        }
    &&& forall|k: int|
        0 <= k < t.http_scripts.len() ==> script_is(
            #[trigger] n[o.len() + k],
            t.http_scripts@[k].name@,
            patched_source(t.http_scripts@[k].name@, t.http_scripts@[k].source@, t),
        )
}

/// Whether the objects of `n` are those of `o`, with every World patched,
/// followed by the three online objects.
pub open spec fn objects_patched(o: Seq<Option<Object>>, n: Seq<Option<Object>>, t: PatchTexts, create: Seq<u8>) -> bool {
    &&& n.len() == o.len() + 3
    &&& forall|i: int|
        0 <= i < o.len() ==> match (#[trigger] o[i], n[i]) {
            (Some(a), Some(b)) => if a.name@ == world_name() {
                world_patched(a, b, create, t.world_end_step@, t.world_game_end@)
            } else {
                b == a
            },
            (None, None) => true,
            _ => false,
        }
    &&& ({
        let m = o.len() as int;
        &&& n[m] is Some && n[m + 1] is Some && n[m + 2] is Some
        &&& is_online_object(n[m]->Some_0, online_player_name(), false, -10i32, true)
        &&& holds_only_code(n[m]->Some_0.events@, 0, 0, t.online_player_create@)
        &&& holds_only_code(n[m]->Some_0.events@, 3, 2, t.online_player_endstep@)
        &&& holds_only_code(n[m]->Some_0.events@, 8, 0, t.online_player_draw@)
        &&& is_online_object(n[m + 1]->Some_0, chatbox_name(), true, -11i32, true)
        &&& holds_only_code(n[m + 1]->Some_0.events@, 0, 0, t.chatbox_create@)
        &&& holds_only_code(n[m + 1]->Some_0.events@, 3, 2, t.chatbox_endstep@)
        &&& holds_only_code(n[m + 1]->Some_0.events@, 8, 0, t.chatbox_draw@)
        &&& is_online_object(n[m + 2]->Some_0, player_saved_name(), true, -10i32, false)
        &&& holds_only_code(n[m + 2]->Some_0.events@, 3, 2, t.player_saved_endstep@)
        &&& holds_only_code(n[m + 2]->Some_0.events@, 8, 0, t.player_saved_draw@)
        &&& forall|e: int|
            0 <= e < 11 && e != 0 && e != 3 && e != 8 ==> (#[trigger] n[m]->Some_0.events@[e])@.len() == 0
        &&& forall|e: int|
            0 <= e < 11 && e != 0 && e != 3 && e != 8 ==> (#[trigger] n[m + 1]->Some_0.events@[e])@.len() == 0
        &&& forall|e: int|
            0 <= e < 11 && e != 3 && e != 8 ==> (#[trigger] n[m + 2]->Some_0.events@[e])@.len() == 0
    })
}

/// Whether `f` is an included sound of the patch: stored in the project,
/// exported nowhere, freed and removed at the end.
pub open spec fn is_patch_sound(f: IncludedFile, name: Seq<u8>, data: Seq<u8>, source_length: nat) -> bool {
    &&& f.file_name@ == name
    &&& f.source_path@ == name
    &&& f.source_length == source_length
    &&& f.data matches Some(d) && d@ == data
    &&& f.export_setting == 0
    &&& f.export_folder@.len() == 0
    &&& f.overwrite_file && f.free_memory && f.remove_at_end
}

/// Whether `f` is the font the patch adds for player names.
pub open spec fn is_patch_font(f: Font, aa_level: u32) -> bool {
    &&& f.name@ == seq![95u8, 95u8, 79u8, 78u8, 76u8, 73u8, 78u8, 69u8, 95u8, 102u8, 116u8, 79u8, 110u8, 108u8, 105u8, 110u8, 101u8, 80u8, 108u8, 97u8, 121u8, 101u8, 114u8, 78u8, 97u8, 109u8, 101u8]
    &&& f.sys_name@ == seq![66u8, 101u8, 114u8, 108u8, 105u8, 110u8, 32u8, 83u8, 97u8, 110u8, 115u8, 32u8, 70u8, 66u8, 32u8, 68u8, 101u8, 109u8, 105u8]
    &&& f.size == 12 && !f.bold && !f.italic
    &&& f.range_start == 32 && f.range_end == 127 && f.charset == 0
    &&& f.aa_level == aa_level
}

/// Whether `n` is `o` with the online patch applied, using the texts `t`,
/// for a game whose executable is `exe` and whose file name is `game_name`.
pub open spec fn online_patched(o: GameAssets, n: GameAssets, t: PatchTexts, exe: Seq<u8>, game_name: Seq<u8>) -> bool {
    &&& n == (GameAssets {
        scripts: n.scripts,
        objects: n.objects,
        extensions: n.extensions,
        included_files: n.included_files,
        fonts: n.fonts,
        ..o
    })
    &&& scripts_patched(o.scripts@, n.scripts@, t)
    &&& objects_patched(o.objects@, n.objects@, t, world_create_code(t.world_create@, exe, game_name))
    &&& n.extensions@.len() == o.extensions@.len() + 1
    &&& n.extensions@.drop_last() == o.extensions@
    &&& n.extensions@.last().name@ == seq![71u8, 77u8, 32u8, 87u8, 105u8, 110u8, 100u8, 111u8, 119u8, 115u8, 32u8, 68u8, 105u8, 97u8, 108u8, 111u8, 103u8, 115u8]
    &&& n.extensions@.last().folder_name@.len() == 0
    &&& n.included_files@.len() == o.included_files@.len() + 2
    &&& n.included_files@.subrange(0, o.included_files@.len() as int) == o.included_files@
    &&& is_patch_sound(n.included_files@[o.included_files@.len() as int], seq![95u8, 95u8, 79u8, 78u8, 76u8, 73u8, 78u8, 69u8, 95u8, 115u8, 110u8, 100u8, 67u8, 104u8, 97u8, 116u8, 98u8, 111u8, 120u8, 46u8, 119u8, 97u8, 118u8], t.sound_chatbox@, t.sound_chatbox@.len())
    &&& is_patch_sound(n.included_files@[o.included_files@.len() as int + 1], seq![95u8, 95u8, 79u8, 78u8, 76u8, 73u8, 78u8, 69u8, 95u8, 115u8, 110u8, 100u8, 83u8, 97u8, 118u8, 101u8, 100u8, 46u8, 119u8, 97u8, 118u8], t.sound_saved@, t.sound_chatbox@.len())
    &&& n.fonts@.len() == o.fonts@.len() + 1
    &&& n.fonts@.drop_last() == o.fonts@
    &&& n.fonts@.last() matches Some(f) && is_patch_font(f, t.font_aa_level)
}

proof fn lemma_names_differ(a: Seq<u8>, b: Seq<u8>)
    requires
        a.len() != b.len(),
    ensures
        a != b,
{
}

fn push_http_scripts(scripts: &mut Vec<Option<Script>>, http: &Vec<Script>)
    ensures
        final(scripts)@.len() == old(scripts)@.len() + http@.len(),
        final(scripts)@.subrange(0, old(scripts)@.len() as int) == old(scripts)@,
        forall|k: int|
            0 <= k < http@.len() ==> script_is(
                #[trigger] final(scripts)@[old(scripts)@.len() + k],
                http@[k].name@,
                http@[k].source@,
            ),
{
    let ghost start = scripts@;
    let mut i: usize = 0;
    while i < http.len()
        invariant
            i <= http.len(),
            scripts@.len() == start.len() + i,
            scripts@.subrange(0, start.len() as int) == start,
            forall|k: int|
                0 <= k < i ==> script_is(
                    #[trigger] scripts@[start.len() + k],
                    http@[k].name@,
                    http@[k].source@,
                ),
        decreases http.len() - i,
    {
        let s = Script { name: clone_bytes(&http[i].name), source: clone_bytes(&http[i].source) };
        scripts.push(Some(s));
        assert(scripts@.subrange(0, start.len() as int) =~= start);
        i = i + 1;
    }
}

fn patch_sound(name: Vec<u8>, data: &Vec<u8>, source_length: usize) -> (r: IncludedFile)
    requires
        source_length <= u32::MAX,
    ensures
        is_patch_sound(r, name@, data@, source_length as nat),
{
    IncludedFile {
        file_name: clone_bytes(&name),
        source_path: name,
        source_length: source_length as u32,
        data: Some(clone_bytes(data)),
        export_setting: 0,
        export_folder: Vec::new(),
        overwrite_file: true,
        free_memory: true,
        remove_at_end: true,
    }
}

/// Applies the online patch of the game's engine, chosen by its scripts:
/// `verve` or `renex` gives the texts. `exe` is the game's executable and
/// `game_name` its file name without extension. On an error the project is
/// left as it is.
pub fn apply_online_patch(
    g: &mut GameAssets,
    verve: &PatchTexts,
    renex: &PatchTexts,
    exe: &Vec<u8>,
    game_name: &Vec<u8>,
) -> (r: Result<Engine, PatchError>)
    requires
        verve.sound_chatbox@.len() <= u32::MAX,
        renex.sound_chatbox@.len() <= u32::MAX,
    ensures
        engine_of(old(g).scripts@) == Engine::Unknown ==> r == Err::<Engine, PatchError>(
            PatchError::UnknownEngine,
        ) && *final(g) == *old(g),
        engine_of(old(g).scripts@) != Engine::Unknown && !worlds_have_events(old(g).objects@) ==> r
            == Err::<Engine, PatchError>(PatchError::WorldWithoutEvents) && *final(g) == *old(g),
        engine_of(old(g).scripts@) != Engine::Unknown && worlds_have_events(old(g).objects@) ==> r
            == Ok::<Engine, PatchError>(engine_of(old(g).scripts@)) && online_patched(
            *old(g),
            *final(g),
            texts_for(engine_of(old(g).scripts@), *verve, *renex),
            exe@,
            game_name@,
        ),
{
    let engine = detect_engine(&g.scripts);
    let t = match engine {
        Engine::Verve => verve,
        Engine::Renex => renex,
        Engine::Unknown => {
            return Err(PatchError::UnknownEngine);
        },
    };
    let world: Vec<u8> = vec![87u8, 111u8, 114u8, 108u8, 100u8];
    assert(world@ =~= world_name());
    let mut i: usize = 0;
    while i < g.objects.len()
        invariant
            i <= g.objects.len(),
            world@ == world_name(),
            *g == *old(g),
            engine == engine_of(g.scripts@),
            engine != Engine::Unknown,
            forall|j: int| 0 <= j < i ==> match #[trigger] g.objects@[j] {
                Some(o) => o.name@ == world_name() ==> o.events.len() > 7,
                None => true,
            },
        decreases g.objects.len() - i,
    {
        if let Some(o) = &g.objects[i] {
            if same_bytes(&o.name, &world) && o.events.len() <= 7 {
                return Err(PatchError::WorldWithoutEvents);
            }
        }
        i = i + 1;
    }
    let ghost g0 = *g;
    let id = game_id(exe);

    push_http_scripts(&mut g.scripts, &t.http_scripts);
    let ghost s1 = g.scripts@;

    add_online_objects(
        &mut g.objects,
        clone_bytes(&t.online_player_create),
        clone_bytes(&t.online_player_endstep),
        clone_bytes(&t.online_player_draw),
        clone_bytes(&t.chatbox_create),
        clone_bytes(&t.chatbox_endstep),
        clone_bytes(&t.chatbox_draw),
        clone_bytes(&t.player_saved_draw),
        clone_bytes(&t.player_saved_endstep),
    );
    let ghost o1 = g.objects@;

    g.extensions.push(Extension { name: vec![71u8, 77u8, 32u8, 87u8, 105u8, 110u8, 100u8, 111u8, 119u8, 115u8, 32u8, 68u8, 105u8, 97u8, 108u8, 111u8, 103u8, 115u8], folder_name: Vec::new() });
    assert(g.extensions@.last().name@ =~= seq![71u8, 77u8, 32u8, 87u8, 105u8, 110u8, 100u8, 111u8, 119u8, 115u8, 32u8, 68u8, 105u8, 97u8, 108u8, 111u8, 103u8, 115u8]);

    let chat_name: Vec<u8> = vec![95u8, 95u8, 79u8, 78u8, 76u8, 73u8, 78u8, 69u8, 95u8, 115u8, 110u8, 100u8, 67u8, 104u8, 97u8, 116u8, 98u8, 111u8, 120u8, 46u8, 119u8, 97u8, 118u8];
    let saved_name: Vec<u8> = vec![95u8, 95u8, 79u8, 78u8, 76u8, 73u8, 78u8, 69u8, 95u8, 115u8, 110u8, 100u8, 83u8, 97u8, 118u8, 101u8, 100u8, 46u8, 119u8, 97u8, 118u8];
    assert(chat_name@ =~= seq![95u8, 95u8, 79u8, 78u8, 76u8, 73u8, 78u8, 69u8, 95u8, 115u8, 110u8, 100u8, 67u8, 104u8, 97u8, 116u8, 98u8, 111u8, 120u8, 46u8, 119u8, 97u8, 118u8]);
    assert(saved_name@ =~= seq![95u8, 95u8, 79u8, 78u8, 76u8, 73u8, 78u8, 69u8, 95u8, 115u8, 110u8, 100u8, 83u8, 97u8, 118u8, 101u8, 100u8, 46u8, 119u8, 97u8, 118u8]);
    g.included_files.push(patch_sound(chat_name, &t.sound_chatbox, t.sound_chatbox.len()));
    g.included_files.push(patch_sound(saved_name, &t.sound_saved, t.sound_chatbox.len()));
    assert(g.included_files@.subrange(0, g0.included_files@.len() as int) =~= g0.included_files@);

    let font_name: Vec<u8> = vec![95u8, 95u8, 79u8, 78u8, 76u8, 73u8, 78u8, 69u8, 95u8, 102u8, 116u8, 79u8, 110u8, 108u8, 105u8, 110u8, 101u8, 80u8, 108u8, 97u8, 121u8, 101u8, 114u8, 78u8, 97u8, 109u8, 101u8];
    let sys_name: Vec<u8> = vec![66u8, 101u8, 114u8, 108u8, 105u8, 110u8, 32u8, 83u8, 97u8, 110u8, 115u8, 32u8, 70u8, 66u8, 32u8, 68u8, 101u8, 109u8, 105u8];
    assert(font_name@ =~= seq![95u8, 95u8, 79u8, 78u8, 76u8, 73u8, 78u8, 69u8, 95u8, 102u8, 116u8, 79u8, 110u8, 108u8, 105u8, 110u8, 101u8, 80u8, 108u8, 97u8, 121u8, 101u8, 114u8, 78u8, 97u8, 109u8, 101u8]);
    assert(sys_name@ =~= seq![66u8, 101u8, 114u8, 108u8, 105u8, 110u8, 32u8, 83u8, 97u8, 110u8, 115u8, 32u8, 70u8, 66u8, 32u8, 68u8, 101u8, 109u8, 105u8]);
    g.fonts.push(Some(Font {
        name: font_name,
        sys_name,
        size: 12,
        bold: false,
        italic: false,
        range_start: 32,
        range_end: 127,
        charset: 0,
        aa_level: t.font_aa_level,
    }));
    assert(g.fonts@.drop_last() =~= g0.fonts@);
    assert(g.extensions@.drop_last() =~= g0.extensions@);

    let game_id_key: Vec<u8> = vec![36u8, 71u8, 65u8, 77u8, 69u8, 95u8, 73u8, 68u8];
    let game_name_key: Vec<u8> = vec![36u8, 71u8, 65u8, 77u8, 69u8, 95u8, 78u8, 65u8, 77u8, 69u8];
    let server_key: Vec<u8> = vec![36u8, 83u8, 69u8, 82u8, 86u8, 69u8, 82u8, 95u8, 73u8, 80u8];
    let ip: Vec<u8> = vec![56u8, 49u8, 46u8, 55u8, 48u8, 46u8, 53u8, 51u8, 46u8, 55u8, 49u8];
    assert(game_id_key@ =~= seq![36u8, 71u8, 65u8, 77u8, 69u8, 95u8, 73u8, 68u8]);
    assert(game_name_key@ =~= seq![36u8, 71u8, 65u8, 77u8, 69u8, 95u8, 78u8, 65u8, 77u8, 69u8]);
    assert(server_key@ =~= seq![36u8, 83u8, 69u8, 82u8, 86u8, 69u8, 82u8, 95u8, 73u8, 80u8]);
    assert(ip@ =~= server_ip());
    let create = replace_all(&t.world_create, &game_id_key, &id);
    let create = replace_all(&create, &game_name_key, game_name);
    let create = replace_all(&create, &server_key, &ip);

    proof {
        lemma_names_differ(online_player_name(), world_name());
        lemma_names_differ(chatbox_name(), world_name());
        lemma_names_differ(player_saved_name(), world_name());
        assert forall|j: int| 0 <= j < o1.len() implies match #[trigger] o1[j] {
            Some(o) => o.name@ == world_name() ==> o.events.len() > 7,
            None => true,
        } by {
            if j >= g0.objects@.len() {
                assert(o1[j] is Some);
            } else {
                assert(o1.subrange(0, g0.objects@.len() as int)[j] == o1[j]);
            }
        }
    }
    patch_world_objects(&mut g.objects, &create, &t.world_end_step, &t.world_game_end);
    proof {
        let m = g0.objects@.len() as int;
        assert(o1.subrange(0, m) == g0.objects@);
        assert forall|i: int| 0 <= i < m implies o1[i] == #[trigger] g0.objects@[i] by {
            assert(o1.subrange(0, m)[i] == o1[i]);
        }
        assert(g.objects@[m] == o1[m]);
        assert(g.objects@[m + 1] == o1[m + 1]);
        assert(g.objects@[m + 2] == o1[m + 2]);
    }

    append_to_scripts(&mut g.scripts, &t.save_script, &t.save_extra);
    let ghost s2 = g.scripts@;
    append_to_scripts(&mut g.scripts, &t.load_script, &t.load_extra);
    proof {
        let m = g0.scripts@.len() as int;
        assert forall|i: int| 0 <= i < m implies #[trigger] s1[i] == g0.scripts@[i] by {
            assert(s1.subrange(0, m)[i] == s1[i]);
        }
        assert forall|i: int| 0 <= i < s1.len() implies match (#[trigger] s1[i], g.scripts@[i]) {
            (Some(a), Some(b)) => b.name == a.name && b.source@ == patched_source(a.name@, a.source@, *t),
            (None, None) => true,
            _ => false,
        } by {
            match (s1[i], s2[i], g.scripts@[i]) {
                (Some(a), Some(b), Some(c)) => {
                    assert(c.source@ =~= patched_source(a.name@, a.source@, *t));
                },
                _ => {},
            }
        }
        assert forall|k: int| 0 <= k < t.http_scripts@.len() implies script_is(
            #[trigger] g.scripts@[m + k],
            t.http_scripts@[k].name@,
            patched_source(t.http_scripts@[k].name@, t.http_scripts@[k].source@, *t),
        ) by {
            assert(script_is(s1[m + k], t.http_scripts@[k].name@, t.http_scripts@[k].source@));
            match (s1[m + k], s2[m + k], g.scripts@[m + k]) {
                (Some(a), Some(b), Some(c)) => {
                    assert(c.source@ =~= patched_source(a.name@, a.source@, *t));
                },
                _ => {},
            }
        }
    }
    Ok(engine)
}

} // verus!
