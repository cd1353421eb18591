//! Assembly of a whole project file: the sections in their fixed order,
//! each asset list through the list encoder.
use vstd::prelude::*;
use crate::bytes::same_bytes;
use crate::asset::{Category, FormatVersion, Record};
use crate::bytes::{put_bytes, put_i32, put_u64, i32_le, u64_le};
use crate::game::{actions_repaired, GameAssets};
use crate::list::{first_bad_slot, slot_bytes, slot_ok, slots_bytes};
use crate::asset::records_concat;
use crate::names::Named;
use crate::repair::{lemma_object_repair_idempotent, lemma_timeline_repair_idempotent};
use crate::tree::{group_bytes, group_ok, leaves, name_fits, occupied};
use crate::list::{encode_asset_list, list_outcome, EncodeError};
use crate::sections::{
    game_info_bytes, game_info_ok, header_bytes, init_code_bytes, marked_list, put_game_info,
    put_header, put_init_code, put_marked_list, put_room_order, put_settings, room_order_bytes,
    settings_bytes, settings_ok,
};
use crate::action::strs_fit;
use crate::asset::records_ok;
use crate::tree::{put_tree, tree_bytes, tree_ok};

verus! {

/// A section of the file other than an asset list.
#[derive(Debug, Clone, Copy, PartialEq, Eq, Structural)]
pub enum Section {
    Settings,
    Constants,
    IncludedFiles,
    Extensions,
    GameInformation,
    LibraryInitCode,
    RoomOrder,
    ResourceTree,
}

/// Why a project could not be written.
#[derive(Debug, Clone, Copy, PartialEq, Eq, Structural)]
pub enum WriteError {
    /// A value of the section does not fit its field.
    Section(Section),
    /// An asset list could not be encoded.
    Asset(EncodeError),
}

/// The bytes of a section, or the error that names it.
pub open spec fn section(ok: bool, bytes: Seq<u8>, s: Section) -> Result<Seq<u8>, WriteError> {
    if ok {
        Ok(bytes)
    } else {
        Err(WriteError::Section(s))
    }
}

/// The outcome of an asset list as an outcome of the file.
pub open spec fn lifted(r: Result<Seq<u8>, EncodeError>) -> Result<Seq<u8>, WriteError> {
    match r {
        Ok(b) => Ok(b),
        Err(e) => Err(WriteError::Asset(e)),
    }
}

/// `a` followed by `b`: the first error, else both byte sequences.
pub open spec fn then(a: Result<Seq<u8>, WriteError>, b: Result<Seq<u8>, WriteError>) -> Result<
    Seq<u8>,
    WriteError,
> {
    match a {
        Err(e) => Err(e),
        Ok(x) => match b {
            Err(e) => Err(e),
            Ok(y) => Ok(x + y),
        },
    }
}

/// Whether `new` is `old` with the bytes of `s` appended and `r` is Ok, or
/// `r` is the error of `s`.
pub open spec fn appended(
    old: Seq<u8>,
    new: Seq<u8>,
    r: Result<(), WriteError>,
    s: Result<Seq<u8>, WriteError>,
) -> bool {
    match s {
        Ok(b) => r is Ok && new == old + b,
        Err(e) => r == Err::<(), WriteError>(e),
    }
}

/// Header, settings, triggers, timestamp and constants.
pub open spec fn front_outcome(g: GameAssets, v: FormatVersion, timestamp: u64) -> Result<
    Seq<u8>,
    WriteError,
> {
    then(
        then(
            then(
                then(
                    Ok(header_bytes(g, v)),
                    section(settings_ok(g.settings, g.icon, v), settings_bytes(g.settings, g.icon, v), Section::Settings),
                ),
                lifted(list_outcome(g.triggers@, Category::Triggers, v)),
            ),
            Ok(u64_le(timestamp)),
        ),
        section(
            g.constants.len() <= u32::MAX && records_ok(g.constants@, v),
            marked_list(800, g.constants@, v),
            Section::Constants,
        ),
    )
}

/// The first five resource lists.
pub open spec fn lists_front_outcome(g: GameAssets, v: FormatVersion) -> Result<Seq<u8>, WriteError> {
    then(then(then(then(lifted(list_outcome(g.sounds@, Category::Sounds, v)), lifted(list_outcome(g.sprites@, Category::Sprites, v))), lifted(list_outcome(g.backgrounds@, Category::Backgrounds, v))), lifted(list_outcome(g.paths@, Category::Paths, v))), lifted(list_outcome(g.scripts@, Category::Scripts, v)))
}

/// The last four resource lists.
pub open spec fn lists_back_outcome(g: GameAssets, v: FormatVersion) -> Result<Seq<u8>, WriteError> {
    then(then(then(lifted(list_outcome(g.fonts@, Category::Fonts, v)), lifted(list_outcome(g.timelines@, Category::Timelines, v))), lifted(list_outcome(g.objects@, Category::Objects, v))), lifted(list_outcome(g.rooms@, Category::Rooms, v)))
}

/// Room editor metadata, included files, extensions and game information.
pub open spec fn back_outcome(g: GameAssets, v: FormatVersion) -> Result<Seq<u8>, WriteError> {
    then(
        then(
            then(
                Ok(i32_le(g.last_instance_id) + i32_le(g.last_tile_id)),
                section(
                    g.included_files.len() <= u32::MAX && records_ok(g.included_files@, v),
                    marked_list(800, g.included_files@, v),
                    Section::IncludedFiles,
                ),
            ),
            section(
                g.extensions.len() <= u32::MAX && records_ok(g.extensions@, v),
                marked_list(700, g.extensions@, v),
                Section::Extensions,
            ),
        ),
        section(game_info_ok(g.help_dialog, v), game_info_bytes(g.help_dialog, v), Section::GameInformation),
    )
}

/// Library initialization code, room order and resource tree.
pub open spec fn tail_outcome(g: GameAssets) -> Result<Seq<u8>, WriteError> {
    then(
        then(
            section(
                g.library_init_strings.len() <= u32::MAX && strs_fit(g.library_init_strings@),
                init_code_bytes(g.library_init_strings@),
                Section::LibraryInitCode,
            ),
            section(g.room_order.len() <= u32::MAX, room_order_bytes(g.room_order@), Section::RoomOrder),
        ),
        section(tree_ok(g), tree_bytes(g), Section::ResourceTree),
    )
}

/// The whole file in revision `v`, with `timestamp` as the bits of its
/// last-change time; or the first section that cannot be written.
pub open spec fn game_outcome(g: GameAssets, v: FormatVersion, timestamp: u64) -> Result<
    Seq<u8>,
    WriteError,
> {
    then(
        then(
            then(
                then(front_outcome(g, v, timestamp), lists_front_outcome(g, v)),
                lists_back_outcome(g, v),
            ),
            back_outcome(g, v),
        ),
        tail_outcome(g),
    )
}

/// Whether `r` is what writing `g` owes.
pub open spec fn game_result(
    g: GameAssets,
    v: FormatVersion,
    timestamp: u64,
    r: Result<Vec<u8>, WriteError>,
) -> bool {
    match game_outcome(g, v, timestamp) {
        Ok(b) => r is Ok && r->Ok_0@ == b,
        Err(e) => r == Err::<Vec<u8>, WriteError>(e),
    }
}

proof fn lemma_then_appended(
    o: Seq<u8>,
    m: Seq<u8>,
    n: Seq<u8>,
    r1: Result<(), WriteError>,
    r2: Result<(), WriteError>,
    a: Result<Seq<u8>, WriteError>,
    b: Result<Seq<u8>, WriteError>,
)
    requires
        appended(o, m, r1, a),
        r1 is Ok ==> appended(m, n, r2, b),
    ensures
        appended(o, if r1 is Ok { n } else { m }, if r1 is Ok { r2 } else { r1 }, then(a, b)),
{
    if r1 is Ok {
        match b {
            Ok(y) => {
                assert(n =~= o + (a->Ok_0 + y));
            },
            Err(_) => {},
        }
    }
}

fn append_list<T: Record + Sync>(
    out: &mut Vec<u8>,
    items: &Vec<Option<T>>,
    c: Category,
    v: FormatVersion,
    parallel: bool,
) -> (r: Result<(), WriteError>)
    ensures
        appended(old(out)@, final(out)@, r, lifted(list_outcome(items@, c, v))),
{
    match encode_asset_list(items, c, v, parallel) {
        Ok(bytes) => {
            put_bytes(out, &bytes);
            Ok(())
        },
        Err(e) => Err(WriteError::Asset(e)),
    }
}

fn append_front(
    out: &mut Vec<u8>,
    g: &GameAssets,
    v: FormatVersion,
    timestamp: u64,
    parallel: bool,
) -> (r: Result<(), WriteError>)
    ensures
        appended(old(out)@, final(out)@, r, front_outcome(*g, v, timestamp)),
{
    let ghost o = out@;
    put_header(out, g, v);
    let ghost m1 = out@;
    let ok = put_settings(out, &g.settings, &g.icon, v);
    if !ok {
        return Err(WriteError::Section(Section::Settings));
    }
    let ghost m2 = out@;
    proof {
        lemma_then_appended(o, m1, m2, Ok(()), Ok(()), Ok(header_bytes(*g, v)),
            section(true, crate::sections::settings_bytes(g.settings, g.icon, v), Section::Settings));
    }
    let r3 = append_list(out, &g.triggers, Category::Triggers, v, parallel);
    proof {
        lemma_then_appended(o, m2, out@, Ok(()), r3,
            then(Ok(header_bytes(*g, v)), section(true, crate::sections::settings_bytes(g.settings, g.icon, v), Section::Settings)),
            lifted(list_outcome(g.triggers@, Category::Triggers, v)));
    }
    if r3.is_err() {
        return r3;
    }
    let ghost m3 = out@;
    put_u64(out, timestamp);
    let ghost m4 = out@;
    proof {
        let a = then(then(Ok(header_bytes(*g, v)), section(true, crate::sections::settings_bytes(g.settings, g.icon, v), Section::Settings)), lifted(list_outcome(g.triggers@, Category::Triggers, v)));
        lemma_then_appended(o, m3, m4, Ok(()), Ok(()), a, Ok(u64_le(timestamp)));
    }
    let ok = put_marked_list(out, 800, &g.constants, v);
    if !ok {
        return Err(WriteError::Section(Section::Constants));
    }
    proof {
        let a = then(then(then(Ok(header_bytes(*g, v)), section(true, crate::sections::settings_bytes(g.settings, g.icon, v), Section::Settings)), lifted(list_outcome(g.triggers@, Category::Triggers, v))), Ok(u64_le(timestamp)));
        lemma_then_appended(o, m4, out@, Ok(()), Ok(()), a, section(true, marked_list(800, g.constants@, v), Section::Constants));
    }
    Ok(())
}

proof fn lemma_step(
    o: Seq<u8>,
    m: Seq<u8>,
    n: Seq<u8>,
    r: Result<(), WriteError>,
    a: Result<Seq<u8>, WriteError>,
    b: Result<Seq<u8>, WriteError>,
)
    requires
        appended(o, m, Ok(()), a),
        appended(m, n, r, b),
    ensures
        appended(o, n, r, then(a, b)),
{
    lemma_then_appended(o, m, n, Ok(()), r, a, b);
}

fn append_lists_front(out: &mut Vec<u8>, g: &GameAssets, v: FormatVersion, parallel: bool) -> (r: Result<
    (),
    WriteError,
>)
    ensures
        appended(old(out)@, final(out)@, r, lists_front_outcome(*g, v)),
{
    let ghost o = out@;
    let r = append_list(out, &g.sounds, Category::Sounds, v, parallel);
    if r.is_err() {
        return r;
    }
    let ghost mut acc = lifted(list_outcome(g.sounds@, Category::Sounds, v));
    let ghost m = out@;
    let r = append_list(out, &g.sprites, Category::Sprites, v, parallel);
    proof {
        lemma_step(o, m, out@, r, acc, lifted(list_outcome(g.sprites@, Category::Sprites, v)));
        acc = then(acc, lifted(list_outcome(g.sprites@, Category::Sprites, v)));
    }
    if r.is_err() {
        return r;
    }
    let ghost m = out@;
    let r = append_list(out, &g.backgrounds, Category::Backgrounds, v, parallel);
    proof {
        lemma_step(o, m, out@, r, acc, lifted(list_outcome(g.backgrounds@, Category::Backgrounds, v)));
        acc = then(acc, lifted(list_outcome(g.backgrounds@, Category::Backgrounds, v)));
    }
    if r.is_err() {
        return r;
    }
    let ghost m = out@;
    let r = append_list(out, &g.paths, Category::Paths, v, parallel);
    proof {
        lemma_step(o, m, out@, r, acc, lifted(list_outcome(g.paths@, Category::Paths, v)));
        acc = then(acc, lifted(list_outcome(g.paths@, Category::Paths, v)));
    }
    if r.is_err() {
        return r;
    }
    let ghost m = out@;
    let r = append_list(out, &g.scripts, Category::Scripts, v, parallel);
    proof {
        lemma_step(o, m, out@, r, acc, lifted(list_outcome(g.scripts@, Category::Scripts, v)));
        acc = then(acc, lifted(list_outcome(g.scripts@, Category::Scripts, v)));
    }
    if r.is_err() {
        return r;
    }
    Ok(())
}

fn append_lists_back(out: &mut Vec<u8>, g: &GameAssets, v: FormatVersion, parallel: bool) -> (r: Result<
    (),
    WriteError,
>)
    ensures
        appended(old(out)@, final(out)@, r, lists_back_outcome(*g, v)),
{
    let ghost o = out@;
    let r = append_list(out, &g.fonts, Category::Fonts, v, parallel);
    if r.is_err() {
        return r;
    }
    let ghost mut acc = lifted(list_outcome(g.fonts@, Category::Fonts, v));
    let ghost m = out@;
    let r = append_list(out, &g.timelines, Category::Timelines, v, parallel);
    proof {
        lemma_step(o, m, out@, r, acc, lifted(list_outcome(g.timelines@, Category::Timelines, v)));
        acc = then(acc, lifted(list_outcome(g.timelines@, Category::Timelines, v)));
    }
    if r.is_err() {
        return r;
    }
    let ghost m = out@;
    let r = append_list(out, &g.objects, Category::Objects, v, parallel);
    proof {
        lemma_step(o, m, out@, r, acc, lifted(list_outcome(g.objects@, Category::Objects, v)));
        acc = then(acc, lifted(list_outcome(g.objects@, Category::Objects, v)));
    }
    if r.is_err() {
        return r;
    }
    let ghost m = out@;
    let r = append_list(out, &g.rooms, Category::Rooms, v, parallel);
    proof {
        lemma_step(o, m, out@, r, acc, lifted(list_outcome(g.rooms@, Category::Rooms, v)));
        acc = then(acc, lifted(list_outcome(g.rooms@, Category::Rooms, v)));
    }
    if r.is_err() {
        return r;
    }
    Ok(())
}

fn append_back(out: &mut Vec<u8>, g: &GameAssets, v: FormatVersion) -> (r: Result<(), WriteError>)
    ensures
        appended(old(out)@, final(out)@, r, back_outcome(*g, v)),
{
    let ghost o = out@;
    put_i32(out, g.last_instance_id);
    put_i32(out, g.last_tile_id);
    let ghost mut acc = Ok::<Seq<u8>, WriteError>(i32_le(g.last_instance_id) + i32_le(g.last_tile_id));
    assert(out@ =~= o + (i32_le(g.last_instance_id) + i32_le(g.last_tile_id)));
    let ghost m = out@;
    if !put_marked_list(out, 800, &g.included_files, v) {
        return Err(WriteError::Section(Section::IncludedFiles));
    }
    proof {
        let b = section(true, marked_list(800, g.included_files@, v), Section::IncludedFiles);
        lemma_step(o, m, out@, Ok(()), acc, b);
        acc = then(acc, b);
    }
    let ghost m = out@;
    if !put_marked_list(out, 700, &g.extensions, v) {
        return Err(WriteError::Section(Section::Extensions));
    }
    proof {
        let b = section(true, marked_list(700, g.extensions@, v), Section::Extensions);
        lemma_step(o, m, out@, Ok(()), acc, b);
        acc = then(acc, b);
    }
    let ghost m = out@;
    if !put_game_info(out, &g.help_dialog, v) {
        return Err(WriteError::Section(Section::GameInformation));
    }
    proof {
        let b = section(true, game_info_bytes(g.help_dialog, v), Section::GameInformation);
        lemma_step(o, m, out@, Ok(()), acc, b);
    }
    Ok(())
}

fn append_tail(out: &mut Vec<u8>, g: &GameAssets) -> (r: Result<(), WriteError>)
    ensures
        appended(old(out)@, final(out)@, r, tail_outcome(*g)),
{
    let ghost o = out@;
    if !put_init_code(out, &g.library_init_strings) {
        return Err(WriteError::Section(Section::LibraryInitCode));
    }
    let ghost mut acc = section(true, init_code_bytes(g.library_init_strings@), Section::LibraryInitCode);
    let ghost m = out@;
    if !put_room_order(out, &g.room_order) {
        return Err(WriteError::Section(Section::RoomOrder));
    }
    proof {
        let b = section(true, room_order_bytes(g.room_order@), Section::RoomOrder);
        lemma_step(o, m, out@, Ok(()), acc, b);
        acc = then(acc, b);
    }
    let ghost m = out@;
    if !put_tree(out, g) {
        return Err(WriteError::Section(Section::ResourceTree));
    }
    proof {
        let b = section(true, tree_bytes(*g), Section::ResourceTree);
        lemma_step(o, m, out@, Ok(()), acc, b);
    }
    Ok(())
}

/// Writes a whole project file in revision `version`. `timestamp` is stored
/// as the file's last-change time (the bits of a 64-bit float). With
/// `parallel` each asset list is encoded on a pool of worker threads; the
/// bytes are the same either way. No bytes come out unless every section
/// could be written; otherwise the first section that could not is named.
pub fn encode_game(g: &GameAssets, version: FormatVersion, timestamp: u64, parallel: bool) -> (r:
    Result<Vec<u8>, WriteError>)
    ensures
        game_result(*g, version, timestamp, r),
{
    let v = version;
    let mut out: Vec<u8> = Vec::new();
    let ghost o = out@;
    let r = append_front(&mut out, g, v, timestamp, parallel);
    if let Err(e) = r {
        return Err(e);
    }
    let ghost mut acc = front_outcome(*g, v, timestamp);
    let ghost m = out@;
    let r = append_lists_front(&mut out, g, v, parallel);
    proof {
        lemma_step(o, m, out@, r, acc, lists_front_outcome(*g, v));
        acc = then(acc, lists_front_outcome(*g, v));
    }
    if let Err(e) = r {
        return Err(e);
    }
    let ghost m = out@;
    let r = append_lists_back(&mut out, g, v, parallel);
    proof {
        lemma_step(o, m, out@, r, acc, lists_back_outcome(*g, v));
        acc = then(acc, lists_back_outcome(*g, v));
    }
    if let Err(e) = r {
        return Err(e);
    }
    let ghost m = out@;
    let r = append_back(&mut out, g, v);
    proof {
        lemma_step(o, m, out@, r, acc, back_outcome(*g, v));
        acc = then(acc, back_outcome(*g, v));
    }
    if let Err(e) = r {
        return Err(e);
    }
    let ghost m = out@;
    let r = append_tail(&mut out, g);
    proof {
        lemma_step(o, m, out@, r, acc, tail_outcome(*g));
        acc = then(acc, tail_outcome(*g));
        assert(o =~= Seq::<u8>::empty());
        if r is Ok {
            assert(out@ =~= o + acc->Ok_0);
        }
    }
    if let Err(e) = r {
        return Err(e);
    }
    Ok(out)
}

/// The bytes of a project do not depend on whether its lists were encoded
/// in parallel: any two results that `encode_game` may give for the same
/// graph, revision and timestamp are equal.
pub proof fn lemma_encoding_deterministic(
    g: GameAssets,
    v: FormatVersion,
    timestamp: u64,
    r1: Result<Vec<u8>, WriteError>,
    r2: Result<Vec<u8>, WriteError>,
)
    requires
        game_result(g, v, timestamp, r1),
        game_result(g, v, timestamp, r2),
    ensures
        r1 is Ok <==> r2 is Ok,
        r1 is Ok ==> r1->Ok_0@ == r2->Ok_0@,
        r1 is Err ==> r1 == r2,
{
}

/// The extension of a file in revision `v`.
pub open spec fn extension_of(v: FormatVersion) -> Seq<u8> {
    match v {
        FormatVersion::Gm80 => seq![103u8, 109u8, 107u8],
        FormatVersion::Gm81 => seq![103u8, 109u8, 56u8, 49u8],
    }
}

/// Gives the extension of a file in revision `v`: "gmk" or "gm81".
pub fn expected_extension(v: FormatVersion) -> (r: Vec<u8>)
    ensures
        r@ == extension_of(v),
{
    let e: Vec<u8> = match v {
        FormatVersion::Gm80 => vec![103u8, 109u8, 107u8],
        FormatVersion::Gm81 => vec![103u8, 109u8, 56u8, 49u8],
    };
    assert(e@ =~= extension_of(v));
    e
}

/// The other revision.
pub open spec fn other_version(v: FormatVersion) -> FormatVersion {
    match v {
        FormatVersion::Gm80 => FormatVersion::Gm81,
        FormatVersion::Gm81 => FormatVersion::Gm80,
    }
}

/// Whether writing revision `v` to a file with extension `ext` deserves a
/// warning: the extension is the one of the other revision, so the
/// authoring tool would not load the file.
pub fn extension_mismatch(v: FormatVersion, ext: &Vec<u8>) -> (r: bool)
    ensures
        r == (ext@ == extension_of(other_version(v))),
{
    let other = match v {
        FormatVersion::Gm80 => FormatVersion::Gm81,
        FormatVersion::Gm81 => FormatVersion::Gm80,
    };
    same_bytes(ext, &expected_extension(other))
}

/// Two slot lists whose slots encode alike encode alike.
proof fn lemma_lists_alike<T: Record>(
    a: Seq<Option<T>>,
    b: Seq<Option<T>>,
    c: Category,
    v: FormatVersion,
    w: FormatVersion,
)
    requires
        a.len() == b.len(),
        forall|i: int|
            0 <= i < a.len() ==> slot_ok(#[trigger] a[i], v) == slot_ok(b[i], w) && slot_bytes(
                a[i],
                v,
            ) == slot_bytes(b[i], w),
    ensures
        first_bad_slot(a, v) == first_bad_slot(b, w),
        slots_bytes(a, v) == slots_bytes(b, w),
        list_outcome(a, c, v) == list_outcome(b, c, w),
    decreases a.len(),
{
    if a.len() > 0 {
        let n = a.len() - 1;
        assert(slot_ok(a[n], v) == slot_ok(b[n], w));
        assert(slot_bytes(a[n], v) == slot_bytes(b[n], w));
        assert forall|i: int| 0 <= i < n implies slot_ok(#[trigger] a.drop_last()[i], v) == slot_ok(
            b.drop_last()[i],
            w,
        ) && slot_bytes(a.drop_last()[i], v) == slot_bytes(b.drop_last()[i], w) by {
            assert(a.drop_last()[i] == a[i]);
            assert(b.drop_last()[i] == b[i]);
        }
        lemma_lists_alike(a.drop_last(), b.drop_last(), c, v, w);
    }
}

/// Two slot lists with the same occupied slots and names give the same
/// group of the resource tree.
proof fn lemma_groups_alike<T: Named>(a: Seq<Option<T>>, b: Seq<Option<T>>, c: Category)
    requires
        a.len() == b.len(),
        forall|i: int|
            0 <= i < a.len() ==> ((#[trigger] a[i]) is Some <==> b[i] is Some) && (a[i] is Some
                ==> a[i]->Some_0.name_of() == b[i]->Some_0.name_of()),
    ensures
        occupied(a) == occupied(b),
        leaves(crate::tree::kind_code(c), a) == leaves(crate::tree::kind_code(c), b),
        group_bytes(c, a) == group_bytes(c, b),
        group_ok(a) == group_ok(b),
    decreases a.len(),
{
    if a.len() > 0 {
        let n = a.len() - 1;
        assert(a[n] is Some <==> b[n] is Some);
        assert forall|i: int| 0 <= i < n implies ((#[trigger] a.drop_last()[i]) is Some <==> b.drop_last()[i] is Some)
            && (a.drop_last()[i] is Some ==> a.drop_last()[i]->Some_0.name_of() == b.drop_last()[i]->Some_0.name_of()) by {
            assert(a.drop_last()[i] == a[i]);
            assert(b.drop_last()[i] == b[i]);
        }
        lemma_groups_alike(a.drop_last(), b.drop_last(), c);
    }
    assert forall|i: int| 0 <= i < a.len() implies name_fits(#[trigger] a[i]) == name_fits(b[i]) by {}
    if group_ok(a) {
        assert forall|i: int| 0 <= i < b.len() implies name_fits(#[trigger] b[i]) by {
            assert(name_fits(a[i]));
        }
    }
    if group_ok(b) {
        assert forall|i: int| 0 <= i < a.len() implies name_fits(#[trigger] a[i]) by {
            assert(name_fits(b[i]));
        }
    }
}

/// Running the repair pass a second time changes nothing: the project
/// encodes to the same bytes, or fails in the same section, as after the
/// first pass, in either revision.
pub proof fn lemma_repair_pass_idempotent(
    g0: GameAssets,
    g1: GameAssets,
    g2: GameAssets,
    v: FormatVersion,
    timestamp: u64,
)
    requires
        actions_repaired(g0, g1),
        actions_repaired(g1, g2),
    ensures
        game_outcome(g2, v, timestamp) == game_outcome(g1, v, timestamp),
{
    let o1 = g1.objects@;
    let o2 = g2.objects@;
    assert forall|i: int| 0 <= i < o1.len() implies slot_ok(#[trigger] o2[i], v) == slot_ok(o1[i], v)
        && slot_bytes(o2[i], v) == slot_bytes(o1[i], v) && (o2[i] is Some <==> o1[i] is Some) && (
        o2[i] is Some ==> o2[i]->Some_0.name_of() == o1[i]->Some_0.name_of()) by {
        assert(match (g0.objects@[i], o1[i]) {
            (None, None) => true,
            (Some(a), Some(b)) => crate::repair::object_repaired(a, b),
            _ => false,
        });
        assert(match (o1[i], o2[i]) {
            (None, None) => true,
            (Some(a), Some(b)) => crate::repair::object_repaired(a, b),
            _ => false,
        });
        if let (Some(x0), Some(x1), Some(x2)) = (g0.objects@[i], o1[i], o2[i]) {
            lemma_object_repair_idempotent(x0, x1, x2, v);
        }
    }
    lemma_lists_alike(o2, o1, Category::Objects, v, v);
    lemma_groups_alike(o2, o1, Category::Objects);
    let t1 = g1.timelines@;
    let t2 = g2.timelines@;
    assert forall|i: int| 0 <= i < t1.len() implies slot_ok(#[trigger] t2[i], v) == slot_ok(t1[i], v)
        && slot_bytes(t2[i], v) == slot_bytes(t1[i], v) && (t2[i] is Some <==> t1[i] is Some) && (
        t2[i] is Some ==> t2[i]->Some_0.name_of() == t1[i]->Some_0.name_of()) by {
        assert(match (g0.timelines@[i], t1[i]) {
            (None, None) => true,
            (Some(a), Some(b)) => crate::repair::timeline_repaired(a, b),
            _ => false,
        });
        assert(match (t1[i], t2[i]) {
            (None, None) => true,
            (Some(a), Some(b)) => crate::repair::timeline_repaired(a, b),
            _ => false,
        });
        if let (Some(x0), Some(x1), Some(x2)) = (g0.timelines@[i], t1[i], t2[i]) {
            lemma_timeline_repair_idempotent(x0, x1, x2, v);
        }
    }
    lemma_lists_alike(t2, t1, Category::Timelines, v, v);
    lemma_groups_alike(t2, t1, Category::Timelines);
    assert(tree_bytes(g2) == tree_bytes(g1));
    assert(tree_ok(g2) == tree_ok(g1));
    assert(lists_back_outcome(g2, v) == lists_back_outcome(g1, v));
    assert(front_outcome(g2, v, timestamp) == front_outcome(g1, v, timestamp));
    assert(lists_front_outcome(g2, v) == lists_front_outcome(g1, v));
    assert(back_outcome(g2, v) == back_outcome(g1, v));
    assert(tail_outcome(g2) == tail_outcome(g1));
}

proof fn lemma_concat_revision_free<T: Record>(s: Seq<T>)
    requires
        forall|i: int|
            0 <= i < s.len() ==> (#[trigger] s[i]).encoding(FormatVersion::Gm80) == s[i].encoding(
                FormatVersion::Gm81,
            ) && s[i].encodable(FormatVersion::Gm80) == s[i].encodable(FormatVersion::Gm81),
    ensures
        records_concat(s, FormatVersion::Gm80) == records_concat(s, FormatVersion::Gm81),
        records_ok(s, FormatVersion::Gm80) == records_ok(s, FormatVersion::Gm81),
    decreases s.len(),
{
    if s.len() > 0 {
        let n = s.len() - 1;
        assert(s[n].encoding(FormatVersion::Gm80) == s[n].encoding(FormatVersion::Gm81));
        assert forall|i: int| 0 <= i < n implies (#[trigger] s.drop_last()[i]).encoding(FormatVersion::Gm80)
            == s.drop_last()[i].encoding(FormatVersion::Gm81) && s.drop_last()[i].encodable(
            FormatVersion::Gm80,
        ) == s.drop_last()[i].encodable(FormatVersion::Gm81) by {
            assert(s.drop_last()[i] == s[i]);
        }
        lemma_concat_revision_free(s.drop_last());
    }
    if records_ok(s, FormatVersion::Gm80) {
        assert forall|i: int| 0 <= i < s.len() implies (#[trigger] s[i]).encodable(FormatVersion::Gm81) by {
            assert(s[i].encodable(FormatVersion::Gm80));
        }
    }
    if records_ok(s, FormatVersion::Gm81) {
        assert forall|i: int| 0 <= i < s.len() implies (#[trigger] s[i]).encodable(FormatVersion::Gm80) by {
            assert(s[i].encodable(FormatVersion::Gm81));
        }
    }
}

/// Whether a record encodes alike in both revisions.
pub open spec fn revision_free<T: Record>(r: T) -> bool {
    &&& r.encodable(FormatVersion::Gm80) == r.encodable(FormatVersion::Gm81)
    &&& r.encoding(FormatVersion::Gm80) == r.encoding(FormatVersion::Gm81)
}

proof fn lemma_slots_revision_free<T: Record>(s: Seq<Option<T>>, c: Category)
    requires
        forall|i: int| 0 <= i < s.len() ==> (#[trigger] s[i] matches Some(r) ==> revision_free(r)),
    ensures
        list_outcome(s, c, FormatVersion::Gm80) == list_outcome(s, c, FormatVersion::Gm81),
{
    assert forall|i: int| 0 <= i < s.len() implies slot_ok(#[trigger] s[i], FormatVersion::Gm80) == slot_ok(
        s[i],
        FormatVersion::Gm81,
    ) && slot_bytes(s[i], FormatVersion::Gm80) == slot_bytes(s[i], FormatVersion::Gm81) by {
        assert(s[i] matches Some(r) ==> revision_free(r));
    }
    lemma_lists_alike(s, s, c, FormatVersion::Gm80, FormatVersion::Gm81);
}

proof fn lemma_parts_revision_free<T: Record>(s: Seq<T>)
    requires
        forall|i: int| 0 <= i < s.len() ==> revision_free(#[trigger] s[i]),
    ensures
        records_concat(s, FormatVersion::Gm80) == records_concat(s, FormatVersion::Gm81),
        records_ok(s, FormatVersion::Gm80) == records_ok(s, FormatVersion::Gm81),
{
    assert forall|i: int| 0 <= i < s.len() implies (#[trigger] s[i]).encoding(FormatVersion::Gm80)
        == s[i].encoding(FormatVersion::Gm81) && s[i].encodable(FormatVersion::Gm80) == s[i].encodable(
        FormatVersion::Gm81,
    ) by {
        assert(revision_free(s[i]));
    }
    lemma_concat_revision_free(s);
}

/// Between the two revisions, a project differs only in the fields that
/// depend on the revision: the revision number of the header, the settings
/// section, and the font records. The other parts of the header, the
/// triggers, the constants, every other asset list, and every section after
/// the asset lists are the same in both.
pub proof fn lemma_version_gating(g: GameAssets)
    ensures
        header_bytes(g, FormatVersion::Gm80).subrange(8, 28) == header_bytes(g, FormatVersion::Gm81).subrange(8, 28),
        header_bytes(g, FormatVersion::Gm80).subrange(0, 4) == header_bytes(g, FormatVersion::Gm81).subrange(0, 4),
        list_outcome(g.triggers@, Category::Triggers, FormatVersion::Gm80) == list_outcome(g.triggers@, Category::Triggers, FormatVersion::Gm81),
        list_outcome(g.sounds@, Category::Sounds, FormatVersion::Gm80) == list_outcome(g.sounds@, Category::Sounds, FormatVersion::Gm81),
        list_outcome(g.sprites@, Category::Sprites, FormatVersion::Gm80) == list_outcome(g.sprites@, Category::Sprites, FormatVersion::Gm81),
        list_outcome(g.backgrounds@, Category::Backgrounds, FormatVersion::Gm80) == list_outcome(g.backgrounds@, Category::Backgrounds, FormatVersion::Gm81),
        list_outcome(g.paths@, Category::Paths, FormatVersion::Gm80) == list_outcome(g.paths@, Category::Paths, FormatVersion::Gm81),
        list_outcome(g.scripts@, Category::Scripts, FormatVersion::Gm80) == list_outcome(g.scripts@, Category::Scripts, FormatVersion::Gm81),
        list_outcome(g.timelines@, Category::Timelines, FormatVersion::Gm80) == list_outcome(g.timelines@, Category::Timelines, FormatVersion::Gm81),
        list_outcome(g.objects@, Category::Objects, FormatVersion::Gm80) == list_outcome(g.objects@, Category::Objects, FormatVersion::Gm81),
        list_outcome(g.rooms@, Category::Rooms, FormatVersion::Gm80) == list_outcome(g.rooms@, Category::Rooms, FormatVersion::Gm81),
        back_outcome(g, FormatVersion::Gm80) == back_outcome(g, FormatVersion::Gm81),
        records_ok(g.constants@, FormatVersion::Gm80) == records_ok(g.constants@, FormatVersion::Gm81),
        marked_list(800, g.constants@, FormatVersion::Gm80) == marked_list(800, g.constants@, FormatVersion::Gm81),
{
    assert(header_bytes(g, FormatVersion::Gm80).subrange(8, 28) =~= header_bytes(g, FormatVersion::Gm81).subrange(8, 28));
    assert(header_bytes(g, FormatVersion::Gm80).subrange(0, 4) =~= header_bytes(g, FormatVersion::Gm81).subrange(0, 4));
    lemma_slots_revision_free(g.triggers@, Category::Triggers);
    lemma_slots_revision_free(g.sounds@, Category::Sounds);
    assert forall|i: int| 0 <= i < g.sprites@.len() implies (#[trigger] g.sprites@[i] matches Some(r) ==> revision_free(r)) by {
        if let Some(r) = g.sprites@[i] {
            lemma_parts_revision_free(r.frames@);
        }
    }
    lemma_slots_revision_free(g.sprites@, Category::Sprites);
    lemma_slots_revision_free(g.backgrounds@, Category::Backgrounds);
    assert forall|i: int| 0 <= i < g.paths@.len() implies (#[trigger] g.paths@[i] matches Some(r) ==> revision_free(r)) by {
        if let Some(r) = g.paths@[i] {
            lemma_parts_revision_free(r.points@);
        }
    }
    lemma_slots_revision_free(g.paths@, Category::Paths);
    lemma_slots_revision_free(g.scripts@, Category::Scripts);
    lemma_slots_revision_free(g.timelines@, Category::Timelines);
    lemma_slots_revision_free(g.objects@, Category::Objects);
    assert forall|i: int| 0 <= i < g.rooms@.len() implies (#[trigger] g.rooms@[i] matches Some(r) ==> revision_free(r)) by {
        if let Some(r) = g.rooms@[i] {
            lemma_parts_revision_free(r.instances@);
        }
    }
    lemma_slots_revision_free(g.rooms@, Category::Rooms);
    lemma_parts_revision_free(g.constants@);
    lemma_parts_revision_free(g.included_files@);
    lemma_parts_revision_free(g.extensions@);
}

} // verus!
