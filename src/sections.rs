//! The sections of a project file other than the asset lists: header,
//! settings, constants, included files, extensions, game information,
//! library initialization code, room order and room editor metadata.
use vstd::prelude::*;
use crate::action::{put_strs, strs_bytes, strs_fit};
use crate::asset::{counted, put_counted, records_ok, FormatVersion, Record};
use crate::bytes::{
    block, block_fits, bool_le, fits, i32_le, pas, put_block, put_bool, put_i32, put_str, put_u32,
    u32_le,
};
use crate::game::{Constant, Extension, GameAssets, GameInformation, IncludedFile, Settings};

verus! {

/// The number that marks a file of the project format.
pub const FILE_MAGIC: u32 = 1234321;

/// The number by which each format revision names itself.
pub open spec fn version_code(v: FormatVersion) -> u32 {
    match v {
        FormatVersion::Gm80 => 800,
        FormatVersion::Gm81 => 810,
    }
}

fn code_of(v: FormatVersion) -> (r: u32)
    ensures
        r == version_code(v),
{
    match v {
        FormatVersion::Gm80 => 800,
        FormatVersion::Gm81 => 810,
    }
}

/// The header: the magic number, the revision, the game id and its guid.
pub open spec fn header_bytes(g: GameAssets, v: FormatVersion) -> Seq<u8> {
    u32_le(FILE_MAGIC) + u32_le(version_code(v)) + u32_le(g.game_id) + u32_le(g.guid@[0]) + u32_le(
        g.guid@[1],
    ) + u32_le(g.guid@[2]) + u32_le(g.guid@[3])
}

/// Appends the header.
pub fn put_header(out: &mut Vec<u8>, g: &GameAssets, v: FormatVersion)
    ensures
        final(out)@ == old(out)@ + header_bytes(*g, v),
{
    put_u32(out, FILE_MAGIC);
    put_u32(out, code_of(v));
    put_u32(out, g.game_id);
    put_u32(out, g.guid[0]);
    put_u32(out, g.guid[1]);
    put_u32(out, g.guid[2]);
    put_u32(out, g.guid[3]);
    assert(out@ =~= old(out)@ + header_bytes(*g, v));
}

/// The window flags of the settings.
pub open spec fn settings_window(s: Settings) -> Seq<u8> {
    bool_le(s.fullscreen) + bool_le(s.interpolate_pixels) + bool_le(s.dont_draw_border) + bool_le(
        s.display_cursor,
    )
}

/// The display flags of the settings.
pub open spec fn settings_display(s: Settings) -> Seq<u8> {
    settings_window(s) + i32_le(s.scaling) + bool_le(s.allow_resize) + bool_le(s.window_on_top)
        + u32_le(s.clear_colour) + bool_le(s.set_resolution)
}

/// The vertical-sync flag, which only the newer revision stores.
pub open spec fn vsync_bytes(s: Settings, v: FormatVersion) -> Seq<u8> {
    if v == FormatVersion::Gm81 {
        bool_le(s.vsync)
    } else {
        Seq::empty()
    }
}

/// The flags of the settings.
pub open spec fn settings_flags(s: Settings, v: FormatVersion) -> Seq<u8> {
    settings_display(s) + vsync_bytes(s, v) + bool_le(s.esc_close_game) + bool_le(s.f1_help_menu)
        + u32_le(s.priority)
}

/// The icon part of the settings: only the newer revision embeds the icon,
/// after a flag that tells whether there is one.
pub open spec fn icon_bytes(icon: Option<Vec<u8>>, v: FormatVersion) -> Seq<u8> {
    match v {
        FormatVersion::Gm80 => Seq::empty(),
        FormatVersion::Gm81 => match icon {
            None => bool_le(false),
            Some(d) => bool_le(true) + pas(d@),
        },
    }
}

/// The body of the settings block.
pub open spec fn settings_body(s: Settings, icon: Option<Vec<u8>>, v: FormatVersion) -> Seq<u8> {
    settings_flags(s, v) + u32_le(s.version_major) + u32_le(s.version_minor) + pas(s.author@) + pas(
        s.version_info@,
    ) + pas(s.information@) + icon_bytes(icon, v)
}

/// Whether the settings can be encoded.
pub open spec fn settings_ok(s: Settings, icon: Option<Vec<u8>>, v: FormatVersion) -> bool {
    &&& fits(s.author@)
    &&& fits(s.version_info@)
    &&& fits(s.information@)
    &&& (v == FormatVersion::Gm81 ==> (icon matches Some(d) ==> fits(d@)))
    &&& block_fits(settings_body(s, icon, v))
}

/// The settings section: the revision's number, then the body as a
/// compressed block.
pub open spec fn settings_bytes(s: Settings, icon: Option<Vec<u8>>, v: FormatVersion) -> Seq<u8> {
    u32_le(version_code(v)) + block(settings_body(s, icon, v))
}

fn put_settings_window(out: &mut Vec<u8>, s: &Settings)
    ensures
        final(out)@ == old(out)@ + settings_window(*s),
{
    put_bool(out, s.fullscreen);
    put_bool(out, s.interpolate_pixels);
    put_bool(out, s.dont_draw_border);
    put_bool(out, s.display_cursor);
    assert(out@ =~= old(out)@ + settings_window(*s));
}

fn put_settings_display(out: &mut Vec<u8>, s: &Settings)
    ensures
        final(out)@ == old(out)@ + settings_display(*s),
{
    put_settings_window(out, s);
    put_i32(out, s.scaling);
    put_bool(out, s.allow_resize);
    put_bool(out, s.window_on_top);
    put_u32(out, s.clear_colour);
    put_bool(out, s.set_resolution);
    assert(out@ =~= old(out)@ + settings_display(*s));
}

fn put_settings_flags(out: &mut Vec<u8>, s: &Settings, v: FormatVersion)
    ensures
        final(out)@ == old(out)@ + settings_flags(*s, v),
{
    put_settings_display(out, s);
    let ghost before = out@;
    if v == FormatVersion::Gm81 {
        put_bool(out, s.vsync);
    }
    assert(out@ =~= before + vsync_bytes(*s, v));
    put_bool(out, s.esc_close_game);
    put_bool(out, s.f1_help_menu);
    put_u32(out, s.priority);
    assert(out@ =~= old(out)@ + settings_flags(*s, v));
}

/// Appends the settings section; false when it cannot be encoded.
pub fn put_settings(out: &mut Vec<u8>, s: &Settings, icon: &Option<Vec<u8>>, v: FormatVersion) -> (ok: bool)
    ensures
        ok == settings_ok(*s, *icon, v),
        ok ==> final(out)@ == old(out)@ + settings_bytes(*s, *icon, v),
{
    let mut body: Vec<u8> = Vec::new();
    put_settings_flags(&mut body, s, v);
    put_u32(&mut body, s.version_major);
    put_u32(&mut body, s.version_minor);
    if !put_str(&mut body, &s.author) {
        return false;
    }
    if !put_str(&mut body, &s.version_info) {
        return false;
    }
    if !put_str(&mut body, &s.information) {
        return false;
    }
    let ghost before = body@;
    if v == FormatVersion::Gm81 {
        match icon {
            None => put_bool(&mut body, false),
            Some(d) => {
                put_bool(&mut body, true);
                if !put_str(&mut body, d) {
                    return false;
                }
            },
        }
    }
    assert(body@ =~= before + icon_bytes(*icon, v));
    assert(body@ =~= settings_body(*s, *icon, v));
    put_u32(out, code_of(v));
    if !put_block(out, &body) {
        return false;
    }
    assert(out@ =~= old(out)@ + settings_bytes(*s, *icon, v));
    true
}

impl Record for Constant {
    open spec fn encodable(&self, version: FormatVersion) -> bool {
        fits(self.name@) && fits(self.expression@)
    }

    open spec fn encoding(&self, version: FormatVersion) -> Seq<u8> {
        pas(self.name@) + pas(self.expression@)
    }

    fn encode(&self, version: FormatVersion) -> (r: Option<Vec<u8>>) {
        let mut out: Vec<u8> = Vec::new();
        if !put_str(&mut out, &self.name) {
            return None;
        }
        if !put_str(&mut out, &self.expression) {
            return None;
        }
        assert(out@ =~= self.encoding(version));
        Some(out)
    }
}

/// The stored data of an included file, when there is some.
pub open spec fn file_data_bytes(d: Option<Vec<u8>>) -> Seq<u8> {
    match d {
        None => Seq::empty(),
        Some(v) => pas(v@),
    }
}

impl Record for IncludedFile {
    open spec fn encodable(&self, version: FormatVersion) -> bool {
        &&& fits(self.file_name@)
        &&& fits(self.source_path@)
        &&& fits(self.export_folder@)
        &&& (self.data matches Some(d) ==> fits(d@))
    }

    open spec fn encoding(&self, version: FormatVersion) -> Seq<u8> {
        u32_le(800) + pas(self.file_name@) + pas(self.source_path@) + bool_le(self.data is Some)
            + u32_le(self.source_length) + bool_le(self.data is Some) + file_data_bytes(self.data)
            + u32_le(self.export_setting) + pas(self.export_folder@) + bool_le(self.overwrite_file)
            + bool_le(self.free_memory) + bool_le(self.remove_at_end)
    }

    fn encode(&self, version: FormatVersion) -> (r: Option<Vec<u8>>) {
        let mut out: Vec<u8> = Vec::new();
        put_u32(&mut out, 800);
        if !put_str(&mut out, &self.file_name) {
            return None;
        }
        if !put_str(&mut out, &self.source_path) {
            return None;
        }
        let stored = self.data.is_some();
        put_bool(&mut out, stored);
        put_u32(&mut out, self.source_length);
        put_bool(&mut out, stored);
        let ghost before = out@;
        match &self.data {
            None => {},
            Some(d) => {
                if !put_str(&mut out, d) {
                    return None;
                }
            },
        }
        assert(out@ =~= before + file_data_bytes(self.data));
        put_u32(&mut out, self.export_setting);
        if !put_str(&mut out, &self.export_folder) {
            return None;
        }
        put_bool(&mut out, self.overwrite_file);
        put_bool(&mut out, self.free_memory);
        put_bool(&mut out, self.remove_at_end);
        assert(out@ =~= self.encoding(version));
        Some(out)
    }
}

impl Record for Extension {
    open spec fn encodable(&self, version: FormatVersion) -> bool {
        fits(self.name@) && fits(self.folder_name@)
    }

    open spec fn encoding(&self, version: FormatVersion) -> Seq<u8> {
        pas(self.name@) + pas(self.folder_name@)
    }

    fn encode(&self, version: FormatVersion) -> (r: Option<Vec<u8>>) {
        let mut out: Vec<u8> = Vec::new();
        if !put_str(&mut out, &self.name) {
            return None;
        }
        if !put_str(&mut out, &self.folder_name) {
            return None;
        }
        assert(out@ =~= self.encoding(version));
        Some(out)
    }
}

impl Record for GameInformation {
    open spec fn encodable(&self, version: FormatVersion) -> bool {
        fits(self.caption@) && fits(self.content@)
    }

    open spec fn encoding(&self, version: FormatVersion) -> Seq<u8> {
        u32_le(self.bg_colour) + bool_le(self.new_window) + pas(self.caption@) + i32_le(self.left)
            + i32_le(self.top) + u32_le(self.width) + u32_le(self.height) + bool_le(self.border)
            + bool_le(self.resizable) + bool_le(self.window_on_top) + bool_le(self.freeze_game) + pas(
            self.content@,
        )
    }

    fn encode(&self, version: FormatVersion) -> (r: Option<Vec<u8>>) {
        let mut out: Vec<u8> = Vec::new();
        put_u32(&mut out, self.bg_colour);
        put_bool(&mut out, self.new_window);
        if !put_str(&mut out, &self.caption) {
            return None;
        }
        put_i32(&mut out, self.left);
        put_i32(&mut out, self.top);
        put_u32(&mut out, self.width);
        put_u32(&mut out, self.height);
        put_bool(&mut out, self.border);
        put_bool(&mut out, self.resizable);
        put_bool(&mut out, self.window_on_top);
        put_bool(&mut out, self.freeze_game);
        if !put_str(&mut out, &self.content) {
            return None;
        }
        assert(out@ =~= self.encoding(version));
        Some(out)
    }
}

/// A section made of a marker and a counted list of records.
pub open spec fn marked_list<T: Record>(marker: u32, s: Seq<T>, v: FormatVersion) -> Seq<u8> {
    u32_le(marker) + counted(s, v)
}

/// Appends a marker and a counted list of records; false when the list
/// cannot be encoded.
pub fn put_marked_list<T: Record>(out: &mut Vec<u8>, marker: u32, s: &Vec<T>, v: FormatVersion) -> (ok: bool)
    ensures
        ok == (s.len() <= u32::MAX && records_ok(s@, v)),
        ok ==> final(out)@ == old(out)@ + marked_list(marker, s@, v),
{
    put_u32(out, marker);
    let ok = put_counted(out, s, v);
    assert(ok ==> out@ =~= old(out)@ + marked_list(marker, s@, v));
    ok
}

/// The game information section: a marker, then its body as a compressed
/// block.
pub open spec fn game_info_bytes(info: GameInformation, v: FormatVersion) -> Seq<u8> {
    u32_le(800) + block(info.encoding(v))
}

/// Whether the game information can be encoded.
pub open spec fn game_info_ok(info: GameInformation, v: FormatVersion) -> bool {
    info.encodable(v) && block_fits(info.encoding(v))
}

/// Appends the game information section; false when it cannot be encoded.
pub fn put_game_info(out: &mut Vec<u8>, info: &GameInformation, v: FormatVersion) -> (ok: bool)
    ensures
        ok == game_info_ok(*info, v),
        ok ==> final(out)@ == old(out)@ + game_info_bytes(*info, v),
{
    match info.encode(v) {
        None => false,
        Some(body) => {
            put_u32(out, 800);
            if !put_block(out, &body) {
                return false;
            }
            assert(out@ =~= old(out)@ + game_info_bytes(*info, v));
            true
        },
    }
}

/// The library initialization code: a marker, the count, the strings.
pub open spec fn init_code_bytes(s: Seq<Vec<u8>>) -> Seq<u8> {
    u32_le(500) + u32_le(s.len() as u32) + strs_bytes(s)
}

/// Appends the library initialization code; false when it cannot be
/// encoded.
pub fn put_init_code(out: &mut Vec<u8>, s: &Vec<Vec<u8>>) -> (ok: bool)
    ensures
        ok == (s.len() <= u32::MAX && strs_fit(s@)),
        ok ==> final(out)@ == old(out)@ + init_code_bytes(s@),
{
    if s.len() > u32::MAX as usize {
        return false;
    }
    put_u32(out, 500);
    put_u32(out, s.len() as u32);
    let ok = put_strs(out, s);
    assert(ok ==> out@ =~= old(out)@ + init_code_bytes(s@));
    ok
}

/// Signed integers one after another.
pub open spec fn i32s_bytes(s: Seq<i32>) -> Seq<u8>
    decreases s.len(),
{
    if s.len() == 0 {
        Seq::empty()
    } else {
        i32s_bytes(s.drop_last()) + i32_le(s.last())
    }
}

/// The room order: a marker, the count, the room indices in play order.
pub open spec fn room_order_bytes(s: Seq<i32>) -> Seq<u8> {
    u32_le(700) + u32_le(s.len() as u32) + i32s_bytes(s)
}

/// Appends the room order; false when it has too many entries.
pub fn put_room_order(out: &mut Vec<u8>, s: &Vec<i32>) -> (ok: bool)
    ensures
        ok == (s.len() <= u32::MAX),
        ok ==> final(out)@ == old(out)@ + room_order_bytes(s@),
{
    if s.len() > u32::MAX as usize {
        return false;
    }
    put_u32(out, 700);
    put_u32(out, s.len() as u32);
    let ghost start = out@;
    let mut i: usize = 0;
    while i < s.len()
        invariant
            i <= s.len(),
            out@ == start + i32s_bytes(s@.subrange(0, i as int)),
        decreases s.len() - i,
    {
        assert(s@.subrange(0, i + 1).drop_last() =~= s@.subrange(0, i as int));
        put_i32(out, s[i]);
        i = i + 1;
        assert(out@ =~= start + i32s_bytes(s@.subrange(0, i as int)));
    }
    assert(s@.subrange(0, s.len() as int) =~= s@);
    assert(out@ =~= old(out)@ + room_order_bytes(s@));
    true
}

} // verus!
