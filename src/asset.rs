//! The asset records of a project, the format revision they are written in,
//! and how each record is encoded.
use vstd::prelude::*;
use vstd::seq_lib::lemma_concat_associative;
use crate::action::{lists_concat, lists_ok, put_lists, ActionList};
use crate::bytes::{
    block, block_fits, bool_le, fits, i32_le, pas, put_block, put_bool, put_i32, put_str, put_u32,
    put_u64, u32_le, u64_le,
};

verus! {

/// The two revisions of the project format.
#[derive(Debug, Clone, Copy, PartialEq, Eq, Structural)]
pub enum FormatVersion {
    /// The older revision, saved with the extension "gmk".
    Gm80,
    /// The newer revision, saved with the extension "gm81".
    Gm81,
}

/// The categories of a project's assets.
#[derive(Debug, Clone, Copy, PartialEq, Eq, Structural)]
pub enum Category {
    Triggers,
    Sounds,
    Sprites,
    Backgrounds,
    Paths,
    Scripts,
    Fonts,
    Timelines,
    Objects,
    Rooms,
}

/// A record that is encoded on its own: an asset in one slot of a list, or
/// a part of an asset.
pub trait Record: Sized {
    /// Whether every value of the record fits its field in `version`.
    spec fn encodable(&self, version: FormatVersion) -> bool;

    /// The bytes of the record in `version`.
    spec fn encoding(&self, version: FormatVersion) -> Seq<u8>;

    /// Encodes the record; `None` when a value does not fit its field.
    fn encode(&self, version: FormatVersion) -> (r: Option<Vec<u8>>)
        ensures
            r is Some <==> self.encodable(version),
            r is Some ==> r->Some_0@ == self.encoding(version),
    ;
}

/// A script: a name and its source text.
#[derive(Debug, Clone)]
pub struct Script {
    pub name: Vec<u8>,
    pub source: Vec<u8>,
}

impl Record for Script {
    open spec fn encodable(&self, version: FormatVersion) -> bool {
        fits(self.name@) && fits(self.source@)
    }

    open spec fn encoding(&self, version: FormatVersion) -> Seq<u8> {
        pas(self.name@) + u32_le(800) + pas(self.source@)
    }

    fn encode(&self, version: FormatVersion) -> (r: Option<Vec<u8>>) {
        let mut out: Vec<u8> = Vec::new();
        if !put_str(&mut out, &self.name) {
            return None;
        }
        put_u32(&mut out, 800);
        if !put_str(&mut out, &self.source) {
            return None;
        }
        assert(out@ =~= self.encoding(version));
        Some(out)
    }
}

/// A font. The newer revision packs the first character, the character set
/// and the anti-aliasing level into one 32-bit field; the older one stores
/// the first character alone.
#[derive(Debug, Clone)]
pub struct Font {
    pub name: Vec<u8>,
    pub sys_name: Vec<u8>,
    pub size: u32,
    pub bold: bool,
    pub italic: bool,
    pub range_start: u32,
    pub range_end: u32,
    pub charset: u32,
    pub aa_level: u32,
}

/// The field that holds the first character of a font in `version`.
pub open spec fn font_range_field(f: Font, version: FormatVersion) -> u32 {
    match version {
        FormatVersion::Gm80 => f.range_start,
        FormatVersion::Gm81 => (f.range_start + f.charset * 65536 + f.aa_level * 16777216) as u32,
    }
}

impl Record for Font {
    open spec fn encodable(&self, version: FormatVersion) -> bool {
        &&& fits(self.name@)
        &&& fits(self.sys_name@)
        &&& (version == FormatVersion::Gm81 ==> self.range_start < 65536 && self.charset < 256
            && self.aa_level < 256)
    }

    open spec fn encoding(&self, version: FormatVersion) -> Seq<u8> {
        pas(self.name@) + u32_le(800) + pas(self.sys_name@) + u32_le(self.size) + bool_le(self.bold)
            + bool_le(self.italic) + u32_le(font_range_field(*self, version)) + u32_le(
            self.range_end,
        )
    }

    fn encode(&self, version: FormatVersion) -> (r: Option<Vec<u8>>) {
        let range = match version {
            FormatVersion::Gm80 => self.range_start,
            FormatVersion::Gm81 => {
                if self.range_start >= 65536 || self.charset >= 256 || self.aa_level >= 256 {
                    return None;
                }
                self.range_start + self.charset * 65536 + self.aa_level * 16777216
            },
        };
        let mut out: Vec<u8> = Vec::new();
        if !put_str(&mut out, &self.name) {
            return None;
        }
        put_u32(&mut out, 800);
        if !put_str(&mut out, &self.sys_name) {
            return None;
        }
        put_u32(&mut out, self.size);
        put_bool(&mut out, self.bold);
        put_bool(&mut out, self.italic);
        put_u32(&mut out, range);
        put_u32(&mut out, self.range_end);
        assert(out@ =~= self.encoding(version));
        Some(out)
    }
}

/// A trigger: a condition checked at a moment of each step.
#[derive(Debug, Clone)]
pub struct Trigger {
    pub name: Vec<u8>,
    pub condition: Vec<u8>,
    pub moment: u32,
    pub constant_name: Vec<u8>,
}

impl Record for Trigger {
    open spec fn encodable(&self, version: FormatVersion) -> bool {
        fits(self.name@) && fits(self.condition@) && fits(self.constant_name@)
    }

    open spec fn encoding(&self, version: FormatVersion) -> Seq<u8> {
        u32_le(800) + pas(self.name@) + pas(self.condition@) + u32_le(self.moment) + pas(
            self.constant_name@,
        )
    }

    fn encode(&self, version: FormatVersion) -> (r: Option<Vec<u8>>) {
        let mut out: Vec<u8> = Vec::new();
        put_u32(&mut out, 800);
        if !put_str(&mut out, &self.name) {
            return None;
        }
        if !put_str(&mut out, &self.condition) {
            return None;
        }
        put_u32(&mut out, self.moment);
        if !put_str(&mut out, &self.constant_name) {
            return None;
        }
        assert(out@ =~= self.encoding(version));
        Some(out)
    }
}

/// A timeline: actions keyed by the step at which they run.
#[derive(Debug, Clone)]
pub struct Timeline {
    pub name: Vec<u8>,
    pub moments: Vec<ActionList>,
}

impl Record for Timeline {
    open spec fn encodable(&self, version: FormatVersion) -> bool {
        fits(self.name@) && self.moments.len() <= u32::MAX && lists_ok(self.moments@)
    }

    open spec fn encoding(&self, version: FormatVersion) -> Seq<u8> {
        pas(self.name@) + u32_le(500) + u32_le(self.moments.len() as u32) + lists_concat(
            self.moments@,
        )
    }

    fn encode(&self, version: FormatVersion) -> (r: Option<Vec<u8>>) {
        let mut out: Vec<u8> = Vec::new();
        if self.moments.len() > u32::MAX as usize {
            return None;
        }
        if !put_str(&mut out, &self.name) {
            return None;
        }
        put_u32(&mut out, 500);
        put_u32(&mut out, self.moments.len() as u32);
        if !put_lists(&mut out, &self.moments) {
            return None;
        }
        assert(out@ =~= self.encoding(version));
        Some(out)
    }
}

/// An object: its properties, then for each event type the sub-events that
/// it handles.
#[derive(Debug, Clone)]
pub struct Object {
    pub name: Vec<u8>,
    pub sprite_index: i32,
    pub solid: bool,
    pub visible: bool,
    pub depth: i32,
    pub persistent: bool,
    pub parent_index: i32,
    pub mask_index: i32,
    pub events: Vec<Vec<ActionList>>,
}

/// Each event type's sub-events, closed by -1.
pub open spec fn events_concat(s: Seq<Vec<ActionList>>) -> Seq<u8>
    decreases s.len(),
{
    if s.len() == 0 {
        Seq::empty()
    } else {
        events_concat(s.drop_last()) + lists_concat(s.last()@) + i32_le(-1i32)
    }
}

/// Whether the actions of every event can be encoded.
pub open spec fn events_ok(s: Seq<Vec<ActionList>>) -> bool {
    forall|i: int| 0 <= i < s.len() ==> lists_ok((#[trigger] s[i])@)
}

fn put_events(out: &mut Vec<u8>, s: &Vec<Vec<ActionList>>) -> (ok: bool)
    ensures
        ok == events_ok(s@),
        ok ==> final(out)@ == old(out)@ + events_concat(s@),
{
    let mut i: usize = 0;
    while i < s.len()
        invariant
            i <= s.len(),
            forall|j: int| 0 <= j < i ==> lists_ok((#[trigger] s@[j])@),
            out@ == old(out)@ + events_concat(s@.subrange(0, i as int)),
        decreases s.len() - i,
    {
        assert(s@.subrange(0, i + 1).drop_last() =~= s@.subrange(0, i as int));
        if !put_lists(out, &s[i]) {
            return false;
        }
        put_i32(out, -1);
        i = i + 1;
        assert(out@ =~= old(out)@ + events_concat(s@.subrange(0, i as int)));
    }
    assert(s@.subrange(0, s.len() as int) =~= s@);
    true
}

/// The properties of an object, before its events.
pub open spec fn object_head(o: Object) -> Seq<u8> {
    pas(o.name@) + u32_le(430) + i32_le(o.sprite_index) + bool_le(o.solid) + bool_le(o.visible)
        + i32_le(o.depth) + bool_le(o.persistent) + i32_le(o.parent_index) + i32_le(o.mask_index)
}

impl Record for Object {
    open spec fn encodable(&self, version: FormatVersion) -> bool {
        fits(self.name@) && self.events.len() <= u32::MAX && events_ok(self.events@)
    }

    open spec fn encoding(&self, version: FormatVersion) -> Seq<u8> {
        object_head(*self) + u32_le(self.events.len() as u32) + events_concat(self.events@)
    }

    fn encode(&self, version: FormatVersion) -> (r: Option<Vec<u8>>) {
        let mut out: Vec<u8> = Vec::new();
        if self.events.len() > u32::MAX as usize {
            return None;
        }
        if !put_str(&mut out, &self.name) {
            return None;
        }
        put_u32(&mut out, 430);
        put_i32(&mut out, self.sprite_index);
        put_bool(&mut out, self.solid);
        put_bool(&mut out, self.visible);
        put_i32(&mut out, self.depth);
        put_bool(&mut out, self.persistent);
        put_i32(&mut out, self.parent_index);
        put_i32(&mut out, self.mask_index);
        assert(out@ =~= object_head(*self));
        put_u32(&mut out, self.events.len() as u32);
        if !put_events(&mut out, &self.events) {
            return None;
        }
        assert(out@ =~= self.encoding(version));
        Some(out)
    }
}

/// The records one after another.
pub open spec fn records_concat<T: Record>(s: Seq<T>, version: FormatVersion) -> Seq<u8>
    decreases s.len(),
{
    if s.len() == 0 {
        Seq::empty()
    } else {
        records_concat(s.drop_last(), version) + s.last().encoding(version)
    }
}

/// Whether every record can be encoded.
pub open spec fn records_ok<T: Record>(s: Seq<T>, version: FormatVersion) -> bool {
    forall|i: int| 0 <= i < s.len() ==> (#[trigger] s[i]).encodable(version)
}

/// The count of the records, then the records.
pub open spec fn counted<T: Record>(s: Seq<T>, version: FormatVersion) -> Seq<u8> {
    u32_le(s.len() as u32) + records_concat(s, version)
}

/// Appends the count of the records and the records; false when there are
/// too many or one cannot be encoded.
#[verifier::spinoff_prover]
pub fn put_counted<T: Record>(out: &mut Vec<u8>, s: &Vec<T>, version: FormatVersion) -> (ok: bool)
    ensures
        ok == (s.len() <= u32::MAX && records_ok(s@, version)),
        ok ==> final(out)@ == old(out)@ + counted(s@, version),
{
    if s.len() > u32::MAX as usize {
        return false;
    }
    put_u32(out, s.len() as u32);
    let ghost start = out@;
    let mut i: usize = 0;
    while i < s.len()
        invariant
            i <= s.len(),
            s.len() <= u32::MAX,
            forall|j: int| 0 <= j < i ==> (#[trigger] s@[j]).encodable(version),
            out@ == start + records_concat(s@.subrange(0, i as int), version),
        decreases s.len() - i,
    {
        assert(s@.subrange(0, i + 1).drop_last() =~= s@.subrange(0, i as int));
        match s[i].encode(version) {
            None => {
                return false;
            },
            Some(bytes) => {
                let ghost prev = out@;
                crate::bytes::put_bytes(out, &bytes);
                proof {
                    let p = s@.subrange(0, i as int);
                    let q = s@.subrange(0, i + 1);
                    assert(q.last() == s@[i as int]);
                    assert(records_concat(q, version) == records_concat(p, version) + s@[i as int].encoding(version));
                    lemma_concat_associative(start, records_concat(p, version), bytes@);
                }
            },
        }
        i = i + 1;
    }
    assert(s@.subrange(0, s.len() as int) =~= s@);
    assert(out@ =~= old(out)@ + counted(s@, version));
    true
}

/// A sound. Its samples, when present, are stored as they are.
#[derive(Debug, Clone)]
pub struct Sound {
    pub name: Vec<u8>,
    pub kind: u32,
    pub extension: Vec<u8>,
    pub source: Vec<u8>,
    pub data: Option<Vec<u8>>,
    pub effects: u32,
    /// The volume, as the bits of a 64-bit float.
    pub volume: u64,
    /// The pan, as the bits of a 64-bit float.
    pub pan: u64,
    pub preload: bool,
}

/// The samples of a sound: a presence flag, then the bytes.
pub open spec fn sound_data_bytes(d: Option<Vec<u8>>) -> Seq<u8> {
    match d {
        None => bool_le(false),
        Some(v) => bool_le(true) + pas(v@),
    }
}

impl Record for Sound {
    open spec fn encodable(&self, version: FormatVersion) -> bool {
        &&& fits(self.name@)
        &&& fits(self.extension@)
        &&& fits(self.source@)
        &&& (self.data matches Some(d) ==> fits(d@))
    }

    open spec fn encoding(&self, version: FormatVersion) -> Seq<u8> {
        pas(self.name@) + u32_le(800) + u32_le(self.kind) + pas(self.extension@) + pas(self.source@)
            + sound_data_bytes(self.data) + u32_le(self.effects) + u64_le(self.volume) + u64_le(
            self.pan,
        ) + bool_le(self.preload)
    }

    fn encode(&self, version: FormatVersion) -> (r: Option<Vec<u8>>) {
        let mut out: Vec<u8> = Vec::new();
        if !put_str(&mut out, &self.name) {
            return None;
        }
        put_u32(&mut out, 800);
        put_u32(&mut out, self.kind);
        if !put_str(&mut out, &self.extension) {
            return None;
        }
        if !put_str(&mut out, &self.source) {
            return None;
        }
        let ghost before = out@;
        match &self.data {
            None => put_bool(&mut out, false),
            Some(d) => {
                put_bool(&mut out, true);
                if !put_str(&mut out, d) {
                    return None;
                }
            },
        }
        assert(out@ =~= before + sound_data_bytes(self.data));
        put_u32(&mut out, self.effects);
        put_u64(&mut out, self.volume);
        put_u64(&mut out, self.pan);
        put_bool(&mut out, self.preload);
        assert(out@ =~= self.encoding(version));
        Some(out)
    }
}

/// A bitmap: its size and its pixels.
#[derive(Debug, Clone)]
pub struct Frame {
    pub width: u32,
    pub height: u32,
    pub data: Vec<u8>,
}

impl Record for Frame {
    open spec fn encodable(&self, version: FormatVersion) -> bool {
        block_fits(self.data@)
    }

    open spec fn encoding(&self, version: FormatVersion) -> Seq<u8> {
        u32_le(800) + u32_le(self.width) + u32_le(self.height) + block(self.data@)
    }

    fn encode(&self, version: FormatVersion) -> (r: Option<Vec<u8>>) {
        let mut out: Vec<u8> = Vec::new();
        put_u32(&mut out, 800);
        put_u32(&mut out, self.width);
        put_u32(&mut out, self.height);
        if !put_block(&mut out, &self.data) {
            return None;
        }
        assert(out@ =~= self.encoding(version));
        Some(out)
    }
}

/// A sprite: its origin, its frames, and its collision data as one block.
#[derive(Debug, Clone)]
pub struct Sprite {
    pub name: Vec<u8>,
    pub origin_x: i32,
    pub origin_y: i32,
    pub frames: Vec<Frame>,
    pub collision: Vec<u8>,
}

impl Record for Sprite {
    open spec fn encodable(&self, version: FormatVersion) -> bool {
        &&& fits(self.name@)
        &&& self.frames.len() <= u32::MAX
        &&& records_ok(self.frames@, version)
        &&& block_fits(self.collision@)
    }

    open spec fn encoding(&self, version: FormatVersion) -> Seq<u8> {
        pas(self.name@) + u32_le(800) + i32_le(self.origin_x) + i32_le(self.origin_y) + counted(
            self.frames@,
            version,
        ) + block(self.collision@)
    }

    fn encode(&self, version: FormatVersion) -> (r: Option<Vec<u8>>) {
        let mut out: Vec<u8> = Vec::new();
        if !put_str(&mut out, &self.name) {
            return None;
        }
        put_u32(&mut out, 800);
        put_i32(&mut out, self.origin_x);
        put_i32(&mut out, self.origin_y);
        if !put_counted(&mut out, &self.frames, version) {
            return None;
        }
        if !put_block(&mut out, &self.collision) {
            return None;
        }
        assert(out@ =~= self.encoding(version));
        Some(out)
    }
}

/// A background: one bitmap.
#[derive(Debug, Clone)]
pub struct Background {
    pub name: Vec<u8>,
    pub image: Frame,
}

impl Record for Background {
    open spec fn encodable(&self, version: FormatVersion) -> bool {
        fits(self.name@) && self.image.encodable(version)
    }

    open spec fn encoding(&self, version: FormatVersion) -> Seq<u8> {
        pas(self.name@) + u32_le(710) + self.image.encoding(version)
    }

    fn encode(&self, version: FormatVersion) -> (r: Option<Vec<u8>>) {
        let mut out: Vec<u8> = Vec::new();
        if !put_str(&mut out, &self.name) {
            return None;
        }
        put_u32(&mut out, 710);
        match self.image.encode(version) {
            None => None,
            Some(bytes) => {
                crate::bytes::put_bytes(&mut out, &bytes);
                assert(out@ =~= self.encoding(version));
                Some(out)
            },
        }
    }
}

/// A point of a path; each coordinate is the bits of a 64-bit float.
#[derive(Debug, Clone, Copy)]
pub struct PathPoint {
    pub x: u64,
    pub y: u64,
    pub speed: u64,
}

impl Record for PathPoint {
    open spec fn encodable(&self, version: FormatVersion) -> bool {
        true
    }

    open spec fn encoding(&self, version: FormatVersion) -> Seq<u8> {
        u64_le(self.x) + u64_le(self.y) + u64_le(self.speed)
    }

    fn encode(&self, version: FormatVersion) -> (r: Option<Vec<u8>>) {
        let mut out: Vec<u8> = Vec::new();
        put_u64(&mut out, self.x);
        put_u64(&mut out, self.y);
        put_u64(&mut out, self.speed);
        assert(out@ =~= self.encoding(version));
        Some(out)
    }
}

/// A path: how its points connect, and the points.
#[derive(Debug, Clone)]
pub struct Path {
    pub name: Vec<u8>,
    pub connection: u32,
    pub closed: bool,
    pub precision: u32,
    pub points: Vec<PathPoint>,
}

impl Record for Path {
    open spec fn encodable(&self, version: FormatVersion) -> bool {
        fits(self.name@) && self.points.len() <= u32::MAX
    }

    open spec fn encoding(&self, version: FormatVersion) -> Seq<u8> {
        pas(self.name@) + u32_le(530) + u32_le(self.connection) + bool_le(self.closed) + u32_le(
            self.precision,
        ) + counted(self.points@, version)
    }

    fn encode(&self, version: FormatVersion) -> (r: Option<Vec<u8>>) {
        let mut out: Vec<u8> = Vec::new();
        if !put_str(&mut out, &self.name) {
            return None;
        }
        put_u32(&mut out, 530);
        put_u32(&mut out, self.connection);
        put_bool(&mut out, self.closed);
        put_u32(&mut out, self.precision);
        if !put_counted(&mut out, &self.points, version) {
            return None;
        }
        assert(out@ =~= self.encoding(version));
        Some(out)
    }
}

/// An instance placed in a room.
#[derive(Debug, Clone)]
pub struct Instance {
    pub x: i32,
    pub y: i32,
    pub object: i32,
    pub id: u32,
    pub creation_code: Vec<u8>,
}

impl Record for Instance {
    open spec fn encodable(&self, version: FormatVersion) -> bool {
        fits(self.creation_code@)
    }

    open spec fn encoding(&self, version: FormatVersion) -> Seq<u8> {
        i32_le(self.x) + i32_le(self.y) + i32_le(self.object) + u32_le(self.id) + pas(
            self.creation_code@,
        ) + bool_le(false)
    }

    fn encode(&self, version: FormatVersion) -> (r: Option<Vec<u8>>) {
        let mut out: Vec<u8> = Vec::new();
        put_i32(&mut out, self.x);
        put_i32(&mut out, self.y);
        put_i32(&mut out, self.object);
        put_u32(&mut out, self.id);
        if !put_str(&mut out, &self.creation_code) {
            return None;
        }
        put_bool(&mut out, false);
        assert(out@ =~= self.encoding(version));
        Some(out)
    }
}

/// A room: its properties and the instances placed in it.
#[derive(Debug, Clone)]
pub struct Room {
    pub name: Vec<u8>,
    pub caption: Vec<u8>,
    pub width: u32,
    pub height: u32,
    pub speed: u32,
    pub persistent: bool,
    pub bg_colour: u32,
    pub creation_code: Vec<u8>,
    pub instances: Vec<Instance>,
}

/// The properties of a room, before its instances.
pub open spec fn room_head(r: Room) -> Seq<u8> {
    pas(r.name@) + u32_le(541) + pas(r.caption@) + u32_le(r.width) + u32_le(r.height) + u32_le(
        r.speed,
    ) + bool_le(r.persistent) + u32_le(r.bg_colour) + pas(r.creation_code@)
}

impl Record for Room {
    open spec fn encodable(&self, version: FormatVersion) -> bool {
        &&& fits(self.name@)
        &&& fits(self.caption@)
        &&& fits(self.creation_code@)
        &&& self.instances.len() <= u32::MAX
        &&& records_ok(self.instances@, version)
    }

    open spec fn encoding(&self, version: FormatVersion) -> Seq<u8> {
        room_head(*self) + counted(self.instances@, version)
    }

    fn encode(&self, version: FormatVersion) -> (r: Option<Vec<u8>>) {
        let mut out: Vec<u8> = Vec::new();
        if !put_str(&mut out, &self.name) {
            return None;
        }
        put_u32(&mut out, 541);
        if !put_str(&mut out, &self.caption) {
            return None;
        }
        put_u32(&mut out, self.width);
        put_u32(&mut out, self.height);
        put_u32(&mut out, self.speed);
        put_bool(&mut out, self.persistent);
        put_u32(&mut out, self.bg_colour);
        if !put_str(&mut out, &self.creation_code) {
            return None;
        }
        assert(out@ =~= room_head(*self));
        if !put_counted(&mut out, &self.instances, version) {
            return None;
        }
        assert(out@ =~= self.encoding(version));
        Some(out)
    }
}

} // verus!
