//! DTI files: level metadata — where the player starts, the colours of the
//! sky and floor, the skybox, the palette, and the zones of each arena.
//!
//! Floats are kept as their bit patterns. The decoder only accepts floats
//! that are finite, compares them with zero, and orders them; for finite
//! floats both can be read off the bits, as below.

use vstd::prelude::*;
use vstd::string::*;

use crate::data_formats::cmi_operands::{fixed_text_at, read_as, read_fixed_text, read_value, value_at};
use crate::data_formats::texture::{Texture, TextureView};
use crate::file_formats::bni::word_le;
use crate::reader::{FloatBits, Reader};

verus! {

broadcast use crate::reader::lemma_reader_bounds;

/// A 3D vector of floats, kept as bits.
#[derive(Clone, Copy, Debug, PartialEq, Eq, Structural)]
pub struct Vec3Bits {
    pub x: FloatBits,
    pub y: FloatBits,
    pub z: FloatBits,
}

/// The place of a finite float in the order of floats: the IEEE 754 encoding
/// puts the magnitude in the low 31 bits, so ordering finite floats is
/// ordering their magnitudes with the sign applied; both zeros get 0.
pub open spec fn float_key(f: FloatBits) -> int {
    if f.0 & 0x8000_0000u32 != 0 {
        -((f.0 & 0x7fff_ffffu32) as int)
    } else {
        f.0 as int
    }
}

/// Whether a finite float is zero (of either sign).
pub open spec fn float_is_zero(f: FloatBits) -> bool {
    float_key(f) == 0
}

/// Whether every component of `a` is at most that of `b`.
pub open spec fn vec3_le(a: Vec3Bits, b: Vec3Bits) -> bool {
    float_key(a.x) <= float_key(b.x) && float_key(a.y) <= float_key(b.y) && float_key(a.z)
        <= float_key(b.z)
}

pub open spec fn vec3_is_zero(a: Vec3Bits) -> bool {
    float_is_zero(a.x) && float_is_zero(a.y) && float_is_zero(a.z)
}

fn key_of(f: FloatBits) -> (k: i64)
    ensures
        k == float_key(f),
{
    if f.0 & 0x8000_0000 != 0 {
        -((f.0 & 0x7fff_ffff) as i64)
    } else {
        f.0 as i64
    }
}

fn vec3_le_exec(a: &Vec3Bits, b: &Vec3Bits) -> (r: bool)
    ensures
        r == vec3_le(*a, *b),
{
    key_of(a.x) <= key_of(b.x) && key_of(a.y) <= key_of(b.y) && key_of(a.z) <= key_of(b.z)
}

fn vec3_is_zero_exec(a: &Vec3Bits) -> (r: bool)
    ensures
        r == vec3_is_zero(*a),
{
    key_of(a.x) == 0 && key_of(a.y) == 0 && key_of(a.z) == 0
}

pub open spec fn vec3_at(e: Seq<u8>, p: int) -> Option<(Vec3Bits, int)> {
    match value_at::<FloatBits>(e, p) {
        Some((x, q1)) => match value_at::<FloatBits>(e, q1) {
            Some((y, q2)) => match value_at::<FloatBits>(e, q2) {
                Some((z, q3)) => Some((Vec3Bits { x, y, z }, q3)),
                None => None,
            },
            None => None,
        },
        None => None,
    }
}

pub fn read_vec3(r: &mut Reader) -> (res: Option<Vec3Bits>)
    ensures
        final(r).data() == old(r).data(),
        read_as(res, vec3_at(old(r).data(), old(r).pos()), final(r).pos()),
{
    let x = read_value::<FloatBits>(r)?;
    let y = read_value::<FloatBits>(r)?;
    let z = read_value::<FloatBits>(r)?;
    Some(Vec3Bits { x, y, z })
}

// ---------------------------------------------------------------------------
// The header

/// The fixed part at the start of the body: the file name and where each
/// section starts.
#[derive(Clone, Copy)]
pub struct DtiHeaderV {
    pub player: u32,
    pub teleports: u32,
    pub entities: u32,
    pub pal: u32,
    pub skybox: u32,
}

/// The body of a DTI file whose size field is at `p`, its file name, and its
/// section offsets. The size counts the bytes after the field; a second size
/// after the name counts 12 bytes fewer.
pub open spec fn dti_header(d: Seq<u8>, p: int) -> Option<(Seq<u8>, Seq<u8>, DtiHeaderV)> {
    match value_at::<u32>(d, p) {
        Some((fs, q)) => if fs + 4 > u32::MAX {
            None
        } else {
            let e = d.subrange(q, d.len() as int);
            match fixed_text_at(e, 0, 12) {
                Some((name, _)) => match value_at::<u32>(e, 12) {
                    Some((fs2, _)) => if fs2 + 12 > u32::MAX || fs + 4 != fs2 + 12 {
                        None
                    } else {
                        match (
                            value_at::<u32>(e, 16),
                            value_at::<u32>(e, 20),
                            value_at::<u32>(e, 24),
                            value_at::<u32>(e, 28),
                            value_at::<u32>(e, 32),
                        ) {
                            (Some((a, _)), Some((b, _)), Some((c, _)), Some((f, _)), Some((g, _))) => Some(
                                (
                                    e,
                                    name,
                                    DtiHeaderV { player: a, teleports: b, entities: c, pal: f, skybox: g },
                                ),
                            ),
                            _ => None,
                        }
                    },
                    None => None,
                },
                None => None,
            }
        },
        None => None,
    }
}

/// The header of a level: after the size word, the body starts with a
/// 12-byte name and a second size (the first size plus 4 is the second plus
/// 12); then the offsets of the player section at 16,
/// the teleports at 20, the entities at 24, the palette at 28 and the sky at
/// 32, each a 32-bit word, low byte first.
pub proof fn lemma_dti_header_fields(d: Seq<u8>, p: int)
    requires
        0 <= p,
    ensures
        dti_header(d, p) matches Some((e, name, h)) ==> {
            &&& e == d.subrange(p + 4, d.len() as int)
            &&& word_le(d, p) + 4 == word_le(e, 12) + 12
            &&& h.player as int == word_le(e, 16)
            &&& h.teleports as int == word_le(e, 20)
            &&& h.entities as int == word_le(e, 24)
            &&& h.pal as int == word_le(e, 28)
            &&& h.skybox as int == word_le(e, 32)
        },
{
}

fn read_header<'a>(data: Reader<'a>) -> (res: Option<(Reader<'a>, &'a str, DtiHeaderV)>)
    ensures
        match dti_header(data.data(), data.pos()) {
            Some((e, name, h)) => res matches Some((r, n, hh)) && r.data() == e && r.pos() == 36
                && n.spec_bytes() == name && hh == h,
            None => res is None,
        },
{
    let mut r = data;
    let fs = read_value::<u32>(&mut r)?;
    if fs > 0xFFFF_FFFB {
        return None;
    }
    r.rebase();
    let name = read_fixed_text(&mut r, 12)?;
    let fs2 = read_value::<u32>(&mut r)?;
    if fs2 > 0xFFFF_FFF3 || fs + 4 != fs2 + 12 {
        return None;
    }
    let player = read_value::<u32>(&mut r)?;
    let teleports = read_value::<u32>(&mut r)?;
    let entities = read_value::<u32>(&mut r)?;
    let pal = read_value::<u32>(&mut r)?;
    let skybox = read_value::<u32>(&mut r)?;
    Some((r, name, DtiHeaderV { player, teleports, entities, pal, skybox }))
}

// ---------------------------------------------------------------------------
// Where the player starts, and the sky

/// The player and sky section.
pub struct PlayerV {
    pub arena_index: u32,
    pub pos: Vec3Bits,
    pub angle: FloatBits,
    pub ceiling_colour: i32,
    pub floor_colour: i32,
    pub sky_y: i32,
    pub sky_x: i32,
    pub sky_width: u32,
    pub sky_height: u32,
    pub reflected_ceiling_colour: i32,
    pub reflected_floor_colour: i32,
    /// Four RGBA colours, each component stored in a 32-bit word.
    pub colour_words: Seq<u32>,
}

/// The 32-bit word at `q`.
pub open spec fn word_at(e: Seq<u8>, q: int) -> u32 {
    crate::reader::le4(e.subrange(q, q + 4)) as u32
}

pub open spec fn sword_at(e: Seq<u8>, q: int) -> i32 {
    crate::reader::twos(crate::reader::le4(e.subrange(q, q + 4)), 0x8000_0000) as i32
}

/// The player and sky section at `off`: 29 words, of which words 1 to 4 are
/// floats that must be accepted.
pub open spec fn player_at(e: Seq<u8>, off: int) -> Option<PlayerV> {
    if off + 116 > e.len() {
        None
    } else if !(crate::reader::float_ok(word_at(e, off + 4)) && crate::reader::float_ok(
        word_at(e, off + 8),
    ) && crate::reader::float_ok(word_at(e, off + 12)) && crate::reader::float_ok(
        word_at(e, off + 16),
    )) {
        None
    } else {
        Some(
            PlayerV {
                arena_index: word_at(e, off),
                pos: Vec3Bits {
                    x: FloatBits(word_at(e, off + 4)),
                    y: FloatBits(word_at(e, off + 8)),
                    z: FloatBits(word_at(e, off + 12)),
                },
                angle: FloatBits(word_at(e, off + 16)),
                ceiling_colour: sword_at(e, off + 20),
                floor_colour: sword_at(e, off + 24),
                sky_y: sword_at(e, off + 28),
                sky_x: sword_at(e, off + 32),
                sky_width: word_at(e, off + 36),
                sky_height: word_at(e, off + 40),
                reflected_ceiling_colour: sword_at(e, off + 44),
                reflected_floor_colour: sword_at(e, off + 48),
                colour_words: Seq::new(16, |k: int| word_at(e, off + 52 + 4 * k)),
            },
        )
    }
}

/// The player section is 29 words from its offset, low byte first: the arena
/// at 0, the position at 4, 8 and 12, the angle at 16, the ceiling and floor
/// colours at 20 and 24, the sky's y and x at 28 and 32, its width and height
/// at 36 and 40, the reflected ceiling and floor colours at 44 and 48, and
/// sixteen colour words from 52.
pub proof fn lemma_player_fields(e: Seq<u8>, off: int)
    requires
        0 <= off,
    ensures
        player_at(e, off) matches Some(pl) ==> {
            &&& off + 116 <= e.len()
            &&& pl.arena_index as int == word_le(e, off)
            &&& pl.pos.x.0 as int == word_le(e, off + 4)
            &&& pl.pos.y.0 as int == word_le(e, off + 8)
            &&& pl.pos.z.0 as int == word_le(e, off + 12)
            &&& pl.angle.0 as int == word_le(e, off + 16)
            &&& pl.sky_width as int == word_le(e, off + 36)
            &&& pl.sky_height as int == word_le(e, off + 40)
            &&& pl.colour_words.len() == 16
            &&& forall|k: int| 0 <= k < 16 ==> #[trigger] pl.colour_words[k] as int == word_le(e, off + 52 + 4 * k)
        },
{
    if let Some(pl) = player_at(e, off) {
        assert forall|k: int| 0 <= k < 16 implies #[trigger] pl.colour_words[k] as int == word_le(e, off + 52 + 4 * k) by {
            assert(pl.colour_words[k] == word_at(e, off + 52 + 4 * k));
        }
    }
}

/// The player and sky section as read.
pub struct Player {
    pub arena_index: u32,
    pub pos: Vec3Bits,
    pub angle: FloatBits,
    pub ceiling_colour: i32,
    pub floor_colour: i32,
    pub sky_y: i32,
    pub sky_x: i32,
    pub sky_width: u32,
    pub sky_height: u32,
    pub reflected_ceiling_colour: i32,
    pub reflected_floor_colour: i32,
    pub colour_words: Vec<u32>,
}

pub open spec fn player_is(p: Player, v: PlayerV) -> bool {
    &&& p.arena_index == v.arena_index
    &&& p.pos == v.pos
    &&& p.angle == v.angle
    &&& p.ceiling_colour == v.ceiling_colour
    &&& p.floor_colour == v.floor_colour
    &&& p.sky_y == v.sky_y
    &&& p.sky_x == v.sky_x
    &&& p.sky_width == v.sky_width
    &&& p.sky_height == v.sky_height
    &&& p.reflected_ceiling_colour == v.reflected_ceiling_colour
    &&& p.reflected_floor_colour == v.reflected_floor_colour
    &&& p.colour_words@ == v.colour_words
}

fn read_player(e: &Reader, off: usize) -> (res: Option<Player>)
    ensures
        match player_at(e.data(), off as int) {
            Some(v) => res matches Some(p) && player_is(p, v),
            None => res is None,
        },
{
    let len = e.len();
    if off > len || len - off < 116 {
        return None;
    }
    let mut r = e.clone_at(off);
    let arena_index = read_value::<u32>(&mut r)?;
    let pos = read_vec3(&mut r)?;
    let angle = read_value::<FloatBits>(&mut r)?;
    let ceiling_colour = read_value::<i32>(&mut r)?;
    let floor_colour = read_value::<i32>(&mut r)?;
    let sky_y = read_value::<i32>(&mut r)?;
    let sky_x = read_value::<i32>(&mut r)?;
    let sky_width = read_value::<u32>(&mut r)?;
    let sky_height = read_value::<u32>(&mut r)?;
    let reflected_ceiling_colour = read_value::<i32>(&mut r)?;
    let reflected_floor_colour = read_value::<i32>(&mut r)?;
    let ghost d = e.data();
    let mut colour_words: Vec<u32> = Vec::new();
    let mut k: usize = 0;
    while k < 16
        invariant
            0 <= k <= 16,
            r.data() == d,
            r.pos() == off + 52 + 4 * k,
            off + 116 <= d.len(),
            colour_words@.len() == k,
            forall|j: int| 0 <= j < k ==> colour_words@[j] == word_at(d, off + 52 + 4 * j),
        decreases 16 - k,
    {
        let w = read_value::<u32>(&mut r)?;
        colour_words.push(w);
        k = k + 1;
    }
    let p = Player {
        arena_index,
        pos,
        angle,
        ceiling_colour,
        floor_colour,
        sky_y,
        sky_x,
        sky_width,
        sky_height,
        reflected_ceiling_colour,
        reflected_floor_colour,
        colour_words,
    };
    assert(p.colour_words@ =~= Seq::new(16, |k: int| word_at(d, off + 52 + 4 * k)));
    Some(p)
}

// ---------------------------------------------------------------------------
// Arenas and their zones

/// What a zone of an arena is.
#[derive(Debug)]
pub enum DtiEntityData<'a> {
    ArenaShowZone,
    Hotgen { name: &'a str, value: i32 },
    ArenaActivateZone,
    Hotpick(&'a str),
    HidingSpot,
    ArenaConnectZone(i32),
    Fan,
    JumpPoint,
    Slidething,
}

pub enum EntityDataV {
    ArenaShowZone,
    Hotgen(Seq<u8>, i32),
    ArenaActivateZone,
    Hotpick(Seq<u8>),
    HidingSpot,
    ArenaConnectZone(i32),
    Fan,
    JumpPoint,
    Slidething,
}

impl<'a> View for DtiEntityData<'a> {
    type V = EntityDataV;

    open spec fn view(&self) -> EntityDataV {
        match *self {
            DtiEntityData::ArenaShowZone => EntityDataV::ArenaShowZone,
            DtiEntityData::Hotgen { name, value } => EntityDataV::Hotgen(name.spec_bytes(), value),
            DtiEntityData::ArenaActivateZone => EntityDataV::ArenaActivateZone,
            DtiEntityData::Hotpick(name) => EntityDataV::Hotpick(name.spec_bytes()),
            DtiEntityData::HidingSpot => EntityDataV::HidingSpot,
            DtiEntityData::ArenaConnectZone(v) => EntityDataV::ArenaConnectZone(v),
            DtiEntityData::Fan => EntityDataV::Fan,
            DtiEntityData::JumpPoint => EntityDataV::JumpPoint,
            DtiEntityData::Slidething => EntityDataV::Slidething,
        }
    }
}

/// A zone of an arena: an id, a box, and its kind.
#[derive(Debug)]
pub struct DtiEntity<'a> {
    pub id: i32,
    pub bbox_min: Vec3Bits,
    pub bbox_max: Vec3Bits,
    pub data: DtiEntityData<'a>,
}

pub struct EntityV {
    pub id: i32,
    pub bbox_min: Vec3Bits,
    pub bbox_max: Vec3Bits,
    pub data: EntityDataV,
}

impl<'a> View for DtiEntity<'a> {
    type V = EntityV;

    open spec fn view(&self) -> EntityV {
        EntityV { id: self.id, bbox_min: self.bbox_min, bbox_max: self.bbox_max, data: self.data@ }
    }
}

/// The zone kinds that carry a second corner: the box's other corner, where
/// an all-zero corner means a box of one point.
pub open spec fn boxed_kind(kind: i32, value: i32) -> Option<EntityDataV> {
    match kind {
        1 => Some(EntityDataV::ArenaShowZone),
        3 => Some(EntityDataV::ArenaActivateZone),
        5 => Some(EntityDataV::HidingSpot),
        6 => Some(EntityDataV::ArenaConnectZone(value)),
        7 => Some(EntityDataV::Fan),
        8 => Some(EntityDataV::JumpPoint),
        9 => Some(EntityDataV::Slidething),
        _ => None,
    }
}

/// A zone at `p`: kind, id and value, a corner, then a 12-byte name (kinds 2
/// and 4) or the other corner. Only kinds 2 and 6 may have a nonzero value,
/// and the box's corners must be ordered.
pub open spec fn entity_at(e: Seq<u8>, p: int) -> Option<(EntityV, int)> {
    match (value_at::<i32>(e, p), value_at::<i32>(e, p + 4), value_at::<i32>(e, p + 8), vec3_at(e, p + 12)) {
        (Some((kind, _)), Some((id, _)), Some((value, _)), Some((mn, q))) => if kind != 2 && kind != 6
            && value != 0 {
            None
        } else if kind == 2 || kind == 4 {
            match fixed_text_at(e, q, 12) {
                Some((n, q2)) => Some(
                    (
                        EntityV {
                            id,
                            bbox_min: mn,
                            bbox_max: mn,
                            data: if kind == 2 {
                                EntityDataV::Hotgen(n, value)
                            } else {
                                EntityDataV::Hotpick(n)
                            },
                        },
                        q2,
                    ),
                ),
                None => None,
            }
        } else {
            match vec3_at(e, q) {
                Some((raw, q2)) => {
                    let mx = if vec3_is_zero(raw) {
                        mn
                    } else {
                        raw
                    };
                    match boxed_kind(kind, value) {
                        Some(dd) => if vec3_le(mn, mx) {
                            Some((EntityV { id, bbox_min: mn, bbox_max: mx, data: dd }, q2))
                        } else {
                            None
                        },
                        None => None,
                    }
                },
                None => None,
            }
        },
        _ => None,
    }
}

/// A zone record takes 36 bytes: its kind at 0, its id at 4, its value at 8,
/// a corner at 12, then a name or the other corner at 24. Kinds 1 to 9 are,
/// in order: arena show zone, hotgen (named, with its value), arena activate
/// zone, hotpick (named), hiding spot, arena connect zone (with its value),
/// fan, jump point and slidething; a named zone is a point, and a box never
/// has its corners the wrong way round.
pub proof fn lemma_entity_record(e: Seq<u8>, p: int)
    ensures
        entity_at(e, p) matches Some((v, q)) ==> {
            let kind = value_at::<i32>(e, p)->Some_0.0;
            let value = value_at::<i32>(e, p + 8)->Some_0.0;
            &&& q == p + 36
            &&& v.id == value_at::<i32>(e, p + 4)->Some_0.0
            &&& v.bbox_min == vec3_at(e, p + 12)->Some_0.0
            &&& vec3_le(v.bbox_min, v.bbox_max)
            &&& (kind == 2 || kind == 4) ==> v.bbox_max == v.bbox_min
            &&& (kind == 1 <==> v.data is ArenaShowZone)
            &&& (kind == 2 <==> v.data is Hotgen)
            &&& (kind == 3 <==> v.data is ArenaActivateZone)
            &&& (kind == 4 <==> v.data is Hotpick)
            &&& (kind == 5 <==> v.data is HidingSpot)
            &&& (kind == 6 <==> v.data is ArenaConnectZone)
            &&& (kind == 7 <==> v.data is Fan)
            &&& (kind == 8 <==> v.data is JumpPoint)
            &&& (kind == 9 <==> v.data is Slidething)
            &&& v.data matches EntityDataV::Hotgen(_, x) ==> x == value
            &&& v.data matches EntityDataV::ArenaConnectZone(x) ==> x == value
        },
{
}

fn read_entity<'a>(r: &mut Reader<'a>) -> (res: Option<DtiEntity<'a>>)
    ensures
        final(r).data() == old(r).data(),
        match entity_at(old(r).data(), old(r).pos()) {
            Some((v, q)) => res matches Some(x) && x@ == v && final(r).pos() == q,
            None => res is None,
        },
{
    let kind = read_value::<i32>(r)?;
    let id = read_value::<i32>(r)?;
    let value = read_value::<i32>(r)?;
    let mn = read_vec3(r)?;
    if kind != 2 && kind != 6 && value != 0 {
        return None;
    }
    if kind == 2 || kind == 4 {
        let name = read_fixed_text(r, 12)?;
        let data = if kind == 2 {
            DtiEntityData::Hotgen { name, value }
        } else {
            DtiEntityData::Hotpick(name)
        };
        return Some(DtiEntity { id, bbox_min: mn, bbox_max: mn, data });
    }
    let raw = read_vec3(r)?;
    let mx = if vec3_is_zero_exec(&raw) {
        mn
    } else {
        raw
    };
    let data = match kind {
        1 => DtiEntityData::ArenaShowZone,
        3 => DtiEntityData::ArenaActivateZone,
        5 => DtiEntityData::HidingSpot,
        6 => DtiEntityData::ArenaConnectZone(value),
        7 => DtiEntityData::Fan,
        8 => DtiEntityData::JumpPoint,
        9 => DtiEntityData::Slidething,
        _ => return None,
    };
    if !vec3_le_exec(&mn, &mx) {
        return None;
    }
    Some(DtiEntity { id, bbox_min: mn, bbox_max: mx, data })
}

/// Zones `i..n` from `p`.
pub open spec fn entities_from(e: Seq<u8>, p: int, n: int, i: int) -> Option<Seq<EntityV>>
    decreases n - i,
{
    if i >= n {
        Some(Seq::empty())
    } else {
        match entity_at(e, p) {
            Some((v, q)) => match entities_from(e, q, n, i + 1) {
                Some(rest) => Some(seq![v] + rest),
                None => None,
            },
            None => None,
        }
    }
}

pub open spec fn entities_view(v: Seq<DtiEntity>) -> Seq<EntityV> {
    v.map_values(|x: DtiEntity| x@)
}

fn read_entities<'a>(e: &Reader<'a>, off: usize) -> (res: Option<Vec<DtiEntity<'a>>>)
    ensures
        match value_at::<u32>(e.data(), off as int) {
            Some((n, q)) => match entities_from(e.data(), q, n as int, 0) {
                Some(v) => res matches Some(x) && entities_view(x@) == v,
                None => res is None,
            },
            None => res is None,
        },
{
    let ghost d = e.data();
    let mut r = e.clone_at(off);
    let n = read_value::<u32>(&mut r)?;
    let ghost q0 = r.pos();
    let ghost target = entities_from(d, r.pos(), n as int, 0);
    let mut out: Vec<DtiEntity<'a>> = Vec::new();
    let mut i: u32 = 0;
    assert(target == match entities_from(d, r.pos(), n as int, 0) {
        Some(rest) => Some(entities_view(out@) + rest),
        None => None,
    }) by {
        if let Some(rest) = target {
            assert(entities_view(out@) + rest =~= rest);
        }
    }
    while i < n
        invariant
            r.data() == d,
            d == e.data(),
            i <= n,
            value_at::<u32>(d, off as int) == Some((n, q0)),
            target == entities_from(d, q0, n as int, 0),
            target == match entities_from(d, r.pos(), n as int, i as int) {
                Some(rest) => Some(entities_view(out@) + rest),
                None => None,
            },
        decreases n - i,
    {
        let ghost before = entities_view(out@);
        let x = match read_entity(&mut r) {
            Some(x) => x,
            None => return None,
        };
        let ghost xv = x@;
        out.push(x);
        proof {
            assert(entities_view(out@) =~= before.push(xv));
            if let Some(rest) = entities_from(d, r.pos(), n as int, i + 1) {
                assert(before + (seq![xv] + rest) =~= before.push(xv) + rest);
            }
        }
        i = i + 1;
    }
    assert(entities_view(out@) + Seq::<EntityV>::empty() =~= entities_view(out@));
    Some(out)
}

/// A place the player can be teleported to.
#[derive(Clone, Copy, Debug, PartialEq, Eq, Structural)]
pub struct Teleport {
    pub index: i32,
    pub pos: Vec3Bits,
    pub angle: FloatBits,
}

/// An arena: its name, a number, its zones and its teleport places.
#[derive(Debug)]
pub struct DtiArena<'a> {
    pub name: &'a str,
    pub num: FloatBits,
    pub entities: Vec<DtiEntity<'a>>,
    pub teleports: Vec<Teleport>,
}

pub struct ArenaV {
    pub name: Seq<u8>,
    pub num: FloatBits,
    pub entities: Seq<EntityV>,
    pub teleports: Seq<Teleport>,
}

impl<'a> View for DtiArena<'a> {
    type V = ArenaV;

    open spec fn view(&self) -> ArenaV {
        ArenaV {
            name: self.name.spec_bytes(),
            num: self.num,
            entities: entities_view(self.entities@),
            teleports: self.teleports@,
        }
    }
}

pub open spec fn arenas_view(v: Seq<DtiArena>) -> Seq<ArenaV> {
    v.map_values(|a: DtiArena| a@)
}

/// Arenas `i..n` of the list at `p`: each an 8-byte name, the offset of its
/// zone list and a float.
pub open spec fn arenas_from(e: Seq<u8>, p: int, n: int, i: int) -> Option<Seq<ArenaV>>
    decreases n - i,
{
    if i >= n {
        Some(Seq::empty())
    } else {
        match (fixed_text_at(e, p, 8), value_at::<u32>(e, p + 8), value_at::<FloatBits>(e, p + 12)) {
            (Some((name, _)), Some((off, _)), Some((num, q))) => match value_at::<u32>(e, off as int) {
                Some((count, q2)) => match entities_from(e, q2, count as int, 0) {
                    Some(ents) => match arenas_from(e, q, n, i + 1) {
                        Some(rest) => Some(
                            seq![ArenaV { name, num, entities: ents, teleports: Seq::empty() }]
                                + rest,
                        ),
                        None => None,
                    },
                    None => None,
                },
                None => None,
            },
            _ => None,
        }
    }
}

/// The arenas of the list at `off`: a count, then the arenas.
pub open spec fn arenas_at(e: Seq<u8>, off: int) -> Option<Seq<ArenaV>> {
    match value_at::<u32>(e, off) {
        Some((n, q)) => arenas_from(e, q, n as int, 0),
        None => None,
    }
}

fn read_arenas<'a>(e: &Reader<'a>, off: usize) -> (res: Option<Vec<DtiArena<'a>>>)
    ensures
        match arenas_at(e.data(), off as int) {
            Some(v) => res matches Some(x) && arenas_view(x@) == v,
            None => res is None,
        },
{
    let ghost d = e.data();
    let mut r = e.clone_at(off);
    let n = read_value::<u32>(&mut r)?;
    let ghost target = arenas_at(d, off as int);
    let mut out: Vec<DtiArena<'a>> = Vec::new();
    let mut i: u32 = 0;
    assert(target == match arenas_from(d, r.pos(), n as int, 0) {
        Some(rest) => Some(arenas_view(out@) + rest),
        None => None,
    }) by {
        if let Some(rest) = target {
            assert(arenas_view(out@) + rest =~= rest);
        }
    }
    while i < n
        invariant
            r.data() == d,
            d == e.data(),
            i <= n,
            target == arenas_at(d, off as int),
            target == match arenas_from(d, r.pos(), n as int, i as int) {
                Some(rest) => Some(arenas_view(out@) + rest),
                None => None,
            },
        decreases n - i,
    {
        let name = match read_fixed_text(&mut r, 8) {
            Some(x) => x,
            None => return None,
        };
        let arena_offset = match read_value::<u32>(&mut r) {
            Some(x) => x,
            None => return None,
        };
        let num = match read_value::<FloatBits>(&mut r) {
            Some(x) => x,
            None => return None,
        };
        let entities = match read_entities(e, arena_offset as usize) {
            Some(x) => x,
            None => return None,
        };
        let ghost before = arenas_view(out@);
        let a = DtiArena { name, num, entities, teleports: Vec::new() };
        let ghost av = a@;
        assert(av.teleports =~= Seq::<Teleport>::empty());
        out.push(a);
        proof {
            assert(arenas_view(out@) =~= before.push(av));
            if let Some(rest) = arenas_from(d, r.pos(), n as int, i + 1) {
                assert(before + (seq![av] + rest) =~= before.push(av) + rest);
            }
        }
        i = i + 1;
    }
    assert(arenas_view(out@) + Seq::<ArenaV>::empty() =~= arenas_view(out@));
    Some(out)
}

// ---------------------------------------------------------------------------
// Teleport places

/// The remainder of `a` by `m` with the sign of `a`, as Rust's `%` gives it.
pub open spec fn trunc_rem(a: int, m: int) -> int {
    if a >= 0 {
        a % m
    } else {
        -((-a) % m)
    }
}

/// The index that teleport number `i` must have: `(i as i32 + 1) % 10`; none
/// where the addition overflows.
pub open spec fn expected_index(i: u32) -> Option<i32> {
    let ii = i as i32;
    if ii == i32::MAX {
        None
    } else {
        Some(trunc_rem(ii + 1, 10) as i32)
    }
}

fn expected_index_of(i: u32) -> (r: Option<i32>)
    ensures
        r == expected_index(i),
{
    let ii = i as i32;
    if ii == i32::MAX {
        None
    } else {
        Some((ii + 1) % 10)
    }
}

/// Teleports `i..n` from `p`: each an index, the number of its arena (below
/// `count`), a position and an angle. With them, where the list ends.
pub open spec fn teleports_from(e: Seq<u8>, p: int, n: int, i: int, count: int) -> Option<
    (Seq<(int, Teleport)>, int),
>
    decreases n - i,
{
    if i >= n {
        Some((Seq::empty(), p))
    } else {
        match (value_at::<i32>(e, p), value_at::<i32>(e, p + 4), vec3_at(e, p + 8), value_at::<FloatBits>(e, p + 20)) {
            (Some((index, _)), Some((ai, _)), Some((pos, _)), Some((angle, q))) => match expected_index(
                i as u32,
            ) {
                Some(x) => if index != x || ai < 0 || ai >= count {
                    None
                } else {
                    match teleports_from(e, q, n, i + 1, count) {
                        Some((rest, end)) => Some(
                            (seq![(ai as int, Teleport { index, pos, angle })] + rest, end),
                        ),
                        None => None,
                    }
                },
                None => None,
            },
            _ => None,
        }
    }
}

/// The teleport list at `off`: a count, then the teleports.
pub open spec fn teleports_at(e: Seq<u8>, off: int, count: int) -> Option<(Seq<(int, Teleport)>, int)> {
    match value_at::<u32>(e, off) {
        Some((n, q)) => teleports_from(e, q, n as int, 0, count),
        None => None,
    }
}

pub open spec fn tagged_view(v: Seq<(usize, Teleport)>) -> Seq<(int, Teleport)> {
    v.map_values(|x: (usize, Teleport)| (x.0 as int, x.1))
}

fn read_teleports(e: &Reader, off: usize, count: usize) -> (res: Option<(Vec<(usize, Teleport)>, usize)>)
    ensures
        match teleports_at(e.data(), off as int, count as int) {
            Some((v, end)) => res matches Some((x, pos)) && tagged_view(x@) == v && pos == end,
            None => res is None,
        },
{
    let ghost d = e.data();
    let mut r = e.clone_at(off);
    let n = read_value::<u32>(&mut r)?;
    let ghost target = teleports_at(d, off as int, count as int);
    let mut out: Vec<(usize, Teleport)> = Vec::new();
    let mut i: u32 = 0;
    assert(target == match teleports_from(d, r.pos(), n as int, 0, count as int) {
        Some((rest, end)) => Some((tagged_view(out@) + rest, end)),
        None => None,
    }) by {
        if let Some((rest, end)) = target {
            assert(tagged_view(out@) + rest =~= rest);
        }
    }
    while i < n
        invariant
            r.data() == d,
            d == e.data(),
            i <= n,
            target == teleports_at(d, off as int, count as int),
            target == match teleports_from(d, r.pos(), n as int, i as int, count as int) {
                Some((rest, end)) => Some((tagged_view(out@) + rest, end)),
                None => None,
            },
        decreases n - i,
    {
        let index = match read_value::<i32>(&mut r) {
            Some(x) => x,
            None => return None,
        };
        let ai = match read_value::<i32>(&mut r) {
            Some(x) => x,
            None => return None,
        };
        let pos = match read_vec3(&mut r) {
            Some(x) => x,
            None => return None,
        };
        let angle = match read_value::<FloatBits>(&mut r) {
            Some(x) => x,
            None => return None,
        };
        match expected_index_of(i) {
            Some(x) => {
                if index != x || ai < 0 || ai as usize >= count {
                    return None;
                }
            },
            None => return None,
        }
        let ghost before = tagged_view(out@);
        let t = Teleport { index, pos, angle };
        out.push((ai as usize, t));
        proof {
            assert(tagged_view(out@) =~= before.push((ai as int, t)));
            if let Some((rest, end)) = teleports_from(d, r.pos(), n as int, i + 1, count as int) {
                assert(before + (seq![(ai as int, t)] + rest) =~= before.push((ai as int, t)) + rest);
            }
        }
        i = i + 1;
    }
    assert(tagged_view(out@) + Seq::<(int, Teleport)>::empty() =~= tagged_view(out@));
    Some((out, r.position()))
}

/// Picks the teleports of arena `k`.
pub open spec fn teleport_pick(k: int) -> spec_fn((int, Teleport)) -> Option<Teleport> {
    |x: (int, Teleport)| if x.0 == k { Some(x.1) } else { None }
}

/// The teleports of arena `k`, in order.
pub open spec fn teleports_of(list: Seq<(int, Teleport)>, k: int) -> Seq<Teleport> {
    list.filter_map(teleport_pick(k))
}

/// Gives each arena the teleports that name it.
fn attach_teleports<'a>(arenas: Vec<DtiArena<'a>>, list: &Vec<(usize, Teleport)>) -> (res: Vec<DtiArena<'a>>)
    ensures
        res@.len() == arenas@.len(),
        forall|k: int|
            0 <= k < res@.len() ==> (#[trigger] res@[k])@ == (ArenaV {
                teleports: teleports_of(tagged_view(list@), k),
                ..arenas@[k]@
            }),
{
    let ghost tv = tagged_view(list@);
    let ghost orig = arenas@;
    let total = arenas.len();
    let mut rest = arenas;
    let mut out: Vec<DtiArena<'a>> = Vec::new();
    let mut k: usize = 0;
    while rest.len() > 0
        invariant
            k + rest@.len() == orig.len(),
            orig.len() == total,
            rest@ == orig.subrange(k as int, orig.len() as int),
            tv == tagged_view(list@),
            out@.len() == k,
            forall|j: int|
                0 <= j < k ==> (#[trigger] out@[j])@ == (ArenaV {
                    teleports: teleports_of(tv, j),
                    ..orig[j]@
                }),
        decreases rest@.len(),
    {
        let a = rest.remove(0);
        let ghost f = teleport_pick(k as int);
        let mut ts: Vec<Teleport> = Vec::new();
        let mut j: usize = 0;
        while j < list.len()
            invariant
                0 <= j <= list@.len(),
                tv == tagged_view(list@),
                f == teleport_pick(k as int),
                ts@ == tv.take(j as int).filter_map(f),
            decreases list@.len() - j,
        {
            proof {
                tv.lemma_filter_map_take_succ(f, j as int);
            }
            if list[j].0 == k {
                ts.push(list[j].1);
            }
            j = j + 1;
        }
        assert(tv.take(j as int) =~= tv);
        assert(a == orig[k as int]);
        let b = DtiArena { name: a.name, num: a.num, entities: a.entities, teleports: ts };
        out.push(b);
        k = k + 1;
        assert(rest@ =~= orig.subrange(k as int, orig.len() as int));
    }
    out
}

// ---------------------------------------------------------------------------
// Palette and skybox

/// The palette section at `off`: the number of free palette entries (a
/// multiple of 16), then 768 bytes of palette. With them, where it ends.
pub open spec fn pal_at(e: Seq<u8>, off: int) -> Option<(u32, Seq<u8>, int)> {
    match value_at::<u32>(e, off) {
        Some((num, q)) => if q + 0x300 > e.len() || num % 16 != 0 {
            None
        } else {
            Some((num, e.subrange(q, q + 0x300), q + 0x300))
        },
        None => None,
    }
}

/// `sh` rows of `sw` bytes, taken from rows of `src_w` bytes from `off`.
pub open spec fn sky_rows(e: Seq<u8>, off: int, sw: int, src_w: int, sh: int) -> Seq<u8> {
    Seq::new(sh as nat, |r: int| e.subrange(off + r * src_w, off + r * src_w + sw)).flatten()
}

/// A skybox image at `off`: rows four bytes wider than the image.
pub open spec fn sky_image(e: Seq<u8>, off: int, pl: PlayerV) -> TextureView {
    let sw = pl.sky_width as int;
    let sh = pl.sky_height as int;
    TextureView {
        width: pl.sky_width as u16,
        height: pl.sky_height as u16,
        pixels: sky_rows(e, off, sw, sw + 4, sh),
        position: (pl.sky_x as i16, pl.sky_y as i16),
    }
}

/// The skybox section at `off`: the skybox, then a reflected one when the
/// reflected ceiling colour is not negative. The sizes must fit the machine's
/// words and the image's 16-bit width and height. With them, where it ends.
pub open spec fn sky_at(e: Seq<u8>, off: int, pl: PlayerV) -> Option<(TextureView, Option<TextureView>, int)> {
    let sw = pl.sky_width as int;
    let sh = pl.sky_height as int;
    let size = (sw + 4) * sh;
    if sw + 4 > usize::MAX || size > usize::MAX || off + size > e.len() {
        None
    } else if (pl.sky_width as u16) * (pl.sky_height as u16) != sw * sh {
        None
    } else if pl.reflected_ceiling_colour >= 0 {
        if off + 2 * size > e.len() {
            None
        } else {
            Some((sky_image(e, off, pl), Some(sky_image(e, off + size, pl)), off + 2 * size))
        }
    } else {
        Some((sky_image(e, off, pl), None, off + size))
    }
}

/// Reads `sh` rows of `sw` bytes from rows of `src_w` bytes at the reader's position.
fn read_sky_rows(r: &mut Reader, sw: usize, src_w: usize, sh: usize) -> (pixels: Vec<u8>)
    requires
        src_w == sw + 4,
        src_w * sh <= usize::MAX,
        old(r).pos() + src_w * sh <= old(r).data().len(),
    ensures
        final(r).data() == old(r).data(),
        final(r).pos() == old(r).pos() + src_w * sh,
        pixels@ == sky_rows(old(r).data(), old(r).pos(), sw as int, src_w as int, sh as int),
        pixels@.len() == sw * sh,
{
    let ghost d = r.data();
    let ghost off = r.pos();
    let src = r.slice(src_w * sh);
    let ghost rowf = |k: int| d.subrange(off + k * src_w, off + k * src_w + sw);
    let mut pixels: Vec<u8> = Vec::new();
    let mut k: usize = 0;
    assert(Seq::new(0, rowf).flatten() =~= Seq::<u8>::empty()) by {
        reveal_with_fuel(Seq::flatten, 1);
    }
    while k < sh
        invariant
            0 <= k <= sh,
            0 <= off,
            src@ == d.subrange(off, off + src_w * sh),
            src_w == sw + 4,
            src_w * sh <= usize::MAX,
            off + src_w * sh <= d.len(),
            rowf == (|k: int| d.subrange(off + k * src_w, off + k * src_w + sw)),
            pixels@ == Seq::new(k as nat, rowf).flatten(),
            pixels@.len() == k * sw,
        decreases sh - k,
    {
        assert(k * src_w + src_w <= src_w * sh) by (nonlinear_arith)
            requires
                k < sh,
        ;
        let row = vstd::slice::slice_subrange(src, k * src_w, k * src_w + sw);
        let ghost before = pixels@;
        crate::buffer::extend_bytes(&mut pixels, row);
        proof {
            assert(row@ =~= rowf(k as int));
            assert(Seq::new((k + 1) as nat, rowf) =~= Seq::new(k as nat, rowf).push(rowf(k as int)));
            Seq::new(k as nat, rowf).lemma_flatten_push(rowf(k as int));
            assert(k * sw + sw == (k + 1) * sw) by (nonlinear_arith);
        }
        k = k + 1;
    }
    assert(sh * sw == sw * sh) by (nonlinear_arith);
    pixels
}

impl View for Player {
    type V = PlayerV;

    open spec fn view(&self) -> PlayerV {
        PlayerV {
            arena_index: self.arena_index,
            pos: self.pos,
            angle: self.angle,
            ceiling_colour: self.ceiling_colour,
            floor_colour: self.floor_colour,
            sky_y: self.sky_y,
            sky_x: self.sky_x,
            sky_width: self.sky_width,
            sky_height: self.sky_height,
            reflected_ceiling_colour: self.reflected_ceiling_colour,
            reflected_floor_colour: self.reflected_floor_colour,
            colour_words: self.colour_words@,
        }
    }
}

fn sky_texture(e: &Reader, off: usize, pl: &Player, sw: usize, src_w: usize, sh: usize) -> (t: Texture)
    requires
        sw == pl.sky_width,
        sh == pl.sky_height,
        src_w == sw + 4,
        src_w * sh <= usize::MAX,
        off + src_w * sh <= e.data().len(),
        (pl.sky_width as u16) * (pl.sky_height as u16) == sw * sh,
    ensures
        t@ == sky_image(e.data(), off as int, pl@),
{
    let mut r = e.clone_at(off);
    let pixels = read_sky_rows(&mut r, sw, src_w, sh);
    let mut t = Texture::new(pl.sky_width as u16, pl.sky_height as u16, pixels);
    t.position = (pl.sky_x as i16, pl.sky_y as i16);
    t
}

fn read_sky(e: &Reader, off: usize, pl: &Player) -> (res: Option<(Texture, Option<Texture>, usize)>)
    ensures
        match sky_at(e.data(), off as int, pl@) {
            Some((t, rt, end)) => res matches Some((x, rx, pos)) && x@ == t && pos == end && match rt {
                Some(t2) => rx matches Some(y) && y@ == t2,
                None => rx is None,
            },
            None => res is None,
        },
{
    let sw = pl.sky_width as usize;
    let sh = pl.sky_height as usize;
    let src_w = sw.checked_add(4)?;
    let size = src_w.checked_mul(sh)?;
    let len = e.len();
    if off > len || len - off < size {
        return None;
    }
    assert(sw * sh <= src_w * sh) by (nonlinear_arith)
        requires
            src_w == sw + 4,
    ;
    let a: u64 = (pl.sky_width as u16) as u64;
    let b: u64 = (pl.sky_height as u16) as u64;
    assert(a * b <= 0xFFFF_FFFF) by (nonlinear_arith)
        requires
            a <= 65535,
            b <= 65535,
    ;
    if a * b != (sw * sh) as u64 {
        return None;
    }
    let sky = sky_texture(e, off, pl, sw, src_w, sh);
    if pl.reflected_ceiling_colour >= 0 {
        if len - off - size < size {
            return None;
        }
        let refl = sky_texture(e, off + size, pl, sw, src_w, sh);
        Some((sky, Some(refl), off + 2 * size))
    } else {
        Some((sky, None, off + size))
    }
}

fn read_pal<'a>(e: &Reader<'a>, off: usize) -> (res: Option<(u32, &'a [u8], usize)>)
    ensures
        match pal_at(e.data(), off as int) {
            Some((n, p, end)) => res matches Some((x, y, z)) && x == n && y@ == p && z == end,
            None => res is None,
        },
{
    let mut r = e.clone_at(off);
    let num = read_value::<u32>(&mut r)?;
    if r.remaining_len() < 0x300 || num % 16 != 0 {
        return None;
    }
    let pal = r.slice(0x300);
    Some((num, pal, r.position()))
}

// ---------------------------------------------------------------------------
// The whole file

/// A DTI file.
pub struct Dti<'a> {
    pub filename: &'a str,
    pub player_start_arena_index: u32,
    pub player_start_pos: Vec3Bits,
    pub player_start_angle: FloatBits,
    pub ceiling_colour: i32,
    pub floor_colour: i32,
    pub reflected_ceiling_colour: i32,
    pub reflected_floor_colour: i32,
    pub skybox: Texture,
    pub reflected_skybox: Option<Texture>,
    /// Four RGBA colours, the low byte of each stored word.
    pub translucent_colours: [[u8; 4]; 4],
    pub arenas: Vec<DtiArena<'a>>,
    pub num_pal_free_pixels: u32,
    pub pal: &'a [u8],
}

pub struct DtiV {
    pub filename: Seq<u8>,
    pub player: PlayerV,
    pub skybox: TextureView,
    pub reflected_skybox: Option<TextureView>,
    pub arenas: Seq<ArenaV>,
    pub num_pal_free_pixels: u32,
    pub pal: Seq<u8>,
}

/// The arenas with their teleports attached.
pub open spec fn with_teleports(arenas: Seq<ArenaV>, list: Seq<(int, Teleport)>) -> Seq<ArenaV> {
    Seq::new(arenas.len(), |k: int| ArenaV { teleports: teleports_of(list, k), ..arenas[k] })
}

/// A DTI file whose size field is at `p`. Its sections must follow one
/// another as laid out: the player section ends where the teleports start,
/// the teleports end where the arenas start, the palette ends where the
/// skybox starts, and the skybox is followed by the file name again, which
/// ends the file.
pub open spec fn spec_dti(d: Seq<u8>, p: int) -> Option<DtiV> {
    match dti_header(d, p) {
        Some((e, name, h)) => match player_at(e, h.player as int) {
            Some(pl) => if h.player + 116 != h.teleports {
                None
            } else {
                match arenas_at(e, h.entities as int) {
                    Some(arenas) => match teleports_at(e, h.teleports as int, arenas.len() as int) {
                        Some((list, tend)) => if tend != h.entities {
                            None
                        } else {
                            match pal_at(e, h.pal as int) {
                                Some((num, pal, pend)) => if pend != h.skybox {
                                    None
                                } else {
                                    match sky_at(e, h.skybox as int, pl) {
                                        Some((sky, refl, send)) => match fixed_text_at(e, send, 12) {
                                            Some((name2, q)) => if name2 != name || q != e.len() {
                                                None
                                            } else {
                                                Some(
                                                    DtiV {
                                                        filename: name,
                                                        player: pl,
                                                        skybox: sky,
                                                        reflected_skybox: refl,
                                                        arenas: with_teleports(arenas, list),
                                                        num_pal_free_pixels: num,
                                                        pal,
                                                    },
                                                )
                                            },
                                            None => None,
                                        },
                                        None => None,
                                    }
                                },
                                None => None,
                            }
                        },
                        None => None,
                    },
                    None => None,
                }
            },
            None => None,
        },
        None => None,
    }
}

/// Whether the colours are the low bytes of the words, four per colour.
pub open spec fn colours_are(c: [[u8; 4]; 4], w: Seq<u32>) -> bool {
    forall|i: int, j: int| 0 <= i < 4 && 0 <= j < 4 ==> c@[i]@[j] == (w[4 * i + j] as u8)
}

fn colours_of(w: &Vec<u32>) -> (c: [[u8; 4]; 4])
    requires
        w@.len() == 16,
    ensures
        colours_are(c, w@),
{
    let c: [[u8; 4]; 4] = [
        [w[0] as u8, w[1] as u8, w[2] as u8, w[3] as u8],
        [w[4] as u8, w[5] as u8, w[6] as u8, w[7] as u8],
        [w[8] as u8, w[9] as u8, w[10] as u8, w[11] as u8],
        [w[12] as u8, w[13] as u8, w[14] as u8, w[15] as u8],
    ];
    assert forall|i: int, j: int| 0 <= i < 4 && 0 <= j < 4 implies c@[i]@[j] == (w@[4 * i + j] as u8) by {
        if i == 0 {
        } else if i == 1 {
        } else if i == 2 {
        } else {
        }
    }
    c
}

impl<'a> Dti<'a> {
    /// Whether the file is the one described.
    pub open spec fn is(&self, v: DtiV) -> bool {
        &&& self.filename.spec_bytes() == v.filename
        &&& self.player_start_arena_index == v.player.arena_index
        &&& self.player_start_pos == v.player.pos
        &&& self.player_start_angle == v.player.angle
        &&& self.ceiling_colour == v.player.ceiling_colour
        &&& self.floor_colour == v.player.floor_colour
        &&& self.reflected_ceiling_colour == v.player.reflected_ceiling_colour
        &&& self.reflected_floor_colour == v.player.reflected_floor_colour
        &&& self.skybox@ == v.skybox
        &&& match v.reflected_skybox {
            Some(t) => self.reflected_skybox matches Some(x) && x@ == t,
            None => self.reflected_skybox is None,
        }
        &&& colours_are(self.translucent_colours, v.player.colour_words)
        &&& arenas_view(self.arenas@) == v.arenas
        &&& self.num_pal_free_pixels == v.num_pal_free_pixels
        &&& self.pal@ == v.pal
    }

    /// Parses a DTI file at the reader's position; `None` where the file is
    /// not laid out as described.
    #[verifier::rlimit(40)]
    pub fn try_parse(data: Reader<'a>) -> (res: Option<Dti<'a>>)
        ensures
            match spec_dti(data.data(), data.pos()) {
                Some(v) => res matches Some(x) && x.is(v),
                None => res is None,
            },
    {
        let (e, filename, h) = read_header(data)?;
        let player = read_player(&e, h.player as usize)?;
        if h.player as u64 + 116 != h.teleports as u64 {
            return None;
        }
        let arenas = read_arenas(&e, h.entities as usize)?;
        let (list, tend) = read_teleports(&e, h.teleports as usize, arenas.len())?;
        if tend != h.entities as usize {
            return None;
        }
        let (num_pal_free_pixels, pal, pend) = read_pal(&e, h.pal as usize)?;
        if pend != h.skybox as usize {
            return None;
        }
        let (skybox, reflected_skybox, send) = read_sky(&e, h.skybox as usize, &player)?;
        let mut footer = e.clone_at(send);
        let name2 = read_fixed_text(&mut footer, 12)?;
        if !crate::text::bytes_eq(name2.as_bytes(), filename.as_bytes()) || footer.position() != e.len() {
            return None;
        }
        let translucent_colours = colours_of(&player.colour_words);
        let ghost av = arenas_view(arenas@);
        let ghost lv = tagged_view(list@);
        let arenas = attach_teleports(arenas, &list);
        assert(arenas_view(arenas@) =~= with_teleports(av, lv));
        Some(
            Dti {
                filename,
                player_start_arena_index: player.arena_index,
                player_start_pos: player.pos,
                player_start_angle: player.angle,
                ceiling_colour: player.ceiling_colour,
                floor_colour: player.floor_colour,
                reflected_ceiling_colour: player.reflected_ceiling_colour,
                reflected_floor_colour: player.reflected_floor_colour,
                skybox,
                reflected_skybox,
                translucent_colours,
                arenas,
                num_pal_free_pixels,
                pal,
            },
        )
    }

    /// Parses a DTI file that is laid out as described.
    pub fn parse(data: Reader<'a>) -> (d: Dti<'a>)
        requires
            spec_dti(data.data(), data.pos()) is Some,
        ensures
            d.is(spec_dti(data.data(), data.pos()).unwrap()),
    {
        Self::try_parse(data).unwrap()
    }
}

} // verus!
