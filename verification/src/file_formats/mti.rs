//! MTI files: named materials, each a pen (a flat colour or an engine
//! material) or a texture, still or animated.

use vstd::prelude::*;
use vstd::string::StringSliceAdditionalSpecFns;

use crate::data_formats::cmi_operands::{fixed_text_at, read_fixed_text, read_value, value_at};
use crate::data_formats::image_formats::{area, spec_overlay_animation, try_parse_overlay_animation};
use crate::data_formats::pen::{spec_pen, Pen};
use crate::data_formats::texture::{plain_texture, textures_view, Texture, TextureView};
use crate::reader::{FloatBits, Reader};

verus! {

broadcast use crate::reader::lemma_reader_bounds;

/// Per-material values whose meaning is unknown: two floats (as bits) and flags.
#[derive(Clone, Copy, Debug, PartialEq, Eq, Structural)]
pub struct MaterialFlags {
    pub a: FloatBits,
    pub b: FloatBits,
    pub flags: u32,
}

/// A material.
pub enum Material {
    Pen(Pen),
    Texture(Texture, MaterialFlags),
    AnimatedTexture(Vec<Texture>, MaterialFlags),
}

/// A material with its images as views.
pub enum MaterialV {
    Pen(Pen),
    Texture(TextureView, MaterialFlags),
    AnimatedTexture(Seq<TextureView>, MaterialFlags),
}

impl View for Material {
    type V = MaterialV;

    open spec fn view(&self) -> MaterialV {
        match self {
            Material::Pen(p) => MaterialV::Pen(*p),
            Material::Texture(t, f) => MaterialV::Texture(t@, *f),
            Material::AnimatedTexture(v, f) => MaterialV::AnimatedTexture(textures_view(v@), *f),
        }
    }
}

/// The pen a stored value names: 0 is colour 0, a positive value is the pen
/// that a mesh triangle gives as its negation, a negative one is unknown.
pub open spec fn pen_of(v: i32) -> Pen {
    if v == 0 {
        Pen::Colour(0)
    } else if v >= 1 {
        spec_pen(-v)
    } else {
        Pen::Unknown(v)
    }
}

/// An image at `q`: a width, a height and their product in pixels.
pub open spec fn image_at(e: Seq<u8>, q: int) -> Option<TextureView> {
    match (value_at::<u16>(e, q), value_at::<u16>(e, q + 2)) {
        (Some((w, _)), Some((h, _))) => if q + 4 + w * h <= e.len() {
            Some(plain_texture(w as int, h as int, e.subrange(q + 4, q + 4 + w * h)))
        } else {
            None
        },
        _ => None,
    }
}

/// Frames `k..n` of a still-frame animation, each `w * h` pixels, from `q`.
pub open spec fn frames_from(e: Seq<u8>, q: int, w: u16, h: u16, n: int, k: int) -> Option<Seq<TextureView>>
    decreases n - k,
{
    if k >= n {
        Some(Seq::empty())
    } else if q + w * h > e.len() {
        None
    } else {
        match frames_from(e, q + w * h, w, h, n, k + 1) {
            Some(rest) => Some(seq![plain_texture(w as int, h as int, e.subrange(q, q + w * h))] + rest),
            None => None,
        }
    }
}

/// A still-frame animation at `q`: a frame count, a width, a height, then the frames.
pub open spec fn frames_at(e: Seq<u8>, q: int) -> Option<Seq<TextureView>> {
    match (value_at::<u32>(e, q), value_at::<u16>(e, q + 4), value_at::<u16>(e, q + 6)) {
        (Some((n, _)), Some((w, _)), Some((h, _))) => frames_from(e, q + 8, w, h, n as int, 0),
        _ => None,
    }
}

/// The image of a texture material of type `t` (bits 16 and 17 of its flags) at `q`.
pub open spec fn texture_material(e: Seq<u8>, q: int, t: u32, f: MaterialFlags) -> Option<MaterialV> {
    if t == 0 {
        match image_at(e, q) {
            Some(tex) => Some(MaterialV::Texture(tex, f)),
            None => None,
        }
    } else if t == 1 {
        match frames_at(e, q) {
            Some(fs) => Some(MaterialV::AnimatedTexture(fs, f)),
            None => None,
        }
    } else if t == 2 {
        match spec_overlay_animation(e, q) {
            Some((fs, _, _)) => Some(MaterialV::AnimatedTexture(fs, f)),
            None => None,
        }
    } else {
        None
    }
}

/// A material entry at `q`: an 8-byte name, flags, and either a pen (when the
/// flags are all ones) followed by two zero words, or two floats and the
/// offset of the image.
pub open spec fn material_at(e: Seq<u8>, q: int) -> Option<((Seq<u8>, MaterialV), int)> {
    match (fixed_text_at(e, q, 8), value_at::<u32>(e, q + 8)) {
        (Some((name, _)), Some((flags, _))) => if flags == 0xFFFF_FFFFu32 {
            match (value_at::<i32>(e, q + 12), value_at::<u32>(e, q + 16), value_at::<u32>(e, q + 20)) {
                (Some((v, _)), Some((p1, _)), Some((p2, _))) => if p1 == 0 && p2 == 0 {
                    Some(((name, MaterialV::Pen(pen_of(v))), q + 24))
                } else {
                    None
                },
                _ => None,
            }
        } else {
            match (
                value_at::<FloatBits>(e, q + 12),
                value_at::<FloatBits>(e, q + 16),
                value_at::<u32>(e, q + 20),
            ) {
                (Some((a, _)), Some((b, _)), Some((off, _))) => {
                    let f = MaterialFlags { a, b, flags: flags & !0x30000u32 };
                    match texture_material(e, off as int, (flags >> 16u32) & 3u32, f) {
                        Some(m) => Some(((name, m), q + 24)),
                        None => None,
                    }
                },
                _ => None,
            }
        },
        _ => None,
    }
}

/// A material entry takes 24 bytes. Its flags word at 8 is all ones exactly
/// for a pen; the pen's value at 12 gives colour `v` for `v` from 0 to 255,
/// shiny `v - 990` for `v` from 990 to 1010, and translucent `v - 1024` for
/// `v` from 1024 to 1027. Otherwise bits 16 and 17 of the flags give the kind
/// of image (0 a still image, 1 or 2 an animation), the flags are kept
/// without those two bits, and the floats at 12 and 16 are kept as they are.
pub proof fn lemma_material_entry(e: Seq<u8>, q: int)
    ensures
        material_at(e, q) matches Some(((name, m), q2)) ==> {
            let fw = value_at::<u32>(e, q + 8)->Some_0.0;
            let kind = (fw as int / 0x10000) % 4;
            &&& q2 == q + 24
            &&& (fw == 0xFFFF_FFFFu32 <==> m is Pen)
            &&& m matches MaterialV::Pen(pen) ==> {
                let v = value_at::<i32>(e, q + 12)->Some_0.0 as int;
                &&& (0 <= v <= 255 ==> pen == Pen::Colour(v as u8))
                &&& (990 <= v <= 1010 ==> pen == Pen::Shiny((v - 990) as u8))
                &&& (1024 <= v <= 1027 ==> pen == Pen::Translucent((v - 1024) as u8))
            }
            &&& m matches MaterialV::Texture(_, f) ==> kind == 0 && f.flags as int == fw as int - kind * 0x10000
                && f.a == value_at::<FloatBits>(e, q + 12)->Some_0.0 && f.b == value_at::<FloatBits>(e, q + 16)->Some_0.0
            &&& m matches MaterialV::AnimatedTexture(_, f) ==> (kind == 1 || kind == 2) && f.flags as int == fw as int
                - kind * 0x10000 && f.a == value_at::<FloatBits>(e, q + 12)->Some_0.0 && f.b == value_at::<FloatBits>(
                e,
                q + 16,
            )->Some_0.0
        },
{
    if let Some(((name, m), q2)) = material_at(e, q) {
        let fw = value_at::<u32>(e, q + 8)->Some_0.0;
        assert((fw >> 16u32) & 3u32 == (fw / 0x10000) % 4) by (bit_vector);
        assert((fw & !0x30000u32) == fw - ((fw / 0x10000) % 4) * 0x10000) by (bit_vector);
        assert((fw / 0x10000) % 4 < 4) by (bit_vector);
    }
}

/// Material entries `i..n` from `q`.
pub open spec fn materials_from(e: Seq<u8>, q: int, n: int, i: int) -> Option<Seq<(Seq<u8>, MaterialV)>>
    decreases n - i,
{
    if i >= n {
        Some(Seq::empty())
    } else {
        match material_at(e, q) {
            Some((m, q2)) => match materials_from(e, q2, n, i + 1) {
                Some(rest) => Some(seq![m] + rest),
                None => None,
            },
            None => None,
        }
    }
}

/// An MTI file: its name and its materials.
pub struct MtiV {
    pub filename: Seq<u8>,
    pub materials: Seq<(Seq<u8>, MaterialV)>,
}

/// The header of the MTI file at `p`: a size, then (with offsets from there,
/// and that many bytes long) a 12-byte name, the size less 8 and a count.
/// Gives the file's bytes, its name and the count.
pub open spec fn mti_header(d: Seq<u8>, p: int) -> Option<(Seq<u8>, Seq<u8>, u32)> {
    match value_at::<u32>(d, p) {
        Some((fs, q)) => if q + fs > d.len() || fs < 12 {
            None
        } else {
            let e = d.subrange(q, q + fs);
            match (fixed_text_at(e, 0, 12), value_at::<u32>(e, 12), value_at::<u32>(e, 16)) {
                (Some((name, _)), Some((fs2, _)), Some((n, _))) => if fs != fs2 + 8 {
                    None
                } else {
                    Some((e, name, n))
                },
                _ => None,
            }
        },
        None => None,
    }
}

/// The MTI file at `p`: the header, the entries, and at the very end the name again.
pub open spec fn spec_mti(d: Seq<u8>, p: int) -> Option<MtiV> {
    match mti_header(d, p) {
        Some((e, name, n)) => match (materials_from(e, 20, n as int, 0), fixed_text_at(e, e.len() - 12, 12)) {
            (Some(ms), Some((footer, _))) => if footer == name {
                Some(MtiV { filename: name, materials: ms })
            } else {
                None
            },
            _ => None,
        },
        None => None,
    }
}

pub open spec fn materials_view(v: Seq<(&str, Material)>) -> Seq<(Seq<u8>, MaterialV)> {
    v.map_values(|x: (&str, Material)| (x.0.spec_bytes(), x.1@))
}

/// The materials of an MTI file.
pub struct Mti<'a> {
    pub filename: &'a str,
    pub materials: Vec<(&'a str, Material)>,
}

fn read_image(e: &Reader, q: usize) -> (res: Option<Texture>)
    ensures
        match image_at(e.data(), q as int) {
            Some(t) => res matches Some(x) && x@ == t,
            None => res is None,
        },
{
    let mut r = e.clone_at(q);
    let width = read_value::<u16>(&mut r)?;
    let height = read_value::<u16>(&mut r)?;
    let pixels = r.try_slice(area(width, height))?;
    let mut v: Vec<u8> = Vec::new();
    crate::buffer::extend_bytes(&mut v, pixels);
    assert(v@ =~= pixels@);
    Some(Texture::new(width, height, v))
}

fn read_frames(e: &Reader, q: usize) -> (res: Option<Vec<Texture>>)
    ensures
        match frames_at(e.data(), q as int) {
            Some(fs) => res matches Some(x) && textures_view(x@) == fs,
            None => res is None,
        },
{
    let ghost d = e.data();
    let mut r = e.clone_at(q);
    let n = read_value::<u32>(&mut r)?;
    let width = read_value::<u16>(&mut r)?;
    let height = read_value::<u16>(&mut r)?;
    let size = area(width, height);
    let ghost goal = frames_at(d, q as int);
    let mut frames: Vec<Texture> = Vec::new();
    assert(textures_view(frames@) =~= Seq::<TextureView>::empty());
    let mut k: u32 = 0;
    while k < n
        invariant
            k <= n,
            r.data() == d,
            size == width * height,
            d == e.data(),
            goal == frames_at(d, q as int),
            goal == match frames_from(d, r.pos(), width, height, n as int, k as int) {
                Some(rest) => Some(textures_view(frames@) + rest),
                None => None,
            },
        decreases n - k,
    {
        let pixels = match r.try_slice(size) {
            Some(s) => s,
            None => return None,
        };
        let mut v: Vec<u8> = Vec::new();
        crate::buffer::extend_bytes(&mut v, pixels);
        assert(v@ =~= pixels@);
        let ghost before = textures_view(frames@);
        frames.push(Texture::new(width, height, v));
        proof {
            assert(textures_view(frames@) =~= before.push(plain_texture(width as int, height as int, pixels@)));
            if let Some(rest) = frames_from(d, r.pos(), width, height, n as int, k + 1) {
                assert(before + (seq![plain_texture(width as int, height as int, pixels@)] + rest)
                    =~= textures_view(frames@) + rest);
            }
        }
        k = k + 1;
    }
    assert(textures_view(frames@) + Seq::<TextureView>::empty() =~= textures_view(frames@));
    Some(frames)
}

fn read_material<'a>(e: &Reader<'a>, r: &mut Reader<'a>) -> (res: Option<(&'a str, Material)>)
    requires
        old(r).data() == e.data(),
    ensures
        final(r).data() == old(r).data(),
        match material_at(old(r).data(), old(r).pos()) {
            Some((m, q)) => res matches Some((name, mat)) && (name.spec_bytes(), mat@) == m && final(r).pos()
                == q,
            None => res is None,
        },
{
    let name = read_fixed_text(r, 8)?;
    let flags = read_value::<u32>(r)?;
    if flags == 0xFFFF_FFFFu32 {
        let v = read_value::<i32>(r)?;
        let p1 = read_value::<u32>(r)?;
        let p2 = read_value::<u32>(r)?;
        if p1 != 0 || p2 != 0 {
            return None;
        }
        let pen = if v == 0 {
            Pen::Colour(0)
        } else if v >= 1 {
            Pen::new(-v)
        } else {
            Pen::Unknown(v)
        };
        return Some((name, Material::Pen(pen)));
    }
    let a = read_value::<FloatBits>(r)?;
    let b = read_value::<FloatBits>(r)?;
    let off = read_value::<u32>(r)?;
    let f = MaterialFlags { a, b, flags: flags & !0x30000u32 };
    let t = (flags >> 16u32) & 3u32;
    let mat = if t == 0 {
        Material::Texture(read_image(e, off as usize)?, f)
    } else if t == 1 {
        Material::AnimatedTexture(read_frames(e, off as usize)?, f)
    } else if t == 2 {
        let mut er = e.clone_at(off as usize);
        let (frames, _looped) = try_parse_overlay_animation(&mut er)?;
        Material::AnimatedTexture(frames, f)
    } else {
        return None;
    };
    Some((name, mat))
}

fn read_mti_header<'a>(reader: Reader<'a>) -> (res: Option<(Reader<'a>, &'a str, u32)>)
    ensures
        match mti_header(reader.data(), reader.pos()) {
            Some((e, name, n)) => res matches Some((r, s, m)) && r.data() == e && s.spec_bytes() == name && m
                == n && e.len() >= 12,
            None => res is None,
        },
{
    let mut r = reader;
    let fs = read_value::<u32>(&mut r)?;
    if fs as usize > r.len() - r.position() || fs < 12 {
        return None;
    }
    let ghost q = r.pos();
    r.rebase();
    r.set_end(fs as usize);
    assert(r.data() =~= reader.data().subrange(q, q + fs));
    let e = r.clone_at(0);
    let filename = read_fixed_text(&mut r, 12)?;
    let fs2 = read_value::<u32>(&mut r)?;
    let n = read_value::<u32>(&mut r)?;
    if fs as u64 != fs2 as u64 + 8 {
        return None;
    }
    Some((e, filename, n))
}

fn read_materials<'a>(e: &Reader<'a>, n: u32) -> (res: Option<Vec<(&'a str, Material)>>)
    ensures
        match materials_from(e.data(), 20, n as int, 0) {
            Some(ms) => res matches Some(v) && materials_view(v@) == ms,
            None => res is None,
        },
{
    let ghost d = e.data();
    let mut r = e.clone_at(20);
    let ghost goal = materials_from(d, 20, n as int, 0);
    let mut materials: Vec<(&'a str, Material)> = Vec::new();
    assert(materials_view(materials@) =~= Seq::<(Seq<u8>, MaterialV)>::empty());
    let mut i: u32 = 0;
    while i < n
        invariant
            i <= n,
            r.data() == d,
            e.data() == d,
            goal == materials_from(d, 20, n as int, 0),
            goal == match materials_from(d, r.pos(), n as int, i as int) {
                Some(rest) => Some(materials_view(materials@) + rest),
                None => None,
            },
        decreases n - i,
    {
        let m = match read_material(e, &mut r) {
            Some(m) => m,
            None => return None,
        };
        let ghost before = materials_view(materials@);
        let ghost mv = (m.0.spec_bytes(), m.1@);
        materials.push(m);
        proof {
            assert(materials_view(materials@) =~= before.push(mv));
            if let Some(rest) = materials_from(d, r.pos(), n as int, i + 1) {
                assert(before + (seq![mv] + rest) =~= materials_view(materials@) + rest);
            }
        }
        i = i + 1;
    }
    assert(materials_view(materials@) + Seq::<(Seq<u8>, MaterialV)>::empty() =~= materials_view(materials@));
    Some(materials)
}

impl<'a> Mti<'a> {
    pub open spec fn is(&self, v: MtiV) -> bool {
        &&& self.filename.spec_bytes() == v.filename
        &&& materials_view(self.materials@) == v.materials
    }

    /// Parses an MTI file at the reader's position; `None` where it is not
    /// laid out as described.
    pub fn try_parse(reader: Reader<'a>) -> (res: Option<Mti<'a>>)
        ensures
            match spec_mti(reader.data(), reader.pos()) {
                Some(v) => res matches Some(m) && m.is(v),
                None => res is None,
            },
    {
        let (e, filename, n) = read_mti_header(reader)?;
        let materials = read_materials(&e, n)?;
        let mut footer_reader = e.clone_at(e.len() - 12);
        let footer = read_fixed_text(&mut footer_reader, 12)?;
        if !crate::text::bytes_eq(footer.as_bytes(), filename.as_bytes()) {
            return None;
        }
        Some(Mti { filename, materials })
    }

    /// Parses an MTI file that is laid out as described.
    pub fn parse(reader: Reader<'a>) -> (m: Mti<'a>)
        requires
            spec_mti(reader.data(), reader.pos()) is Some,
        ensures
            m.is(spec_mti(reader.data(), reader.pos()).unwrap()),
    {
        Self::try_parse(reader).unwrap()
    }

    /// Whether the file holds no material.
    pub fn is_empty(&self) -> (b: bool)
        ensures
            b == (self.materials@.len() == 0),
    {
        self.materials.len() == 0
    }
}

} // verus!
