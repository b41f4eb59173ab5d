//! BNI archives: named assets of many kinds. This module reads their
//! directory, recognises the kinds of asset that need no 3D decoding, and
//! decodes their string tables.

use vstd::prelude::*;
use vstd::string::*;

use crate::data_formats::cmi_operands::{fixed_text_at, read_fixed_text, read_value, value_at};
use crate::data_formats::image_formats::{
    Outcome, animation_outcome, overlay_image_outcome, spec_animation, spec_basic_image,
    spec_crossfade_image, spec_overlay_image, spec_palette_image, spec_rle_image, textures_are,
    try_parse_basic_image, try_parse_crossfade_image, try_parse_palette_image, try_parse_rle_image,
};
use crate::data_formats::texture::{Texture, TextureView, plain_texture};
use crate::data_formats::wav::{Wav, WavView, spec_wav};
use crate::reader::{le4, Reader};
use crate::text::spec_fixed_str;

verus! {

broadcast use crate::reader::lemma_reader_bounds;

/// A table of 12-byte string fields from `q`, ending exactly at the end of
/// the buffer or at a final zero word.
pub open spec fn strings_from(d: Seq<u8>, q: int, acc: Seq<Seq<u8>>) -> Option<Seq<Seq<u8>>>
    decreases d.len() - q,
{
    if q < 0 || q > d.len() {
        None
    } else if d.len() - q >= 12 {
        match spec_fixed_str(d.subrange(q, q + 12)) {
            None => None,
            Some(t) => strings_from(d, q + 12, acc.push(t)),
        }
    } else if q == d.len() || (q + 4 == d.len() && le4(d.subrange(q, q + 4)) == 0) {
        Some(acc)
    } else {
        None
    }
}

/// A string asset: the whole rest as one string field (at most 100 bytes),
/// or else a table of 12-byte string fields.
pub open spec fn spec_strings(d: Seq<u8>, p: int) -> Option<Seq<Seq<u8>>> {
    if d.len() - p <= 100 && spec_fixed_str(d.subrange(p, d.len() as int)) is Some {
        Some(seq![spec_fixed_str(d.subrange(p, d.len() as int))->Some_0])
    } else {
        strings_from(d, p, Seq::empty())
    }
}

/// Whether the strings of `v` have the bytes `s`.
pub open spec fn strs_are(v: Seq<&str>, s: Seq<Seq<u8>>) -> bool {
    v.len() == s.len() && forall|i: int| 0 <= i < v.len() ==> (#[trigger] v[i]).spec_bytes() == s[i]
}

/// Reads a string asset.
pub fn try_parse_strings<'a>(reader: &mut Reader<'a>) -> (res: Option<Vec<&'a str>>)
    requires
        old(reader).pos() <= old(reader).data().len(),
    ensures
        final(reader).data() == old(reader).data(),
        match spec_strings(old(reader).data(), old(reader).pos()) {
            Some(s) => res is Some && strs_are(res.unwrap()@, s),
            None => res is None,
        },
{
    let ghost d = reader.data();
    let ghost p = reader.pos();
    let mut whole = *reader;
    let n = reader.remaining_len();
    match whole.try_str(n) {
        Some(s) => {
            let mut v: Vec<&'a str> = Vec::new();
            v.push(s);
            return Some(v);
        },
        None => {},
    }
    let mut result: Vec<&'a str> = Vec::new();
    proof {
        assert(Seq::new(result@.len(), |i: int| result@[i].spec_bytes()) =~= Seq::<Seq<u8>>::empty());
    }
    while reader.remaining_len() >= 12
        invariant
            reader.data() == d,
            d == old(reader).data(),
            p == old(reader).pos(),
            p <= reader.pos() <= d.len(),
            !(d.len() - p <= 100 && spec_fixed_str(d.subrange(p, d.len() as int)) is Some),
            ({
                let acc = Seq::new(result@.len(), |i: int| result@[i].spec_bytes());
                strings_from(d, reader.pos(), acc) == strings_from(d, p, Seq::empty())
            }),
        decreases d.len() - reader.pos(),
    {
        let ghost acc = Seq::new(result@.len(), |i: int| result@[i].spec_bytes());
        let s = match reader.try_str(12) {
            Some(s) => s,
            None => return None,
        };
        result.push(s);
        proof {
            assert(Seq::new(result@.len(), |i: int| result@[i].spec_bytes()) =~= acc.push(
                s.spec_bytes(),
            ));
        }
    }
    if !reader.is_empty() {
        match reader.try_u32() {
            Some(v) => {
                if v != 0 {
                    return None;
                }
            },
            None => return None,
        }
        if !reader.is_empty() {
            return None;
        }
    }
    proof {
        let acc = Seq::new(result@.len(), |i: int| result@[i].spec_bytes());
        assert(strs_are(result@, acc));
    }
    Some(result)
}


// ---------------------------------------------------------------------------
// The directory

/// The body of an archive whose size field is at `p`: the size counts the
/// bytes after the field, which must be the rest of the buffer.
pub open spec fn bni_body(d: Seq<u8>, p: int) -> Option<Seq<u8>> {
    match value_at::<u32>(d, p) {
        Some((fs, q)) => if fs + 4 <= u32::MAX && d.len() == fs + 4 {
            Some(d.subrange(q, d.len() as int))
        } else {
            None
        },
        None => None,
    }
}

/// Directory entries `i..n` of the body `e`: each is a 12-byte name and the
/// offset of its data, which runs up to the next entry's offset (or the end).
pub open spec fn bni_entries_from(e: Seq<u8>, n: int, i: int) -> Option<Seq<(Seq<u8>, int, int)>>
    decreases n - i,
{
    if i >= n {
        Some(Seq::empty())
    } else {
        let q = 4 + 16 * i;
        match fixed_text_at(e, q, 12) {
            Some((name, _)) => match value_at::<u32>(e, q + 12) {
                Some((start, _)) => {
                    let end = if i + 1 == n {
                        Some(e.len() as int)
                    } else {
                        match value_at::<u32>(e, q + 28) {
                            Some((v, _)) => Some(v as int),
                            None => None,
                        }
                    };
                    match end {
                        Some(end) => if start <= end <= e.len() {
                            match bni_entries_from(e, n, i + 1) {
                                Some(rest) => Some(seq![(name, start as int, end)] + rest),
                                None => None,
                            }
                        } else {
                            None
                        },
                        None => None,
                    }
                },
                None => None,
            },
            None => None,
        }
    }
}

/// The 32-bit word at `k`, low byte first.
pub open spec fn word_le(e: Seq<u8>, k: int) -> int {
    e[k] + e[k + 1] * 0x100 + e[k + 2] * 0x10000 + e[k + 3] * 0x1000000
}

/// The directory holds one entry per 16 bytes after the count: entry `i`
/// starts at the offset stored at `16 + 16 * i` and ends where entry `i + 1`
/// starts, the last one at the end of the body; every span lies in the body.
pub proof fn lemma_bni_entry_spans(e: Seq<u8>, n: int, i: int)
    requires
        0 <= i <= n,
    ensures
        bni_entries_from(e, n, i) matches Some(es) ==> {
            &&& es.len() == n - i
            &&& forall|j: int|
                0 <= j < es.len() ==> {
                    let k = i + j;
                    &&& (#[trigger] es[j]).1 == word_le(e, 16 + 16 * k)
                    &&& es[j].2 == (if k + 1 == n {
                        e.len() as int
                    } else {
                        word_le(e, 16 + 16 * (k + 1))
                    })
                    &&& 0 <= es[j].1 <= es[j].2 <= e.len()
                }
        },
    decreases n - i,
{
    if i < n {
        lemma_bni_entry_spans(e, n, i + 1);
        if let Some(es) = bni_entries_from(e, n, i) {
            let rest = bni_entries_from(e, n, i + 1)->Some_0;
            assert(es == seq![es[0]] + rest);
            assert forall|j: int| 0 <= j < es.len() implies {
                let k = i + j;
                &&& (#[trigger] es[j]).1 == word_le(e, 16 + 16 * k)
                &&& es[j].2 == (if k + 1 == n {
                    e.len() as int
                } else {
                    word_le(e, 16 + 16 * (k + 1))
                })
                &&& 0 <= es[j].1 <= es[j].2 <= e.len()
            } by {
                if j > 0 {
                    assert(es[j] == rest[j - 1]);
                }
            }
        }
    }
}

/// The entries of the archive at `p`: name, and the start and end of the data
/// within the body.
pub open spec fn bni_entries(d: Seq<u8>, p: int) -> Option<(Seq<u8>, Seq<(Seq<u8>, int, int)>)> {
    match bni_body(d, p) {
        Some(e) => match value_at::<u32>(e, 0) {
            Some((n, _)) => match bni_entries_from(e, n as int, 0) {
                Some(es) => Some((e, es)),
                None => None,
            },
            None => None,
        },
        None => None,
    }
}

/// A named asset of an archive.
pub struct BniEntry<'a> {
    pub name: &'a str,
    /// A reader over the asset's bytes, at their start.
    pub data: Reader<'a>,
}

/// Whether the entries are those listed: same names, and readers over the
/// listed spans of `e`.
pub open spec fn entries_are(v: Seq<BniEntry>, e: Seq<u8>, es: Seq<(Seq<u8>, int, int)>) -> bool {
    &&& v.len() == es.len()
    &&& forall|i: int|
        0 <= i < v.len() ==> (#[trigger] v[i]).name.spec_bytes() == es[i].0 && v[i].data.data()
            == e.subrange(es[i].1, es[i].2) && v[i].data.pos() == 0
}

/// Reads the directory of an archive at the reader's position.
pub fn read_entries<'a>(file_reader: Reader<'a>) -> (res: Option<Vec<BniEntry<'a>>>)
    ensures
        match bni_entries(file_reader.data(), file_reader.pos()) {
            Some((e, es)) => res matches Some(v) && entries_are(v@, e, es),
            None => res is None,
        },
{
    let mut r = file_reader;
    let filesize = read_value::<u32>(&mut r)?;
    if filesize > 0xFFFF_FFFB || r.len() != filesize as usize + 4 {
        return None;
    }
    r.rebase();
    let ghost e = r.data();
    let mut h = r;
    let num_entries = read_value::<u32>(&mut h)?;
    let ghost n = num_entries as int;
    let ghost target = bni_entries_from(e, n, 0);
    let ghost mut done: Seq<(Seq<u8>, int, int)> = Seq::empty();
    let mut out: Vec<BniEntry<'a>> = Vec::new();
    let mut i: u32 = 0;
    assert(target == match bni_entries_from(e, n, 0) {
        Some(rest) => Some(done + rest),
        None => None,
    }) by {
        if let Some(rest) = bni_entries_from(e, n, 0) {
            assert(done + rest =~= rest);
        }
    }
    while i < num_entries
        invariant
            r.data() == e,
            r.pos() == 0,
            h.data() == e,
            h.pos() == 4 + 16 * i,
            bni_body(file_reader.data(), file_reader.pos()) == Some(e),
            value_at::<u32>(e, 0) == Some((num_entries, 4int)),
            n == num_entries,
            i <= num_entries,
            target == bni_entries_from(e, n, 0),
            target == match bni_entries_from(e, n, i as int) {
                Some(rest) => Some(done + rest),
                None => None,
            },
            entries_are(out@, e, done),
        decreases num_entries - i,
    {
        let name = read_fixed_text(&mut h, 12)?;
        let start = read_value::<u32>(&mut h)?;
        let end: usize = if i + 1 == num_entries {
            r.len()
        } else {
            let p = h.position();
            if p > usize::MAX - 12 {
                return None;
            }
            let mut peek = h.clone_at(p + 12);
            read_value::<u32>(&mut peek)? as usize
        };
        if start as usize > end || end > r.len() {
            return None;
        }
        let data = r.resized(start as usize..end);
        let ghost entry = (name.spec_bytes(), start as int, end as int);
        out.push(BniEntry { name, data });
        proof {
            if let Some(rest) = bni_entries_from(e, n, i + 1) {
                assert(done + (seq![entry] + rest) =~= done.push(entry) + rest);
            }
            done = done.push(entry);
        }
        i = i + 1;
    }
    assert(done + Seq::<(Seq<u8>, int, int)>::empty() =~= done);
    Some(out)
}

// ---------------------------------------------------------------------------
// Kinds of asset

/// An asset recognised without 3D decoding.
pub enum BniAsset<'a> {
    Sound(Wav<'a>),
    Texture(Texture),
    /// A texture with the palette stored beside it.
    Coloured(&'a [u8], Texture),
    /// A cross-fade image: one texture with two colour tables.
    Crossfade([&'a [u8]; 2], Texture),
    /// A sprite animation of more than one frame.
    Animation2d(Vec<Texture>),
    Strings(Vec<&'a str>),
    Palette(&'a [u8]),
    Unknown(&'a [u8]),
}

pub enum AssetV {
    Sound(WavView),
    Texture(TextureView),
    Coloured(Seq<u8>, TextureView),
    Crossfade(Seq<u8>, Seq<u8>, TextureView),
    Animation2d(Seq<TextureView>),
    Strings(Seq<Seq<u8>>),
    Palette(Seq<u8>),
    Unknown(Seq<u8>),
}

/// Whether an asset is the one described.
pub open spec fn asset_is(a: BniAsset, v: AssetV) -> bool {
    match (a, v) {
        (BniAsset::Sound(w), AssetV::Sound(x)) => w@ == x,
        (BniAsset::Texture(t), AssetV::Texture(x)) => t@ == x,
        (BniAsset::Coloured(p, t), AssetV::Coloured(q, x)) => p@ == q && t@ == x,
        (BniAsset::Crossfade(l, t), AssetV::Crossfade(a, b, x)) => l[0]@ == a && l[1]@ == b && t@ == x,
        (BniAsset::Animation2d(fs), AssetV::Animation2d(x)) => textures_are(fs@, x),
        (BniAsset::Strings(ss), AssetV::Strings(x)) => strs_are(ss@, x),
        (BniAsset::Palette(p), AssetV::Palette(x)) => p@ == x,
        (BniAsset::Unknown(p), AssetV::Unknown(x)) => p@ == x,
        _ => false,
    }
}

/// The first kind of asset that the bytes `d` decode as, trying sounds, plain,
/// overlay, strip, paletted and cross-fade images, then sprite animations
/// (one frame makes a plain texture); `Rejected` when none fits, `Aborted`
/// where a parser tried on the way does not survive the bytes.
pub open spec fn classify_2d(d: Seq<u8>) -> Outcome<AssetV> {
    match spec_wav(d, 0) {
        Outcome::Value(w) => Outcome::Value(AssetV::Sound(w)),
        Outcome::Aborted => Outcome::Aborted,
        Outcome::Rejected => match spec_basic_image(d, 0) {
            Some(t) => Outcome::Value(AssetV::Texture(t)),
            None => match spec_overlay_image(d, 0) {
                Outcome::Value(t) => Outcome::Value(AssetV::Texture(t)),
                Outcome::Aborted => Outcome::Aborted,
                Outcome::Rejected => match spec_rle_image(d, 0) {
                    Some(t) => Outcome::Value(AssetV::Texture(t)),
                    None => match spec_palette_image(d, 0) {
                        Some((pal, t)) => Outcome::Value(AssetV::Coloured(pal, t)),
                        None => match spec_crossfade_image(d, 0) {
                            Some((l1, l2, t)) => Outcome::Value(AssetV::Crossfade(l1, l2, t)),
                            None => match spec_animation(d, 0) {
                                Outcome::Value(fs) => if fs.len() == 1 {
                                    Outcome::Value(AssetV::Texture(fs[0]))
                                } else {
                                    Outcome::Value(AssetV::Animation2d(fs))
                                },
                                Outcome::Aborted => Outcome::Aborted,
                                Outcome::Rejected => Outcome::Rejected,
                            },
                        },
                    },
                },
            },
        },
    }
}

/// What an asset that no decoder recognised is taken as: a string table, a
/// palette (768 bytes), a raw 640x480 image, or else unknown bytes.
pub open spec fn classify_rest(d: Seq<u8>) -> AssetV {
    match spec_strings(d, 0) {
        Some(s) => AssetV::Strings(s),
        None => if d.len() == 0x300 {
            AssetV::Palette(d)
        } else if d.len() == 640 * 480 {
            AssetV::Texture(plain_texture(640, 480, d))
        } else {
            AssetV::Unknown(d)
        },
    }
}

/// Recognises an asset that needs no 3D decoding.
pub fn classify_asset_2d<'a>(reader: &Reader<'a>) -> (res: Outcome<BniAsset<'a>>)
    requires
        reader.pos() == 0,
    ensures
        match classify_2d(reader.data()) {
            Outcome::Value(v) => res matches Outcome::Value(a) && asset_is(a, v),
            Outcome::Rejected => res is Rejected,
            Outcome::Aborted => res is Aborted,
        },
{
    match Wav::try_parse_outcome(&mut reader.clone()) {
        Outcome::Value(w) => return Outcome::Value(BniAsset::Sound(w)),
        Outcome::Aborted => return Outcome::Aborted,
        Outcome::Rejected => {},
    }
    if let Some(t) = try_parse_basic_image(&mut reader.clone()) {
        return Outcome::Value(BniAsset::Texture(t));
    }
    match overlay_image_outcome(&mut reader.clone()) {
        Outcome::Value(t) => return Outcome::Value(BniAsset::Texture(t)),
        Outcome::Aborted => return Outcome::Aborted,
        Outcome::Rejected => {},
    }
    if let Some(t) = try_parse_rle_image(&mut reader.clone()) {
        return Outcome::Value(BniAsset::Texture(t));
    }
    if let Some((pal, t)) = try_parse_palette_image(&mut reader.clone()) {
        return Outcome::Value(BniAsset::Coloured(pal, t));
    }
    if let Some((luts, t)) = try_parse_crossfade_image(&mut reader.clone()) {
        return Outcome::Value(BniAsset::Crossfade(luts, t));
    }
    match animation_outcome(&mut reader.clone()) {
        Outcome::Value(mut frames) => {
            if frames.len() == 1 {
                let t = frames.pop().unwrap();
                Outcome::Value(BniAsset::Texture(t))
            } else {
                Outcome::Value(BniAsset::Animation2d(frames))
            }
        },
        Outcome::Aborted => Outcome::Aborted,
        Outcome::Rejected => Outcome::Rejected,
    }
}

/// Takes an asset that no decoder recognised as a string table, a palette, a
/// raw 640x480 image, or unknown bytes.
pub fn classify_asset_rest<'a>(reader: &Reader<'a>) -> (a: BniAsset<'a>)
    requires
        reader.pos() == 0,
    ensures
        asset_is(a, classify_rest(reader.data())),
{
    if let Some(text) = try_parse_strings(&mut reader.clone()) {
        return BniAsset::Strings(text);
    }
    let n = reader.len();
    assert(reader.data().subrange(0, n as int) =~= reader.data());
    if n == 0x300 {
        BniAsset::Palette(reader.clone().slice(0x300))
    } else if n == 640 * 480 {
        let mut pixels: Vec<u8> = Vec::new();
        crate::buffer::extend_bytes(&mut pixels, reader.buf());
        BniAsset::Texture(Texture::new(640, 480, pixels))
    } else {
        BniAsset::Unknown(reader.clone().remaining_slice())
    }
}


// ---------------------------------------------------------------------------
// The archive sorted into lists

/// What an entry that no 2D decoder recognises decodes as in 3D: the 3D
/// decoders work on floats, so the caller says.
#[derive(Clone, Copy, Debug, PartialEq, Eq, Structural)]
pub enum Kind3d {
    Animation,
    Mesh,
    Neither,
}

/// The 3D kind given for entry `i`; entries past the end of `kinds` are neither.
pub open spec fn kind_at(kinds: Seq<Kind3d>, i: int) -> Kind3d {
    if 0 <= i < kinds.len() {
        kinds[i]
    } else {
        Kind3d::Neither
    }
}

/// What an entry is taken as.
pub enum EntryV {
    Asset(AssetV),
    Animation3d(Seq<u8>),
    Mesh(Seq<u8>),
}

/// An entry's kind: the first 2D decoder that takes it, else its 3D kind,
/// else a string table, palette, raw image or unknown bytes; `None` where a
/// 2D decoder does not survive the bytes.
#[verifier::opaque]
pub open spec fn classify_entry(d: Seq<u8>, k: Kind3d) -> Option<EntryV> {
    match classify_2d(d) {
        Outcome::Value(v) => Some(EntryV::Asset(v)),
        Outcome::Aborted => None,
        Outcome::Rejected => match k {
            Kind3d::Animation => Some(EntryV::Animation3d(d)),
            Kind3d::Mesh => Some(EntryV::Mesh(d)),
            Kind3d::Neither => Some(EntryV::Asset(classify_rest(d))),
        },
    }
}

/// The lists of an archive, with names and data as bytes.
pub struct BniListsV {
    pub sounds: Seq<(Seq<u8>, WavView)>,
    pub textures: Seq<(Seq<u8>, TextureView)>,
    pub coloured_textures: Seq<(Seq<u8>, (Seq<u8>, TextureView))>,
    pub animations_2d: Seq<(Seq<u8>, Seq<TextureView>)>,
    pub animations_3d: Seq<(Seq<u8>, Seq<u8>)>,
    pub meshes: Seq<(Seq<u8>, Seq<u8>)>,
    pub palettes: Seq<(Seq<u8>, Seq<u8>)>,
    pub strings: Seq<(Seq<u8>, Seq<Seq<u8>>)>,
    pub unknowns: Seq<(Seq<u8>, Seq<u8>)>,
}

pub open spec fn no_lists() -> BniListsV {
    BniListsV {
        sounds: Seq::empty(),
        textures: Seq::empty(),
        coloured_textures: Seq::empty(),
        animations_2d: Seq::empty(),
        animations_3d: Seq::empty(),
        meshes: Seq::empty(),
        palettes: Seq::empty(),
        strings: Seq::empty(),
        unknowns: Seq::empty(),
    }
}

/// The lists with the entry `name` added to the list of its kind; a
/// cross-fade image adds two coloured textures, one per colour table.
pub open spec fn add_entry(l: BniListsV, name: Seq<u8>, x: EntryV) -> BniListsV {
    match x {
        EntryV::Asset(AssetV::Sound(w)) => BniListsV { sounds: l.sounds.push((name, w)), ..l },
        EntryV::Asset(AssetV::Texture(t)) => BniListsV { textures: l.textures.push((name, t)), ..l },
        EntryV::Asset(AssetV::Coloured(p, t)) => BniListsV {
            coloured_textures: l.coloured_textures.push((name, (p, t))),
            ..l
        },
        EntryV::Asset(AssetV::Crossfade(a, b, t)) => BniListsV {
            coloured_textures: l.coloured_textures.push((name, (a, t))).push((name, (b, t))),
            ..l
        },
        EntryV::Asset(AssetV::Animation2d(fs)) => BniListsV { animations_2d: l.animations_2d.push((name, fs)), ..l },
        EntryV::Asset(AssetV::Strings(ss)) => BniListsV { strings: l.strings.push((name, ss)), ..l },
        EntryV::Asset(AssetV::Palette(p)) => BniListsV { palettes: l.palettes.push((name, p)), ..l },
        EntryV::Asset(AssetV::Unknown(b)) => BniListsV { unknowns: l.unknowns.push((name, b)), ..l },
        EntryV::Animation3d(b) => BniListsV { animations_3d: l.animations_3d.push((name, b)), ..l },
        EntryV::Mesh(b) => BniListsV { meshes: l.meshes.push((name, b)), ..l },
    }
}

/// The lists after the first `n` entries, in directory order.
pub open spec fn lists_upto(
    e: Seq<u8>,
    es: Seq<(Seq<u8>, int, int)>,
    kinds: Seq<Kind3d>,
    n: int,
) -> Option<BniListsV>
    decreases n,
{
    if n <= 0 {
        Some(no_lists())
    } else {
        match lists_upto(e, es, kinds, n - 1) {
            Some(l) => match classify_entry(e.subrange(es[n - 1].1, es[n - 1].2), kind_at(kinds, n - 1)) {
                Some(x) => Some(add_entry(l, es[n - 1].0, x)),
                None => None,
            },
            None => None,
        }
    }
}

proof fn lemma_lists_none(e: Seq<u8>, es: Seq<(Seq<u8>, int, int)>, kinds: Seq<Kind3d>, i: int, n: int)
    requires
        0 <= i <= n,
        lists_upto(e, es, kinds, i) is None,
    ensures
        lists_upto(e, es, kinds, n) is None,
    decreases n - i,
{
    if i < n {
        lemma_lists_none(e, es, kinds, i + 1, n);
    }
}

/// The number of items in all the lists together.
pub open spec fn lists_len(l: BniListsV) -> nat {
    l.sounds.len() + l.textures.len() + l.coloured_textures.len() + l.animations_2d.len() + l.animations_3d.len()
        + l.meshes.len() + l.palettes.len() + l.strings.len() + l.unknowns.len()
}

/// How many of the first `n` entries are cross-fade images.
pub open spec fn crossfades_upto(e: Seq<u8>, es: Seq<(Seq<u8>, int, int)>, kinds: Seq<Kind3d>, n: int) -> nat
    decreases n,
{
    if n <= 0 {
        0
    } else {
        crossfades_upto(e, es, kinds, n - 1) + match classify_entry(
            e.subrange(es[n - 1].1, es[n - 1].2),
            kind_at(kinds, n - 1),
        ) {
            Some(EntryV::Asset(AssetV::Crossfade(_, _, _))) => 1nat,
            _ => 0nat,
        }
    }
}

/// Every entry lands in exactly one list, once, except a cross-fade image,
/// which lands in the coloured textures twice: the lists hold as many items
/// as there are entries and cross-fade images.
pub proof fn lemma_lists_count(e: Seq<u8>, es: Seq<(Seq<u8>, int, int)>, kinds: Seq<Kind3d>, n: int)
    requires
        n >= 0,
    ensures
        lists_upto(e, es, kinds, n) matches Some(l) ==> lists_len(l) == n + crossfades_upto(e, es, kinds, n),
    decreases n,
{
    reveal(add_entry);
    if n > 0 {
        lemma_lists_count(e, es, kinds, n - 1);
    }
}

/// The lists of the archive at `p`, given the 3D kinds of its entries.
pub open spec fn spec_bni_lists(d: Seq<u8>, p: int, kinds: Seq<Kind3d>) -> Option<BniListsV> {
    match bni_entries(d, p) {
        Some((e, es)) => lists_upto(e, es, kinds, es.len() as int),
        None => None,
    }
}

/// The assets of an archive, sorted by kind, each list in directory order.
pub struct BniLists<'a> {
    pub sounds: Vec<(&'a str, Wav<'a>)>,
    pub textures: Vec<(&'a str, Texture)>,
    pub coloured_textures: Vec<(&'a str, (&'a [u8], Texture))>,
    pub animations_2d: Vec<(&'a str, Vec<Texture>)>,
    /// The bytes of the 3D animations.
    pub animations_3d: Vec<(&'a str, &'a [u8])>,
    /// The bytes of the meshes.
    pub meshes: Vec<(&'a str, &'a [u8])>,
    pub palettes: Vec<(&'a str, &'a [u8])>,
    pub strings: Vec<(&'a str, Vec<&'a str>)>,
    pub unknowns: Vec<(&'a str, &'a [u8])>,
}

/// Whether the named items are those listed, each item taken by `f`.
pub open spec fn named_are<A, V>(l: Seq<(&str, A)>, v: Seq<(Seq<u8>, V)>, f: spec_fn(A) -> V) -> bool {
    &&& l.len() == v.len()
    &&& forall|i: int| 0 <= i < l.len() ==> (#[trigger] l[i]).0.spec_bytes() == v[i].0 && f(l[i].1) == v[i].1
}

pub open spec fn bytes_of(b: &[u8]) -> Seq<u8> {
    b@
}

pub open spec fn wav_of(w: Wav) -> WavView {
    w@
}

pub open spec fn tex_of(t: Texture) -> TextureView {
    t@
}

pub open spec fn coloured_of(c: (&[u8], Texture)) -> (Seq<u8>, TextureView) {
    (c.0@, c.1@)
}

pub open spec fn frames_of(fs: Vec<Texture>) -> Seq<TextureView> {
    crate::data_formats::texture::textures_view(fs@)
}

pub open spec fn strs_of(ss: Vec<&str>) -> Seq<Seq<u8>> {
    crate::data_formats::cmi_operands::texts_view(ss@)
}

/// Whether the lists are those described.
#[verifier::opaque]
pub open spec fn lists_are(l: BniLists, v: BniListsV) -> bool {
    &&& named_are(l.sounds@, v.sounds, |w: Wav| wav_of(w))
    &&& named_are(l.textures@, v.textures, |t: Texture| tex_of(t))
    &&& named_are(l.coloured_textures@, v.coloured_textures, |c: (&[u8], Texture)| coloured_of(c))
    &&& named_are(l.animations_2d@, v.animations_2d, |fs: Vec<Texture>| frames_of(fs))
    &&& named_are(l.animations_3d@, v.animations_3d, |b: &[u8]| bytes_of(b))
    &&& named_are(l.meshes@, v.meshes, |b: &[u8]| bytes_of(b))
    &&& named_are(l.palettes@, v.palettes, |b: &[u8]| bytes_of(b))
    &&& named_are(l.strings@, v.strings, |ss: Vec<&str>| strs_of(ss))
    &&& named_are(l.unknowns@, v.unknowns, |b: &[u8]| bytes_of(b))
}

proof fn lemma_named_push<A, V>(l: Seq<(&str, A)>, v: Seq<(Seq<u8>, V)>, f: spec_fn(A) -> V, n: &str, a: A, x: V)
    requires
        named_are(l, v, f),
        f(a) == x,
    ensures
        named_are(l.push((n, a)), v.push((n.spec_bytes(), x)), f),
{
    assert forall|i: int| 0 <= i < l.len() + 1 implies (#[trigger] l.push((n, a))[i]).0.spec_bytes() == v.push(
        (n.spec_bytes(), x),
    )[i].0 && f(l.push((n, a))[i].1) == v.push((n.spec_bytes(), x))[i].1 by {
        if i < l.len() {
            assert(l.push((n, a))[i] == l[i]);
        }
    }
}

/// Adds a recognised asset to the list of its kind.
fn push_asset<'a>(out: &mut BniLists<'a>, name: &'a str, a: BniAsset<'a>, Ghost(v0): Ghost<BniListsV>, Ghost(av): Ghost<AssetV>)
    requires
        lists_are(*old(out), v0),
        asset_is(a, av),
    ensures
        lists_are(*final(out), add_entry(v0, name.spec_bytes(), EntryV::Asset(av))),
{
    reveal(lists_are);
    reveal(add_entry);
    match a {
        BniAsset::Sound(w) => {
            proof { lemma_named_push(out.sounds@, v0.sounds, |w: Wav| wav_of(w), name, w, w@); }
            out.sounds.push((name, w));
        },
        BniAsset::Texture(t) => {
            proof { lemma_named_push(out.textures@, v0.textures, |t: Texture| tex_of(t), name, t, t@); }
            out.textures.push((name, t));
        },
        BniAsset::Coloured(p, t) => {
            proof {
                lemma_named_push(
                    out.coloured_textures@,
                    v0.coloured_textures,
                    |c: (&[u8], Texture)| coloured_of(c),
                    name,
                    (p, t),
                    (p@, t@),
                );
            }
            out.coloured_textures.push((name, (p, t)));
        },
        BniAsset::Crossfade(luts, t) => {
            let t2 = t.clone_ref();
            let ghost c0 = out.coloured_textures@;
            proof {
                lemma_named_push(
                    c0,
                    v0.coloured_textures,
                    |c: (&[u8], Texture)| coloured_of(c),
                    name,
                    (luts[0], t2),
                    (luts[0]@, t@),
                );
                lemma_named_push(
                    c0.push((name, (luts[0], t2))),
                    v0.coloured_textures.push((name.spec_bytes(), (luts[0]@, t@))),
                    |c: (&[u8], Texture)| coloured_of(c),
                    name,
                    (luts[1], t),
                    (luts[1]@, t@),
                );
            }
            out.coloured_textures.push((name, (luts[0], t2)));
            out.coloured_textures.push((name, (luts[1], t)));
        },
        BniAsset::Animation2d(fs) => {
            proof {
                assert(frames_of(fs) =~= av->Animation2d_0);
                lemma_named_push(
                    out.animations_2d@,
                    v0.animations_2d,
                    |fs: Vec<Texture>| frames_of(fs),
                    name,
                    fs,
                    av->Animation2d_0,
                );
            }
            out.animations_2d.push((name, fs));
        },
        BniAsset::Strings(ss) => {
            proof {
                assert(strs_of(ss) =~= av->Strings_0);
                lemma_named_push(out.strings@, v0.strings, |ss: Vec<&str>| strs_of(ss), name, ss, av->Strings_0);
            }
            out.strings.push((name, ss));
        },
        BniAsset::Palette(p) => {
            proof { lemma_named_push(out.palettes@, v0.palettes, |b: &[u8]| bytes_of(b), name, p, p@); }
            out.palettes.push((name, p));
        },
        BniAsset::Unknown(b) => {
            proof { lemma_named_push(out.unknowns@, v0.unknowns, |b: &[u8]| bytes_of(b), name, b, b@); }
            out.unknowns.push((name, b));
        },
    }
}

/// Adds one entry to the lists; false where a 2D decoder does not survive it.
fn push_entry<'a>(out: &mut BniLists<'a>, entry: &BniEntry<'a>, kind: Kind3d, Ghost(v0): Ghost<BniListsV>) -> (ok: bool)
    requires
        lists_are(*old(out), v0),
        entry.data.pos() == 0,
    ensures
        match classify_entry(entry.data.data(), kind) {
            Some(x) => ok && lists_are(*final(out), add_entry(v0, entry.name.spec_bytes(), x)),
            None => !ok,
        },
{
    let ghost d = entry.data.data();
    let name = entry.name;
    reveal(lists_are);
    reveal(add_entry);
    reveal(classify_entry);
    match classify_asset_2d(&entry.data) {
        Outcome::Value(a) => {
            push_asset(out, name, a, Ghost(v0), Ghost(classify_2d(d)->Value_0));
            true
        },
        Outcome::Aborted => false,
        Outcome::Rejected => match kind {
            Kind3d::Animation => {
                let b = entry.data.buf();
                proof {
                    lemma_named_push(out.animations_3d@, v0.animations_3d, |b: &[u8]| bytes_of(b), name, b, d);
                }
                out.animations_3d.push((name, b));
                true
            },
            Kind3d::Mesh => {
                let b = entry.data.buf();
                proof {
                    lemma_named_push(out.meshes@, v0.meshes, |b: &[u8]| bytes_of(b), name, b, d);
                }
                out.meshes.push((name, b));
                true
            },
            Kind3d::Neither => {
                let a = classify_asset_rest(&entry.data);
                push_asset(out, name, a, Ghost(v0), Ghost(classify_rest(d)));
                true
            },
        },
    }
}

/// Sorts the entries of the archive at the reader's position into lists:
/// each entry goes to the list of the first 2D decoder that takes it, else
/// to the 3D kind that `kinds` gives for it, else to strings, palettes, raw
/// textures or unknowns (see [`classify_entry`]). A cross-fade image adds two
/// coloured textures under its name. `None` where the directory cannot be
/// read or a 2D decoder does not survive an entry's bytes.
#[verifier::rlimit(40)]
pub fn parse_bni<'a>(reader: Reader<'a>, kinds: &[Kind3d]) -> (res: Option<BniLists<'a>>)
    ensures
        match spec_bni_lists(reader.data(), reader.pos(), kinds@) {
            Some(v) => res matches Some(l) && lists_are(l, v),
            None => res is None,
        },
{
    let ghost g = bni_entries(reader.data(), reader.pos());
    let entries = match read_entries(reader) {
        Some(v) => v,
        None => return None,
    };
    let ghost e = g.unwrap().0;
    let ghost es = g.unwrap().1;
    let mut out = BniLists {
        sounds: Vec::new(),
        textures: Vec::new(),
        coloured_textures: Vec::new(),
        animations_2d: Vec::new(),
        animations_3d: Vec::new(),
        meshes: Vec::new(),
        palettes: Vec::new(),
        strings: Vec::new(),
        unknowns: Vec::new(),
    };
    let ghost mut v = no_lists();
    assert(lists_are(out, v)) by {
        reveal(lists_are);
    }
    let mut i: usize = 0;
    while i < entries.len()
        invariant
            g == Some((e, es)),
            g == bni_entries(reader.data(), reader.pos()),
            entries_are(entries@, e, es),
            0 <= i <= entries@.len(),
            lists_upto(e, es, kinds@, i as int) == Some(v),
            lists_are(out, v),
        decreases entries@.len() - i,
    {
        let entry = &entries[i];
        assert(entry.data.data() == e.subrange(es[i as int].1, es[i as int].2));
        assert(entry.name.spec_bytes() == es[i as int].0);
        let kind = if i < kinds.len() {
            kinds[i]
        } else {
            Kind3d::Neither
        };
        let ghost v0 = v;
        if !push_entry(&mut out, entry, kind, Ghost(v0)) {
            proof {
                assert(kind == kind_at(kinds@, i as int));
                assert(lists_upto(e, es, kinds@, i + 1) is None);
                lemma_lists_none(e, es, kinds@, i + 1, es.len() as int);
            }
            return None;
        }
        proof {
            assert(kind == kind_at(kinds@, i as int));
            v = add_entry(v0, es[i as int].0, classify_entry(entry.data.data(), kind).unwrap());
            assert(lists_upto(e, es, kinds@, i + 1) == Some(v));
        }
        i = i + 1;
    }
    Some(out)
}

} // verus!
