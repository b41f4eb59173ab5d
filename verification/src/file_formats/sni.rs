//! SNI files: an archive of named sounds, BSP trees and sprite animations.

use vstd::prelude::*;
use vstd::string::StringSliceAdditionalSpecFns;

use crate::data_formats::cmi_operands::{fixed_text_at, read_fixed_text, read_value, value_at};
use crate::data_formats::image_formats::{animation_outcome, spec_animation, Outcome};
use crate::data_formats::texture::{textures_view, Texture, TextureView};
use crate::data_formats::wav::{spec_wav, SoundInfo, Wav, WavView};
use crate::file_formats::bni::word_le;
use crate::reader::Reader;

verus! {

broadcast use crate::reader::lemma_reader_bounds;

/// What an entry holds: a sound with its flags, the bytes of a BSP tree, or
/// the frames of an animation.
pub enum SniAssetV {
    Sound(WavView, u32),
    Bsp(Seq<u8>),
    Anim(Seq<TextureView>),
}

/// The size of an entry: the stored size, or, where that is all ones, the
/// word at the entry's start plus 4.
pub open spec fn entry_size(e: Seq<u8>, off: int, sz: u32) -> Option<int> {
    if sz == 0xFFFF_FFFFu32 {
        match value_at::<u32>(e, off) {
            Some((v, _)) => Some(v + 4),
            None => None,
        }
    } else {
        Some(sz as int)
    }
}

/// The asset of type `t` in `b`: all ones for an animation, 0 for a BSP
/// tree, anything else for a sound with those flags.
pub open spec fn sni_asset(b: Seq<u8>, t: u32) -> Option<SniAssetV> {
    if t == 0xFFFF_FFFFu32 {
        match spec_animation(b, 0) {
            Outcome::Value(fs) => Some(SniAssetV::Anim(fs)),
            _ => None,
        }
    } else if t == 0 {
        Some(SniAssetV::Bsp(b))
    } else {
        match spec_wav(b, 0) {
            Outcome::Value(w) => Some(SniAssetV::Sound(w, t)),
            _ => None,
        }
    }
}

/// An entry at `q`: a 12-byte name, a type, an offset and a size. Gives the
/// name and asset, where the asset ends, and where the next entry starts.
#[verifier::opaque]
pub open spec fn sni_entry_at(e: Seq<u8>, q: int) -> Option<((Seq<u8>, SniAssetV), int, int)> {
    match (
        fixed_text_at(e, q, 12),
        value_at::<u32>(e, q + 12),
        value_at::<u32>(e, q + 16),
        value_at::<u32>(e, q + 20),
    ) {
        (Some((name, _)), Some((t, _)), Some((off, _)), Some((sz, _))) => match entry_size(e, off as int, sz) {
            Some(size) => if off + size > e.len() {
                None
            } else {
                match sni_asset(e.subrange(off as int, off + size), t) {
                    Some(a) => Some(((name, a), off + size, q + 24)),
                    None => None,
                }
            },
            None => None,
        },
        _ => None,
    }
}

/// An entry takes 24 bytes: a 12-byte name, a type word, an offset word and a
/// size word (low byte first). The asset lies at the offset, as long as the
/// size says, or, where the size is all ones, as the word at the offset plus
/// 4. A type of all ones is an animation, 0 a BSP tree (its bytes as they
/// are), and any other type a sound carrying that type as its flags.
pub proof fn lemma_sni_entry(e: Seq<u8>, q: int)
    requires
        0 <= q,
    ensures
        sni_entry_at(e, q) matches Some(((name, a), end, q2)) ==> {
            let t = word_le(e, q + 12);
            let off = word_le(e, q + 16);
            let sz = word_le(e, q + 20);
            let size = if sz == 0xFFFF_FFFF {
                word_le(e, off) + 4
            } else {
                sz
            };
            &&& q2 == q + 24
            &&& end == off + size
            &&& end <= e.len()
            &&& (t == 0xFFFF_FFFF <==> a is Anim)
            &&& t == 0 ==> a == SniAssetV::Bsp(e.subrange(off, off + size))
            &&& a matches SniAssetV::Sound(_, f) ==> f as int == t && t != 0
        },
{
    reveal(sni_entry_at);
}

pub open spec fn max_int(a: int, b: int) -> int {
    if a >= b {
        a
    } else {
        b
    }
}

/// Entries `i..n` from `q`; gives them, the furthest end of an asset (at
/// least `last`), and where the table ends.
pub open spec fn sni_entries_from(e: Seq<u8>, q: int, n: int, i: int, last: int) -> Option<
    (Seq<(Seq<u8>, SniAssetV)>, int, int),
>
    decreases n - i,
{
    if i >= n {
        Some((Seq::empty(), last, q))
    } else {
        match sni_entry_at(e, q) {
            Some((x, end, q2)) => match sni_entries_from(e, q2, n, i + 1, max_int(last, end)) {
                Some((rest, l, qe)) => Some((seq![x] + rest, l, qe)),
                None => None,
            },
            None => None,
        }
    }
}

/// `n` rounded up to a multiple of 4.
pub open spec fn next_multiple_of_4(n: int) -> int {
    n + (4 - n % 4) % 4
}

/// An SNI file: its name and its entries in order.
pub struct SniV {
    pub filename: Seq<u8>,
    pub entries: Seq<(Seq<u8>, SniAssetV)>,
}

/// The SNI file at `p`: a size (of the data from there, less 4), then a
/// 12-byte name, the size less 8, a count and the entries; after the last
/// asset or the table, whichever ends later, on a multiple of 4, the name again.
pub open spec fn spec_sni(d: Seq<u8>, p: int) -> Option<SniV> {
    match value_at::<u32>(d, p) {
        Some((fs, q)) => if fs + 4 > u32::MAX || d.len() != fs + 4 {
            None
        } else {
            let e = d.subrange(q, d.len() as int);
            match (fixed_text_at(e, 0, 12), value_at::<u32>(e, 12), value_at::<u32>(e, 16)) {
                (Some((name, _)), Some((fs2, _)), Some((n, _))) => if fs2 + 12 > u32::MAX || fs + 4 != fs2 + 12 {
                    None
                } else {
                    match sni_entries_from(e, 20, n as int, 0, 0) {
                        Some((entries, last, qe)) => match fixed_text_at(
                            e,
                            next_multiple_of_4(max_int(last, qe)),
                            12,
                        ) {
                            Some((footer, _)) => if footer == name {
                                Some(SniV { filename: name, entries })
                            } else {
                                None
                            },
                            None => None,
                        },
                        None => None,
                    }
                },
                _ => None,
            }
        },
        None => None,
    }
}

/// The sounds of the entries, with their flags.
pub open spec fn sni_sounds(es: Seq<(Seq<u8>, SniAssetV)>) -> Seq<(Seq<u8>, WavView, u32)> {
    es.filter_map(
        |x: (Seq<u8>, SniAssetV)|
            match x.1 {
                SniAssetV::Sound(w, f) => Some((x.0, w, f)),
                _ => None,
            },
    )
}

/// The BSP trees of the entries, as bytes.
pub open spec fn sni_bsps(es: Seq<(Seq<u8>, SniAssetV)>) -> Seq<(Seq<u8>, Seq<u8>)> {
    es.filter_map(
        |x: (Seq<u8>, SniAssetV)|
            match x.1 {
                SniAssetV::Bsp(b) => Some((x.0, b)),
                _ => None,
            },
    )
}

/// The animations of the entries.
pub open spec fn sni_anims(es: Seq<(Seq<u8>, SniAssetV)>) -> Seq<(Seq<u8>, Seq<TextureView>)> {
    es.filter_map(
        |x: (Seq<u8>, SniAssetV)|
            match x.1 {
                SniAssetV::Anim(fs) => Some((x.0, fs)),
                _ => None,
            },
    )
}

pub open spec fn sounds_view(v: Seq<(&str, SoundInfo)>) -> Seq<(Seq<u8>, WavView, u32)> {
    v.map_values(|x: (&str, SoundInfo)| (x.0.spec_bytes(), x.1.wav@, x.1.flags))
}

pub open spec fn bsps_view(v: Seq<(&str, &[u8])>) -> Seq<(Seq<u8>, Seq<u8>)> {
    v.map_values(|x: (&str, &[u8])| (x.0.spec_bytes(), x.1@))
}

pub open spec fn anims_view(v: Seq<(&str, Vec<Texture>)>) -> Seq<(Seq<u8>, Seq<TextureView>)> {
    v.map_values(|x: (&str, Vec<Texture>)| (x.0.spec_bytes(), textures_view(x.1@)))
}

/// The assets of an SNI file, by kind, each in file order. A BSP tree holds
/// floating-point data and is kept as its bytes.
pub struct Sni<'a> {
    pub filename: &'a str,
    pub sounds: Vec<(&'a str, SoundInfo<'a>)>,
    pub bsps: Vec<(&'a str, &'a [u8])>,
    pub anims: Vec<(&'a str, Vec<Texture>)>,
}

/// The asset read by one entry.
pub enum SniAsset<'a> {
    Sound(SoundInfo<'a>),
    Bsp(&'a [u8]),
    Anim(Vec<Texture>),
}

/// The asset that `sa` describes is `x`.
pub open spec fn asset_matches(sa: SniAssetV, x: SniAsset) -> bool {
    match (sa, x) {
        (SniAssetV::Sound(w, f), SniAsset::Sound(s)) => s.wav@ == w && s.flags == f,
        (SniAssetV::Bsp(b), SniAsset::Bsp(s)) => s@ == b,
        (SniAssetV::Anim(fs), SniAsset::Anim(v)) => textures_view(v@) == fs,
        _ => false,
    }
}

fn read_sni_asset<'a>(b: Reader<'a>, t: u32) -> (res: Option<SniAsset<'a>>)
    requires
        b.pos() == 0,
    ensures
        match sni_asset(b.data(), t) {
            Some(a) => res matches Some(x) && asset_matches(a, x),
            None => res is None,
        },
{
    let ghost bd = b.data();
    let mut b = b;
    if t == 0xFFFF_FFFFu32 {
        match animation_outcome(&mut b) {
            Outcome::Value(v) => {
                assert(textures_view(v@) =~= spec_animation(bd, 0)->Value_0);
                Some(SniAsset::Anim(v))
            },
            _ => None,
        }
    } else if t == 0 {
        Some(SniAsset::Bsp(b.buf()))
    } else {
        match Wav::try_parse_outcome(&mut b) {
            Outcome::Value(w) => Some(SniAsset::Sound(SoundInfo { wav: w, flags: t })),
            _ => None,
        }
    }
}

fn read_entry_size(e: &Reader, off: u32, sz: u32) -> (res: Option<usize>)
    ensures
        match entry_size(e.data(), off as int, sz) {
            Some(n) => if n <= usize::MAX {
                res == Some(n as usize)
            } else {
                res is None
            },
            None => res is None,
        },
{
    if sz == 0xFFFF_FFFFu32 {
        let v = read_value::<u32>(&mut e.clone_at(off as usize))?;
        if v as usize > usize::MAX - 4 {
            return None;
        }
        Some(v as usize + 4)
    } else {
        Some(sz as usize)
    }
}

/// Reads one entry; gives its name and asset and where the asset ends.
fn read_sni_entry<'a>(e: &Reader<'a>, r: &mut Reader<'a>) -> (res: Option<(&'a str, SniAsset<'a>, usize)>)
    requires
        old(r).data() == e.data(),
    ensures
        final(r).data() == old(r).data(),
        match sni_entry_at(old(r).data(), old(r).pos()) {
            Some(((name, a), end, q)) => res matches Some((n, x, en)) && n.spec_bytes() == name && en == end
                && final(r).pos() == q && asset_matches(a, x),
            None => res is None,
        },
{
    reveal(sni_entry_at);
    let name = read_fixed_text(r, 12)?;
    let t = read_value::<u32>(r)?;
    let off = read_value::<u32>(r)?;
    let sz = read_value::<u32>(r)?;
    let size = read_entry_size(e, off, sz)?;
    if size > e.len() || off as usize > e.len() - size {
        return None;
    }
    let end = off as usize + size;
    let asset = read_sni_asset(e.resized(off as usize..end), t)?;
    Some((name, asset, end))
}

/// Files the asset `x`, named `name`, under its kind.
fn file_asset<'a>(
    sounds: &mut Vec<(&'a str, SoundInfo<'a>)>,
    bsps: &mut Vec<(&'a str, &'a [u8])>,
    anims: &mut Vec<(&'a str, Vec<Texture>)>,
    name: &'a str,
    x: SniAsset<'a>,
    Ghost(done): Ghost<Seq<(Seq<u8>, SniAssetV)>>,
    Ghost(a): Ghost<SniAssetV>,
)
    requires
        asset_matches(a, x),
        sounds_view(old(sounds)@) == sni_sounds(done),
        bsps_view(old(bsps)@) == sni_bsps(done),
        anims_view(old(anims)@) == sni_anims(done),
    ensures
        sounds_view(final(sounds)@) == sni_sounds(done.push((name.spec_bytes(), a))),
        bsps_view(final(bsps)@) == sni_bsps(done.push((name.spec_bytes(), a))),
        anims_view(final(anims)@) == sni_anims(done.push((name.spec_bytes(), a))),
{
    let ghost nx = done.push((name.spec_bytes(), a));
    assert(nx.drop_last() =~= done);
    let ghost (s0, b0, a0) = (sounds_view(sounds@), bsps_view(bsps@), anims_view(anims@));
    match x {
        SniAsset::Sound(snd) => {
            sounds.push((name, snd));
            assert(sounds_view(sounds@) =~= s0.push((name.spec_bytes(), snd.wav@, snd.flags)));
        },
        SniAsset::Bsp(b) => {
            bsps.push((name, b));
            assert(bsps_view(bsps@) =~= b0.push((name.spec_bytes(), b@)));
        },
        SniAsset::Anim(v) => {
            let ghost fv = textures_view(v@);
            anims.push((name, v));
            assert(anims_view(anims@) =~= a0.push((name.spec_bytes(), fv)));
        },
    }
}

impl<'a> Sni<'a> {
    pub open spec fn is(&self, v: SniV) -> bool {
        &&& self.filename.spec_bytes() == v.filename
        &&& sounds_view(self.sounds@) == sni_sounds(v.entries)
        &&& bsps_view(self.bsps@) == sni_bsps(v.entries)
        &&& anims_view(self.anims@) == sni_anims(v.entries)
    }

    /// Parses an SNI file at the reader's position; `None` where it is not
    /// laid out as described.
    #[verifier::rlimit(40)]
    pub fn try_parse(reader: Reader<'a>) -> (res: Option<Sni<'a>>)
        ensures
            match spec_sni(reader.data(), reader.pos()) {
                Some(v) => res matches Some(s) && s.is(v),
                None => res is None,
            },
    {
        let ghost d = reader.data();
        let mut r = reader;
        let fs = read_value::<u32>(&mut r)?;
        if fs > 0xFFFF_FFFBu32 || r.len() as u64 != fs as u64 + 4 {
            return None;
        }
        r.rebase();
        let e = r.clone_at(0);
        let ghost ed = e.data();
        let filename = read_fixed_text(&mut r, 12)?;
        let fs2 = read_value::<u32>(&mut r)?;
        let n = read_value::<u32>(&mut r)?;
        if fs2 > 0xFFFF_FFF3u32 || fs + 4 != fs2 + 12 {
            return None;
        }
        let ghost goal = sni_entries_from(ed, 20, n as int, 0, 0);
        assert(ed =~= d.subrange(reader.pos() + 4, d.len() as int));
        assert(goal is None ==> spec_sni(reader.data(), reader.pos()) is None);
        let ghost mut done: Seq<(Seq<u8>, SniAssetV)> = Seq::empty();
        let mut sounds: Vec<(&'a str, SoundInfo<'a>)> = Vec::new();
        let mut bsps: Vec<(&'a str, &'a [u8])> = Vec::new();
        let mut anims: Vec<(&'a str, Vec<Texture>)> = Vec::new();
        let mut last: usize = 0;
        let mut i: u32 = 0;
        while i < n
            invariant
                i <= n,
                r.data() == ed,
                e.data() == ed,
                goal == match sni_entries_from(ed, r.pos(), n as int, i as int, last as int) {
                    Some((rest, l, qe)) => Some((done + rest, l, qe)),
                    None => None,
                },
                sounds_view(sounds@) == sni_sounds(done),
                bsps_view(bsps@) == sni_bsps(done),
                anims_view(anims@) == sni_anims(done),
                goal is None ==> spec_sni(reader.data(), reader.pos()) is None,
            decreases n - i,
        {
            let ghost q0 = r.pos();
            let (name, asset, end) = match read_sni_entry(&e, &mut r) {
                Some(x) => x,
                None => return None,
            };
            let ghost a = sni_entry_at(ed, q0).unwrap().0.1;
            let ghost x = (name.spec_bytes(), a);
            file_asset(&mut sounds, &mut bsps, &mut anims, name, asset, Ghost(done), Ghost(a));
            proof {
                if let Some((rest, l, qe)) = sni_entries_from(ed, r.pos(), n as int, i + 1, max_int(last as int, end as int)) {
                    assert(done + (seq![x] + rest) =~= done.push(x) + rest);
                }
                done = done.push(x);
            }
            if end > last {
                last = end;
            }
            i = i + 1;
        }
        assert(done + Seq::<(Seq<u8>, SniAssetV)>::empty() =~= done);
        let table_end = r.position();
        let far = if last > table_end {
            last
        } else {
            table_end
        };
        let pad = (4 - far % 4) % 4;
        if far > e.len() {
            return None;
        }
        let mut footer_reader = e.clone_at(far + pad);
        let footer = read_fixed_text(&mut footer_reader, 12)?;
        if !crate::text::bytes_eq(footer.as_bytes(), filename.as_bytes()) {
            return None;
        }
        Some(Sni { filename, sounds, bsps, anims })
    }

    /// Parses an SNI file that is laid out as described.
    pub fn parse(reader: Reader<'a>) -> (s: Sni<'a>)
        requires
            spec_sni(reader.data(), reader.pos()) is Some,
        ensures
            s.is(spec_sni(reader.data(), reader.pos()).unwrap()),
    {
        Self::try_parse(reader).unwrap()
    }
}

} // verus!
