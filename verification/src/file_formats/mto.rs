//! MTO files: per-arena assets (animations, meshes, sounds, a BSP tree, a
//! palette and a material file). Animations, meshes and BSP trees hold
//! floating-point data; they are found here and decoded elsewhere.

use vstd::prelude::*;
use vstd::string::StringSliceAdditionalSpecFns;

use crate::data_formats::cmi_operands::{fixed_text_at, read_fixed_text, read_value, value_at};
use crate::data_formats::image_formats::Outcome;
use crate::data_formats::wav::{spec_wav, SoundInfo, Wav, WavView};
use crate::file_formats::mti::{spec_mti, Mti, MtiV};
use crate::file_formats::bni::word_le;
use crate::reader::Reader;

verus! {

broadcast use crate::reader::lemma_reader_bounds;

/// An animation entry at `q`: an 8-byte name and an offset; the animation is
/// read from there to the end of the block.
pub open spec fn mto_anim_at(s: Seq<u8>, q: int) -> Option<((Seq<u8>, Seq<u8>), int)> {
    match (fixed_text_at(s, q, 8), value_at::<u32>(s, q + 8)) {
        (Some((name, _)), Some((off, _))) => if off > s.len() {
            None
        } else {
            Some(((name, s.subrange(off as int, s.len() as int)), q + 12))
        },
        _ => None,
    }
}

/// A mesh entry at `q`: an 8-byte name and an offset; the mesh starts with a
/// multi-mesh flag of 0 or 1. Gives the bytes from the offset and the flag.
pub open spec fn mto_mesh_at(s: Seq<u8>, q: int) -> Option<((Seq<u8>, Seq<u8>, bool), int)> {
    match (fixed_text_at(s, q, 8), value_at::<u32>(s, q + 8)) {
        (Some((name, _)), Some((off, _))) => if off > s.len() {
            None
        } else {
            match value_at::<u32>(s, off as int) {
                Some((mm, _)) => if mm <= 1 {
                    Some(((name, s.subrange(off as int, s.len() as int), mm == 1), q + 12))
                } else {
                    None
                },
                None => None,
            }
        },
        _ => None,
    }
}

/// A sound entry at `q`: a 12-byte name, flags, an offset and a length.
pub open spec fn mto_sound_at(s: Seq<u8>, q: int) -> Option<((Seq<u8>, WavView, u32), int)> {
    match (
        fixed_text_at(s, q, 12),
        value_at::<u32>(s, q + 12),
        value_at::<u32>(s, q + 16),
        value_at::<u32>(s, q + 20),
    ) {
        (Some((name, _)), Some((flags, _)), Some((off, _)), Some((len, _))) => if off + len > s.len() {
            None
        } else {
            match spec_wav(s.subrange(off as int, off + len), 0) {
                Outcome::Value(w) => Some(((name, w, flags), q + 24)),
                _ => None,
            }
        },
        _ => None,
    }
}

/// The entries of an arena's asset lists: an animation or mesh entry takes
/// 12 bytes (an 8-byte name, then the offset at 8, whose bytes run to the end
/// of the block), a mesh starting with a flag word that is 1 exactly when it
/// has several parts; a sound entry takes 24 bytes (a 12-byte name, flags at
/// 12, offset at 16, length at 20) and its file lies within that span.
pub proof fn lemma_mto_entries(s: Seq<u8>, q: int)
    requires
        0 <= q,
    ensures
        mto_anim_at(s, q) matches Some(((name, bytes), q2)) ==> q2 == q + 12 && bytes == s.subrange(
            word_le(s, q + 8),
            s.len() as int,
        ),
        mto_mesh_at(s, q) matches Some(((name, bytes, multi), q2)) ==> {
            let off = word_le(s, q + 8);
            &&& q2 == q + 12
            &&& bytes == s.subrange(off, s.len() as int)
            &&& word_le(s, off) <= 1
            &&& (multi <==> word_le(s, off) == 1)
        },
        mto_sound_at(s, q) matches Some(((name, w, flags), q2)) ==> {
            let off = word_le(s, q + 16);
            let len = word_le(s, q + 20);
            &&& q2 == q + 24
            &&& flags as int == word_le(s, q + 12)
            &&& w.file_data.len() <= len
        },
{
    if let Some(((name, w, flags), q2)) = mto_sound_at(s, q) {
        let off = word_le(s, q + 16);
        let len = word_le(s, q + 20);
        let b = s.subrange(off, off + len);
        if let Outcome::Value(v) = spec_wav(b, 0) {
            assert(v.file_data == b.subrange(0, v.file_data.len() as int));
        }
    }
}

/// Entries `i..n` from `q`, each read by `f`.
pub open spec fn list_from<A>(s: Seq<u8>, q: int, n: int, i: int, f: spec_fn(Seq<u8>, int) -> Option<(A, int)>) -> Option<
    (Seq<A>, int),
>
    decreases n - i,
{
    if i >= n {
        Some((Seq::empty(), q))
    } else {
        match f(s, q) {
            Some((x, q2)) => match list_from(s, q2, n, i + 1, f) {
                Some((rest, e)) => Some((seq![x] + rest, e)),
                None => None,
            },
            None => None,
        }
    }
}

/// The assets of one arena, with the bytes of what is decoded elsewhere.
pub struct MtoArenaV {
    pub name: Seq<u8>,
    pub animations: Seq<(Seq<u8>, Seq<u8>)>,
    pub meshes: Seq<(Seq<u8>, Seq<u8>, bool)>,
    pub sounds: Seq<(Seq<u8>, WavView, u32)>,
    pub block: Seq<u8>,
    pub bsp_offset: int,
    pub palette: Seq<u8>,
    pub mti: MtiV,
}

/// The asset block of an arena (`a`, from the arena's offset to the end of
/// the file): a size, then that many bytes holding the offsets of the asset
/// lists, the palette and the BSP tree, followed by a material file. The
/// asset lists are a block of their own: a size, three counts, then the
/// animations, meshes and sounds. The palette is 336 bytes, up to the tree.
pub open spec fn mto_arena(name: Seq<u8>, a: Seq<u8>) -> Option<MtoArenaV> {
    match value_at::<u32>(a, 0) {
        Some((afs, _)) => if 4 + afs > a.len() {
            None
        } else {
            let b = a.subrange(4, 4 + afs);
            match (value_at::<u32>(b, 0), value_at::<u32>(b, 4), value_at::<u32>(b, 8)) {
                (Some((ao, _)), Some((po, _)), Some((bo, _))) => match value_at::<u32>(b, ao as int) {
                    Some((al, _)) => if ao + 4 + al > b.len() || po > bo || bo - po != 336 || bo > b.len() {
                        None
                    } else {
                        let s = b.subrange(ao + 4, ao + 4 + al);
                        match (value_at::<u32>(s, 0), value_at::<u32>(s, 4), value_at::<u32>(s, 8)) {
                            (Some((na, _)), Some((nm, _)), Some((ns, _))) => match list_from(
                                s,
                                12,
                                na as int,
                                0,
                                |s: Seq<u8>, q: int| mto_anim_at(s, q),
                            ) {
                                Some((anims, q1)) => match list_from(
                                    s,
                                    q1,
                                    nm as int,
                                    0,
                                    |s: Seq<u8>, q: int| mto_mesh_at(s, q),
                                ) {
                                    Some((meshes, q2)) => match list_from(
                                        s,
                                        q2,
                                        ns as int,
                                        0,
                                        |s: Seq<u8>, q: int| mto_sound_at(s, q),
                                    ) {
                                        Some((sounds, _)) => match spec_mti(b.subrange(12, b.len() as int), 0) {
                                            Some(mti) => Some(
                                                MtoArenaV {
                                                    name,
                                                    animations: anims,
                                                    meshes,
                                                    sounds,
                                                    block: b,
                                                    bsp_offset: bo as int,
                                                    palette: b.subrange(po as int, bo as int),
                                                    mti,
                                                },
                                            ),
                                            None => None,
                                        },
                                        None => None,
                                    },
                                    None => None,
                                },
                                None => None,
                            },
                            _ => None,
                        }
                    },
                    None => None,
                },
                _ => None,
            }
        },
        None => None,
    }
}

/// An arena entry at `q`: an 8-byte name and the offset of the arena's block.
pub open spec fn mto_arena_at(d: Seq<u8>, q: int) -> Option<(MtoArenaV, int)> {
    match (fixed_text_at(d, q, 8), value_at::<u32>(d, q + 8)) {
        (Some((name, _)), Some((off, _))) => if off > d.len() {
            None
        } else {
            match mto_arena(name, d.subrange(off as int, d.len() as int)) {
                Some(a) => Some((a, q + 12)),
                None => None,
            }
        },
        _ => None,
    }
}

/// An MTO file: its name and its arenas.
pub struct MtoV {
    pub filename: Seq<u8>,
    pub arenas: Seq<MtoArenaV>,
}

/// The MTO file at `p` (its offsets count from the start of the data): a
/// size (of the data, less 4, as 32 bits), a 12-byte name, the size less 8,
/// a count and the arena entries; the name again in the last 12 bytes.
pub open spec fn spec_mto(d: Seq<u8>, p: int) -> Option<MtoV> {
    match value_at::<u32>(d, p) {
        Some((fs, _)) => if fs + 4 > u32::MAX || d.len() % 0x1_0000_0000 != fs + 4 || d.len() < 12 {
            None
        } else {
            match (fixed_text_at(d, p + 4, 12), value_at::<u32>(d, p + 16), value_at::<u32>(d, p + 20)) {
                (Some((name, _)), Some((fs2, _)), Some((n, _))) => if fs2 + 12 > u32::MAX || fs + 4 != fs2 + 12 {
                    None
                } else {
                    match (
                        list_from(d, p + 24, n as int, 0, |d: Seq<u8>, q: int| mto_arena_at(d, q)),
                        fixed_text_at(d, d.len() - 12, 12),
                    ) {
                        (Some((arenas, _)), Some((footer, _))) => if footer == name {
                            Some(MtoV { filename: name, arenas })
                        } else {
                            None
                        },
                        _ => None,
                    }
                },
                _ => None,
            }
        },
        None => None,
    }
}

/// The assets of one arena. Animations and meshes are the bytes from their
/// offsets (a mesh's first word is its multi-mesh flag); the BSP tree is read
/// from `bsp_offset` in `block`.
pub struct MtoArena<'a> {
    pub name: &'a str,
    pub animations: Vec<(&'a str, &'a [u8])>,
    pub meshes: Vec<(&'a str, &'a [u8], bool)>,
    pub sounds: Vec<(&'a str, SoundInfo<'a>)>,
    pub block: &'a [u8],
    pub bsp_offset: usize,
    pub palette: &'a [u8],
    pub mti: Mti<'a>,
}

pub struct Mto<'a> {
    pub filename: &'a str,
    pub arenas: Vec<MtoArena<'a>>,
}

pub open spec fn anims_view(v: Seq<(&str, &[u8])>) -> Seq<(Seq<u8>, Seq<u8>)> {
    v.map_values(|x: (&str, &[u8])| (x.0.spec_bytes(), x.1@))
}

pub open spec fn meshes_view(v: Seq<(&str, &[u8], bool)>) -> Seq<(Seq<u8>, Seq<u8>, bool)> {
    v.map_values(|x: (&str, &[u8], bool)| (x.0.spec_bytes(), x.1@, x.2))
}

pub open spec fn sounds_view(v: Seq<(&str, SoundInfo)>) -> Seq<(Seq<u8>, WavView, u32)> {
    v.map_values(|x: (&str, SoundInfo)| (x.0.spec_bytes(), x.1.wav@, x.1.flags))
}

impl<'a> MtoArena<'a> {
    pub open spec fn is(&self, v: MtoArenaV) -> bool {
        &&& self.name.spec_bytes() == v.name
        &&& anims_view(self.animations@) == v.animations
        &&& meshes_view(self.meshes@) == v.meshes
        &&& sounds_view(self.sounds@) == v.sounds
        &&& self.block@ == v.block
        &&& self.bsp_offset == v.bsp_offset
        &&& self.palette@ == v.palette
        &&& self.mti.is(v.mti)
    }
}

fn read_anims<'a>(s: &Reader<'a>, q: usize, n: u32) -> (res: Option<(Vec<(&'a str, &'a [u8])>, usize)>)
    ensures
        match list_from(s.data(), q as int, n as int, 0, |s: Seq<u8>, q: int| mto_anim_at(s, q)) {
            Some((v, e)) => res matches Some((x, pos)) && anims_view(x@) == v && pos == e,
            None => res is None,
        },
{
    let ghost d = s.data();
    let ghost f = |s: Seq<u8>, q: int| mto_anim_at(s, q);
    let ghost goal = list_from(d, q as int, n as int, 0, f);
    let mut r = s.clone_at(q);
    let mut out: Vec<(&'a str, &'a [u8])> = Vec::new();
    assert(anims_view(out@) =~= Seq::<(Seq<u8>, Seq<u8>)>::empty());
    let mut i: u32 = 0;
    while i < n
        invariant
            i <= n,
            r.data() == d,
            s.data() == d,
            f == (|s: Seq<u8>, q: int| mto_anim_at(s, q)),
            goal == list_from(d, q as int, n as int, 0, f),
            goal == match list_from(d, r.pos(), n as int, i as int, f) {
                Some((rest, e)) => Some((anims_view(out@) + rest, e)),
                None => None,
            },
        decreases n - i,
    {
        let name = match read_fixed_text(&mut r, 8) {
            Some(x) => x,
            None => return None,
        };
        let off = match read_value::<u32>(&mut r) {
            Some(x) => x,
            None => return None,
        };
        if off as usize > s.len() {
            return None;
        }
        let bytes = s.resized(off as usize..s.len()).buf();
        let ghost before = anims_view(out@);
        let ghost item = (name.spec_bytes(), bytes@);
        out.push((name, bytes));
        proof {
            assert(anims_view(out@) =~= before.push(item));
            if let Some((rest, e)) = list_from(d, r.pos(), n as int, i + 1, f) {
                assert(before + (seq![item] + rest) =~= before.push(item) + rest);
            }
        }
        i = i + 1;
    }
    assert(anims_view(out@) + Seq::<(Seq<u8>, Seq<u8>)>::empty() =~= anims_view(out@));
    Some((out, r.position()))
}

fn read_meshes<'a>(s: &Reader<'a>, q: usize, n: u32) -> (res: Option<(Vec<(&'a str, &'a [u8], bool)>, usize)>)
    ensures
        match list_from(s.data(), q as int, n as int, 0, |s: Seq<u8>, q: int| mto_mesh_at(s, q)) {
            Some((v, e)) => res matches Some((x, pos)) && meshes_view(x@) == v && pos == e,
            None => res is None,
        },
{
    let ghost d = s.data();
    let ghost f = |s: Seq<u8>, q: int| mto_mesh_at(s, q);
    let ghost goal = list_from(d, q as int, n as int, 0, f);
    let mut r = s.clone_at(q);
    let mut out: Vec<(&'a str, &'a [u8], bool)> = Vec::new();
    assert(meshes_view(out@) =~= Seq::<(Seq<u8>, Seq<u8>, bool)>::empty());
    let mut i: u32 = 0;
    while i < n
        invariant
            i <= n,
            r.data() == d,
            s.data() == d,
            f == (|s: Seq<u8>, q: int| mto_mesh_at(s, q)),
            goal == list_from(d, q as int, n as int, 0, f),
            goal == match list_from(d, r.pos(), n as int, i as int, f) {
                Some((rest, e)) => Some((meshes_view(out@) + rest, e)),
                None => None,
            },
        decreases n - i,
    {
        let name = match read_fixed_text(&mut r, 8) {
            Some(x) => x,
            None => return None,
        };
        let off = match read_value::<u32>(&mut r) {
            Some(x) => x,
            None => return None,
        };
        if off as usize > s.len() {
            return None;
        }
        let mm = match read_value::<u32>(&mut s.clone_at(off as usize)) {
            Some(x) => x,
            None => return None,
        };
        if mm > 1 {
            return None;
        }
        let bytes = s.resized(off as usize..s.len()).buf();
        let ghost before = meshes_view(out@);
        let ghost item = (name.spec_bytes(), bytes@, mm == 1);
        out.push((name, bytes, mm == 1));
        proof {
            assert(meshes_view(out@) =~= before.push(item));
            if let Some((rest, e)) = list_from(d, r.pos(), n as int, i + 1, f) {
                assert(before + (seq![item] + rest) =~= before.push(item) + rest);
            }
        }
        i = i + 1;
    }
    assert(meshes_view(out@) + Seq::<(Seq<u8>, Seq<u8>, bool)>::empty() =~= meshes_view(out@));
    Some((out, r.position()))
}

fn read_mto_sound<'a>(s: &Reader<'a>, r: &mut Reader<'a>) -> (res: Option<(&'a str, SoundInfo<'a>)>)
    requires
        old(r).data() == s.data(),
    ensures
        final(r).data() == old(r).data(),
        match mto_sound_at(old(r).data(), old(r).pos()) {
            Some((item, q)) => res matches Some((n, x)) && (n.spec_bytes(), x.wav@, x.flags) == item
                && final(r).pos() == q,
            None => res is None,
        },
{
    let name = read_fixed_text(r, 12)?;
    let flags = read_value::<u32>(r)?;
    let off = read_value::<u32>(r)?;
    let len = read_value::<u32>(r)?;
    if len as usize > s.len() || off as usize > s.len() - len as usize {
        return None;
    }
    let mut b = s.resized(off as usize..off as usize + len as usize);
    match Wav::try_parse_outcome(&mut b) {
        Outcome::Value(w) => Some((name, SoundInfo { wav: w, flags })),
        _ => None,
    }
}

fn read_sounds<'a>(s: &Reader<'a>, q: usize, n: u32) -> (res: Option<Vec<(&'a str, SoundInfo<'a>)>>)
    ensures
        match list_from(s.data(), q as int, n as int, 0, |s: Seq<u8>, q: int| mto_sound_at(s, q)) {
            Some((v, e)) => res matches Some(x) && sounds_view(x@) == v,
            None => res is None,
        },
{
    let ghost d = s.data();
    let ghost f = |s: Seq<u8>, q: int| mto_sound_at(s, q);
    let ghost goal = list_from(d, q as int, n as int, 0, f);
    let mut r = s.clone_at(q);
    let mut out: Vec<(&'a str, SoundInfo<'a>)> = Vec::new();
    assert(sounds_view(out@) =~= Seq::<(Seq<u8>, WavView, u32)>::empty());
    let mut i: u32 = 0;
    while i < n
        invariant
            i <= n,
            r.data() == d,
            s.data() == d,
            f == (|s: Seq<u8>, q: int| mto_sound_at(s, q)),
            goal == list_from(d, q as int, n as int, 0, f),
            goal == match list_from(d, r.pos(), n as int, i as int, f) {
                Some((rest, e)) => Some((sounds_view(out@) + rest, e)),
                None => None,
            },
        decreases n - i,
    {
        let (name, snd) = match read_mto_sound(s, &mut r) {
            Some(x) => x,
            None => return None,
        };
        let ghost before = sounds_view(out@);
        let ghost item = (name.spec_bytes(), snd.wav@, snd.flags);
        out.push((name, snd));
        proof {
            assert(sounds_view(out@) =~= before.push(item));
            if let Some((rest, e)) = list_from(d, r.pos(), n as int, i + 1, f) {
                assert(before + (seq![item] + rest) =~= before.push(item) + rest);
            }
        }
        i = i + 1;
    }
    assert(sounds_view(out@) + Seq::<(Seq<u8>, WavView, u32)>::empty() =~= sounds_view(out@));
    Some(out)
}

fn read_mto_arena<'a>(a: Reader<'a>, name: &'a str) -> (res: Option<MtoArena<'a>>)
    requires
        a.pos() == 0,
    ensures
        match mto_arena(name.spec_bytes(), a.data()) {
            Some(v) => res matches Some(x) && x.is(v),
            None => res is None,
        },
{
    let mut r = a;
    let afs = read_value::<u32>(&mut r)?;
    if afs as usize > r.len() - r.position() {
        return None;
    }
    r.rebase_length(afs as usize);
    let b = r;
    let ao = read_value::<u32>(&mut r)?;
    let po = read_value::<u32>(&mut r)?;
    let bo = read_value::<u32>(&mut r)?;
    let al = read_value::<u32>(&mut b.clone_at(ao as usize))?;
    if ao as u64 + 4 + al as u64 > b.len() as u64 || po > bo || bo - po != 336 || bo as usize > b.len() {
        return None;
    }
    let s = b.resized(ao as usize + 4..ao as usize + 4 + al as usize);
    let mut h = s.clone_at(0);
    let na = read_value::<u32>(&mut h)?;
    let nm = read_value::<u32>(&mut h)?;
    let ns = read_value::<u32>(&mut h)?;
    let (animations, q1) = read_anims(&s, 12, na)?;
    let (meshes, q2) = read_meshes(&s, q1, nm)?;
    let sounds = read_sounds(&s, q2, ns)?;
    let mti = Mti::try_parse(b.resized(12..b.len()))?;
    let palette = b.resized(po as usize..bo as usize).buf();
    Some(
        MtoArena {
            name,
            animations,
            meshes,
            sounds,
            block: b.buf(),
            bsp_offset: bo as usize,
            palette,
            mti,
        },
    )
}

impl<'a> Mto<'a> {
    pub open spec fn is(&self, v: MtoV) -> bool {
        &&& self.filename.spec_bytes() == v.filename
        &&& self.arenas@.len() == v.arenas.len()
        &&& forall|i: int| 0 <= i < v.arenas.len() ==> (#[trigger] self.arenas@[i]).is(v.arenas[i])
    }

    /// Parses an MTO file at the reader's position; `None` where it is not
    /// laid out as described.
    #[verifier::rlimit(40)]
    pub fn try_parse(reader: Reader<'a>) -> (res: Option<Mto<'a>>)
        ensures
            match spec_mto(reader.data(), reader.pos()) {
                Some(v) => res matches Some(m) && m.is(v),
                None => res is None,
            },
    {
        let ghost d = reader.data();
        let ghost p = reader.pos();
        let mut r = reader;
        let fs = read_value::<u32>(&mut r)?;
        if fs > 0xFFFF_FFFBu32 || (r.len() as u64) % 0x1_0000_0000 != fs as u64 + 4 || r.len() < 12 {
            return None;
        }
        let filename = read_fixed_text(&mut r, 12)?;
        let fs2 = read_value::<u32>(&mut r)?;
        let n = read_value::<u32>(&mut r)?;
        if fs2 > 0xFFFF_FFF3u32 || fs + 4 != fs2 + 12 {
            return None;
        }
        let ghost f = |d: Seq<u8>, q: int| mto_arena_at(d, q);
        let ghost goal = list_from(d, p + 24, n as int, 0, f);
        let ghost mut done: Seq<MtoArenaV> = Seq::empty();
        let mut arenas: Vec<MtoArena<'a>> = Vec::new();
        let mut i: u32 = 0;
        while i < n
            invariant
                i <= n,
                r.data() == d,
                reader.data() == d,
                f == (|d: Seq<u8>, q: int| mto_arena_at(d, q)),
                goal is None ==> spec_mto(reader.data(), reader.pos()) is None,
                goal == match list_from(d, r.pos(), n as int, i as int, f) {
                    Some((rest, e)) => Some((done + rest, e)),
                    None => None,
                },
                arenas@.len() == done.len(),
                forall|k: int| 0 <= k < done.len() ==> (#[trigger] arenas@[k]).is(done[k]),
            decreases n - i,
        {
            let name = match read_fixed_text(&mut r, 8) {
                Some(x) => x,
                None => return None,
            };
            let off = match read_value::<u32>(&mut r) {
                Some(x) => x,
                None => return None,
            };
            if off as usize > reader.len() {
                return None;
            }
            let arena = match read_mto_arena(reader.resized(off as usize..reader.len()), name) {
                Some(x) => x,
                None => return None,
            };
            let ghost v = mto_arena(name.spec_bytes(), d.subrange(off as int, d.len() as int)).unwrap();
            arenas.push(arena);
            proof {
                if let Some((rest, e)) = list_from(d, r.pos(), n as int, i + 1, f) {
                    assert(done + (seq![v] + rest) =~= done.push(v) + rest);
                }
                done = done.push(v);
            }
            i = i + 1;
        }
        assert(done + Seq::<MtoArenaV>::empty() =~= done);
        let mut footer_reader = reader.clone_at(reader.len() - 12);
        let footer = read_fixed_text(&mut footer_reader, 12)?;
        if !crate::text::bytes_eq(footer.as_bytes(), filename.as_bytes()) {
            return None;
        }
        Some(Mto { filename, arenas })
    }

    /// Parses an MTO file that is laid out as described.
    pub fn parse(reader: Reader<'a>) -> (m: Mto<'a>)
        requires
            spec_mto(reader.data(), reader.pos()) is Some,
        ensures
            m.is(spec_mto(reader.data(), reader.pos()).unwrap()),
    {
        Self::try_parse(reader).unwrap()
    }
}

} // verus!
