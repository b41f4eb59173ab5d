//! Level-wide work on decoded files: the palettes of arenas, which arenas
//! can share a texture's palette, the FLARE and ZOOM animations, and looking
//! up stream textures by name.

use vstd::prelude::*;
use vstd::string::*;

use crate::data_formats::pen::Pen;
use crate::data_formats::texture::{Texture, TextureResult, TextureView, textures_view};
use crate::file_formats::cmi::{Cmi, CmiArena};
use crate::file_formats::dti::Dti;
use crate::file_formats::mti::{Material, MaterialV};
use crate::file_formats::mto::{Mto, MtoArena};
use crate::file_formats::sni::Sni;
use crate::registry::{Registry, bsp_names, pairs_view, register_level, registration};
use crate::sorting::{
    SortKey, bytes_less, bytes_lt, covers, drawn_from, has_same, lemma_bytes_lt_asymmetric, lemma_bytes_lt_irreflexive,
    lemma_bytes_lt_total, lemma_bytes_lt_transitive, lemma_sorted_of, same_key, sort_dedup, sorted_of, sorted_set,
    strict_total, strictly_sorted,
};

verus! {

// ---------------------------------------------------------------------------
// Arena palettes

/// The palette of an arena: the level's palette, with the system colours in
/// its first 64 entries and the arena's own colours in the free entries after them.
pub fn arena_palette(level_pal: &[u8], sys_pal: &[u8], arena_pal: &[u8], num_free: u32) -> (p: Vec<u8>)
    requires
        sys_pal@.len() == 192,
        192 + 3 * num_free <= level_pal@.len(),
        arena_pal@.len() >= 3 * num_free,
    ensures
        p@ == sys_pal@ + arena_pal@.subrange(0, 3 * num_free as int) + level_pal@.subrange(
            192 + 3 * num_free as int,
            level_pal@.len() as int,
        ),
{
    let l = level_pal.len();
    assert(3 * num_free <= l);
    let n = 3 * num_free as usize;
    let mut p: Vec<u8> = Vec::new();
    crate::buffer::extend_bytes(&mut p, sys_pal);
    crate::buffer::extend_bytes(&mut p, vstd::slice::slice_subrange(arena_pal, 0, n));
    crate::buffer::extend_bytes(&mut p, vstd::slice::slice_subrange(level_pal, 192 + n, l));
    p
}

/// Whether the palettes of the arenas can be built: a system palette of 64
/// colours, and room in the level's palette and in each arena's palette for
/// the free colours.
pub open spec fn palettes_ok(sys_pal: Seq<u8>, level_pal: Seq<u8>, num_free: u32, arenas: Seq<MtoArena>) -> bool {
    &&& sys_pal.len() == 192
    &&& 192 + 3 * num_free <= level_pal.len()
    &&& forall|i: int| 0 <= i < arenas.len() ==> 3 * num_free <= (#[trigger] arenas[i]).palette@.len()
}

/// The palette of an arena, as [`arena_palette`] builds it.
pub open spec fn arena_palette_spec(level_pal: Seq<u8>, sys_pal: Seq<u8>, arena_pal: Seq<u8>, num_free: u32) -> Seq<u8> {
    sys_pal + arena_pal.subrange(0, 3 * num_free as int) + level_pal.subrange(192 + 3 * num_free as int, level_pal.len() as int)
}

/// An arena's palette is as long as the level's; byte `i` comes from the
/// system palette for the first 64 colours, from the arena's palette (from
/// its start) for the next `num_free` colours, and from the level's palette
/// at the same place after that.
pub proof fn lemma_arena_palette_bytes(level_pal: Seq<u8>, sys_pal: Seq<u8>, arena_pal: Seq<u8>, num_free: u32)
    requires
        sys_pal.len() == 192,
        192 + 3 * num_free <= level_pal.len(),
        arena_pal.len() >= 3 * num_free,
    ensures
        arena_palette_spec(level_pal, sys_pal, arena_pal, num_free).len() == level_pal.len(),
        forall|i: int|
            0 <= i < level_pal.len() ==> #[trigger] arena_palette_spec(level_pal, sys_pal, arena_pal, num_free)[i] == (
            if i < 192 {
                sys_pal[i]
            } else if i < 192 + 3 * num_free {
                arena_pal[i - 192]
            } else {
                level_pal[i]
            }),
{
}

/// The names of the arenas of a level's scripts.
pub open spec fn cmi_arena_names(arenas: Seq<CmiArena>) -> Seq<Seq<u8>> {
    arenas.map_values(|a: CmiArena| a.name.spec_bytes())
}

/// Whether each arena has an arena of the same name in the level's scripts.
pub open spec fn arenas_scripted(mto: Seq<MtoArena>, cmi_names: Seq<Seq<u8>>) -> bool {
    forall|i: int| 0 <= i < mto.len() ==> cmi_names.contains((#[trigger] mto[i]).name.spec_bytes())
}

/// Whether some arena of the scripts is named `name`.
fn has_cmi_arena(arenas: &Vec<CmiArena>, name: &str) -> (b: bool)
    ensures
        b == cmi_arena_names(arenas@).contains(name.spec_bytes()),
{
    let ghost names = cmi_arena_names(arenas@);
    let mut k: usize = 0;
    while k < arenas.len()
        invariant
            0 <= k <= arenas@.len(),
            names == cmi_arena_names(arenas@),
            forall|q: int| 0 <= q < k ==> names[q] != name.spec_bytes(),
        decreases arenas@.len() - k,
    {
        if crate::text::bytes_eq(arenas[k].name.as_bytes(), name.as_bytes()) {
            assert(names[k as int] == name.spec_bytes());
            return true;
        }
        k = k + 1;
    }
    false
}

/// What is worked out for a level of the game before anything is written.
pub struct LevelPlan<'a> {
    /// Each arena of the level's arena file with its palette, in file order.
    pub palettes: Vec<(&'a str, Vec<u8>)>,
    /// Which arenas each entity belongs to, and the corridors with palettes.
    pub registry: Registry<'a>,
}

/// Works out the palettes of a level's arenas (each arena's palette is the
/// level's palette with the system colours first and the arena's own colours
/// in the free entries) and which arenas each entity belongs to (see
/// [`register_level`]). `None` where an arena has no arena of its name in
/// the scripts, the palettes are too short, or the registration fails.
pub fn plan_traverse_level<'a>(
    sys_pal: &[u8],
    cmi: &Cmi<'a>,
    dti: &Dti<'a>,
    mto: &Mto<'a>,
    sni_o: &Sni<'a>,
    sni_s: &Sni<'a>,
) -> (p: Option<LevelPlan<'a>>)
    ensures
        match p {
            Some(plan) => {
                &&& registration(cmi, mto, bsp_names(sni_o.bsps@), sni_s.bsps@.len()) matches Some(c)
                &&& plan.registry.reg() == c.reg
                &&& pairs_view(plan.registry.corridor_palettes@) == c.palettes
                &&& palettes_ok(sys_pal@, dti.pal@, dti.num_pal_free_pixels, mto.arenas@)
                &&& arenas_scripted(mto.arenas@, cmi_arena_names(cmi.arenas@))
                &&& plan.palettes@.len() == mto.arenas@.len()
                &&& forall|i: int|
                    0 <= i < mto.arenas@.len() ==> (#[trigger] plan.palettes@[i]).0 == mto.arenas@[i].name
                        && plan.palettes@[i].1@ == arena_palette_spec(
                        dti.pal@,
                        sys_pal@,
                        mto.arenas@[i].palette@,
                        dti.num_pal_free_pixels,
                    )
            },
            None => !palettes_ok(sys_pal@, dti.pal@, dti.num_pal_free_pixels, mto.arenas@) || !arenas_scripted(
                mto.arenas@,
                cmi_arena_names(cmi.arenas@),
            ) || registration(cmi, mto, bsp_names(sni_o.bsps@), sni_s.bsps@.len()) is None,
        },
{
    let n = dti.num_pal_free_pixels;
    if sys_pal.len() != 192 || dti.pal.len() < 192 || (dti.pal.len() - 192) / 3 < n as usize {
        return None;
    }
    let mut out: Vec<(&'a str, Vec<u8>)> = Vec::new();
    let mut i: usize = 0;
    while i < mto.arenas.len()
        invariant
            0 <= i <= mto.arenas@.len(),
            mto.arenas@.len() == mto.arenas@.len(),
            sys_pal@.len() == 192,
            192 + 3 * n <= dti.pal@.len(),
            n == dti.num_pal_free_pixels,
            forall|k: int| 0 <= k < i ==> 3 * n <= (#[trigger] mto.arenas@[k]).palette@.len(),
            forall|k: int|
                0 <= k < i ==> cmi_arena_names(cmi.arenas@).contains((#[trigger] mto.arenas@[k]).name.spec_bytes()),
            out@.len() == i,
            forall|k: int|
                0 <= k < i ==> (#[trigger] out@[k]).0 == mto.arenas@[k].name && out@[k].1@ == arena_palette_spec(
                    dti.pal@,
                    sys_pal@,
                    mto.arenas@[k].palette@,
                    n,
                ),
        decreases mto.arenas@.len() - i,
    {
        let arena = &mto.arenas[i];
        if !has_cmi_arena(&cmi.arenas, arena.name) {
            return None;
        }
        if arena.palette.len() / 3 < n as usize {
            return None;
        }
        let p = arena_palette(dti.pal, sys_pal, arena.palette, n);
        out.push((arena.name, p));
        i = i + 1;
    }
    let registry = match register_level(cmi, mto, sni_o, sni_s) {
        Some(r) => r,
        None => return None,
    };
    Some(LevelPlan { palettes: out, registry })
}

// ---------------------------------------------------------------------------
// Stream textures

/// What looking up a stream texture gives, with the path as characters.
pub enum LookupV {
    NoTexture,
    Pen(Pen),
    SaveRef { width: u16, height: u16, path: Seq<char>, masked: bool },
}

/// Whether `r` is the lookup result `v`.
pub open spec fn lookup_is(r: TextureResult, v: LookupV) -> bool {
    match (r, v) {
        (TextureResult::NoTexture, LookupV::NoTexture) => true,
        (TextureResult::Pen(a), LookupV::Pen(b)) => a == b,
        (
            TextureResult::SaveRef { width, height, path, masked },
            LookupV::SaveRef { width: w, height: h, path: pv, masked: m },
        ) => width == w && height == h && path@ == pv && masked == m,
        _ => false,
    }
}

/// The first `n` bytes of a name, or all of it when it is shorter.
pub open spec fn cut_name(name: Seq<u8>, n: int) -> Seq<u8> {
    if name.len() <= n {
        name
    } else {
        name.take(n)
    }
}

/// The place of the first entry whose name is `key`.
pub open spec fn first_with<A>(s: Seq<(&str, A)>, key: Seq<u8>) -> Option<int>
    decreases s.len(),
{
    if s.len() == 0 {
        None
    } else if s[0].0.spec_bytes() == key {
        Some(0)
    } else {
        match first_with(s.drop_first(), key) {
            Some(i) => Some(i + 1),
            None => None,
        }
    }
}

/// Whether a texture has a pixel of colour 0 (it is drawn with holes).
pub open spec fn has_hole(t: TextureView) -> bool {
    t.pixels.contains(0u8)
}

/// The path a saved texture is referred to by.
pub open spec fn texture_path(name: Seq<char>) -> Seq<char> {
    "Textures/"@ + name + ".png"@
}

/// A lookup is possible: an animated material found first has frames, all
/// of one size.
pub open spec fn lookup_ok(key: Seq<u8>, materials: Seq<(&str, Material)>) -> bool {
    match first_with(materials, key) {
        Some(i) => match materials[i].1@ {
            MaterialV::AnimatedTexture(fs, _) => fs.len() > 0 && forall|k: int|
                0 <= k < fs.len() ==> (#[trigger] fs[k]).width == fs[0].width && fs[k].height == fs[0].height,
            _ => true,
        },
        None => true,
    }
}

/// Looks up a stream texture: the first material named by the key, else the
/// first archive texture named by it, else nothing.
pub open spec fn stream_lookup_spec(key: Seq<u8>, materials: Seq<(&str, Material)>, textures: Seq<(&str, Texture)>) -> LookupV {
    match first_with(materials, key) {
        Some(i) => match materials[i].1@ {
            MaterialV::Pen(p) => LookupV::Pen(p),
            MaterialV::Texture(t, _) => LookupV::SaveRef {
                width: t.width,
                height: t.height,
                path: texture_path(materials[i].0@),
                masked: has_hole(t),
            },
            MaterialV::AnimatedTexture(fs, _) => LookupV::SaveRef {
                width: fs[0].width,
                height: fs[0].height,
                path: texture_path(materials[i].0@),
                masked: exists|k: int| 0 <= k < fs.len() && has_hole(#[trigger] fs[k]),
            },
        },
        None => match first_with(textures, key) {
            Some(j) => LookupV::SaveRef {
                width: textures[j].1.width,
                height: textures[j].1.height,
                path: texture_path(textures[j].0@),
                masked: has_hole(textures[j].1@),
            },
            None => LookupV::NoTexture,
        },
    }
}

proof fn lemma_first_with<A>(s: Seq<(&str, A)>, key: Seq<u8>)
    ensures
        first_with(s, key) matches Some(i) ==> 0 <= i < s.len() && s[i].0.spec_bytes() == key,
    decreases s.len(),
{
    if s.len() > 0 && s[0].0.spec_bytes() != key {
        lemma_first_with(s.drop_first(), key);
    }
}

fn find_first<A>(s: &[(&str, A)], key: &str) -> (r: Option<usize>)
    ensures
        match r {
            Some(i) => first_with(s@, key.spec_bytes()) == Some(i as int) && i < s@.len(),
            None => first_with(s@, key.spec_bytes()) is None,
        },
{
    let ghost v = s@;
    proof {
        lemma_first_with(v, key.spec_bytes());
    }
    let mut i: usize = 0;
    assert(v.skip(0) =~= v);
    while i < s.len()
        invariant
            0 <= i <= v.len(),
            v == s@,
            first_with(v, key.spec_bytes()) == match first_with(v.skip(i as int), key.spec_bytes()) {
                Some(j) => Some(j + i),
                None => None,
            },
        decreases v.len() - i,
    {
        assert(v.skip(i as int)[0] == v[i as int]);
        assert(v.skip(i as int).drop_first() =~= v.skip(i + 1));
        if crate::text::bytes_eq(s[i].0.as_bytes(), key.as_bytes()) {
            return Some(i);
        }
        i = i + 1;
    }
    assert(v.skip(i as int).len() == 0);
    None
}

/// Whether some pixel is 0.
fn any_hole(pixels: &[u8]) -> (b: bool)
    ensures
        b == pixels@.contains(0u8),
{
    let mut i: usize = 0;
    while i < pixels.len()
        invariant
            0 <= i <= pixels@.len(),
            forall|k: int| 0 <= k < i ==> pixels@[k] != 0,
        decreases pixels@.len() - i,
    {
        if pixels[i] == 0 {
            assert(pixels@[i as int] == 0);
            return true;
        }
        i = i + 1;
    }
    false
}

fn texture_path_of(name: &str) -> (s: String)
    ensures
        s@ == texture_path(name@),
{
    let mut s = String::from_str("Textures/");
    s.append(name);
    s.append(".png");
    s
}

/// Looks up a stream texture by its name cut to 8 bytes.
pub fn stream_lookup(name: &str, materials: &[(&str, Material)], textures: &[(&str, Texture)]) -> (r: TextureResult)
    requires
        name.spec_bytes().len() > 8 ==> vstd::utf8::is_char_boundary(name.spec_bytes(), 8),
        lookup_ok(cut_name(name.spec_bytes(), 8), materials@),
    ensures
        lookup_is(r, stream_lookup_spec(cut_name(name.spec_bytes(), 8), materials@, textures@)),
{
    let key = if name.as_bytes().len() > 8 {
        let (k, _) = name.split_at(8);
        assert(k.spec_bytes() =~= name.spec_bytes().take(8));
        assert(k.spec_bytes() == cut_name(name.spec_bytes(), 8));
        k
    } else {
        assert(name.spec_bytes() == cut_name(name.spec_bytes(), 8));
        name
    };
    assert(key.spec_bytes() == cut_name(name.spec_bytes(), 8));
    if let Some(i) = find_first(materials, key) {
        let mat_name = materials[i].0;
        match &materials[i].1 {
            Material::Pen(p) => TextureResult::Pen(*p),
            Material::Texture(t, _) => TextureResult::SaveRef {
                width: t.width,
                height: t.height,
                path: texture_path_of(mat_name),
                masked: any_hole(t.pixels.as_slice()),
            },
            Material::AnimatedTexture(frames, _) => {
                let ghost fs = textures_view(frames@);
                proof {
                    assert(first_with(materials@, key.spec_bytes()) == Some(i as int));
                    assert(materials@[i as int].1@ is AnimatedTexture);
                    assert(materials@[i as int].1@->AnimatedTexture_0 == fs);
                    assert(fs.len() > 0);
                }
                let mut masked = false;
                let mut k: usize = 0;
                while k < frames.len()
                    invariant
                        0 <= k <= frames@.len(),
                        fs == textures_view(frames@),
                        masked == exists|j: int| 0 <= j < k && has_hole(#[trigger] fs[j]),
                    decreases frames@.len() - k,
                {
                    let h = any_hole(frames[k].pixels.as_slice());
                    proof {
                        assert(fs[k as int] == frames@[k as int]@);
                        if h {
                            assert(has_hole(fs[k as int]));
                        }
                    }
                    masked = masked || h;
                    k = k + 1;
                }
                assert(fs[0] == frames@[0]@);
                TextureResult::SaveRef {
                    width: frames[0].width,
                    height: frames[0].height,
                    path: texture_path_of(mat_name),
                    masked,
                }
            },
        }
    } else if let Some(j) = find_first(textures, key) {
        let t = &textures[j].1;
        TextureResult::SaveRef {
            width: t.width,
            height: t.height,
            path: texture_path_of(textures[j].0),
            masked: any_hole(t.pixels.as_slice()),
        }
    } else {
        TextureResult::NoTexture
    }
}

// ---------------------------------------------------------------------------
// Arenas that can share a texture's palette

/// Whether a colour is used by some pixel of the frames.
pub open spec fn uses_colour(frames: Seq<TextureView>, c: int) -> bool {
    exists|k: int, j: int| 0 <= k < frames.len() && 0 <= j < frames[k].pixels.len() && #[trigger] frames[k].pixels[j] == c
}

/// The colours used by the frames, as 256 flags.
pub fn used_colours(frames: &[Texture]) -> (u: Vec<bool>)
    ensures
        u@.len() == 256,
        forall|c: int| 0 <= c < 256 ==> u@[c] == uses_colour(textures_view(frames@), c),
{
    let ghost fs = textures_view(frames@);
    let mut u: Vec<bool> = Vec::new();
    let mut c: usize = 0;
    while c < 256
        invariant
            0 <= c <= 256,
            u@.len() == c,
            forall|k: int| 0 <= k < c ==> !(#[trigger] u@[k]),
        decreases 256 - c,
    {
        u.push(false);
        c = c + 1;
    }
    let mut k: usize = 0;
    while k < frames.len()
        invariant
            0 <= k <= frames@.len(),
            u@.len() == 256,
            fs == textures_view(frames@),
            forall|c: int| 0 <= c < 256 ==> u@[c] == exists|a: int, j: int|
                0 <= a < k && 0 <= j < fs[a].pixels.len() && #[trigger] fs[a].pixels[j] == c,
        decreases frames@.len() - k,
    {
        let px = frames[k].pixels.as_slice();
        assert(px@ == fs[k as int].pixels);
        let mut j: usize = 0;
        while j < px.len()
            invariant
                0 <= j <= px@.len(),
                k < frames@.len(),
                u@.len() == 256,
                fs == textures_view(frames@),
                px@ == fs[k as int].pixels,
                forall|c: int| 0 <= c < 256 ==> u@[c] == ((exists|a: int, i: int|
                    0 <= a < k && 0 <= i < fs[a].pixels.len() && #[trigger] fs[a].pixels[i] == c) || exists|i: int|
                    0 <= i < j && #[trigger] px@[i] == c),
            decreases px@.len() - j,
        {
            let v = px[j];
            let ghost u0 = u@;
            u.set(v as usize, true);
            proof {
                assert forall|c: int| 0 <= c < 256 implies u@[c] == ((exists|a: int, i: int|
                    0 <= a < k && 0 <= i < fs[a].pixels.len() && #[trigger] fs[a].pixels[i] == c) || exists|i: int|
                    0 <= i < j + 1 && #[trigger] px@[i] == c) by {
                    if c == v {
                        assert(px@[j as int] == c);
                    } else {
                        if exists|i: int| 0 <= i < j + 1 && #[trigger] px@[i] == c {
                            let i = choose|i: int| 0 <= i < j + 1 && #[trigger] px@[i] == c;
                            assert(i != j);
                        }
                    }
                }
            }
            j = j + 1;
        }
        proof {
            assert forall|c: int| 0 <= c < 256 implies u@[c] == exists|a: int, i: int|
                0 <= a < k + 1 && 0 <= i < fs[a].pixels.len() && #[trigger] fs[a].pixels[i] == c by {
                if exists|a: int, i: int| 0 <= a < k + 1 && 0 <= i < fs[a].pixels.len() && #[trigger] fs[a].pixels[i] == c {
                    let (a, i) = choose|a: int, i: int|
                        0 <= a < k + 1 && 0 <= i < fs[a].pixels.len() && #[trigger] fs[a].pixels[i] == c;
                    if a == k {
                        assert(px@[i] == c);
                    }
                }
                if exists|i: int| 0 <= i < j && #[trigger] px@[i] == c {
                    let i = choose|i: int| 0 <= i < j && #[trigger] px@[i] == c;
                    assert(fs[k as int].pixels[i] == c);
                }
            }
        }
        k = k + 1;
    }
    u
}

/// Two palettes give the same colour to every used colour.
pub open spec fn agree(used: Seq<bool>, p1: Seq<u8>, p2: Seq<u8>) -> bool {
    forall|c: int|
        0 <= c < used.len() && #[trigger] used[c] ==> 3 * c + 3 <= p1.len() && 3 * c + 3 <= p2.len()
            && p1.subrange(3 * c, 3 * c + 3) == p2.subrange(3 * c, 3 * c + 3)
}

fn agree_exec(used: &[bool], p1: &[u8], p2: &[u8]) -> (b: bool)
    ensures
        b == agree(used@, p1@, p2@),
{
    let mut c: usize = 0;
    while c < used.len()
        invariant
            0 <= c <= used@.len(),
            forall|k: int|
                0 <= k < c && #[trigger] used@[k] ==> 3 * k + 3 <= p1@.len() && 3 * k + 3 <= p2@.len()
                    && p1@.subrange(3 * k, 3 * k + 3) == p2@.subrange(3 * k, 3 * k + 3),
        decreases used@.len() - c,
    {
        if used[c] {
            if c >= p1.len() / 3 || c >= p2.len() / 3 {
                proof {
                    assert(3 * c + 3 > p1@.len() || 3 * c + 3 > p2@.len()) by (nonlinear_arith)
                        requires
                            c >= p1@.len() / 3 || c >= p2@.len() / 3,
                    ;
                }
                return false;
            }
            assert(3 * c + 3 <= p1@.len() && 3 * c + 3 <= p2@.len()) by (nonlinear_arith)
                requires
                    c < p1@.len() / 3,
                    c < p2@.len() / 3,
            ;
            let o = 3 * c;
            if p1[o] != p2[o] || p1[o + 1] != p2[o + 1] || p1[o + 2] != p2[o + 2] {
                proof {
                    let (s1, s2) = (p1@.subrange(o as int, o + 3), p2@.subrange(o as int, o + 3));
                    assert(s1[0] == p1@[o as int] && s1[1] == p1@[o + 1] && s1[2] == p1@[o + 2]);
                    assert(s2[0] == p2@[o as int] && s2[1] == p2@[o + 1] && s2[2] == p2@[o + 2]);
                    assert(s1 != s2);
                }
                return false;
            }
            assert(p1@.subrange(o as int, o + 3) =~= p2@.subrange(o as int, o + 3));
        }
        c = c + 1;
    }
    true
}

/// Whether a name starts with `C`.
pub open spec fn starts_c(name: Seq<u8>) -> bool {
    name.len() > 0 && name[0] == 0x43
}

/// The sort key of arena `i`: whether its name starts with `C`, its name, and `i`.
pub open spec fn arena_lt(pals: Seq<(&str, &[u8])>, i: usize, j: usize) -> bool {
    let (a, b) = (pals[i as int].0.spec_bytes(), pals[j as int].0.spec_bytes());
    let (ca, cb) = (starts_c(a), starts_c(b));
    if ca != cb {
        !ca && cb
    } else if a != b {
        bytes_lt(a, b)
    } else {
        i < j
    }
}

pub open spec fn arena_order(pals: Seq<(&str, &[u8])>) -> spec_fn(usize, usize) -> bool {
    |i: usize, j: usize| arena_lt(pals, i, j)
}

pub proof fn lemma_arena_order_total(pals: Seq<(&str, &[u8])>)
    ensures
        strict_total(arena_order(pals)),
{
    let lt = arena_order(pals);
    assert forall|x: usize| !(#[trigger] lt(x, x)) by {
        lemma_bytes_lt_irreflexive(pals[x as int].0.spec_bytes());
    }
    assert forall|x: usize, y: usize, z: usize| #[trigger] lt(x, y) && #[trigger] lt(y, z) implies lt(x, z) by {
        let (a, b, c) = (pals[x as int].0.spec_bytes(), pals[y as int].0.spec_bytes(), pals[z as int].0.spec_bytes());
        if starts_c(a) == starts_c(b) && starts_c(b) == starts_c(c) {
            if a != b && b != c {
                lemma_bytes_lt_transitive(a, b, c);
                if a == c {
                    lemma_bytes_lt_asymmetric(a, b);
                }
            }
        }
    }
    assert forall|x: usize, y: usize| x != y implies #[trigger] lt(x, y) || lt(y, x) by {
        let (a, b) = (pals[x as int].0.spec_bytes(), pals[y as int].0.spec_bytes());
        if a != b && !bytes_lt(a, b) && !bytes_lt(b, a) {
            lemma_bytes_lt_total(a, b);
        }
    }
}

/// An arena in the sort.
pub struct ArenaKey<'x> {
    pub name: &'x str,
    pub index: usize,
}

pub open spec fn keys_lt(a: ArenaKey, b: ArenaKey) -> bool {
    let (x, y) = (a.name.spec_bytes(), b.name.spec_bytes());
    let (cx, cy) = (starts_c(x), starts_c(y));
    if cx != cy {
        !cx && cy
    } else if x != y {
        bytes_lt(x, y)
    } else {
        a.index < b.index
    }
}

impl<'x> SortKey for ArenaKey<'x> {
    open spec fn key_lt(self, other: Self) -> bool {
        keys_lt(self, other)
    }

    proof fn lemma_irreflexive(a: Self) {
        lemma_bytes_lt_irreflexive(a.name.spec_bytes());
    }

    proof fn lemma_transitive(a: Self, b: Self, c: Self) {
        let (x, y, z) = (a.name.spec_bytes(), b.name.spec_bytes(), c.name.spec_bytes());
        if starts_c(x) == starts_c(y) && starts_c(y) == starts_c(z) {
            if x != y && y != z {
                lemma_bytes_lt_transitive(x, y, z);
                if x == z {
                    lemma_bytes_lt_asymmetric(x, y);
                }
            }
        }
    }

    proof fn lemma_asymmetric(a: Self, b: Self) {
        let (x, y) = (a.name.spec_bytes(), b.name.spec_bytes());
        if x != y && bytes_lt(x, y) {
            lemma_bytes_lt_asymmetric(x, y);
        }
    }

    fn less(&self, other: &Self) -> (r: bool) {
        let (x, y) = (self.name.as_bytes(), other.name.as_bytes());
        let cx = x.len() > 0 && x[0] == 0x43;
        let cy = y.len() > 0 && y[0] == 0x43;
        if cx != cy {
            !cx && cy
        } else if !crate::text::bytes_eq(x, y) {
            bytes_less(x, y)
        } else {
            self.index < other.index
        }
    }
}

/// The arenas of a list, without their mapping.
pub open spec fn firsts(v: Seq<(usize, usize)>) -> Seq<usize> {
    v.map_values(|x: (usize, usize)| x.0)
}

/// The first `j` in `j..i` whose arena maps to itself and whose palette
/// agrees with that of arena `i` on the used colours.
pub open spec fn first_match(
    ids: Seq<usize>,
    reps: Seq<usize>,
    pals: Seq<(&str, &[u8])>,
    used: Seq<bool>,
    i: int,
    j: int,
) -> Option<int>
    decreases i - j,
{
    if j >= i {
        None
    } else if reps[j] == ids[j] && agree(used, pals[ids[i] as int].1@, pals[ids[j] as int].1@) {
        Some(j)
    } else {
        first_match(ids, reps, pals, used, i, j + 1)
    }
}

/// Where the first `n` arenas map: to the earliest arena before them that
/// maps to itself and agrees on the used colours, else to themselves.
pub open spec fn reps_upto(ids: Seq<usize>, pals: Seq<(&str, &[u8])>, used: Seq<bool>, n: int) -> Seq<usize>
    decreases n,
{
    if n <= 0 {
        Seq::empty()
    } else {
        let r = reps_upto(ids, pals, used, n - 1);
        r.push(
            match first_match(ids, r, pals, used, n - 1, 0) {
                Some(j) => ids[j],
                None => ids[n - 1],
            },
        )
    }
}

/// How many of the first `n` arenas map to themselves.
pub open spec fn count_self(ids: Seq<usize>, reps: Seq<usize>, n: int) -> nat
    decreases n,
{
    if n <= 0 {
        0
    } else if reps[n - 1] == ids[n - 1] {
        count_self(ids, reps, n - 1) + 1
    } else {
        count_self(ids, reps, n - 1)
    }
}

/// The arenas sorted without repeats, each with where it maps.
pub open spec fn filtered(ids: Seq<usize>, pals: Seq<(&str, &[u8])>, used: Seq<bool>) -> Seq<(usize, usize)> {
    let reps = reps_upto(ids, pals, used, ids.len() as int);
    Seq::new(ids.len(), |k: int| (ids[k], reps[k]))
}

/// The arenas can be sorted: each names a palette, whose name is not empty.
pub open spec fn arenas_ok(arenas: Seq<(usize, usize)>, pals: Seq<(&str, &[u8])>) -> bool {
    forall|k: int|
        0 <= k < arenas.len() ==> (#[trigger] arenas[k]).0 < pals.len() && pals[arenas[k].0 as int].0.spec_bytes().len()
            > 0
}

proof fn lemma_sorted_arenas(keys: Seq<ArenaKey>, kv: Seq<ArenaKey>, pals: Seq<(&str, &[u8])>)
    requires
        strictly_sorted(keys),
        drawn_from(keys, kv),
        covers(keys, kv),
        forall|k: int| 0 <= k < kv.len() ==> (#[trigger] kv[k]).name == pals[kv[k].index as int].0,
    ensures
        sorted_set(
            keys.map_values(|a: ArenaKey| a.index),
            kv.map_values(|a: ArenaKey| a.index),
            arena_order(pals),
        ),
{
    let rb = keys.map_values(|a: ArenaKey| a.index);
    let vb = kv.map_values(|a: ArenaKey| a.index);
    assert forall|i: int| 0 <= i < keys.len() implies (#[trigger] keys[i]).name == pals[keys[i].index as int].0 by {
        assert(kv.contains(keys[i]));
    }
    assert forall|i: int, j: int| 0 <= i < j < rb.len() implies arena_order(pals)(#[trigger] rb[i], #[trigger] rb[j]) by {
        assert(keys[i].key_lt(keys[j]));
    }
    assert forall|x: usize| rb.contains(x) <==> vb.contains(x) by {
        if rb.contains(x) {
            let i = choose|i: int| 0 <= i < rb.len() && rb[i] == x;
            assert(kv.contains(keys[i]));
            let p = choose|p: int| 0 <= p < kv.len() && kv[p] == keys[i];
            assert(vb[p] == x);
        }
        if vb.contains(x) {
            let p = choose|p: int| 0 <= p < vb.len() && vb[p] == x;
            assert(has_same(keys, kv[p]));
            let q = choose|q: int| 0 <= q < keys.len() && same_key(#[trigger] keys[q], kv[p]);
            lemma_arena_order_total(pals);
            if keys[q].index != kv[p].index {
                assert(arena_order(pals)(keys[q].index, kv[p].index) || arena_order(pals)(kv[p].index, keys[q].index));
            }
            assert(rb[q] == x);
        }
    }
}

proof fn lemma_reps_len(ids: Seq<usize>, pals: Seq<(&str, &[u8])>, used: Seq<bool>, n: int)
    requires
        n >= 0,
    ensures
        reps_upto(ids, pals, used, n).len() == n,
    decreases n,
{
    if n > 0 {
        lemma_reps_len(ids, pals, used, n - 1);
    }
}

proof fn lemma_first_match(
    ids: Seq<usize>,
    reps: Seq<usize>,
    pals: Seq<(&str, &[u8])>,
    used: Seq<bool>,
    i: int,
    j: int,
)
    ensures
        first_match(ids, reps, pals, used, i, j) matches Some(m) ==> j <= m < i && reps[m] == ids[m] && agree(
            used,
            pals[ids[i] as int].1@,
            pals[ids[m] as int].1@,
        ),
    decreases i - j,
{
    if j < i && !(reps[j] == ids[j] && agree(used, pals[ids[i] as int].1@, pals[ids[j] as int].1@)) {
        lemma_first_match(ids, reps, pals, used, i, j + 1);
    }
}

proof fn lemma_reps_prefix(ids: Seq<usize>, pals: Seq<(&str, &[u8])>, used: Seq<bool>, n: int, k: int, j: int)
    requires
        0 <= j < k <= n,
    ensures
        reps_upto(ids, pals, used, n)[j] == reps_upto(ids, pals, used, k)[j],
    decreases n - k,
{
    if k < n {
        lemma_reps_prefix(ids, pals, used, n - 1, k, j);
        lemma_reps_len(ids, pals, used, n - 1);
    }
}

/// Arena `k` of the filtered list maps to an arena at or before it that maps
/// to itself and, where that is another arena, whose palette agrees with its
/// own on every used colour.
pub open spec fn maps_to_agreeing(ids: Seq<usize>, pals: Seq<(&str, &[u8])>, used: Seq<bool>, k: int) -> bool {
    let f = filtered(ids, pals, used);
    exists|j: int|
        0 <= j <= k && (#[trigger] f[j]).0 == f[k].1 && f[j].1 == f[j].0 && (j == k || agree(
            used,
            pals[ids[k] as int].1@,
            pals[ids[j] as int].1@,
        ))
}

/// Every arena of a filtered list maps to an arena at or before it that maps
/// to itself; where that is another arena, its palette agrees with the
/// arena's own on every used colour.
pub proof fn lemma_filtered_targets(ids: Seq<usize>, pals: Seq<(&str, &[u8])>, used: Seq<bool>)
    ensures
        forall|k: int| 0 <= k < ids.len() ==> #[trigger] maps_to_agreeing(ids, pals, used, k),
{
    let n = ids.len() as int;
    let f = filtered(ids, pals, used);
    let reps = reps_upto(ids, pals, used, n);
    lemma_reps_len(ids, pals, used, n);
    assert forall|k: int| 0 <= k < ids.len() implies #[trigger] maps_to_agreeing(ids, pals, used, k) by {
        let rk = reps_upto(ids, pals, used, k);
        lemma_reps_len(ids, pals, used, k);
        lemma_reps_prefix(ids, pals, used, n, k + 1, k);
        assert(reps_upto(ids, pals, used, k + 1) == rk.push(
            match first_match(ids, rk, pals, used, k, 0) {
                Some(m) => ids[m],
                None => ids[k],
            },
        ));
        lemma_first_match(ids, rk, pals, used, k, 0);
        match first_match(ids, rk, pals, used, k, 0) {
            Some(m) => {
                lemma_reps_prefix(ids, pals, used, n, k, m);
                assert(reps[k] == ids[m]);
                assert(reps[m] == ids[m]);
                assert(f[m] == (ids[m], reps[m]));
                assert(f[k] == (ids[k], reps[k]));
                assert(agree(used, pals[ids[k] as int].1@, pals[ids[m] as int].1@));
                assert(f[m].0 == f[k].1 && f[m].1 == f[m].0);
                assert(maps_to_agreeing(ids, pals, used, k));
            },
            None => {
                assert(reps[k] == ids[k]);
                assert(f[k] == (ids[k], reps[k]));
                assert(f[k].0 == f[k].1 && f[k].1 == f[k].0);
                assert(maps_to_agreeing(ids, pals, used, k));
            },
        }
    }
}

/// The arenas, sorted without repeats.
fn sorted_ids(palettes: &[(&str, &[u8])], arenas: &Vec<(usize, usize)>) -> (ids: Vec<usize>)
    requires
        arenas_ok(arenas@, palettes@),
    ensures
        ids@ == sorted_of(firsts(arenas@), arena_order(palettes@)),
        sorted_set(ids@, firsts(arenas@), arena_order(palettes@)),
        forall|q: int| 0 <= q < ids@.len() ==> (#[trigger] ids@[q]) < palettes@.len(),
{
    let ghost pv = palettes@;
    let ghost old_firsts = firsts(arenas@);
    let mut keys: Vec<ArenaKey> = Vec::new();
    let mut k: usize = 0;
    while k < arenas.len()
        invariant
            0 <= k <= arenas@.len(),
            pv == palettes@,
            arenas_ok(arenas@, pv),
            old_firsts == firsts(arenas@),
            keys@.len() == k,
            forall|q: int| 0 <= q < k ==> (#[trigger] keys@[q]).index == old_firsts[q],
            forall|q: int| 0 <= q < k ==> (#[trigger] keys@[q]).name == pv[keys@[q].index as int].0,
        decreases arenas@.len() - k,
    {
        let a = arenas[k].0;
        keys.push(ArenaKey { name: palettes[a].0, index: a });
        k = k + 1;
    }
    let ghost kv = keys@;
    let sorted = sort_dedup(keys);
    proof {
        lemma_sorted_arenas(sorted@, kv, pv);
        assert(kv.map_values(|a: ArenaKey| a.index) =~= old_firsts);
        lemma_arena_order_total(pv);
        lemma_sorted_of(sorted@.map_values(|a: ArenaKey| a.index), old_firsts, arena_order(pv));
    }
    let mut ids: Vec<usize> = Vec::new();
    let mut k: usize = 0;
    while k < sorted.len()
        invariant
            0 <= k <= sorted@.len(),
            ids@ == sorted@.map_values(|a: ArenaKey| a.index).take(k as int),
        decreases sorted@.len() - k,
    {
        ids.push(sorted[k].index);
        assert(ids@ =~= sorted@.map_values(|a: ArenaKey| a.index).take(k + 1));
        k = k + 1;
    }
    assert(ids@ =~= sorted@.map_values(|a: ArenaKey| a.index));
    assert forall|q: int| 0 <= q < ids@.len() implies (#[trigger] ids@[q]) < pv.len() by {
        assert(old_firsts.contains(ids@[q]));
        let p = choose|p: int| 0 <= p < old_firsts.len() && old_firsts[p] == ids@[q];
        assert(old_firsts[p] == arenas@[p].0);
    }
    ids
}

/// Where arena `i` maps, given where the arenas before it map.
fn find_target(used: &[bool], palettes: &[(&str, &[u8])], ids: &Vec<usize>, reps: &Vec<usize>, i: usize) -> (t: usize)
    requires
        i < ids@.len(),
        reps@.len() == i,
        forall|q: int| 0 <= q < ids@.len() ==> (#[trigger] ids@[q]) < palettes@.len(),
    ensures
        t == match first_match(ids@, reps@, palettes@, used@, i as int, 0) {
            Some(j) => ids@[j],
            None => ids@[i as int],
        },
{
    let mut j: usize = 0;
    while j < i
        invariant
            0 <= j <= i,
            i < ids@.len(),
            reps@.len() == i,
            forall|q: int| 0 <= q < ids@.len() ==> (#[trigger] ids@[q]) < palettes@.len(),
            first_match(ids@, reps@, palettes@, used@, i as int, 0) == first_match(
                ids@,
                reps@,
                palettes@,
                used@,
                i as int,
                j as int,
            ),
        decreases i - j,
    {
        if reps[j] == ids[j] && agree_exec(used, palettes[ids[i]].1, palettes[ids[j]].1) {
            return ids[j];
        }
        j = j + 1;
    }
    ids[i]
}

/// Where every arena maps, and how many map to themselves.
fn map_arenas(used: &[bool], palettes: &[(&str, &[u8])], ids: &Vec<usize>) -> (r: (Vec<usize>, usize))
    requires
        forall|q: int| 0 <= q < ids@.len() ==> (#[trigger] ids@[q]) < palettes@.len(),
    ensures
        r.0@ == reps_upto(ids@, palettes@, used@, ids@.len() as int),
        r.1 == count_self(ids@, r.0@, ids@.len() as int),
{
    let mut reps: Vec<usize> = Vec::new();
    let mut unique: usize = 0;
    let mut i: usize = 0;
    while i < ids.len()
        invariant
            0 <= i <= ids@.len(),
            forall|q: int| 0 <= q < ids@.len() ==> (#[trigger] ids@[q]) < palettes@.len(),
            reps@ == reps_upto(ids@, palettes@, used@, i as int),
            unique == count_self(ids@, reps@, i as int),
            unique <= i,
        decreases ids@.len() - i,
    {
        proof {
            lemma_reps_len(ids@, palettes@, used@, i as int);
        }
        let ghost r0 = reps@;
        let target = find_target(used, palettes, ids, &reps, i);
        reps.push(target);
        if target == ids[i] {
            unique = unique + 1;
        }
        proof {
            lemma_count_self_prefix(ids@, reps@, r0, i as int);
        }
        i = i + 1;
    }
    (reps, unique)
}

/// Sorts the arenas (those whose name does not start with `C` first, then by
/// name) without repeats, maps each to itself, then maps each arena to the
/// earliest arena before it that maps to itself and whose palette agrees on
/// the used colours. Gives how many arenas still map to themselves. A list of
/// one arena is left as it is.
pub fn filter_colours(used: &[bool], palettes: &[(&str, &[u8])], arenas: &mut Vec<(usize, usize)>) -> (unique: usize)
    requires
        old(arenas)@.len() != 1 ==> arenas_ok(old(arenas)@, palettes@),
    ensures
        old(arenas)@.len() == 1 ==> final(arenas)@ == old(arenas)@ && unique == 1,
        old(arenas)@.len() != 1 ==> {
            let ids = sorted_of(firsts(old(arenas)@), arena_order(palettes@));
            &&& sorted_set(ids, firsts(old(arenas)@), arena_order(palettes@))
            &&& final(arenas)@ == filtered(ids, palettes@, used@)
            &&& unique == count_self(ids, reps_upto(ids, palettes@, used@, ids.len() as int), ids.len() as int)
        },
{
    if arenas.len() == 1 {
        return 1;
    }
    let ids = sorted_ids(palettes, arenas);
    let (reps, unique) = map_arenas(used, palettes, &ids);
    proof {
        lemma_reps_len(ids@, palettes@, used@, ids@.len() as int);
    }
    let mut out: Vec<(usize, usize)> = Vec::new();
    let mut k: usize = 0;
    while k < ids.len()
        invariant
            0 <= k <= ids@.len(),
            reps@.len() == ids@.len(),
            out@ == Seq::new(k as nat, |q: int| (ids@[q], reps@[q])),
        decreases ids@.len() - k,
    {
        out.push((ids[k], reps[k]));
        assert(out@ =~= Seq::new((k + 1) as nat, |q: int| (ids@[q], reps@[q])));
        k = k + 1;
    }
    *arenas = out;
    unique
}

proof fn lemma_count_self_prefix(ids: Seq<usize>, a: Seq<usize>, b: Seq<usize>, n: int)
    requires
        n <= a.len(),
        n <= b.len(),
        forall|q: int| 0 <= q < n ==> a[q] == b[q],
    ensures
        count_self(ids, a, n) == count_self(ids, b, n),
    decreases n,
{
    if n > 0 {
        lemma_count_self_prefix(ids, a, b, n - 1);
    }
}

/// The used colours of the frames as 256 flags.
pub open spec fn used_flags(frames: Seq<TextureView>) -> Seq<bool> {
    Seq::new(256, |c: int| uses_colour(frames, c))
}

/// Works out which arenas can share a palette for the frames of a texture:
/// `filter_colours` over the colours the frames use.
pub fn filter_textures(frames: &[Texture], palettes: &[(&str, &[u8])], arenas: &mut Vec<(usize, usize)>) -> (unique: usize)
    requires
        old(arenas)@.len() != 1 ==> arenas_ok(old(arenas)@, palettes@),
    ensures
        old(arenas)@.len() == 1 ==> final(arenas)@ == old(arenas)@ && unique == 1,
        old(arenas)@.len() != 1 ==> {
            let ids = sorted_of(firsts(old(arenas)@), arena_order(palettes@));
            let used = used_flags(textures_view(frames@));
            &&& sorted_set(ids, firsts(old(arenas)@), arena_order(palettes@))
            &&& final(arenas)@ == filtered(ids, palettes@, used)
            &&& unique == count_self(ids, reps_upto(ids, palettes@, used, ids.len() as int), ids.len() as int)
        },
{
    if arenas.len() == 1 {
        return 1;
    }
    let used = used_colours(frames);
    assert(used@ =~= used_flags(textures_view(frames@)));
    filter_colours(used.as_slice(), palettes, arenas)
}

// ---------------------------------------------------------------------------
// The FLARE and ZOOM animations

/// The value of a run of decimal digits, none when it is empty or holds
/// anything else.
pub open spec fn digits_value(s: Seq<u8>) -> Option<nat>
    decreases s.len(),
{
    if s.len() == 0 {
        None
    } else if !(0x30 <= s.last() <= 0x39) {
        None
    } else if s.len() == 1 {
        Some((s.last() - 0x30) as nat)
    } else {
        match digits_value(s.drop_last()) {
            Some(v) => Some(v * 10 + (s.last() - 0x30) as nat),
            None => None,
        }
    }
}

/// A name suffix read as an unsigned number: an optional `+`, then decimal
/// digits, with a value that fits a `usize`.
pub open spec fn suffix_number(s: Seq<u8>) -> Option<nat> {
    let v = if s.len() > 0 && s[0] == 0x2b {
        digits_value(s.drop_first())
    } else {
        digits_value(s)
    };
    match v {
        Some(n) => if n <= usize::MAX {
            Some(n)
        } else {
            None
        },
        None => None,
    }
}

/// An empty slot of a frame list.
pub open spec fn empty_frame() -> TextureView {
    TextureView { width: 0, height: 0, pixels: Seq::empty(), position: (0, 0) }
}

/// `s` made `n` long: cut, or filled with empty slots.
pub open spec fn resized(s: Seq<TextureView>, n: int) -> Seq<TextureView> {
    if n <= s.len() {
        s.take(n)
    } else {
        s + Seq::new((n - s.len()) as nat, |k: int| empty_frame())
    }
}

/// Puts `t` in slot `idx` of `s`, after making `s` `idx + 1` long; the slot
/// must be at most one past the end.
pub open spec fn place(s: Seq<TextureView>, idx: int, t: TextureView) -> Option<Seq<TextureView>> {
    if idx <= s.len() {
        Some(resized(s, idx + 1).update(idx, t))
    } else {
        None
    }
}

/// `FLARE` in ASCII.
pub open spec fn flare_prefix() -> Seq<u8> {
    seq![0x46u8, 0x4c, 0x41, 0x52, 0x45]
}

/// `ZOOM` in ASCII.
pub open spec fn zoom_prefix() -> Seq<u8> {
    seq![0x5au8, 0x4f, 0x4f, 0x4d]
}

/// The state of sorting out the textures: those kept, the FLARE frames and the ZOOM frames.
pub struct FramesV<'a> {
    pub kept: Seq<(&'a str, TextureView)>,
    pub flare: Seq<TextureView>,
    pub zoom: Seq<TextureView>,
}

/// Takes texture `t` named `name`: `FLARE<n>` goes to FLARE slot `n - 1`,
/// `ZOOM<n>` to ZOOM slot `n`, anything else is kept.
pub open spec fn take_texture<'a>(st: FramesV<'a>, name: &'a str, t: TextureView) -> Option<FramesV<'a>> {
    let b = name.spec_bytes();
    if b.len() >= 5 && b.take(5) == flare_prefix() {
        match suffix_number(b.skip(5)) {
            Some(v) => if v == 0 {
                None
            } else {
                match place(st.flare, v - 1, t) {
                    Some(f) => Some(FramesV { flare: f, ..st }),
                    None => None,
                }
            },
            None => None,
        }
    } else if b.len() >= 4 && b.take(4) == zoom_prefix() {
        match suffix_number(b.skip(4)) {
            Some(v) => match place(st.zoom, v as int, t) {
                Some(z) => Some(FramesV { zoom: z, ..st }),
                None => None,
            },
            None => None,
        }
    } else {
        Some(FramesV { kept: st.kept.push((name, t)), ..st })
    }
}

/// Takes textures `i..` of `ts`.
pub open spec fn take_from<'a>(ts: Seq<(&'a str, TextureView)>, i: int, st: FramesV<'a>) -> Option<FramesV<'a>>
    decreases ts.len() - i,
{
    if i >= ts.len() {
        Some(st)
    } else {
        match take_texture(st, ts[i].0, ts[i].1) {
            Some(st2) => take_from(ts, i + 1, st2),
            None => None,
        }
    }
}

/// The largest width and height of the frames (and 0).
pub open spec fn max_width(fs: Seq<TextureView>) -> int
    decreases fs.len(),
{
    if fs.len() == 0 {
        0
    } else {
        let m = max_width(fs.drop_last());
        if fs.last().width > m {
            fs.last().width as int
        } else {
            m
        }
    }
}

pub open spec fn max_height(fs: Seq<TextureView>) -> int
    decreases fs.len(),
{
    if fs.len() == 0 {
        0
    } else {
        let m = max_height(fs.drop_last());
        if fs.last().height > m {
            fs.last().height as int
        } else {
            m
        }
    }
}

/// Half of the gap `g`, as a 16-bit value, taken negative (halves rounded
/// toward zero).
pub open spec fn centre_offset(g: int) -> i16 {
    let d = g as i16;
    if d >= 0 {
        (-(d / 2)) as i16
    } else {
        ((-d) / 2) as i16
    }
}

/// The frames placed so that each is centred on the largest.
pub open spec fn centred(fs: Seq<TextureView>) -> Seq<TextureView> {
    let (w, h) = (max_width(fs), max_height(fs));
    fs.map_values(
        |f: TextureView|
            TextureView { position: (centre_offset(w - f.width), centre_offset(h - f.height)), ..f },
    )
}

/// Whether a texture name is that of a FLARE or ZOOM frame.
pub open spec fn frame_name(b: Seq<u8>) -> bool {
    (b.len() >= 5 && b.take(5) == flare_prefix()) || (b.len() >= 4 && b.take(4) == zoom_prefix())
}

proof fn lemma_take_from_kept<'a>(ts: Seq<(&'a str, TextureView)>, i: int, st: FramesV<'a>)
    requires
        forall|q: int| 0 <= q < st.kept.len() ==> !frame_name((#[trigger] st.kept[q]).0.spec_bytes()),
    ensures
        take_from(ts, i, st) matches Some(r) ==> forall|q: int|
            0 <= q < r.kept.len() ==> !frame_name((#[trigger] r.kept[q]).0.spec_bytes()),
    decreases ts.len() - i,
{
    if i < ts.len() {
        if let Some(st2) = take_texture(st, ts[i].0, ts[i].1) {
            assert forall|q: int| 0 <= q < st2.kept.len() implies !frame_name((#[trigger] st2.kept[q]).0.spec_bytes()) by {
                if q < st.kept.len() {
                    assert(st2.kept[q] == st.kept[q]);
                }
            }
            lemma_take_from_kept(ts, i + 1, st2);
        }
    }
}

/// No texture kept by combining has the name of a FLARE or ZOOM frame.
pub proof fn lemma_combine_keeps_other_names<'a>(ts: Seq<(&'a str, TextureView)>)
    ensures
        combine_spec(ts) matches Some(st) ==> forall|q: int|
            0 <= q < st.kept.len() ==> !frame_name((#[trigger] st.kept[q]).0.spec_bytes()),
{
    lemma_take_from_kept(ts, 0, no_frames());
}

/// The transparencies of the FLARE and ZOOM overlays, from clear to opaque.
pub open spec fn zoom_transparencies() -> Seq<u8> {
    seq![0x00u8, 0x03, 0x06, 0x0C, 0x12, 0x18, 0x30, 0x48, 0x60, 0x78, 0x90, 0xA8, 0xC0, 0xD7, 0xE6, 0xF5, 0xFF]
}

/// The palette of the FLARE and ZOOM overlays: 17 white entries (51 colour
/// bytes of 255), then the 17 transparencies.
pub open spec fn zoom_palette_spec() -> Seq<u8> {
    Seq::new(51, |i: int| 255u8) + zoom_transparencies()
}

/// The palette of the FLARE and ZOOM overlays, which are drawn as
/// transparent white over the scene.
pub fn zoom_palette() -> (p: Vec<u8>)
    ensures
        p@ == zoom_palette_spec(),
{
    let mut p: Vec<u8> = Vec::new();
    let mut i: usize = 0;
    while i < 51
        invariant
            0 <= i <= 51,
            p@ == Seq::new(i as nat, |k: int| 255u8),
        decreases 51 - i,
    {
        p.push(255);
        assert(p@ =~= Seq::new((i + 1) as nat, |k: int| 255u8));
        i = i + 1;
    }
    let t: [u8; 17] = [0x00, 0x03, 0x06, 0x0C, 0x12, 0x18, 0x30, 0x48, 0x60, 0x78, 0x90, 0xA8, 0xC0, 0xD7, 0xE6, 0xF5, 0xFF];
    assert(t@ =~= zoom_transparencies());
    let ghost head = p@;
    let mut k: usize = 0;
    while k < 17
        invariant
            0 <= k <= 17,
            t@ == zoom_transparencies(),
            head == Seq::new(51, |q: int| 255u8),
            p@ == head + t@.take(k as int),
        decreases 17 - k,
    {
        p.push(t[k]);
        assert(t@.take(k + 1) =~= t@.take(k as int).push(t@[k as int]));
        assert(p@ =~= head + t@.take(k + 1));
        k = k + 1;
    }
    assert(t@.take(17) =~= t@);
    p
}

/// Nothing sorted out yet.
pub open spec fn no_frames<'a>() -> FramesV<'a> {
    FramesV { kept: Seq::empty(), flare: Seq::empty(), zoom: Seq::empty() }
}

/// Sorts out the textures of an archive: the FLARE frames (centred) and the
/// ZOOM frames are taken out; every slot must be filled.
pub open spec fn combine_spec<'a>(ts: Seq<(&'a str, TextureView)>) -> Option<FramesV<'a>> {
    match take_from(ts, 0, no_frames()) {
        Some(st) => if (forall|k: int| 0 <= k < st.flare.len() ==> st.flare[k] != empty_frame()) && (forall|k: int|
            0 <= k < st.zoom.len() ==> st.zoom[k] != empty_frame()) {
            Some(FramesV { flare: centred(st.flare), ..st })
        } else {
            None
        },
        None => None,
    }
}

pub open spec fn named_view<'a>(v: Seq<(&'a str, Texture)>) -> Seq<(&'a str, TextureView)> {
    v.map_values(|x: (&'a str, Texture)| (x.0, x.1@))
}

fn parse_suffix(s: &[u8]) -> (r: Option<usize>)
    ensures
        match suffix_number(s@) {
            Some(v) => r == Some(v as usize),
            None => r is None,
        },
{
    let start: usize = if s.len() > 0 && s[0] == 0x2b {
        1
    } else {
        0
    };
    let ghost ds = s@.skip(start as int);
    assert(start == 1 ==> ds =~= s@.drop_first());
    assert(start == 0 ==> ds =~= s@);
    if start >= s.len() {
        assert(ds.len() == 0);
        return None;
    }
    let mut v: usize = 0;
    let mut i: usize = start;
    while i < s.len()
        invariant
            start <= i <= s@.len(),
            start < s@.len(),
            ds == s@.skip(start as int),
            i > start ==> digits_value(ds.take(i - start)) == Some(v as nat),
            i == start ==> v == 0,
            digits_value(ds) is None ==> suffix_number(s@) is None,
            digits_value(ds) matches Some(n) ==> (n <= usize::MAX ==> suffix_number(s@) == Some(n)) && (n
                > usize::MAX ==> suffix_number(s@) is None),
        decreases s@.len() - i,
    {
        let c = s[i];
        let ghost pre = ds.take(i - start);
        let ghost pre1 = ds.take(i + 1 - start);
        assert(pre1.drop_last() =~= pre);
        assert(pre1.last() == c);
        if c < 0x30 || c > 0x39 {
            proof {
                assert(digits_value(pre1) is None);
                lemma_digits_none_extend(ds, (i + 1 - start) as int);
            }
            return None;
        }
        let d = (c - 0x30) as usize;
        if v > (usize::MAX - d) / 10 {
            proof {
                assert(v * 10 + d > usize::MAX) by (nonlinear_arith)
                    requires
                        v > (usize::MAX - d) / 10,
                        d <= 9,
                ;
                assert(digits_value(pre1) == Some((v * 10 + d) as nat));
                lemma_digits_grow(ds, (i + 1 - start) as int);
            }
            return None;
        }
        assert(v * 10 + d <= usize::MAX) by (nonlinear_arith)
            requires
                v <= (usize::MAX - d) / 10,
                d <= 9,
        ;
        v = v * 10 + d;
        i = i + 1;
    }
    assert(ds.take(i - start) =~= ds);
    Some(v)
}

/// A run with a non-digit in it stays without a value when it is extended.
proof fn lemma_digits_none_extend(ds: Seq<u8>, n: int)
    requires
        0 < n <= ds.len(),
        digits_value(ds.take(n)) is None,
    ensures
        digits_value(ds) is None,
    decreases ds.len() - n,
{
    if n < ds.len() {
        assert(ds.take(n + 1).drop_last() =~= ds.take(n));
        lemma_digits_none_extend(ds, n + 1);
    } else {
        assert(ds.take(n) =~= ds);
    }
}

/// The value of a run of digits is at least that of its first `n` digits.
proof fn lemma_digits_grow(ds: Seq<u8>, n: int)
    requires
        0 < n <= ds.len(),
    ensures
        digits_value(ds) matches Some(v) ==> digits_value(ds.take(n)) matches Some(w) && w <= v,
    decreases ds.len() - n,
{
    if n < ds.len() {
        assert(ds.take(n + 1).drop_last() =~= ds.take(n));
        lemma_digits_grow(ds, n + 1);
        if let Some(v) = digits_value(ds) {
            if let Some(w1) = digits_value(ds.take(n + 1)) {
                let w = digits_value(ds.take(n)).unwrap();
                assert(w1 >= w) by (nonlinear_arith)
                    requires
                        w1 == w * 10 + (ds.take(n + 1).last() - 0x30) as nat,
                ;
            }
        }
    } else {
        assert(ds.take(n) =~= ds);
    }
}

fn empty_texture() -> (t: Texture)
    ensures
        t@ == empty_frame(),
{
    let t = Texture::new(0, 0, Vec::new());
    assert(t@.pixels =~= Seq::<u8>::empty());
    t
}

fn place_exec(s: &mut Vec<Texture>, idx: usize, t: Texture) -> (ok: bool)
    ensures
        match place(textures_view(old(s)@), idx as int, t@) {
            Some(x) => ok && textures_view(final(s)@) == x,
            None => !ok,
        },
{
    let ghost s0 = textures_view(s@);
    if idx > s.len() {
        return false;
    }
    if idx < s.len() {
        s.truncate(idx + 1);
        assert(textures_view(s@) =~= resized(s0, idx + 1));
    } else {
        s.push(empty_texture());
        assert(textures_view(s@) =~= resized(s0, idx + 1));
    }
    let ghost r = textures_view(s@);
    let ghost tv = t@;
    s.set(idx, t);
    assert(textures_view(s@) =~= r.update(idx as int, tv));
    true
}

fn is_empty_frame(t: &Texture) -> (b: bool)
    ensures
        b == (t@ == empty_frame()),
{
    let b = t.width == 0 && t.height == 0 && t.pixels.len() == 0 && t.position.0 == 0 && t.position.1 == 0;
    if b {
        assert(t@.pixels =~= Seq::<u8>::empty());
    }
    b
}

fn all_filled(fs: &Vec<Texture>) -> (b: bool)
    ensures
        b == forall|k: int| 0 <= k < fs@.len() ==> textures_view(fs@)[k] != empty_frame(),
{
    let mut k: usize = 0;
    while k < fs.len()
        invariant
            0 <= k <= fs@.len(),
            forall|q: int| 0 <= q < k ==> textures_view(fs@)[q] != empty_frame(),
        decreases fs@.len() - k,
    {
        if is_empty_frame(&fs[k]) {
            assert(textures_view(fs@)[k as int] == empty_frame());
            return false;
        }
        k = k + 1;
    }
    true
}

fn centre_exec(g: u16) -> (c: i16)
    ensures
        c == centre_offset(g as int),
{
    let d: i16 = g as i16;
    let d32 = d as i32;
    if d32 >= 0 {
        (-(d32 / 2)) as i16
    } else {
        ((-d32) / 2) as i16
    }
}

/// Every frame fits in the largest width and height.
proof fn lemma_max_bounds(fs: Seq<TextureView>)
    ensures
        forall|q: int| 0 <= q < fs.len() ==> fs[q].width <= max_width(fs) && fs[q].height <= max_height(fs),
    decreases fs.len(),
{
    if fs.len() > 0 {
        lemma_max_bounds(fs.drop_last());
        assert forall|q: int| 0 <= q < fs.len() implies fs[q].width <= max_width(fs) && fs[q].height <= max_height(
            fs,
        ) by {
            if q < fs.len() - 1 {
                assert(fs[q] == fs.drop_last()[q]);
            }
        }
    }
}

fn centre_frames(fs: Vec<Texture>) -> (r: Vec<Texture>)
    ensures
        textures_view(r@) == centred(textures_view(fs@)),
{
    let ghost fv = textures_view(fs@);
    let mut w: u16 = 0;
    let mut h: u16 = 0;
    let mut k: usize = 0;
    while k < fs.len()
        invariant
            0 <= k <= fs@.len(),
            fv == textures_view(fs@),
            w == max_width(fv.take(k as int)),
            h == max_height(fv.take(k as int)),
        decreases fs@.len() - k,
    {
        assert(fv.take(k + 1).drop_last() =~= fv.take(k as int));
        assert(fv.take(k + 1).last() == fs@[k as int]@);
        if fs[k].width > w {
            w = fs[k].width;
        }
        if fs[k].height > h {
            h = fs[k].height;
        }
        k = k + 1;
    }
    assert(fv.take(k as int) =~= fv);
    proof {
        lemma_max_bounds(fv);
    }
    let ghost target = centred(fv);
    let mut src = fs;
    let mut out: Vec<Texture> = Vec::new();
    let mut i: usize = 0;
    let n = src.len();
    assert(fv.skip(0) =~= fv);
    while i < n
        invariant
            0 <= i <= n,
            n == fv.len(),
            textures_view(src@) == fv.skip(i as int),
            target == centred(fv),
            w == max_width(fv),
            h == max_height(fv),
            textures_view(out@) == target.take(i as int),
            forall|q: int| 0 <= q < fv.len() ==> fv[q].width <= w && fv[q].height <= h,
        decreases n - i,
    {
        assert(textures_view(src@)[0] == fv[i as int]);
        assert(src@.len() == textures_view(src@).len());
        let ghost old_src = src@;
        let f = src.remove(0);
        assert forall|k: int| 0 <= k < src@.len() implies textures_view(src@)[k] == fv.skip(i + 1)[k] by {
            assert(src@[k] == old_src[k + 1]);
            assert(textures_view(old_src)[k + 1] == fv.skip(i as int)[k + 1]);
        }
        assert(textures_view(src@) =~= fv.skip(i + 1));
        let px = centre_exec(w - f.width);
        let py = centre_exec(h - f.height);
        let g = Texture { width: f.width, height: f.height, pixels: f.pixels, position: (px, py) };
        let ghost before = textures_view(out@);
        out.push(g);
        assert(textures_view(out@) =~= before.push(g@));
        assert(target.take(i + 1) =~= target.take(i as int).push(target[i as int]));
        i = i + 1;
    }
    assert(target.take(n as int) =~= target);
    out
}


/// Whether `b` starts with `FLARE`.
fn starts_flare(b: &[u8]) -> (r: bool)
    ensures
        r == (b@.len() >= 5 && b@.take(5) == flare_prefix()),
{
    let r = b.len() >= 5 && b[0] == 0x46 && b[1] == 0x4c && b[2] == 0x41 && b[3] == 0x52 && b[4] == 0x45;
    if r {
        assert(b@.take(5) =~= flare_prefix());
    } else if b.len() >= 5 {
        assert(b@.take(5)[0] == b@[0] && b@.take(5)[1] == b@[1] && b@.take(5)[2] == b@[2]);
        assert(b@.take(5)[3] == b@[3] && b@.take(5)[4] == b@[4]);
    }
    r
}

/// Whether `b` starts with `ZOOM`.
fn starts_zoom(b: &[u8]) -> (r: bool)
    ensures
        r == (b@.len() >= 4 && b@.take(4) == zoom_prefix()),
{
    let r = b.len() >= 4 && b[0] == 0x5a && b[1] == 0x4f && b[2] == 0x4f && b[3] == 0x4d;
    if r {
        assert(b@.take(4) =~= zoom_prefix());
    } else if b.len() >= 4 {
        assert(b@.take(4)[0] == b@[0] && b@.take(4)[1] == b@[1]);
        assert(b@.take(4)[2] == b@[2] && b@.take(4)[3] == b@[3]);
    }
    r
}

/// One step of sorting out the textures; false where the name is a FLARE or
/// ZOOM name that cannot be placed.
fn take_exec<'a>(
    name: &'a str,
    t: Texture,
    kept: &mut Vec<(&'a str, Texture)>,
    flare: &mut Vec<Texture>,
    zoom: &mut Vec<Texture>,
) -> (ok: bool)
    ensures
        match take_texture(
            FramesV { kept: named_view(old(kept)@), flare: textures_view(old(flare)@), zoom: textures_view(old(zoom)@) },
            name,
            t@,
        ) {
            Some(st) => ok && named_view(final(kept)@) == st.kept && textures_view(final(flare)@) == st.flare
                && textures_view(final(zoom)@) == st.zoom,
            None => !ok,
        },
{
    let b = name.as_bytes();
    let ghost tv = t@;
    if starts_flare(b) {
        let suffix = vstd::slice::slice_subrange(b, 5, b.len());
        assert(suffix@ =~= b@.skip(5));
        match parse_suffix(suffix) {
            Some(v) => {
                if v == 0 {
                    return false;
                }
                place_exec(flare, v - 1, t)
            },
            None => false,
        }
    } else if starts_zoom(b) {
        let suffix = vstd::slice::slice_subrange(b, 4, b.len());
        assert(suffix@ =~= b@.skip(4));
        match parse_suffix(suffix) {
            Some(v) => place_exec(zoom, v, t),
            None => false,
        }
    } else {
        let ghost before = named_view(kept@);
        kept.push((name, t));
        assert(named_view(kept@) =~= before.push((name, tv)));
        true
    }
}

/// Sorts out the textures of an archive: `FLARE<n>` becomes frame `n - 1` of
/// the FLARE animation, `ZOOM<n>` frame `n` of the ZOOM animation, and the
/// rest are kept in their order. The FLARE frames are then centred on the
/// largest of them. None where a suffix is not a number that places a frame
/// (`FLARE0`, a frame more than one past the end), or a frame stays empty.
pub fn try_combine_flare_zoom<'a>(textures: Vec<(&'a str, Texture)>) -> (r: Option<
    (Vec<(&'a str, Texture)>, Vec<Texture>, Vec<Texture>),
>)
    ensures
        match combine_spec(named_view(textures@)) {
            Some(st) => r matches Some(x) && named_view(x.0@) == st.kept && textures_view(x.1@) == st.flare
                && textures_view(x.2@) == st.zoom,
            None => r is None,
        },
{
    let ghost ts = named_view(textures@);
    let ghost init = no_frames();
    let mut src = textures;
    let mut kept: Vec<(&'a str, Texture)> = Vec::new();
    let mut flare: Vec<Texture> = Vec::new();
    let mut zoom: Vec<Texture> = Vec::new();
    let n = src.len();
    let mut i: usize = 0;
    assert(named_view(kept@) =~= Seq::empty());
    assert(textures_view(flare@) =~= Seq::empty());
    assert(textures_view(zoom@) =~= Seq::empty());
    assert(ts.skip(0) =~= ts);
    while i < n
        invariant
            i <= n,
            n == ts.len(),
            init == no_frames(),
            ts == named_view(textures@),
            named_view(src@) == ts.skip(i as int),
            take_from(ts, 0, init) == take_from(
                ts,
                i as int,
                FramesV { kept: named_view(kept@), flare: textures_view(flare@), zoom: textures_view(zoom@) },
            ),
        decreases n - i,
    {
        assert(named_view(src@)[0] == ts[i as int]);
        assert(src@.len() == named_view(src@).len());
        let ghost old_src = src@;
        let (name, t) = src.remove(0);
        assert forall|k: int| 0 <= k < src@.len() implies named_view(src@)[k] == ts.skip(i + 1)[k] by {
            assert(src@[k] == old_src[k + 1]);
            assert(named_view(old_src)[k + 1] == ts.skip(i as int)[k + 1]);
        }
        assert(named_view(src@) =~= ts.skip(i + 1));
        assert(ts[i as int] == (name, t@));
        let ghost st = FramesV { kept: named_view(kept@), flare: textures_view(flare@), zoom: textures_view(zoom@) };
        if !take_exec(name, t, &mut kept, &mut flare, &mut zoom) {
            assert(take_from(ts, i as int, st) is None);
            return None;
        }
        i = i + 1;
    }
    if !all_filled(&flare) || !all_filled(&zoom) {
        return None;
    }
    let flare = centre_frames(flare);
    Some((kept, flare, zoom))
}

/// [`try_combine_flare_zoom`] where every FLARE and ZOOM name places a frame
/// and no frame stays empty.
pub fn combine_flare_zoom<'a>(textures: Vec<(&'a str, Texture)>) -> (r: (
    Vec<(&'a str, Texture)>,
    Vec<Texture>,
    Vec<Texture>,
))
    requires
        combine_spec(named_view(textures@)) is Some,
    ensures
        named_view(r.0@) == combine_spec(named_view(textures@))->0.kept,
        textures_view(r.1@) == combine_spec(named_view(textures@))->0.flare,
        textures_view(r.2@) == combine_spec(named_view(textures@))->0.zoom,
{
    match try_combine_flare_zoom(textures) {
        Some(x) => x,
        None => (Vec::new(), Vec::new(), Vec::new()),
    }
}


// ---------------------------------------------------------------------------
// Which arenas' palettes a texture is written with

/// The first arena whose material file holds a material named `name`.
pub open spec fn arena_with_material(arenas: Seq<MtoArena>, name: Seq<u8>) -> Option<int>
    decreases arenas.len(),
{
    if arenas.len() == 0 {
        None
    } else {
        match arena_with_material(arenas.drop_last(), name) {
            Some(i) => Some(i),
            None => if first_with(arenas.last().mti.materials@, name) is Some {
                Some(arenas.len() - 1)
            } else {
                None
            },
        }
    }
}

/// The arenas of the first `n` entries that map to themselves, in order.
pub open spec fn self_mapped(f: Seq<(usize, usize)>, n: int) -> Seq<usize>
    decreases n,
{
    if n <= 0 {
        Seq::empty()
    } else if f[n - 1].0 == f[n - 1].1 {
        self_mapped(f, n - 1).push(f[n - 1].0)
    } else {
        self_mapped(f, n - 1)
    }
}

/// Every arena, each mapped to itself.
pub open spec fn all_arenas(n: nat) -> Seq<(usize, usize)> {
    Seq::new(n, |k: int| (k as usize, k as usize))
}

/// The arenas whose palettes a texture that no mesh uses is written with:
/// the first arena whose materials hold the texture; failing that, of all
/// arenas, those left mapped to themselves when arenas whose palettes agree
/// on the texture's colours are merged (see [`filter_textures`]).
pub open spec fn texture_arenas_spec(
    name: Seq<u8>,
    frames: Seq<TextureView>,
    arenas: Seq<MtoArena>,
    pals: Seq<(&str, &[u8])>,
) -> Seq<usize> {
    match arena_with_material(arenas, name) {
        Some(i) => seq![i as usize],
        None => if pals.len() == 1 {
            seq![0usize]
        } else {
            let ids = sorted_of(firsts(all_arenas(pals.len())), arena_order(pals));
            let f = filtered(ids, pals, used_flags(frames));
            self_mapped(f, f.len() as int)
        },
    }
}

fn find_arena_with_material(arenas: &Vec<MtoArena>, name: &str) -> (r: Option<usize>)
    ensures
        match arena_with_material(arenas@, name.spec_bytes()) {
            Some(i) => r == Some(i as usize),
            None => r is None,
        },
{
    let mut k: usize = 0;
    while k < arenas.len()
        invariant
            0 <= k <= arenas@.len(),
            arena_with_material(arenas@.take(k as int), name.spec_bytes()) is None,
        decreases arenas@.len() - k,
    {
        assert(arenas@.take(k + 1).drop_last() =~= arenas@.take(k as int));
        if find_first(arenas[k].mti.materials.as_slice(), name).is_some() {
            proof {
                lemma_arena_with_material_prefix(arenas@, name.spec_bytes(), k + 1);
            }
            return Some(k);
        }
        k = k + 1;
    }
    assert(arenas@.take(k as int) =~= arenas@);
    None
}

proof fn lemma_arena_with_material_prefix(arenas: Seq<MtoArena>, name: Seq<u8>, n: int)
    requires
        0 < n <= arenas.len(),
        arena_with_material(arenas.take(n), name) is Some,
    ensures
        arena_with_material(arenas, name) == arena_with_material(arenas.take(n), name),
    decreases arenas.len() - n,
{
    if n < arenas.len() {
        assert(arenas.take(n + 1).drop_last() =~= arenas.take(n));
        lemma_arena_with_material_prefix(arenas, name, n + 1);
    } else {
        assert(arenas.take(n) =~= arenas);
    }
}

/// The arenas whose palettes a texture that no mesh uses is written with,
/// as indices into the arenas (and their palettes, which are in the same
/// order).
pub fn texture_arenas(name: &str, frames: &[Texture], arenas: &Vec<MtoArena>, palettes: &[(&str, &[u8])]) -> (r: Vec<usize>)
    requires
        arena_with_material(arenas@, name.spec_bytes()) is None && palettes@.len() != 1 ==> forall|k: int|
            0 <= k < palettes@.len() ==> (#[trigger] palettes@[k]).0.spec_bytes().len() > 0,
    ensures
        r@ == texture_arenas_spec(name.spec_bytes(), textures_view(frames@), arenas@, palettes@),
{
    if let Some(i) = find_arena_with_material(arenas, name) {
        let mut r: Vec<usize> = Vec::new();
        r.push(i);
        assert(r@ =~= seq![i]);
        return r;
    }
    if palettes.len() == 1 {
        let mut r: Vec<usize> = Vec::new();
        r.push(0);
        assert(r@ =~= seq![0usize]);
        return r;
    }
    let n = palettes.len();
    let mut all: Vec<(usize, usize)> = Vec::new();
    let mut k: usize = 0;
    while k < n
        invariant
            0 <= k <= n,
            n == palettes@.len(),
            all@ == Seq::new(k as nat, |q: int| (q as usize, q as usize)),
        decreases n - k,
    {
        all.push((k, k));
        assert(all@ =~= Seq::new((k + 1) as nat, |q: int| (q as usize, q as usize)));
        k = k + 1;
    }
    assert(all@ =~= all_arenas(n as nat));
    assert(arenas_ok(all@, palettes@));
    filter_textures(frames, palettes, &mut all);
    let mut r: Vec<usize> = Vec::new();
    let mut j: usize = 0;
    while j < all.len()
        invariant
            0 <= j <= all@.len(),
            r@ == self_mapped(all@, j as int),
        decreases all@.len() - j,
    {
        if all[j].0 == all[j].1 {
            r.push(all[j].0);
        }
        j = j + 1;
    }
    r
}

} // verus!
