//! The triangles of the game's meshes: three vertex indices, a pen, texture
//! coordinates (kept as float bits) and flags.

use vstd::prelude::*;

use crate::data_formats::pen::{Pen, spec_pen};
use crate::reader::{FloatBits, Reader, le2, le4, twos};

verus! {

broadcast use crate::reader::lemma_reader_bounds;

/// The bytes of one triangle record.
pub const TRI_SIZE: usize = 36;

/// Outline drawn along the edge from the first to the second vertex.
pub const TRIFLAG_OUTLINE_12: u32 = 0x10_0000;

/// Outline drawn along the edge from the second to the third vertex.
pub const TRIFLAG_OUTLINE_23: u32 = 0x20_0000;

/// Outline drawn along the edge from the first to the third vertex.
pub const TRIFLAG_OUTLINE_13: u32 = 0x40_0000;

/// The three edge outline bits.
pub const TRIFLAG_OUTLINE_MASK_LINES: u32 = 0x70_0000;

/// The triangle is drawn with an outline.
pub const TRIFLAG_DRAW_OUTLINE: u32 = 0x80_0000;

/// All outline bits.
pub const TRIFLAG_OUTLINE_MASK: u32 = 0xF0_0000;

/// A triangle of a mesh.
#[derive(Clone, Copy, Debug, PartialEq, Eq)]
pub struct MeshTri {
    pub indices: [u16; 3],
    pub material: Pen,
    /// The texture coordinates of the three corners, as float bits.
    pub uvs: [[FloatBits; 2]; 3],
    /// The BSP id in the top byte, and flags; 0 for plain meshes.
    pub flags: u32,
}

/// A triangle with its arrays as sequences.
pub struct MeshTriV {
    pub indices: Seq<u16>,
    pub material: Pen,
    pub uvs: Seq<Seq<FloatBits>>,
    pub flags: u32,
}

impl View for MeshTri {
    type V = MeshTriV;

    open spec fn view(&self) -> MeshTriV {
        MeshTriV {
            indices: self.indices@,
            material: self.material,
            uvs: self.uvs@.map_values(|uv: [FloatBits; 2]| uv@),
            flags: self.flags,
        }
    }
}

pub open spec fn tris_view(v: Seq<MeshTri>) -> Seq<MeshTriV> {
    v.map_values(|t: MeshTri| t@)
}

/// Vertex index `k` of the record at `p`.
pub open spec fn index_at(d: Seq<u8>, p: int, k: int) -> u16 {
    le2(d.subrange(p + 2 * k, p + 2 * k + 2)) as u16
}

/// The signed material index of the record at `p`.
pub open spec fn material_index_at(d: Seq<u8>, p: int) -> int {
    twos(le2(d.subrange(p + 6, p + 8)), 0x8000)
}

/// Float `k` (of six) of the texture coordinates of the record at `p`.
pub open spec fn uv_at(d: Seq<u8>, p: int, k: int) -> FloatBits {
    FloatBits(le4(d.subrange(p + 8 + 4 * k, p + 12 + 4 * k)) as u32)
}

/// The flags as stored in the record at `p`.
pub open spec fn raw_flags_at(d: Seq<u8>, p: int) -> u32 {
    le4(d.subrange(p + 32, p + 36)) as u32
}

/// The flags with the outline bits tidied: without the outline bit, all
/// outline bits go; with it, edges whose ends are one vertex lose their bit,
/// and the outline bit goes when no edge is left.
pub open spec fn tidy_flags(i1: u16, i2: u16, i3: u16, flags: u32) -> u32 {
    if flags & TRIFLAG_DRAW_OUTLINE == 0 {
        flags & !TRIFLAG_OUTLINE_MASK
    } else {
        let f1 = if i1 == i2 {
            flags & !TRIFLAG_OUTLINE_12
        } else {
            flags
        };
        let f2 = if i1 == i3 {
            f1 & !TRIFLAG_OUTLINE_13
        } else {
            f1
        };
        let f3 = if i2 == i3 {
            f2 & !TRIFLAG_OUTLINE_23
        } else {
            f2
        };
        if f3 & TRIFLAG_OUTLINE_MASK_LINES == 0 {
            f3 & !TRIFLAG_OUTLINE_MASK
        } else {
            f3
        }
    }
}

/// A triangle is kept unless two of its corners are one vertex and it has no
/// outline left.
pub open spec fn tri_kept(i1: u16, i2: u16, i3: u16, flags: u32) -> bool {
    !((i1 == i2 || i1 == i3 || i2 == i3) && flags & TRIFLAG_OUTLINE_MASK == 0)
}

/// The triangle of the record at `p`.
pub open spec fn tri_at(d: Seq<u8>, p: int) -> MeshTriV {
    let (i1, i2, i3) = (index_at(d, p, 0), index_at(d, p, 1), index_at(d, p, 2));
    MeshTriV {
        indices: seq![i1, i2, i3],
        material: spec_pen(material_index_at(d, p)),
        uvs: seq![seq![uv_at(d, p, 0), uv_at(d, p, 1)], seq![uv_at(d, p, 2), uv_at(d, p, 3)], seq![uv_at(d, p, 4), uv_at(d, p, 5)]],
        flags: tidy_flags(i1, i2, i3, raw_flags_at(d, p)),
    }
}

/// Whether the record at `p` gives a triangle that is kept.
pub open spec fn kept_at(d: Seq<u8>, p: int) -> bool {
    tri_kept(index_at(d, p, 0), index_at(d, p, 1), index_at(d, p, 2), tri_at(d, p).flags)
}

/// The triangles kept among the first `k` records from `pos`, in order.
pub open spec fn tris_upto(d: Seq<u8>, pos: int, k: int) -> Seq<MeshTriV>
    decreases k,
{
    if k <= 0 {
        Seq::empty()
    } else {
        let p = pos + 36 * (k - 1);
        if kept_at(d, p) {
            tris_upto(d, pos, k - 1).push(tri_at(d, p))
        } else {
            tris_upto(d, pos, k - 1)
        }
    }
}

/// `count` records can be read from `pos`: at most 10,000, all in the data
/// (no record is read where there are none),
/// and none with a material index above 256.
pub open spec fn tris_ok(d: Seq<u8>, pos: int, count: int) -> bool {
    &&& count <= 10000
    &&& count > 0 ==> pos + 36 * count <= d.len()
    &&& forall|k: int| 0 <= k < count ==> #[trigger] record_material(d, pos, k) <= 256
}

/// The material index of record `k` from `pos`.
pub open spec fn record_material(d: Seq<u8>, pos: int, k: int) -> int {
    material_index_at(d, pos + 36 * k)
}

/// Every triangle kept is drawn: its three corners are three vertices, or it
/// keeps an outline bit.
pub proof fn lemma_kept_tris_drawn(d: Seq<u8>, pos: int, k: int)
    ensures
        forall|j: int|
            0 <= j < tris_upto(d, pos, k).len() ==> {
                let t = #[trigger] tris_upto(d, pos, k)[j];
                ||| (t.indices[0] != t.indices[1] && t.indices[0] != t.indices[2] && t.indices[1]
                    != t.indices[2])
                ||| t.flags & TRIFLAG_OUTLINE_MASK != 0
            },
    decreases k,
{
    if k > 0 {
        lemma_kept_tris_drawn(d, pos, k - 1);
        let p = pos + 36 * (k - 1);
        let prev = tris_upto(d, pos, k - 1);
        if kept_at(d, p) {
            let t = tri_at(d, p);
            assert(tris_upto(d, pos, k) == prev.push(t));
            assert(t.indices[0] == index_at(d, p, 0));
            assert(t.indices[1] == index_at(d, p, 1));
            assert(t.indices[2] == index_at(d, p, 2));
            assert forall|j: int| 0 <= j < prev.len() + 1 implies {
                let u = #[trigger] prev.push(t)[j];
                ||| (u.indices[0] != u.indices[1] && u.indices[0] != u.indices[2] && u.indices[1]
                    != u.indices[2])
                ||| u.flags & TRIFLAG_OUTLINE_MASK != 0
            } by {
                if j < prev.len() {
                    assert(prev.push(t)[j] == prev[j]);
                }
            }
        }
    }
}

/// Record `k` adds its triangle when its three corners are three vertices, and
/// adds nothing when two corners are one vertex and it has no outline bit.
pub proof fn lemma_record_kept(d: Seq<u8>, pos: int, k: int)
    requires
        0 <= k,
    ensures
        ({
            let p = pos + 36 * k;
            let (i1, i2, i3) = (index_at(d, p, 0), index_at(d, p, 1), index_at(d, p, 2));
            &&& (i1 != i2 && i1 != i3 && i2 != i3) ==> tris_upto(d, pos, k + 1) == tris_upto(d, pos, k).push(
                tri_at(d, p),
            )
            &&& ((i1 == i2 || i1 == i3 || i2 == i3) && raw_flags_at(d, p) & TRIFLAG_DRAW_OUTLINE == 0)
                ==> tris_upto(d, pos, k + 1) == tris_upto(d, pos, k)
        }),
{
    let p = pos + 36 * k;
    let (i1, i2, i3) = (index_at(d, p, 0), index_at(d, p, 1), index_at(d, p, 2));
    let raw = raw_flags_at(d, p);
    assert(raw & 0x80_0000 == 0 ==> (raw & !0xF0_0000u32) & 0xF0_0000 == 0) by (bit_vector);
    assert(pos + 36 * (k + 1 - 1) == p);
}

/// A run of `count` triangle records lying in the data (36 bytes each) can be
/// read exactly when there are at most 10,000 of them and none has a material
/// index (the signed 16-bit value at 6, low byte first) above 256.
pub proof fn lemma_tris_ok_bytes(d: Seq<u8>, pos: int, count: int)
    requires
        0 <= pos,
        count > 0 ==> pos + 36 * count <= d.len(),
    ensures
        tris_ok(d, pos, count) <==> {
            &&& count <= 10000
            &&& forall|k: int|
                0 <= k < count ==> {
                    let u = d[pos + 36 * k + 6] + d[pos + 36 * k + 7] * 256;
                    #[trigger] record_material(d, pos, k) <= 256 && (if u < 0x8000 {
                        u
                    } else {
                        u - 0x10000
                    }) <= 256
                }
        },
{
    assert forall|k: int| 0 <= k < count implies {
        let u = d[pos + 36 * k + 6] + d[pos + 36 * k + 7] * 256;
        #[trigger] record_material(d, pos, k) == (if u < 0x8000 {
            u
        } else {
            u - 0x10000
        })
    } by {
        let p = pos + 36 * k;
        assert(p + 8 <= pos + 36 * count) by (nonlinear_arith)
            requires
                0 <= k < count,
                p == pos + 36 * k,
        ;
        assert(d.subrange(p + 6, p + 8)[0] == d[p + 6]);
        assert(d.subrange(p + 6, p + 8)[1] == d[p + 7]);
    }
}

/// Tidied flags never keep an outline bit without the outline bit itself,
/// nor the bit of an edge whose ends are one vertex.
pub proof fn lemma_tidy_flags(i1: u16, i2: u16, i3: u16, flags: u32)
    ensures
        tidy_flags(i1, i2, i3, flags) & TRIFLAG_DRAW_OUTLINE == 0 ==> tidy_flags(i1, i2, i3, flags)
            & TRIFLAG_OUTLINE_MASK == 0,
        i1 == i2 ==> tidy_flags(i1, i2, i3, flags) & TRIFLAG_OUTLINE_12 == 0,
        i1 == i3 ==> tidy_flags(i1, i2, i3, flags) & TRIFLAG_OUTLINE_13 == 0,
        i2 == i3 ==> tidy_flags(i1, i2, i3, flags) & TRIFLAG_OUTLINE_23 == 0,
        tidy_flags(i1, i2, i3, flags) & !TRIFLAG_OUTLINE_MASK == flags & !TRIFLAG_OUTLINE_MASK,
{
    let t = tidy_flags(i1, i2, i3, flags);
    let (a, b, c) = (i1 == i2, i1 == i3, i2 == i3);
    assert(t & 0x80_0000 == 0 ==> t & 0xF0_0000 == 0) by (bit_vector)
        requires
            t == (if flags & 0x80_0000 == 0 {
                flags & !0xF0_0000u32
            } else {
                let f1 = if a { flags & !0x10_0000u32 } else { flags };
                let f2 = if b { f1 & !0x40_0000u32 } else { f1 };
                let f3 = if c { f2 & !0x20_0000u32 } else { f2 };
                if f3 & 0x70_0000 == 0 { f3 & !0xF0_0000u32 } else { f3 }
            }),
    ;
    assert((a ==> t & 0x10_0000 == 0) && (b ==> t & 0x40_0000 == 0) && (c ==> t & 0x20_0000 == 0) && t
        & !0xF0_0000u32 == flags & !0xF0_0000u32) by (bit_vector)
        requires
            t == (if flags & 0x80_0000 == 0 {
                flags & !0xF0_0000u32
            } else {
                let f1 = if a { flags & !0x10_0000u32 } else { flags };
                let f2 = if b { f1 & !0x40_0000u32 } else { f1 };
                let f3 = if c { f2 & !0x20_0000u32 } else { f2 };
                if f3 & 0x70_0000 == 0 { f3 & !0xF0_0000u32 } else { f3 }
            }),
    ;
}

fn tidy_flags_exec(i1: u16, i2: u16, i3: u16, flags: u32) -> (f: u32)
    ensures
        f == tidy_flags(i1, i2, i3, flags),
{
    let mut flags = flags;
    if flags & TRIFLAG_DRAW_OUTLINE == 0 {
        flags = flags & !TRIFLAG_OUTLINE_MASK;
    } else {
        if i1 == i2 {
            flags = flags & !TRIFLAG_OUTLINE_12;
        }
        if i1 == i3 {
            flags = flags & !TRIFLAG_OUTLINE_13;
        }
        if i2 == i3 {
            flags = flags & !TRIFLAG_OUTLINE_23;
        }
        if flags & TRIFLAG_OUTLINE_MASK_LINES == 0 {
            flags = flags & !TRIFLAG_OUTLINE_MASK;
        }
    }
    flags
}

fn read_uv(reader: &mut Reader) -> (res: Option<FloatBits>)
    ensures
        final(reader).data() == old(reader).data(),
        old(reader).has(4) ==> final(reader).pos() == old(reader).pos() + 4 && res == Some(
            FloatBits(le4(old(reader).ahead(4)) as u32),
        ),
        !old(reader).has(4) ==> res is None,
{
    reader.try_get_unvalidated::<FloatBits>()
}

/// Reads one triangle record.
fn read_tri(reader: &mut Reader) -> (res: Option<MeshTri>)
    ensures
        final(reader).data() == old(reader).data(),
        old(reader).has(36) && material_index_at(old(reader).data(), old(reader).pos()) <= 256 ==> (res matches Some(
            t,
        ) && t@ == tri_at(old(reader).data(), old(reader).pos()) && final(reader).pos() == old(reader).pos() + 36),
        !(old(reader).has(36) && material_index_at(old(reader).data(), old(reader).pos()) <= 256) ==> res is None,
{
    let ghost d = reader.data();
    let ghost p = reader.pos();
    let i1 = match reader.try_u16() {
        Some(v) => v,
        None => return None,
    };
    let i2 = match reader.try_u16() {
        Some(v) => v,
        None => return None,
    };
    let i3 = match reader.try_u16() {
        Some(v) => v,
        None => return None,
    };
    let mi = match reader.try_i16() {
        Some(v) => v,
        None => return None,
    };
    assert(mi as int == material_index_at(d, p));
    if mi > 256 {
        return None;
    }
    let u0 = match read_uv(reader) {
        Some(v) => v,
        None => return None,
    };
    let u1 = match read_uv(reader) {
        Some(v) => v,
        None => return None,
    };
    let u2 = match read_uv(reader) {
        Some(v) => v,
        None => return None,
    };
    let u3 = match read_uv(reader) {
        Some(v) => v,
        None => return None,
    };
    let u4 = match read_uv(reader) {
        Some(v) => v,
        None => return None,
    };
    let u5 = match read_uv(reader) {
        Some(v) => v,
        None => return None,
    };
    let raw = match reader.try_u32() {
        Some(v) => v,
        None => return None,
    };
    let flags = tidy_flags_exec(i1, i2, i3, raw);
    let tri = MeshTri {
        indices: [i1, i2, i3],
        material: Pen::new(mi as i32),
        uvs: [[u0, u1], [u2, u3], [u4, u5]],
        flags,
    };
    proof {
        assert(tri@.indices =~= seq![i1, i2, i3]);
        assert(tri@.uvs =~= seq![seq![u0, u1], seq![u2, u3], seq![u4, u5]]);
    }
    Some(tri)
}

impl MeshTri {
    /// Reads `count` triangle records and keeps the triangles that are drawn:
    /// see [`tri_at`] and [`tri_kept`]. None where there are more than
    /// 10,000, the data ends early, or a material index is above 256.
    pub fn try_parse_slice(reader: &mut Reader, count: usize) -> (res: Option<Vec<MeshTri>>)
        ensures
            final(reader).data() == old(reader).data(),
            tris_ok(old(reader).data(), old(reader).pos(), count as int) ==> (res matches Some(v) && tris_view(v@)
                == tris_upto(old(reader).data(), old(reader).pos(), count as int) && final(reader).pos() == old(
                reader,
            ).pos() + 36 * count),
            !tris_ok(old(reader).data(), old(reader).pos(), count as int) ==> res is None,
            count > 10000 ==> final(reader).pos() == old(reader).pos(),
    {
        if count > 10000 {
            return None;
        }
        let ghost d = reader.data();
        let ghost pos = reader.pos();
        let mut result: Vec<MeshTri> = Vec::new();
        let mut n: usize = 0;
        while n < count
            invariant
                n <= count <= 10000,
                d == old(reader).data(),
                pos == old(reader).pos(),
                reader.data() == d,
                reader.pos() == pos + 36 * n,
                n > 0 ==> pos + 36 * n <= d.len(),
                forall|k: int| 0 <= k < n ==> #[trigger] record_material(d, pos, k) <= 256,
                tris_view(result@) == tris_upto(d, pos, n as int),
            decreases count - n,
        {
            let ghost p = pos + 36 * n;
            let tri = match read_tri(reader) {
                Some(t) => t,
                None => {
                    assert(record_material(d, pos, n as int) == material_index_at(d, p));
                    return None;
                },
            };
            let (i1, i2, i3, flags) = (tri.indices[0], tri.indices[1], tri.indices[2], tri.flags);
            let ghost before = tris_view(result@);
            if !((i1 == i2 || i1 == i3 || i2 == i3) && flags & TRIFLAG_OUTLINE_MASK == 0) {
                result.push(tri);
                assert(tris_view(result@) =~= before.push(tri@));
            }
            n = n + 1;
        }
        Some(result)
    }

    /// The BSP id: the top byte of the flags.
    pub fn id(&self) -> (r: u8)
        ensures
            r == (self.flags >> 24) as u8,
    {
        (self.flags >> 24) as u8
    }
}


// ---------------------------------------------------------------------------
// Unused materials

/// The triangles of each part of a mesh, as views.
pub open spec fn parts_view(parts: Seq<Vec<MeshTri>>) -> Seq<Seq<MeshTriV>> {
    parts.map_values(|v: Vec<MeshTri>| tris_view(v@))
}

/// Whether the triangle is drawn with texture `i`.
pub open spec fn is_texture(t: MeshTriV, i: int) -> bool {
    t.material matches Pen::Texture(j) && j == i
}

/// Whether some triangle is drawn with texture `i`.
pub open spec fn uses_material(pv: Seq<Seq<MeshTriV>>, i: int) -> bool {
    exists|p: int, k: int|
        0 <= p < pv.len() && 0 <= k < pv[p].len() && is_texture(#[trigger] pv[p][k], i)
}

/// How many of the first `n` materials are used.
pub open spec fn used_below(pv: Seq<Seq<MeshTriV>>, n: int) -> nat
    decreases n,
{
    if n <= 0 {
        0
    } else if uses_material(pv, n - 1) {
        used_below(pv, n - 1) + 1
    } else {
        used_below(pv, n - 1)
    }
}

/// The used materials among the first `n`, in order.
pub open spec fn kept_materials<A>(mats: Seq<A>, pv: Seq<Seq<MeshTriV>>, n: int) -> Seq<A>
    decreases n,
{
    if n <= 0 {
        Seq::empty()
    } else if uses_material(pv, n - 1) {
        kept_materials(mats, pv, n - 1).push(mats[n - 1])
    } else {
        kept_materials(mats, pv, n - 1)
    }
}

/// A triangle with its texture index renumbered to count used materials only.
pub open spec fn renumbered(t: MeshTriV, pv: Seq<Seq<MeshTriV>>) -> MeshTriV {
    match t.material {
        Pen::Texture(j) => MeshTriV { material: Pen::Texture(used_below(pv, j as int) as u8), ..t },
        _ => t,
    }
}

/// The triangles renumbered.
pub open spec fn renumber_all(s: Seq<MeshTriV>, pv: Seq<Seq<MeshTriV>>) -> Seq<MeshTriV> {
    s.map_values(|t: MeshTriV| renumbered(t, pv))
}

/// Every texture index names one of `n` materials.
pub open spec fn materials_in_range(pv: Seq<Seq<MeshTriV>>, n: int) -> bool {
    forall|p: int, k: int|
        0 <= p < pv.len() && 0 <= k < pv[p].len() ==> ((#[trigger] pv[p][k]).material matches Pen::Texture(j) ==> j < n)
}

proof fn lemma_used_below_le(pv: Seq<Seq<MeshTriV>>, n: int)
    requires
        n >= 0,
    ensures
        used_below(pv, n) <= n,
    decreases n,
{
    if n > 0 {
        lemma_used_below_le(pv, n - 1);
    }
}

/// Which of `m` materials the triangles use.
fn used_flags(parts: &Vec<Vec<MeshTri>>, m: usize) -> (used: Vec<bool>)
    requires
        materials_in_range(parts_view(parts@), m as int),
    ensures
        used@.len() == m,
        forall|i: int| 0 <= i < m ==> used@[i] == uses_material(parts_view(parts@), i),
{
    let ghost pv = parts_view(parts@);
    let mut used: Vec<bool> = Vec::new();
    let mut i: usize = 0;
    while i < m
        invariant
            i <= m,
            used@.len() == i,
            forall|q: int| 0 <= q < i ==> !used@[q],
        decreases m - i,
    {
        used.push(false);
        i = i + 1;
    }
    let mut p: usize = 0;
    while p < parts.len()
        invariant
            p <= parts@.len(),
            pv == parts_view(parts@),
            materials_in_range(pv, m as int),
            used@.len() == m,
            forall|i: int| 0 <= i < m ==> used@[i] == uses_material(pv.take(p as int), i),
        decreases parts@.len() - p,
    {
        let tris = &parts[p];
        assert(pv[p as int] == tris_view(tris@));
        let mut k: usize = 0;
        while k < tris.len()
            invariant
                p < parts@.len(),
                k <= tris@.len(),
                tris == parts@[p as int],
                pv == parts_view(parts@),
                pv[p as int] == tris_view(tris@),
                materials_in_range(pv, m as int),
                used@.len() == m,
                forall|i: int|
                    0 <= i < m ==> used@[i] == (uses_material(pv.take(p as int), i) || exists|q: int|
                        0 <= q < k && is_texture(#[trigger] pv[p as int][q], i)),
            decreases tris@.len() - k,
        {
            assert(pv[p as int][k as int] == tris@[k as int]@);
            if let Pen::Texture(j) = tris[k].material {
                assert(j < m);
                used.set(j as usize, true);
            }
            k = k + 1;
        }
        assert forall|i: int| 0 <= i < m implies used@[i] == uses_material(pv.take(p + 1), i) by {
            let t1 = pv.take(p + 1);
            if used@[i] {
                if uses_material(pv.take(p as int), i) {
                    let (a, b) = choose|a: int, b: int|
                        0 <= a < pv.take(p as int).len() && 0 <= b < pv.take(p as int)[a].len() && is_texture(#[trigger] pv.take(p as int)[a][b], i);
                    assert(t1[a][b] == pv.take(p as int)[a][b]);
                } else {
                    let q = choose|q: int|
                        0 <= q < tris@.len() && is_texture(#[trigger] pv[p as int][q], i);
                    assert(t1[p as int][q] == pv[p as int][q]);
                }
            }
            if uses_material(t1, i) {
                let (a, b) = choose|a: int, b: int|
                    0 <= a < t1.len() && 0 <= b < t1[a].len() && is_texture(#[trigger] t1[a][b], i);
                if a < p {
                    assert(pv.take(p as int)[a][b] == t1[a][b]);
                } else {
                    assert(pv[p as int][b] == t1[a][b]);
                }
            }
        }
        p = p + 1;
    }
    assert(pv.take(parts@.len() as int) =~= pv);
    used
}

/// Drops the materials that no triangle is drawn with, keeping the others in
/// order, and renumbers the triangles' texture indices to match.
pub fn remove_unused_materials<'a>(materials: &mut Vec<&'a str>, parts: &mut Vec<Vec<MeshTri>>)
    requires
        materials_in_range(parts_view(old(parts)@), old(materials)@.len() as int),
    ensures
        final(materials)@ == kept_materials(
            old(materials)@,
            parts_view(old(parts)@),
            old(materials)@.len() as int,
        ),
        parts_view(final(parts)@).len() == parts_view(old(parts)@).len(),
        forall|p: int|
            0 <= p < parts_view(old(parts)@).len() ==> #[trigger] parts_view(final(parts)@)[p]
                == renumber_all(parts_view(old(parts)@)[p], parts_view(old(parts)@)),
{
    let ghost pv = parts_view(parts@);
    let m = materials.len();
    let used = used_flags(parts, m);
    // the new number of each material, and the kept materials
    let mut ranks: Vec<usize> = Vec::new();
    let mut kept: Vec<&'a str> = Vec::new();
    let mut count: usize = 0;
    let mut i: usize = 0;
    while i < m
        invariant
            i <= m,
            m == materials@.len(),
            used@.len() == m,
            forall|q: int| 0 <= q < m ==> used@[q] == uses_material(pv, q),
            ranks@.len() == i,
            forall|q: int| 0 <= q < i ==> ranks@[q] == used_below(pv, q),
            count == used_below(pv, i as int),
            count <= i,
            kept@ == kept_materials(materials@, pv, i as int),
        decreases m - i,
    {
        ranks.push(count);
        if used[i] {
            kept.push(materials[i]);
            count = count + 1;
        }
        i = i + 1;
    }
    *materials = kept;
    let mut out: Vec<Vec<MeshTri>> = Vec::new();
    let mut p: usize = 0;
    while p < parts.len()
        invariant
            p <= parts@.len(),
            pv == parts_view(parts@),
            materials_in_range(pv, m as int),
            ranks@.len() == m,
            forall|q: int| 0 <= q < m ==> ranks@[q] == used_below(pv, q),
            out@.len() == p,
            forall|a: int| 0 <= a < p ==> #[trigger] parts_view(out@)[a] == renumber_all(pv[a], pv),
        decreases parts@.len() - p,
    {
        let tris = &parts[p];
        assert(pv[p as int] == tris_view(tris@));
        let mut nt: Vec<MeshTri> = Vec::new();
        let mut k: usize = 0;
        while k < tris.len()
            invariant
                p < parts@.len(),
                k <= tris@.len(),
                tris == parts@[p as int],
                pv == parts_view(parts@),
                pv[p as int] == tris_view(tris@),
                materials_in_range(pv, m as int),
                ranks@.len() == m,
                forall|q: int| 0 <= q < m ==> ranks@[q] == used_below(pv, q),
                tris_view(nt@) == renumber_all(pv[p as int].take(k as int), pv),
            decreases tris@.len() - k,
        {
            let mut t = tris[k];
            assert(pv[p as int][k as int] == t@);
            if let Pen::Texture(j) = t.material {
                assert(j < m);
                proof {
                    lemma_used_below_le(pv, j as int);
                }
                t.material = Pen::Texture(ranks[j as usize] as u8);
            }
            let ghost before = tris_view(nt@);
            nt.push(t);
            assert(tris_view(nt@) =~= before.push(t@));
            assert(renumber_all(pv[p as int].take(k + 1), pv) =~= renumber_all(pv[p as int].take(
                k as int,
            ), pv).push(renumbered(pv[p as int][k as int], pv)));
            k = k + 1;
        }
        assert(pv[p as int].take(tris@.len() as int) =~= pv[p as int]);
        assert(tris_view(nt@) == renumber_all(pv[p as int], pv));
        let ghost before = out@;
        let ghost ntv = nt@;
        let ghost goal = renumber_all(pv[p as int], pv);
        assert(tris_view(ntv) == goal);
        out.push(nt);
        assert forall|a: int| 0 <= a < p + 1 implies #[trigger] parts_view(out@)[a] == renumber_all(pv[a], pv) by {
            if a < p {
                assert(out@[a] == before[a]);
                assert(parts_view(before)[a] == renumber_all(pv[a], pv));
                assert(parts_view(before)[a] == tris_view(before[a]@));
                assert(parts_view(out@)[a] == tris_view(out@[a]@));
            } else {
                assert(a == p);
                assert(out@[a]@ == ntv);
                assert(parts_view(out@)[a] == tris_view(out@[a]@));
                assert(parts_view(out@)[a] == goal);
            }
        }
        p = p + 1;
    }
    *parts = out;
}

} // verus!
