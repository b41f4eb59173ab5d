//! CMI files: the scripts of a level, which entities run them, and the
//! meshes, animations and paths they use.
//!
//! This module reads the file's tables, follows the calls from script to
//! script, and gathers what each entity and arena uses. Meshes, animations
//! and paths hold floating-point data; they are found here by offset and
//! decoded elsewhere.

use vstd::prelude::*;
use vstd::string::*;

use crate::data_formats::cmi_operands::{fixed_text_at, read_fixed_text, read_text, read_value, text_at, value_at};
use crate::data_formats::cmi_bytecode::{
    BlockV, CalledV, CallReason, CmiCallOrigin, CmiScript, all_instrs, anim_names_in, anim_offsets_in,
    calls_in, called_order, paths_in, script_blocks,
};
use crate::sorting::{
    SortKey, bytes_less, bytes_lt, bytes_order, covers, drawn_from, has_same, lemma_bytes_lt_asymmetric,
    lemma_bytes_lt_irreflexive, lemma_bytes_lt_total, lemma_bytes_lt_transitive, same_key, sort_dedup,
    sorted_of, sorted_set, strictly_sorted, u32_order, lemma_bytes_order_total, lemma_u32_order_total,
    lemma_sorted_of, strict_total,
};
use crate::file_formats::bni::word_le;
use crate::reader::Reader;
use crate::text::{is_text_byte, utf8_str};

verus! {

broadcast use crate::reader::lemma_reader_bounds;

/// The parts of `b` before and after its first byte `sep`, if it has one.
pub open spec fn split_first(b: Seq<u8>, sep: u8) -> Option<(Seq<u8>, Seq<u8>)> {
    if exists|i: int| 0 <= i < b.len() && b[i] == sep {
        let i = choose|i: int|
            0 <= i < b.len() && b[i] == sep && forall|j: int| 0 <= j < i ==> b[j] != sep;
        Some((b.subrange(0, i), b.subrange(i + 1, b.len() as int)))
    } else {
        None
    }
}

/// Bytes that are all plain text (ASCII) are valid UTF-8.
proof fn lemma_text_is_utf8(b: Seq<u8>)
    requires
        forall|i: int| 0 <= i < b.len() ==> is_text_byte(#[trigger] b[i]),
    ensures
        vstd::utf8::valid_utf8(b),
{
    let chars = Seq::new(b.len(), |i: int| b[i] as char);
    assert forall|i: int| 0 <= i < chars.len() implies '\0' <= #[trigger] chars[i] <= '\u{7f}' by {
        assert(is_text_byte(b[i]));
    }
    assert(vstd::utf8::is_ascii_chars(chars));
    vstd::utf8::is_ascii_chars_encode_utf8(chars);
    vstd::utf8::encode_utf8_valid_utf8(chars);
    assert(vstd::utf8::encode_utf8(chars) =~= b);
}

/// Whether every byte of the string is plain text.
pub open spec fn is_text(s: Seq<u8>) -> bool {
    forall|i: int| 0 <= i < s.len() ==> is_text_byte(#[trigger] s[i])
}

/// Splits a text string at the first byte `sep`.
pub fn split_once<'a>(s: &'a str, sep: u8) -> (res: Option<(&'a str, &'a str)>)
    requires
        is_text(s.spec_bytes()),
    ensures
        match split_first(s.spec_bytes(), sep) {
            Some((a, b)) => res matches Some((x, y)) && x.spec_bytes() == a && y.spec_bytes() == b,
            None => res is None,
        },
        res matches Some((x, y)) ==> is_text(x.spec_bytes()) && is_text(y.spec_bytes()),
{
    let bytes = s.as_bytes();
    let ghost b = bytes@;
    let mut i: usize = 0;
    while i < bytes.len()
        invariant
            0 <= i <= b.len(),
            bytes@ == b,
            is_text(b),
            b == s.spec_bytes(),
            forall|j: int| 0 <= j < i ==> b[j] != sep,
        decreases b.len() - i,
    {
        if bytes[i] == sep {
            let left = vstd::slice::slice_subrange(bytes, 0, i);
            let right = vstd::slice::slice_subrange(bytes, i + 1, bytes.len());
            proof {
                assert forall|j: int| 0 <= j < left@.len() implies is_text_byte(#[trigger] left@[j]) by {
                    assert(left@[j] == b[j]);
                }
                assert forall|j: int| 0 <= j < right@.len() implies is_text_byte(#[trigger] right@[j]) by {
                    assert(right@[j] == b[i + 1 + j]);
                }
                lemma_text_is_utf8(left@);
                lemma_text_is_utf8(right@);
                let k = choose|k: int|
                    0 <= k < b.len() && b[k] == sep && forall|j: int| 0 <= j < k ==> b[j] != sep;
                assert(k == i) by {
                    if k < i {
                    } else if k > i {
                        assert(b[i as int] == sep);
                    }
                }
            }
            let x = utf8_str(left);
            let y = utf8_str(right);
            return Some((x.unwrap(), y.unwrap()));
        }
        i = i + 1;
    }
    None
}

/// The strings of a fixed field are plain text.
proof fn lemma_fixed_text_is_text(e: Seq<u8>, p: int, n: int)
    ensures
        fixed_text_at(e, p, n) matches Some((t, q)) ==> is_text(t),
{
    if let Some((t, q)) = fixed_text_at(e, p, n) {
        let b = e.subrange(p, p + n);
        let k = crate::text::nul_index(b);
        crate::text::lemma_nul_from_bounds(b, 0);
        assert(t == b.subrange(0, k));
        assert forall|i: int| 0 <= i < t.len() implies is_text_byte(#[trigger] t[i]) by {
            assert(t[i] == b[i]);
        }
    }
}

proof fn lemma_text_at_is_text(e: Seq<u8>, p: int)
    ensures
        text_at(e, p) matches Some((t, q)) ==> is_text(t),
{
    if let Some((n, q)) = value_at::<u8>(e, p) {
        lemma_fixed_text_is_text(e, q, n as int);
    }
}

/// Where a script is run from, with its strings as bytes (the reason as characters).
pub struct OriginV {
    pub arena_name: Seq<u8>,
    pub source_name: Seq<u8>,
    pub target_name: Seq<u8>,
    pub reason: Seq<char>,
    pub source_offset: u32,
}

impl<'a> View for CmiCallOrigin<'a> {
    type V = OriginV;

    open spec fn view(&self) -> OriginV {
        OriginV {
            arena_name: self.arena_name.spec_bytes(),
            source_name: self.source_name.spec_bytes(),
            target_name: self.target_name.spec_bytes(),
            reason: self.reason@,
            source_offset: self.source_offset,
        }
    }
}

/// The origin of an init script named `arena$entity_id` (the id is optional):
/// the entity runs it, for the reason "Init (id ...)".
pub open spec fn init_origin(name: Seq<u8>) -> Option<OriginV> {
    match split_first(name, 0x24) {
        Some((arena, rest)) => {
            let (ent, id) = match split_first(rest, 0x5f) {
                Some((a, b)) => (a, b),
                None => (rest, "None".spec_bytes()),
            };
            Some(
                OriginV {
                    arena_name: arena,
                    source_name: ent,
                    target_name: ent,
                    reason: "Init (id "@ + vstd::utf8::decode_utf8(id) + ")"@,
                    source_offset: 0,
                },
            )
        },
        None => None,
    }
}

/// The origin of a setup script named `arena$entity`.
pub open spec fn setup_origin(name: Seq<u8>) -> Option<OriginV> {
    match split_first(name, 0x24) {
        Some((arena, ent)) => Some(
            OriginV {
                arena_name: arena,
                source_name: ent,
                target_name: ent,
                reason: "Setup"@,
                source_offset: 0,
            },
        ),
        None => None,
    }
}

/// A script table entry at `p`: a name and a nonzero offset.
pub open spec fn script_item_at(e: Seq<u8>, p: int, init: bool) -> Option<((u32, OriginV), int)> {
    match text_at(e, p) {
        Some((name, q)) => match value_at::<u32>(e, q) {
            Some((off, q2)) => if off == 0 {
                None
            } else {
                match if init {
                    init_origin(name)
                } else {
                    setup_origin(name)
                } {
                    Some(o) => Some(((off, o), q2)),
                    None => None,
                }
            },
            None => None,
        },
        None => None,
    }
}

/// A script table entry is a name prefixed by its length byte, then a
/// nonzero 32-bit script offset (low byte first); nothing else.
pub proof fn lemma_script_item(e: Seq<u8>, p: int, init: bool)
    requires
        0 <= p < e.len(),
    ensures
        script_item_at(e, p, init) matches Some(((off, o), q)) ==> q == p + 1 + e[p] + 4 && off as int
            == word_le(e, p + 1 + e[p]) && off != 0,
{
}

/// Script table entries `i..n` from `p`.
pub open spec fn script_items_from(e: Seq<u8>, p: int, n: int, i: int, init: bool) -> Option<
    (Seq<(u32, OriginV)>, int),
>
    decreases n - i,
{
    if i >= n {
        Some((Seq::empty(), p))
    } else {
        match script_item_at(e, p, init) {
            Some((item, q)) => match script_items_from(e, q, n, i + 1, init) {
                Some((rest, end)) => Some((seq![item] + rest, end)),
                None => None,
            },
            None => None,
        }
    }
}

/// A script table at `p`: a count, then the entries.
pub open spec fn script_items_at(e: Seq<u8>, p: int, init: bool) -> Option<(Seq<(u32, OriginV)>, int)> {
    match value_at::<u32>(e, p) {
        Some((n, q)) => script_items_from(e, q, n as int, 0, init),
        None => None,
    }
}

pub open spec fn items_view(v: Seq<(u32, CmiCallOrigin)>) -> Seq<(u32, OriginV)> {
    v.map_values(|x: (u32, CmiCallOrigin)| (x.0, x.1@))
}

fn make_init_origin<'a>(name: &'a str) -> (res: Option<CmiCallOrigin<'a>>)
    requires
        is_text(name.spec_bytes()),
    ensures
        match init_origin(name.spec_bytes()) {
            Some(o) => res matches Some(x) && x@ == o,
            None => res is None,
        },
{
    let (arena_name, rest) = split_once(name, 0x24)?;
    let (ent, id) = match split_once(rest, 0x5f) {
        Some((a, b)) => (a, b),
        None => (rest, "None"),
    };
    let mut reason = String::from_str("Init (id ");
    reason.append(id);
    reason.append(")");
    proof {
        vstd::utf8::encode_utf8_decode_utf8(id@);
    }
    Some(CmiCallOrigin { arena_name, source_name: ent, target_name: ent, reason, source_offset: 0 })
}

fn make_setup_origin<'a>(name: &'a str) -> (res: Option<CmiCallOrigin<'a>>)
    requires
        is_text(name.spec_bytes()),
    ensures
        match setup_origin(name.spec_bytes()) {
            Some(o) => res matches Some(x) && x@ == o,
            None => res is None,
        },
{
    let (arena_name, rest) = split_once(name, 0x24)?;
    Some(
        CmiCallOrigin {
            arena_name,
            source_name: rest,
            target_name: rest,
            reason: String::from_str("Setup"),
            source_offset: 0,
        },
    )
}

fn read_script_item<'a>(r: &mut Reader<'a>, init: bool) -> (res: Option<(u32, CmiCallOrigin<'a>)>)
    ensures
        final(r).data() == old(r).data(),
        match script_item_at(old(r).data(), old(r).pos(), init) {
            Some((item, q)) => res matches Some((off, o)) && (off, o@) == item && final(r).pos() == q,
            None => res is None,
        },
{
    proof {
        lemma_text_at_is_text(r.data(), r.pos());
    }
    let name = read_text(r)?;
    let off = read_value::<u32>(r)?;
    if off == 0 {
        return None;
    }
    let origin = if init {
        make_init_origin(name)?
    } else {
        make_setup_origin(name)?
    };
    Some((off, origin))
}

#[verifier::rlimit(30)]
fn read_script_items<'a>(e: &Reader<'a>, p: usize, init: bool) -> (res: Option<(Vec<(u32, CmiCallOrigin<'a>)>, usize)>)
    ensures
        match script_items_at(e.data(), p as int, init) {
            Some((v, end)) => res matches Some((x, pos)) && items_view(x@) == v && pos == end,
            None => res is None,
        },
{
    let ghost d = e.data();
    let mut r = e.clone_at(p);
    let n = read_value::<u32>(&mut r)?;
    let ghost target = script_items_at(d, p as int, init);
    let mut out: Vec<(u32, CmiCallOrigin<'a>)> = Vec::new();
    let mut i: u32 = 0;
    assert(target == match script_items_from(d, r.pos(), n as int, 0, init) {
        Some((rest, end)) => Some((items_view(out@) + rest, end)),
        None => None,
    }) by {
        if let Some((rest, end)) = target {
            assert(items_view(out@) + rest =~= rest);
        }
    }
    while i < n
        invariant
            r.data() == d,
            d == e.data(),
            i <= n,
            target == script_items_at(d, p as int, init),
            target == match script_items_from(d, r.pos(), n as int, i as int, init) {
                Some((rest, end)) => Some((items_view(out@) + rest, end)),
                None => None,
            },
        decreases n - i,
    {
        let (off, origin) = match read_script_item(&mut r, init) {
            Some(x) => x,
            None => return None,
        };
        let ghost before = items_view(out@);
        let ghost item = (off, origin@);
        out.push((off, origin));
        proof {
            assert(items_view(out@) =~= before.push(item));
            if let Some((rest, end)) = script_items_from(d, r.pos(), n as int, i + 1, init) {
                assert(before + (seq![item] + rest) =~= before.push(item) + rest);
            }
        }
        i = i + 1;
    }
    assert(items_view(out@) + Seq::<(u32, OriginV)>::empty() =~= items_view(out@));
    Some((out, r.position()))
}

/// Where an entity's mesh is: its offset, and whether it is a multi-mesh.
#[derive(Clone, Copy, Debug, PartialEq, Eq, Structural)]
pub struct MeshRef {
    pub offset: usize,
    pub multimesh: bool,
}

/// A mesh table entry at `p`: a name and an offset (0 for none); a mesh
/// starts with a flag word of 0 or 1.
pub open spec fn mesh_item_at(e: Seq<u8>, p: int) -> Option<((Seq<u8>, Option<MeshRef>), int)> {
    match text_at(e, p) {
        Some((name, q)) => match value_at::<u32>(e, q) {
            Some((off, q2)) => if off == 0 {
                Some(((name, None), q2))
            } else {
                match value_at::<u32>(e, off as int) {
                    Some((v, _)) => if v <= 1 {
                        Some(((name, Some(MeshRef { offset: off as usize, multimesh: v != 0 })), q2))
                    } else {
                        None
                    },
                    None => None,
                }
            },
            None => None,
        },
        None => None,
    }
}

/// A mesh table entry is a name prefixed by its length byte, then a 32-bit
/// offset: 0 for no mesh, otherwise the place of a mesh whose first word is
/// 0 (one part) or 1 (several parts).
pub proof fn lemma_mesh_item(e: Seq<u8>, p: int)
    requires
        0 <= p < e.len(),
    ensures
        mesh_item_at(e, p) matches Some(((name, r), q)) ==> {
            let off = word_le(e, p + 1 + e[p]);
            &&& q == p + 1 + e[p] + 4
            &&& (off == 0 <==> r is None)
            &&& r matches Some(m) ==> m.offset == off && word_le(e, off) <= 1 && (m.multimesh <==> word_le(e, off)
                == 1)
        },
{
}

pub open spec fn mesh_items_from(e: Seq<u8>, p: int, n: int, i: int) -> Option<
    (Seq<(Seq<u8>, Option<MeshRef>)>, int),
>
    decreases n - i,
{
    if i >= n {
        Some((Seq::empty(), p))
    } else {
        match mesh_item_at(e, p) {
            Some((item, q)) => match mesh_items_from(e, q, n, i + 1) {
                Some((rest, end)) => Some((seq![item] + rest, end)),
                None => None,
            },
            None => None,
        }
    }
}

/// The mesh table at `p`: a count, then the entries, whose names must differ.
pub open spec fn mesh_items_at(e: Seq<u8>, p: int) -> Option<(Seq<(Seq<u8>, Option<MeshRef>)>, int)> {
    match value_at::<u32>(e, p) {
        Some((n, q)) => match mesh_items_from(e, q, n as int, 0) {
            Some((v, end)) => if forall|i: int, j: int| 0 <= i < j < v.len() ==> v[i].0 != v[j].0 {
                Some((v, end))
            } else {
                None
            },
            None => None,
        },
        None => None,
    }
}

pub open spec fn meshes_view(v: Seq<(&str, Option<MeshRef>)>) -> Seq<(Seq<u8>, Option<MeshRef>)> {
    v.map_values(|x: (&str, Option<MeshRef>)| (x.0.spec_bytes(), x.1))
}

fn read_mesh_item<'a>(e: &Reader<'a>, r: &mut Reader<'a>) -> (res: Option<(&'a str, Option<MeshRef>)>)
    requires
        old(r).data() == e.data(),
    ensures
        final(r).data() == old(r).data(),
        match mesh_item_at(old(r).data(), old(r).pos()) {
            Some((item, q)) => res matches Some((n, m)) && (n.spec_bytes(), m) == item && final(r).pos() == q,
            None => res is None,
        },
{
    let name = read_text(r)?;
    let off = read_value::<u32>(r)?;
    if off == 0 {
        return Some((name, None));
    }
    let mut m = e.clone_at(off as usize);
    let v = read_value::<u32>(&mut m)?;
    if v > 1 {
        return None;
    }
    Some((name, Some(MeshRef { offset: off as usize, multimesh: v != 0 })))
}

fn read_mesh_items<'a>(e: &Reader<'a>, p: usize) -> (res: Option<(Vec<(&'a str, Option<MeshRef>)>, usize)>)
    ensures
        match mesh_items_at(e.data(), p as int) {
            Some((v, end)) => res matches Some((x, pos)) && meshes_view(x@) == v && pos == end,
            None => res is None,
        },
{
    let ghost d = e.data();
    let mut r = e.clone_at(p);
    let n = read_value::<u32>(&mut r)?;
    let ghost q0 = r.pos();
    let ghost target = mesh_items_from(d, q0, n as int, 0);
    let mut out: Vec<(&'a str, Option<MeshRef>)> = Vec::new();
    let mut i: u32 = 0;
    assert(target == match mesh_items_from(d, r.pos(), n as int, 0) {
        Some((rest, end)) => Some((meshes_view(out@) + rest, end)),
        None => None,
    }) by {
        if let Some((rest, end)) = target {
            assert(meshes_view(out@) + rest =~= rest);
        }
    }
    while i < n
        invariant
            r.data() == d,
            d == e.data(),
            i <= n,
            value_at::<u32>(d, p as int) == Some((n, q0)),
            target == mesh_items_from(d, q0, n as int, 0),
            target == match mesh_items_from(d, r.pos(), n as int, i as int) {
                Some((rest, end)) => Some((meshes_view(out@) + rest, end)),
                None => None,
            },
        decreases n - i,
    {
        let item = match read_mesh_item(e, &mut r) {
            Some(x) => x,
            None => return None,
        };
        let ghost before = meshes_view(out@);
        let ghost iv = (item.0.spec_bytes(), item.1);
        out.push(item);
        proof {
            assert(meshes_view(out@) =~= before.push(iv));
            if let Some((rest, end)) = mesh_items_from(d, r.pos(), n as int, i + 1) {
                assert(before + (seq![iv] + rest) =~= before.push(iv) + rest);
            }
        }
        i = i + 1;
    }
    assert(meshes_view(out@) + Seq::<(Seq<u8>, Option<MeshRef>)>::empty() =~= meshes_view(out@));
    let ghost mv = meshes_view(out@);
    let ghost pe = r.pos();
    assert(mesh_items_from(d, q0, n as int, 0) == Some((mv, pe)));
    let mut a: usize = 0;
    while a < out.len()
        invariant
            0 <= a <= out@.len(),
            mv == meshes_view(out@),
            value_at::<u32>(d, p as int) == Some((n, q0)),
            mesh_items_from(d, q0, n as int, 0) == Some((mv, pe)),
            r.pos() == pe,
            d == e.data(),
            forall|x: int, y: int| 0 <= x < y < mv.len() && x < a ==> mv[x].0 != mv[y].0,
        decreases out@.len() - a,
    {
        let mut b = a + 1;
        while b < out.len()
            invariant
                a < b <= out@.len(),
                mv == meshes_view(out@),
                value_at::<u32>(d, p as int) == Some((n, q0)),
                mesh_items_from(d, q0, n as int, 0) == Some((mv, pe)),
                r.pos() == pe,
                d == e.data(),
                forall|x: int, y: int| 0 <= x < y < mv.len() && x < a ==> mv[x].0 != mv[y].0,
                forall|y: int| a < y < b ==> mv[a as int].0 != mv[y].0,
            decreases out@.len() - b,
        {
            if crate::text::bytes_eq(out[a].0.as_bytes(), out[b].0.as_bytes()) {
                assert(mv[a as int].0 == mv[b as int].0);
                return None;
            }
            b = b + 1;
        }
        a = a + 1;
    }
    Some((out, r.position()))
}

/// An arena table entry at `p`: a name and the offset of its record, which
/// holds two music names (the first empty or "NONE") and a script offset.
pub open spec fn arena_item_at(e: Seq<u8>, p: int) -> Option<((Seq<u8>, Seq<u8>, u32), int)> {
    match text_at(e, p) {
        Some((name, q)) => match value_at::<u32>(e, q) {
            Some((off, q2)) => match text_at(e, off as int) {
                Some((m1, r1)) => match text_at(e, r1) {
                    Some((m2, r2)) => match value_at::<u32>(e, r2) {
                        Some((script, _)) => if m1.len() == 0 || m1 == "NONE".spec_bytes() {
                            Some(((name, m2, script), q2))
                        } else {
                            None
                        },
                        None => None,
                    },
                    None => None,
                },
                None => None,
            },
            None => None,
        },
        None => None,
    }
}

/// An arena table entry is a name prefixed by its length byte and a 32-bit
/// offset; the record there holds a first music name (empty or "NONE"), the
/// music name that is kept, each prefixed by its length byte, then the
/// 32-bit offset of the arena's script.
pub proof fn lemma_arena_item(e: Seq<u8>, p: int)
    requires
        0 <= p < e.len(),
    ensures
        arena_item_at(e, p) matches Some(((name, music, script), q)) ==> {
            let off = word_le(e, p + 1 + e[p]);
            let r1 = off + 1 + e[off];
            let r2 = r1 + 1 + e[r1];
            &&& q == p + 1 + e[p] + 4
            &&& script as int == word_le(e, r2)
        },
{
}

pub open spec fn arena_items_from(e: Seq<u8>, p: int, n: int, i: int) -> Option<Seq<(Seq<u8>, Seq<u8>, u32)>>
    decreases n - i,
{
    if i >= n {
        Some(Seq::empty())
    } else {
        match arena_item_at(e, p) {
            Some((item, q)) => match arena_items_from(e, q, n, i + 1) {
                Some(rest) => Some(seq![item] + rest),
                None => None,
            },
            None => None,
        }
    }
}

pub open spec fn arena_items_at(e: Seq<u8>, p: int) -> Option<Seq<(Seq<u8>, Seq<u8>, u32)>> {
    match value_at::<u32>(e, p) {
        Some((n, q)) => arena_items_from(e, q, n as int, 0),
        None => None,
    }
}

pub open spec fn arena_items_view(v: Seq<(&str, &str, u32)>) -> Seq<(Seq<u8>, Seq<u8>, u32)> {
    v.map_values(|x: (&str, &str, u32)| (x.0.spec_bytes(), x.1.spec_bytes(), x.2))
}

fn read_arena_item<'a>(e: &Reader<'a>, r: &mut Reader<'a>) -> (res: Option<(&'a str, &'a str, u32)>)
    requires
        old(r).data() == e.data(),
    ensures
        final(r).data() == old(r).data(),
        match arena_item_at(old(r).data(), old(r).pos()) {
            Some((item, q)) => res matches Some((a, b, c)) && (a.spec_bytes(), b.spec_bytes(), c) == item
                && final(r).pos() == q,
            None => res is None,
        },
{
    let name = read_text(r)?;
    let off = read_value::<u32>(r)?;
    let mut ar = e.clone_at(off as usize);
    let m1 = read_text(&mut ar)?;
    let m2 = read_text(&mut ar)?;
    let script = read_value::<u32>(&mut ar)?;
    if !(m1.as_bytes().len() == 0 || crate::text::bytes_eq(m1.as_bytes(), "NONE".as_bytes())) {
        return None;
    }
    Some((name, m2, script))
}

fn read_arena_items<'a>(e: &Reader<'a>, p: usize) -> (res: Option<Vec<(&'a str, &'a str, u32)>>)
    ensures
        match arena_items_at(e.data(), p as int) {
            Some(v) => res matches Some(x) && arena_items_view(x@) == v,
            None => res is None,
        },
{
    let ghost d = e.data();
    let mut r = e.clone_at(p);
    let n = read_value::<u32>(&mut r)?;
    let ghost target = arena_items_at(d, p as int);
    let mut out: Vec<(&'a str, &'a str, u32)> = Vec::new();
    let mut i: u32 = 0;
    assert(target == match arena_items_from(d, r.pos(), n as int, 0) {
        Some(rest) => Some(arena_items_view(out@) + rest),
        None => None,
    }) by {
        if let Some(rest) = target {
            assert(arena_items_view(out@) + rest =~= rest);
        }
    }
    while i < n
        invariant
            r.data() == d,
            d == e.data(),
            i <= n,
            target == arena_items_at(d, p as int),
            target == match arena_items_from(d, r.pos(), n as int, i as int) {
                Some(rest) => Some(arena_items_view(out@) + rest),
                None => None,
            },
        decreases n - i,
    {
        let item = match read_arena_item(e, &mut r) {
            Some(x) => x,
            None => return None,
        };
        let ghost before = arena_items_view(out@);
        let ghost iv = (item.0.spec_bytes(), item.1.spec_bytes(), item.2);
        out.push(item);
        proof {
            assert(arena_items_view(out@) =~= before.push(iv));
            if let Some(rest) = arena_items_from(d, r.pos(), n as int, i + 1) {
                assert(before + (seq![iv] + rest) =~= before.push(iv) + rest);
            }
        }
        i = i + 1;
    }
    assert(arena_items_view(out@) + Seq::<(Seq<u8>, Seq<u8>, u32)>::empty() =~= arena_items_view(out@));
    Some(out)
}

// ---------------------------------------------------------------------------
// The order of call origins

/// Origins in the order of their fields: arena, source, target, reason (as
/// bytes), then source offset.
pub open spec fn origin_lt(a: OriginV, b: OriginV) -> bool {
    let (ra, rb) = (vstd::utf8::encode_utf8(a.reason), vstd::utf8::encode_utf8(b.reason));
    if a.arena_name != b.arena_name {
        bytes_lt(a.arena_name, b.arena_name)
    } else if a.source_name != b.source_name {
        bytes_lt(a.source_name, b.source_name)
    } else if a.target_name != b.target_name {
        bytes_lt(a.target_name, b.target_name)
    } else if ra != rb {
        bytes_lt(ra, rb)
    } else {
        a.source_offset < b.source_offset
    }
}

pub open spec fn origin_order() -> spec_fn(OriginV, OriginV) -> bool {
    |a: OriginV, b: OriginV| origin_lt(a, b)
}

/// One step of a lexicographic comparison: where the first of three byte
/// strings differing from the next comes before it, the first and last differ
/// in that order.
proof fn lemma_lex_step(a: Seq<u8>, b: Seq<u8>, c: Seq<u8>)
    requires
        a != b ==> bytes_lt(a, b),
        b != c ==> bytes_lt(b, c),
        a != b || b != c,
    ensures
        a != c,
        bytes_lt(a, c),
{
    if a != b && b != c {
        lemma_bytes_lt_transitive(a, b, c);
        if a == c {
            lemma_bytes_lt_asymmetric(a, b);
        }
    }
    if a == c {
        lemma_bytes_lt_irreflexive(a);
    }
}

/// Compares two byte strings: -1, 0 or 1.
fn bytes_cmp3(a: &[u8], b: &[u8]) -> (r: i8)
    ensures
        r == 0 <==> a@ == b@,
        r < 0 <==> bytes_lt(a@, b@),
        r > 0 <==> bytes_lt(b@, a@),
{
    if bytes_less(a, b) {
        proof {
            lemma_bytes_lt_asymmetric(a@, b@);
            if a@ == b@ {
                lemma_bytes_lt_irreflexive(a@);
            }
        }
        -1
    } else if bytes_less(b, a) {
        proof {
            if a@ == b@ {
                lemma_bytes_lt_irreflexive(a@);
            }
        }
        1
    } else {
        proof {
            lemma_bytes_lt_total(a@, b@);
        }
        0
    }
}

impl<'a> SortKey for CmiCallOrigin<'a> {
    open spec fn key_lt(self, other: Self) -> bool {
        origin_lt(self@, other@)
    }

    proof fn lemma_irreflexive(a: Self) {
    }

    proof fn lemma_transitive(a: Self, b: Self, c: Self) {
        let (x, y, z) = (a@, b@, c@);
        let (rx, ry, rz) = (
            vstd::utf8::encode_utf8(x.reason),
            vstd::utf8::encode_utf8(y.reason),
            vstd::utf8::encode_utf8(z.reason),
        );
        if x.arena_name != y.arena_name || y.arena_name != z.arena_name {
            lemma_lex_step(x.arena_name, y.arena_name, z.arena_name);
        } else if x.source_name != y.source_name || y.source_name != z.source_name {
            lemma_lex_step(x.source_name, y.source_name, z.source_name);
        } else if x.target_name != y.target_name || y.target_name != z.target_name {
            lemma_lex_step(x.target_name, y.target_name, z.target_name);
        } else if rx != ry || ry != rz {
            lemma_lex_step(rx, ry, rz);
        }
    }

    proof fn lemma_asymmetric(a: Self, b: Self) {
        let (x, y) = (a@, b@);
        let (rx, ry) = (vstd::utf8::encode_utf8(x.reason), vstd::utf8::encode_utf8(y.reason));
        if x.arena_name != y.arena_name && bytes_lt(x.arena_name, y.arena_name) {
            lemma_bytes_lt_asymmetric(x.arena_name, y.arena_name);
        }
        if x.source_name != y.source_name && bytes_lt(x.source_name, y.source_name) {
            lemma_bytes_lt_asymmetric(x.source_name, y.source_name);
        }
        if x.target_name != y.target_name && bytes_lt(x.target_name, y.target_name) {
            lemma_bytes_lt_asymmetric(x.target_name, y.target_name);
        }
        if rx != ry && bytes_lt(rx, ry) {
            lemma_bytes_lt_asymmetric(rx, ry);
        }
    }

    fn less(&self, other: &Self) -> (r: bool) {
        let c = bytes_cmp3(self.arena_name.as_bytes(), other.arena_name.as_bytes());
        if c != 0 {
            return c < 0;
        }
        let c = bytes_cmp3(self.source_name.as_bytes(), other.source_name.as_bytes());
        if c != 0 {
            return c < 0;
        }
        let c = bytes_cmp3(self.target_name.as_bytes(), other.target_name.as_bytes());
        if c != 0 {
            return c < 0;
        }
        let c = bytes_cmp3(self.reason.as_str().as_bytes(), other.reason.as_str().as_bytes());
        if c != 0 {
            return c < 0;
        }
        self.source_offset < other.source_offset
    }
}

// ---------------------------------------------------------------------------
// Following the calls

/// The names of named entries.
pub open spec fn first_names<T>(s: Seq<(Seq<u8>, T)>) -> Seq<Seq<u8>> {
    s.map_values(|x: (Seq<u8>, T)| x.0)
}

pub open spec fn str_names<T>(s: Seq<(&str, T)>) -> Seq<Seq<u8>> {
    s.map_values(|x: (&str, T)| x.0.spec_bytes())
}

/// The place of the first name that is `name`.
pub open spec fn find_name(s: Seq<Seq<u8>>, name: Seq<u8>) -> Option<int>
    decreases s.len(),
{
    if s.len() == 0 {
        None
    } else if s[0] == name {
        Some(0)
    } else {
        match find_name(s.drop_first(), name) {
            Some(i) => Some(i + 1),
            None => None,
        }
    }
}

/// The place of the first script at `off`.
pub open spec fn find_offset(s: Seq<(u32, Seq<BlockV>)>, off: u32) -> Option<int>
    decreases s.len(),
{
    if s.len() == 0 {
        None
    } else if s[0].0 == off {
        Some(0)
    } else {
        match find_offset(s.drop_first(), off) {
            Some(i) => Some(i + 1),
            None => None,
        }
    }
}

/// Values tagged with the place of their owner.
pub open spec fn tagged<A>(i: int, v: Seq<A>) -> Seq<(int, A)> {
    v.map_values(|x: A| (i, x))
}

/// The state of following the calls: the scripts found so far, the
/// entities and arenas, what has been recorded for each (as values tagged
/// with the owner's place), and the calls still to follow.
pub struct StateV {
    pub scripts: Seq<(u32, Seq<BlockV>)>,
    pub ents: Seq<(Seq<u8>, Option<MeshRef>)>,
    pub arenas: Seq<(Seq<u8>, Seq<u8>)>,
    pub origins: Seq<(int, OriginV)>,
    pub ent_names: Seq<(int, Seq<u8>)>,
    pub ent_anims: Seq<(int, u32)>,
    pub ent_splines: Seq<(int, u32)>,
    pub ent_scripts: Seq<(int, u32)>,
    pub ent_arenas: Seq<(int, Seq<u8>)>,
    pub arena_ents: Seq<(int, Seq<u8>)>,
    pub stack: Seq<(u32, OriginV)>,
}

/// The calls that a script found at `target` makes, as calls to follow:
/// each keeps the caller's arena and names the caller's entity as its source.
pub open spec fn call_items(bs: Seq<BlockV>, origin: OriginV, target: u32) -> Seq<(u32, OriginV)> {
    sorted_of(calls_in(all_instrs(bs)), called_order()).map_values(
        |c: CalledV| call_item(c, origin, target),
    )
}

/// A call of the script at `target`, run for `origin`, as a call to follow.
pub open spec fn call_item(c: CalledV, origin: OriginV, target: u32) -> (u32, OriginV) {
    (
        c.target_offset,
        OriginV {
            arena_name: origin.arena_name,
            source_name: origin.target_name,
            target_name: c.target_name,
            reason: c.reason.text(),
            source_offset: target,
        },
    )
}

/// Records that script number `k` (with blocks `bs`, at `target`) runs for
/// `origin`: the entity gets the script's animations and paths, the script,
/// and the arena; the arena gets the entity unless they share a name, and
/// such an arena must exist; the script gets the origin.
pub open spec fn record(st: StateV, k: int, bs: Seq<BlockV>, target: u32, origin: OriginV) -> Option<StateV> {
    let (ents1, ei) = match find_name(first_names(st.ents), origin.target_name) {
        Some(i) => (st.ents, i),
        None => (st.ents.push((origin.target_name, None)), st.ents.len() as int),
    };
    let is = all_instrs(bs);
    let base = StateV {
        ents: ents1,
        origins: st.origins.push((k, origin)),
        ent_names: st.ent_names + tagged(ei, sorted_of(anim_names_in(is), bytes_order())),
        ent_anims: st.ent_anims + tagged(ei, sorted_of(anim_offsets_in(is), u32_order())),
        ent_splines: st.ent_splines + tagged(ei, sorted_of(paths_in(is), u32_order())),
        ent_scripts: st.ent_scripts.push((ei, target)),
        ent_arenas: st.ent_arenas.push((ei, origin.arena_name)),
        ..st
    };
    if origin.target_name != origin.arena_name {
        match find_name(first_names(st.arenas), origin.arena_name) {
            Some(ai) => Some(StateV { arena_ents: base.arena_ents.push((ai, origin.target_name)), ..base }),
            None => None,
        }
    } else {
        Some(base)
    }
}

/// Follows the calls until none is left, last call first. A script met for
/// the first time is decoded and its calls are added; scripts have distinct
/// offsets inside the data (or 0), so there are never more of them than bytes.
pub open spec fn explore(e: Seq<u8>, st: StateV) -> Option<StateV>
    decreases e.len() + 1 - st.scripts.len(), st.stack.len(),
{
    if st.stack.len() == 0 {
        Some(st)
    } else {
        let (target, origin) = st.stack.last();
        let st1 = StateV { stack: st.stack.drop_last(), ..st };
        match find_offset(st.scripts, target) {
            Some(k) => match record(st1, k, st.scripts[k].1, target, origin) {
                Some(st2) => explore(e, st2),
                None => None,
            },
            None => if st.scripts.len() >= e.len() + 1 {
                None
            } else {
                match script_blocks(e, target as int) {
                    Some(bs) => {
                        let st1b = StateV {
                            scripts: st.scripts.push((target, bs)),
                            stack: st1.stack + call_items(bs, origin, target),
                            ..st1
                        };
                        match record(st1b, st.scripts.len() as int, bs, target, origin) {
                            Some(st2) => explore(e, st2),
                            None => None,
                        }
                    },
                    None => None,
                }
            },
        }
    }
}

pub open spec fn tags_u32(v: Seq<(usize, u32)>) -> Seq<(int, u32)> {
    v.map_values(|x: (usize, u32)| (x.0 as int, x.1))
}

pub open spec fn tags_str(v: Seq<(usize, &str)>) -> Seq<(int, Seq<u8>)> {
    v.map_values(|x: (usize, &str)| (x.0 as int, x.1.spec_bytes()))
}

pub open spec fn tags_origin(v: Seq<(usize, CmiCallOrigin)>) -> Seq<(int, OriginV)> {
    v.map_values(|x: (usize, CmiCallOrigin)| (x.0 as int, x.1@))
}

pub open spec fn stack_view(v: Seq<(u32, CmiCallOrigin)>) -> Seq<(u32, OriginV)> {
    v.map_values(|x: (u32, CmiCallOrigin)| (x.0, x.1@))
}

pub open spec fn names2_view(v: Seq<(&str, &str)>) -> Seq<(Seq<u8>, Seq<u8>)> {
    v.map_values(|x: (&str, &str)| (x.0.spec_bytes(), x.1.spec_bytes()))
}

fn push_tagged_u32(v: &mut Vec<(usize, u32)>, i: usize, src: &Vec<u32>)
    ensures
        tags_u32(final(v)@) == tags_u32(old(v)@) + tagged(i as int, src@),
{
    let mut k: usize = 0;
    while k < src.len()
        invariant
            0 <= k <= src@.len(),
            tags_u32(v@) == tags_u32(old(v)@) + tagged(i as int, src@.take(k as int)),
        decreases src@.len() - k,
    {
        let ghost before = tags_u32(v@);
        v.push((i, src[k]));
        proof {
            assert(tags_u32(v@) =~= before.push((i as int, src@[k as int])));
            assert(tagged(i as int, src@.take(k + 1)) =~= tagged(i as int, src@.take(k as int)).push(
                (i as int, src@[k as int]),
            ));
        }
        k = k + 1;
    }
    assert(src@.take(k as int) =~= src@);
}

fn push_tagged_str<'a>(v: &mut Vec<(usize, &'a str)>, i: usize, src: &Vec<&'a str>)
    ensures
        tags_str(final(v)@) == tags_str(old(v)@) + tagged(
            i as int,
            crate::data_formats::cmi_operands::texts_view(src@),
        ),
{
    let ghost tv = crate::data_formats::cmi_operands::texts_view(src@);
    let mut k: usize = 0;
    while k < src.len()
        invariant
            0 <= k <= src@.len(),
            tv == crate::data_formats::cmi_operands::texts_view(src@),
            tags_str(v@) == tags_str(old(v)@) + tagged(i as int, tv.take(k as int)),
        decreases src@.len() - k,
    {
        let ghost before = tags_str(v@);
        v.push((i, src[k]));
        proof {
            assert(tags_str(v@) =~= before.push((i as int, tv[k as int])));
            assert(tagged(i as int, tv.take(k + 1)) =~= tagged(i as int, tv.take(k as int)).push(
                (i as int, tv[k as int]),
            ));
        }
        k = k + 1;
    }
    assert(tv.take(k as int) =~= tv);
}

/// The place of the first entry named `name`.
fn find_named<'a, T>(s: &Vec<(&'a str, T)>, name: &str) -> (r: Option<usize>)
    ensures
        match r {
            Some(i) => find_name(str_names(s@), name.spec_bytes()) == Some(i as int) && i < s@.len(),
            None => find_name(str_names(s@), name.spec_bytes()) is None,
        },
{
    let ghost v = str_names(s@);
    let mut i: usize = 0;
    assert(v.skip(0) =~= v);
    while i < s.len()
        invariant
            0 <= i <= s@.len(),
            v == str_names(s@),
            find_name(v, name.spec_bytes()) == match find_name(v.skip(i as int), name.spec_bytes()) {
                Some(j) => Some(j + i),
                None => None,
            },
        decreases s@.len() - i,
    {
        assert(v.skip(i as int)[0] == v[i as int]);
        assert(v.skip(i as int).drop_first() =~= v.skip(i + 1));
        if crate::text::bytes_eq(s[i].0.as_bytes(), name.as_bytes()) {
            return Some(i);
        }
        i = i + 1;
    }
    assert(v.skip(i as int).len() == 0);
    None
}

/// What has been found while following the calls; `holds` ties it to a
/// `StateV`.
pub struct Explore<'a> {
    pub scripts: Vec<(u32, CmiScript<'a>)>,
    pub ents: Vec<(&'a str, Option<MeshRef>)>,
    pub arenas: Vec<(&'a str, &'a str)>,
    pub origins: Vec<(usize, CmiCallOrigin<'a>)>,
    pub ent_names: Vec<(usize, &'a str)>,
    pub ent_anims: Vec<(usize, u32)>,
    pub ent_splines: Vec<(usize, u32)>,
    pub ent_scripts: Vec<(usize, u32)>,
    pub ent_arenas: Vec<(usize, &'a str)>,
    pub arena_ents: Vec<(usize, &'a str)>,
    pub stack: Vec<(u32, CmiCallOrigin<'a>)>,
}

impl<'a> Explore<'a> {
    pub open spec fn holds(&self, st: StateV) -> bool {
        &&& self.scripts@.len() == st.scripts.len()
        &&& forall|q: int|
            0 <= q < st.scripts.len() ==> (#[trigger] self.scripts@[q]).0 == st.scripts[q].0
                && self.scripts@[q].1.describes(st.scripts[q].1)
        &&& meshes_view(self.ents@) == st.ents
        &&& names2_view(self.arenas@) == st.arenas
        &&& tags_origin(self.origins@) == st.origins
        &&& tags_str(self.ent_names@) == st.ent_names
        &&& tags_u32(self.ent_anims@) == st.ent_anims
        &&& tags_u32(self.ent_splines@) == st.ent_splines
        &&& tags_u32(self.ent_scripts@) == st.ent_scripts
        &&& tags_str(self.ent_arenas@) == st.ent_arenas
        &&& tags_str(self.arena_ents@) == st.arena_ents
        &&& stack_view(self.stack@) == st.stack
    }

    /// Records that script `k` at `target` runs for `origin`.
    #[verifier::rlimit(40)]
    fn record_exec(&mut self, k: usize, target: u32, origin: CmiCallOrigin<'a>, Ghost(st): Ghost<StateV>) -> (ok: bool)
        requires
            old(self).holds(st),
            k < st.scripts.len(),
        ensures
            match record(st, k as int, st.scripts[k as int].1, target, origin@) {
                Some(st2) => ok && final(self).holds(st2),
                None => !ok,
            },
    {
        let ghost bs = st.scripts[k as int].1;
        let ghost is = all_instrs(bs);
        let ghost ov = origin@;
        let ghost ents0 = self.ents@;
        assert(first_names(meshes_view(ents0)) =~= str_names(ents0));
        let ei = match find_named(&self.ents, origin.target_name) {
            Some(i) => i,
            None => {
                self.ents.push((origin.target_name, None));
                assert(meshes_view(self.ents@) =~= st.ents.push((ov.target_name, None)));
                self.ents.len() - 1
            },
        };
        proof {
            lemma_bytes_order_total();
            lemma_u32_order_total();
            let sc = self.scripts@[k as int].1;
            assert(sc.describes(bs));
            lemma_sorted_of(crate::data_formats::cmi_operands::texts_view(sc.anim_names@), anim_names_in(is), bytes_order());
            lemma_sorted_of(sc.anim_offsets@, anim_offsets_in(is), u32_order());
            lemma_sorted_of(sc.path_offsets@, paths_in(is), u32_order());
        }
        push_tagged_str(&mut self.ent_names, ei, &self.scripts[k].1.anim_names);
        push_tagged_u32(&mut self.ent_anims, ei, &self.scripts[k].1.anim_offsets);
        push_tagged_u32(&mut self.ent_splines, ei, &self.scripts[k].1.path_offsets);
        let ghost s0 = tags_u32(self.ent_scripts@);
        self.ent_scripts.push((ei, target));
        assert(tags_u32(self.ent_scripts@) =~= s0.push((ei as int, target)));
        let ghost a0 = tags_str(self.ent_arenas@);
        self.ent_arenas.push((ei, origin.arena_name));
        assert(tags_str(self.ent_arenas@) =~= a0.push((ei as int, ov.arena_name)));
        if !crate::text::bytes_eq(origin.target_name.as_bytes(), origin.arena_name.as_bytes()) {
            assert(first_names(names2_view(self.arenas@)) =~= str_names(self.arenas@));
            match find_named(&self.arenas, origin.arena_name) {
                Some(ai) => {
                    let ghost b0 = tags_str(self.arena_ents@);
                    self.arena_ents.push((ai, origin.target_name));
                    assert(tags_str(self.arena_ents@) =~= b0.push((ai as int, ov.target_name)));
                },
                None => return false,
            }
        }
        let ghost o0 = tags_origin(self.origins@);
        self.origins.push((k, origin));
        assert(tags_origin(self.origins@) =~= o0.push((k as int, ov)));
        true
    }
}

fn find_script(scripts: &Vec<(u32, CmiScript)>, off: u32, Ghost(ss): Ghost<Seq<(u32, Seq<BlockV>)>>) -> (r: Option<usize>)
    requires
        scripts@.len() == ss.len(),
        forall|k: int| 0 <= k < ss.len() ==> (#[trigger] scripts@[k]).0 == ss[k].0,
    ensures
        match r {
            Some(i) => find_offset(ss, off) == Some(i as int) && i < ss.len(),
            None => find_offset(ss, off) is None,
        },
{
    let mut i: usize = 0;
    assert(ss.skip(0) =~= ss);
    while i < scripts.len()
        invariant
            0 <= i <= ss.len(),
            scripts@.len() == ss.len(),
            forall|k: int| 0 <= k < ss.len() ==> (#[trigger] scripts@[k]).0 == ss[k].0,
            find_offset(ss, off) == match find_offset(ss.skip(i as int), off) {
                Some(j) => Some(j + i),
                None => None,
            },
        decreases ss.len() - i,
    {
        assert(ss.skip(i as int)[0] == ss[i as int]);
        assert(ss.skip(i as int).drop_first() =~= ss.skip(i + 1));
        if scripts[i].0 == off {
            return Some(i);
        }
        i = i + 1;
    }
    assert(ss.skip(i as int).len() == 0);
    None
}

/// The state once the script at `target`, met for the first time with the
/// blocks `bs`, is added and its calls are queued.
pub open spec fn with_script(st: StateV, target: u32, bs: Seq<BlockV>, origin: OriginV) -> StateV {
    StateV {
        scripts: st.scripts.push((target, bs)),
        stack: st.stack + call_items(bs, origin, target),
        ..st
    }
}

/// Decodes the script at `target` and queues the calls it makes.
#[verifier::rlimit(40)]
fn add_script<'a>(e: &Reader<'a>, state: &mut Explore<'a>, target: u32, origin: &CmiCallOrigin<'a>, Ghost(st): Ghost<StateV>) -> (ok: bool)
    requires
        old(state).holds(st),
    ensures
        match script_blocks(e.data(), target as int) {
            Some(bs) => ok && final(state).holds(with_script(st, target, bs, origin@)),
            None => !ok,
        },
{
    let ghost d = e.data();
    let ghost ov = origin@;
    let script = match CmiScript::try_parse(e.clone_at(target as usize)) {
        Some(s) => s,
        None => return false,
    };
    let ghost bs = script_blocks(d, target as int).unwrap();
    let ghost cv = script.called_scripts@.map_values(|c: crate::data_formats::cmi_bytecode::CmiCalledScript| c@);
    proof {
        crate::data_formats::cmi_bytecode::lemma_called_order_total();
        lemma_sorted_of(cv, calls_in(all_instrs(bs)), called_order());
    }
    let mut j: usize = 0;
    while j < script.called_scripts.len()
        invariant
            0 <= j <= script.called_scripts@.len(),
            cv == script.called_scripts@.map_values(|c: crate::data_formats::cmi_bytecode::CmiCalledScript| c@),
            ov == origin@,
            state.holds(StateV { stack: stack_view(state.stack@), ..st }),
            stack_view(state.stack@) == st.stack + cv.take(j as int).map_values(
                |c: CalledV| call_item(c, ov, target),
            ),
        decreases script.called_scripts@.len() - j,
    {
        let c = &script.called_scripts[j];
        let ghost before = stack_view(state.stack@);
        let item = (
            c.target_offset,
            CmiCallOrigin {
                arena_name: origin.arena_name,
                source_name: origin.target_name,
                target_name: c.target_name,
                reason: String::from_str(c.reason.as_str()),
                source_offset: target,
            },
        );
        state.stack.push(item);
        proof {
            assert(stack_view(state.stack@) =~= before.push(call_item(cv[j as int], ov, target)));
            assert(cv.take(j + 1).map_values(|c: CalledV| call_item(c, ov, target)) =~= cv.take(
                j as int,
            ).map_values(|c: CalledV| call_item(c, ov, target)).push(call_item(cv[j as int], ov, target)));
        }
        j = j + 1;
    }
    proof {
        assert(cv.take(j as int) =~= cv);
        assert(stack_view(state.stack@) =~= st.stack + call_items(bs, ov, target));
    }
    let n = state.scripts.len();
    let ghost old_sc = state.scripts@;
    let ghost st1b = with_script(st, target, bs, ov);
    state.scripts.push((target, script));
    proof {
        assert forall|q: int| 0 <= q < st1b.scripts.len() implies (#[trigger] state.scripts@[q]).0
            == st1b.scripts[q].0 && state.scripts@[q].1.describes(st1b.scripts[q].1) by {
            if q < n {
                assert(state.scripts@[q] == old_sc[q]);
                assert(st1b.scripts[q] == st.scripts[q]);
            }
        }
    }
    true
}

/// Follows the calls until none is left.
#[verifier::rlimit(40)]
fn explore_exec<'a>(e: &Reader<'a>, state: Explore<'a>, Ghost(st0): Ghost<StateV>) -> (res: Option<Explore<'a>>)
    requires
        state.holds(st0),
        st0.scripts.len() <= e.data().len() + 1,
    ensures
        match explore(e.data(), st0) {
            Some(stf) => res matches Some(x) && x.holds(stf),
            None => res is None,
        },
{
    let ghost d = e.data();
    let ghost goal = explore(d, st0);
    let mut state = state;
    let ghost mut st = st0;
    while state.stack.len() > 0
        invariant
            state.holds(st),
            goal == explore(d, st0),
            goal == explore(d, st),
            d == e.data(),
            st.scripts.len() <= d.len() + 1,
        decreases d.len() + 1 - st.scripts.len(), st.stack.len(),
    {
        let ghost sv = stack_view(state.stack@);
        let (target, origin) = state.stack.pop().unwrap();
        let ghost ov = origin@;
        let ghost mut st1 = StateV { stack: st.stack.drop_last(), ..st };
        proof {
            assert(stack_view(state.stack@) =~= sv.drop_last());
            assert(st.stack.last() == (target, ov));
            assert(state.holds(st1));
        }
        let k = match find_script(&state.scripts, target, Ghost(st.scripts)) {
            Some(k) => k,
            None => {
                if state.scripts.len() > e.len() {
                    return None;
                }
                let n = state.scripts.len();
                if !add_script(e, &mut state, target, &origin, Ghost(st1)) {
                    return None;
                }
                proof {
                    st1 = with_script(st1, target, script_blocks(d, target as int).unwrap(), ov);
                }
                n
            },
        };
        let ghost prev = st;
        let ok = state.record_exec(k, target, origin, Ghost(st1));
        if !ok {
            return None;
        }
        proof {
            st = record(st1, k as int, st1.scripts[k as int].1, target, ov).unwrap();
            assert(explore(d, prev) == explore(d, st));
        }
    }
    Some(state)
}

// ---------------------------------------------------------------------------
// Gathering per owner

/// The values tagged with `i`, in order.
pub open spec fn picks<A>(s: Seq<(int, A)>, i: int) -> Seq<A> {
    s.filter_map(|x: (int, A)| if x.0 == i { Some(x.1) } else { None })
}

pub open spec fn origins_view(v: Seq<CmiCallOrigin>) -> Seq<OriginV> {
    v.map_values(|o: CmiCallOrigin| o@)
}

fn pick_u32(v: &Vec<(usize, u32)>, i: usize) -> (r: Vec<u32>)
    ensures
        r@ == picks(tags_u32(v@), i as int),
{
    let ghost t = tags_u32(v@);
    let mut r: Vec<u32> = Vec::new();
    let mut k: usize = 0;
    while k < v.len()
        invariant
            0 <= k <= v@.len(),
            t == tags_u32(v@),
            r@ == picks(t.take(k as int), i as int),
        decreases v@.len() - k,
    {
        assert(t.take(k + 1).drop_last() =~= t.take(k as int));
        assert(t.take(k + 1).last() == t[k as int]);
        if v[k].0 == i {
            r.push(v[k].1);
        }
        k = k + 1;
    }
    assert(t.take(k as int) =~= t);
    r
}

fn pick_str<'a>(v: &Vec<(usize, &'a str)>, i: usize) -> (r: Vec<&'a str>)
    ensures
        crate::data_formats::cmi_operands::texts_view(r@) == picks(tags_str(v@), i as int),
{
    let ghost t = tags_str(v@);
    let mut r: Vec<&'a str> = Vec::new();
    let mut k: usize = 0;
    while k < v.len()
        invariant
            0 <= k <= v@.len(),
            t == tags_str(v@),
            crate::data_formats::cmi_operands::texts_view(r@) == picks(t.take(k as int), i as int),
        decreases v@.len() - k,
    {
        assert(t.take(k + 1).drop_last() =~= t.take(k as int));
        assert(t.take(k + 1).last() == t[k as int]);
        if v[k].0 == i {
            let ghost before = crate::data_formats::cmi_operands::texts_view(r@);
            r.push(v[k].1);
            assert(crate::data_formats::cmi_operands::texts_view(r@) =~= before + seq![t[k as int].1]);
        }
        k = k + 1;
    }
    assert(t.take(k as int) =~= t);
    r
}

fn copy_origin<'a>(o: &CmiCallOrigin<'a>) -> (r: CmiCallOrigin<'a>)
    ensures
        r@ == o@,
{
    CmiCallOrigin {
        arena_name: o.arena_name,
        source_name: o.source_name,
        target_name: o.target_name,
        reason: String::from_str(o.reason.as_str()),
        source_offset: o.source_offset,
    }
}

fn pick_origins<'a>(v: &Vec<(usize, CmiCallOrigin<'a>)>, i: usize) -> (r: Vec<CmiCallOrigin<'a>>)
    ensures
        origins_view(r@) == picks(tags_origin(v@), i as int),
{
    let ghost t = tags_origin(v@);
    let mut r: Vec<CmiCallOrigin<'a>> = Vec::new();
    let mut k: usize = 0;
    while k < v.len()
        invariant
            0 <= k <= v@.len(),
            t == tags_origin(v@),
            origins_view(r@) == picks(t.take(k as int), i as int),
        decreases v@.len() - k,
    {
        assert(t.take(k + 1).drop_last() =~= t.take(k as int));
        assert(t.take(k + 1).last() == t[k as int]);
        if v[k].0 == i {
            let ghost before = origins_view(r@);
            r.push(copy_origin(&v[k].1));
            assert(origins_view(r@) =~= before + seq![t[k as int].1]);
        }
        k = k + 1;
    }
    assert(t.take(k as int) =~= t);
    r
}

/// Two origins in the same place of the order are the same origin.
proof fn lemma_same_origin(a: CmiCallOrigin, b: CmiCallOrigin)
    requires
        same_key(a, b),
    ensures
        a@ == b@,
{
    let (x, y) = (a@, b@);
    if x.arena_name != y.arena_name {
        lemma_bytes_lt_total(x.arena_name, y.arena_name);
    }
    if x.source_name != y.source_name {
        lemma_bytes_lt_total(x.source_name, y.source_name);
    }
    if x.target_name != y.target_name {
        lemma_bytes_lt_total(x.target_name, y.target_name);
    }
    let (rx, ry) = (vstd::utf8::encode_utf8(x.reason), vstd::utf8::encode_utf8(y.reason));
    if rx != ry {
        lemma_bytes_lt_total(rx, ry);
    }
    vstd::utf8::encode_utf8_decode_utf8(x.reason);
    vstd::utf8::encode_utf8_decode_utf8(y.reason);
}

/// The order of origins is a strict total order.
pub proof fn lemma_origin_order_total()
    ensures
        strict_total(origin_order()),
{
    assert forall|x: OriginV| !(#[trigger] origin_order()(x, x)) by {
        lemma_bytes_lt_irreflexive(vstd::utf8::encode_utf8(x.reason));
    }
    assert forall|x: OriginV, y: OriginV, z: OriginV|
        #[trigger] origin_order()(x, y) && #[trigger] origin_order()(y, z) implies origin_order()(x, z) by {
        let (rx, ry, rz) = (
            vstd::utf8::encode_utf8(x.reason),
            vstd::utf8::encode_utf8(y.reason),
            vstd::utf8::encode_utf8(z.reason),
        );
        if x.arena_name != y.arena_name || y.arena_name != z.arena_name {
            lemma_lex_step(x.arena_name, y.arena_name, z.arena_name);
        } else if x.source_name != y.source_name || y.source_name != z.source_name {
            lemma_lex_step(x.source_name, y.source_name, z.source_name);
        } else if x.target_name != y.target_name || y.target_name != z.target_name {
            lemma_lex_step(x.target_name, y.target_name, z.target_name);
        } else if rx != ry || ry != rz {
            lemma_lex_step(rx, ry, rz);
        }
    }
    assert forall|x: OriginV, y: OriginV| x != y implies #[trigger] origin_order()(x, y) || origin_order()(y, x) by {
        if x.arena_name != y.arena_name {
            if !bytes_lt(x.arena_name, y.arena_name) && !bytes_lt(y.arena_name, x.arena_name) {
                lemma_bytes_lt_total(x.arena_name, y.arena_name);
            }
        } else if x.source_name != y.source_name {
            if !bytes_lt(x.source_name, y.source_name) && !bytes_lt(y.source_name, x.source_name) {
                lemma_bytes_lt_total(x.source_name, y.source_name);
            }
        } else if x.target_name != y.target_name {
            if !bytes_lt(x.target_name, y.target_name) && !bytes_lt(y.target_name, x.target_name) {
                lemma_bytes_lt_total(x.target_name, y.target_name);
            }
        } else {
            let (rx, ry) = (vstd::utf8::encode_utf8(x.reason), vstd::utf8::encode_utf8(y.reason));
            vstd::utf8::encode_utf8_decode_utf8(x.reason);
            vstd::utf8::encode_utf8_decode_utf8(y.reason);
            if rx != ry && !bytes_lt(rx, ry) && !bytes_lt(ry, rx) {
                lemma_bytes_lt_total(rx, ry);
            }
        }
    }
}

/// What `sort_dedup` gives for origins, stated as a sorted set of their views.
proof fn lemma_sorted_set_origins(r: Seq<CmiCallOrigin>, v: Seq<CmiCallOrigin>)
    requires
        strictly_sorted(r),
        drawn_from(r, v),
        covers(r, v),
    ensures
        sorted_set(origins_view(r), origins_view(v), origin_order()),
{
    let rb = origins_view(r);
    let vb = origins_view(v);
    assert forall|i: int, j: int| 0 <= i < j < rb.len() implies origin_order()(#[trigger] rb[i], #[trigger] rb[j]) by {
        assert(r[i].key_lt(r[j]));
    }
    assert forall|x: OriginV| rb.contains(x) <==> vb.contains(x) by {
        if rb.contains(x) {
            let i = choose|i: int| 0 <= i < rb.len() && rb[i] == x;
            assert(v.contains(r[i]));
            let p = choose|p: int| 0 <= p < v.len() && v[p] == r[i];
            assert(vb[p] == x);
        }
        if vb.contains(x) {
            let p = choose|p: int| 0 <= p < vb.len() && vb[p] == x;
            assert(has_same(r, v[p]));
            let q = choose|q: int| 0 <= q < r.len() && same_key(#[trigger] r[q], v[p]);
            lemma_same_origin(r[q], v[p]);
            assert(rb[q] == x);
        }
    }
}

/// The sorted set of the `u32` values tagged `i`.
fn sorted_picks_u32(v: &Vec<(usize, u32)>, i: usize) -> (r: Vec<u32>)
    ensures
        r@ == sorted_of(picks(tags_u32(v@), i as int), u32_order()),
{
    let p = pick_u32(v, i);
    let ghost pv = p@;
    let r = sort_dedup(p);
    proof {
        crate::sorting::lemma_sorted_set_u32(r@, pv);
        lemma_u32_order_total();
        lemma_sorted_of(r@, pv, u32_order());
    }
    r
}

/// The sorted set of the names tagged `i`.
fn sorted_picks_str<'a>(v: &Vec<(usize, &'a str)>, i: usize) -> (r: Vec<&'a str>)
    ensures
        crate::data_formats::cmi_operands::texts_view(r@) == sorted_of(picks(tags_str(v@), i as int), bytes_order()),
{
    let p = pick_str(v, i);
    let ghost pv = p@;
    let r = sort_dedup(p);
    proof {
        crate::sorting::lemma_sorted_set_str(r@, pv);
        lemma_bytes_order_total();
        lemma_sorted_of(
            crate::data_formats::cmi_operands::texts_view(r@),
            crate::data_formats::cmi_operands::texts_view(pv),
            bytes_order(),
        );
    }
    r
}

/// The sorted set of the origins tagged `i`.
fn sorted_picks_origins<'a>(v: &Vec<(usize, CmiCallOrigin<'a>)>, i: usize) -> (r: Vec<CmiCallOrigin<'a>>)
    ensures
        origins_view(r@) == sorted_of(picks(tags_origin(v@), i as int), origin_order()),
{
    let p = pick_origins(v, i);
    let ghost pv = p@;
    let r = sort_dedup(p);
    proof {
        lemma_sorted_set_origins(r@, pv);
        lemma_origin_order_total();
        lemma_sorted_of(origins_view(r@), origins_view(pv), origin_order());
    }
    r
}

// ---------------------------------------------------------------------------
// The file

/// The header at `p`: the file size (the rest of the data), the name in 12
/// bytes and the size once more, less 8. Gives the data after the size word,
/// where the file's offsets start, and the name.
pub open spec fn cmi_header(d: Seq<u8>, p: int) -> Option<(Seq<u8>, Seq<u8>)> {
    match value_at::<u32>(d, p) {
        Some((fs, q)) => if d.len() != fs + 4 {
            None
        } else {
            let e = d.subrange(q, d.len() as int);
            match fixed_text_at(e, 0, 12) {
                Some((name, _)) => match value_at::<u32>(e, 12) {
                    Some((fs2, _)) => if fs != fs2 + 8 {
                        None
                    } else {
                        Some((e, name))
                    },
                    None => None,
                },
                None => None,
            }
        },
        None => None,
    }
}

/// The origin of an arena's own setup script.
pub open spec fn arena_origin(name: Seq<u8>) -> OriginV {
    OriginV { arena_name: name, source_name: name, target_name: name, reason: "Setup"@, source_offset: 0 }
}

/// The calls of the arenas' setup scripts.
pub open spec fn arena_calls(ars: Seq<(Seq<u8>, Seq<u8>, u32)>) -> Seq<(u32, OriginV)> {
    ars.map_values(|a: (Seq<u8>, Seq<u8>, u32)| (a.2, arena_origin(a.0)))
}

/// The state before any call is followed: the entities of the mesh table,
/// the arenas with their songs, and the calls of the init scripts, the setup
/// scripts and the arenas' scripts, in that order.
pub open spec fn start_state(
    inits: Seq<(u32, OriginV)>,
    ms: Seq<(Seq<u8>, Option<MeshRef>)>,
    setups: Seq<(u32, OriginV)>,
    ars: Seq<(Seq<u8>, Seq<u8>, u32)>,
) -> StateV {
    StateV {
        scripts: Seq::empty(),
        ents: ms,
        arenas: ars.map_values(|a: (Seq<u8>, Seq<u8>, u32)| (a.0, a.1)),
        origins: Seq::empty(),
        ent_names: Seq::empty(),
        ent_anims: Seq::empty(),
        ent_splines: Seq::empty(),
        ent_scripts: Seq::empty(),
        ent_arenas: Seq::empty(),
        arena_ents: Seq::empty(),
        stack: inits + setups + arena_calls(ars),
    }
}

/// The four tables after the header: init scripts, meshes, setup scripts, arenas.
pub open spec fn cmi_tables(e: Seq<u8>) -> Option<StateV> {
    match script_items_at(e, 16, true) {
        Some((inits, p1)) => match mesh_items_at(e, p1) {
            Some((ms, p2)) => match script_items_at(e, p2, false) {
                Some((setups, p3)) => match arena_items_at(e, p3) {
                    Some(ars) => Some(start_state(inits, ms, setups, ars)),
                    None => None,
                },
                None => None,
            },
            None => None,
        },
        None => None,
    }
}

/// A CMI file: its name, and the state once every call has been followed.
pub struct CmiV {
    pub filename: Seq<u8>,
    pub st: StateV,
}

/// The CMI file at `p`, where it is laid out as described.
pub open spec fn spec_cmi(d: Seq<u8>, p: int) -> Option<CmiV> {
    match cmi_header(d, p) {
        Some((e, name)) => match cmi_tables(e) {
            Some(st0) => match explore(e, st0) {
                Some(st) => Some(CmiV { filename: name, st }),
                None => None,
            },
            None => None,
        },
        None => None,
    }
}

/// An arena: its name, its song and the entities that run scripts in it.
pub struct CmiArena<'a> {
    pub name: &'a str,
    pub song: &'a str,
    pub entities: Vec<&'a str>,
}

/// An entity: its mesh, and what the scripts run for it use, each sorted
/// without repeats.
pub struct CmiEntity<'a> {
    pub mesh: Option<MeshRef>,
    pub animations: Vec<u32>,
    pub animation_names: Vec<&'a str>,
    pub splines: Vec<u32>,
    pub scripts: Vec<u32>,
    pub arenas: Vec<&'a str>,
}

/// The file: its name, its arenas, its scripts by offset in the order they
/// were met, and its entities in the order they were met.
pub struct Cmi<'a> {
    pub filename: &'a str,
    pub arenas: Vec<CmiArena<'a>>,
    pub scripts: Vec<(u32, CmiScript<'a>)>,
    pub entities: Vec<(&'a str, CmiEntity<'a>)>,
}

/// Arena `i` of the state.
pub open spec fn arena_is(a: CmiArena, st: StateV, i: int) -> bool {
    &&& a.name.spec_bytes() == st.arenas[i].0
    &&& a.song.spec_bytes() == st.arenas[i].1
    &&& crate::data_formats::cmi_operands::texts_view(a.entities@) == sorted_of(
        picks(st.arena_ents, i),
        bytes_order(),
    )
}

/// Script `i` of the state, with the origins it was run for.
pub open spec fn script_is(s: (u32, CmiScript), st: StateV, i: int) -> bool {
    &&& s.0 == st.scripts[i].0
    &&& s.1.describes(st.scripts[i].1)
    &&& origins_view(s.1.call_origins@) == sorted_of(picks(st.origins, i), origin_order())
}

/// Entity `i` of the state.
pub open spec fn entity_is(x: (&str, CmiEntity), st: StateV, i: int) -> bool {
    let ent = x.1;
    &&& x.0.spec_bytes() == st.ents[i].0
    &&& ent.mesh == st.ents[i].1
    &&& crate::data_formats::cmi_operands::texts_view(ent.animation_names@) == sorted_of(
        picks(st.ent_names, i),
        bytes_order(),
    )
    &&& ent.animations@ == sorted_of(picks(st.ent_anims, i), u32_order())
    &&& ent.splines@ == sorted_of(picks(st.ent_splines, i), u32_order())
    &&& ent.scripts@ == sorted_of(picks(st.ent_scripts, i), u32_order())
    &&& crate::data_formats::cmi_operands::texts_view(ent.arenas@) == sorted_of(
        picks(st.ent_arenas, i),
        bytes_order(),
    )
}

fn read_cmi_header<'a>(data: Reader<'a>) -> (res: Option<(Reader<'a>, &'a str)>)
    ensures
        match cmi_header(data.data(), data.pos()) {
            Some((e, name)) => res matches Some((r, n)) && r.data() == e && n.spec_bytes() == name,
            None => res is None,
        },
{
    let mut r = data;
    let fs = read_value::<u32>(&mut r)?;
    if r.len() as u64 != fs as u64 + 4 {
        return None;
    }
    r.rebase();
    let name = read_fixed_text(&mut r, 12)?;
    let fs2 = read_value::<u32>(&mut r)?;
    if fs as u64 != fs2 as u64 + 8 {
        return None;
    }
    Some((r, name))
}

/// Reads the four tables and sets up the state before any call is followed.
#[verifier::rlimit(40)]
fn read_tables<'a>(e: &Reader<'a>) -> (res: Option<Explore<'a>>)
    ensures
        match cmi_tables(e.data()) {
            Some(st) => res matches Some(x) && x.holds(st),
            None => res is None,
        },
{
    let ghost d = e.data();
    let (mut stack, p1) = read_script_items(e, 16, true)?;
    let (ents, p2) = read_mesh_items(e, p1)?;
    let (mut setups, p3) = read_script_items(e, p2, false)?;
    let ars = read_arena_items(e, p3)?;
    let ghost inits = items_view(stack@);
    let ghost sv = items_view(setups@);
    let ghost av = arena_items_view(ars@);
    stack.append(&mut setups);
    assert(stack_view(stack@) =~= inits + sv);
    let mut arenas: Vec<(&'a str, &'a str)> = Vec::new();
    let mut i: usize = 0;
    while i < ars.len()
        invariant
            0 <= i <= ars@.len(),
            av == arena_items_view(ars@),
            stack_view(stack@) == inits + sv + arena_calls(av.take(i as int)),
            names2_view(arenas@) == av.take(i as int).map_values(|a: (Seq<u8>, Seq<u8>, u32)| (a.0, a.1)),
        decreases ars@.len() - i,
    {
        let (name, song, off) = ars[i];
        let ghost s0 = stack_view(stack@);
        let ghost a0 = names2_view(arenas@);
        stack.push(
            (
                off,
                CmiCallOrigin {
                    arena_name: name,
                    source_name: name,
                    target_name: name,
                    reason: String::from_str("Setup"),
                    source_offset: 0,
                },
            ),
        );
        arenas.push((name, song));
        proof {
            assert(av.take(i + 1) =~= av.take(i as int).push(av[i as int]));
            assert(stack_view(stack@) =~= s0.push((off, arena_origin(name.spec_bytes()))));
            assert(arena_calls(av.take(i + 1)) =~= arena_calls(av.take(i as int)).push(
                (off, arena_origin(name.spec_bytes())),
            ));
            assert(names2_view(arenas@) =~= a0.push((name.spec_bytes(), song.spec_bytes())));
        }
        i = i + 1;
    }
    assert(av.take(i as int) =~= av);
    let state = Explore {
        scripts: Vec::new(),
        ents,
        arenas,
        origins: Vec::new(),
        ent_names: Vec::new(),
        ent_anims: Vec::new(),
        ent_splines: Vec::new(),
        ent_scripts: Vec::new(),
        ent_arenas: Vec::new(),
        arena_ents: Vec::new(),
        stack,
    };
    proof {
        let st = cmi_tables(d).unwrap();
        assert(tags_origin(state.origins@) =~= Seq::<(int, OriginV)>::empty());
        assert(tags_str(state.ent_names@) =~= Seq::<(int, Seq<u8>)>::empty());
        assert(tags_u32(state.ent_anims@) =~= Seq::<(int, u32)>::empty());
        assert(tags_u32(state.ent_splines@) =~= Seq::<(int, u32)>::empty());
        assert(tags_u32(state.ent_scripts@) =~= Seq::<(int, u32)>::empty());
        assert(tags_str(state.ent_arenas@) =~= Seq::<(int, Seq<u8>)>::empty());
        assert(tags_str(state.arena_ents@) =~= Seq::<(int, Seq<u8>)>::empty());
        assert(state.holds(st));
    }
    Some(state)
}

/// Puts together the arenas, scripts and entities once every call has been
/// followed: each gets, sorted and without repeats, what was recorded for it.
#[verifier::rlimit(40)]
fn finish<'a>(state: Explore<'a>, Ghost(st): Ghost<StateV>) -> (res: (
    Vec<CmiArena<'a>>,
    Vec<(u32, CmiScript<'a>)>,
    Vec<(&'a str, CmiEntity<'a>)>,
))
    requires
        state.holds(st),
    ensures
        res.0@.len() == st.arenas.len(),
        forall|i: int| 0 <= i < st.arenas.len() ==> arena_is(#[trigger] res.0@[i], st, i),
        res.1@.len() == st.scripts.len(),
        forall|i: int| 0 <= i < st.scripts.len() ==> script_is(#[trigger] res.1@[i], st, i),
        res.2@.len() == st.ents.len(),
        forall|i: int| 0 <= i < st.ents.len() ==> entity_is(#[trigger] res.2@[i], st, i),
{
    let Explore {
        scripts,
        ents,
        arenas,
        origins,
        ent_names,
        ent_anims,
        ent_splines,
        ent_scripts,
        ent_arenas,
        arena_ents,
        stack: _,
    } = state;
    let mut out_arenas: Vec<CmiArena<'a>> = Vec::new();
    let mut i: usize = 0;
    while i < arenas.len()
        invariant
            0 <= i <= arenas@.len(),
            names2_view(arenas@) == st.arenas,
            tags_str(arena_ents@) == st.arena_ents,
            out_arenas@.len() == i,
            forall|q: int| 0 <= q < i ==> arena_is(#[trigger] out_arenas@[q], st, q),
        decreases arenas@.len() - i,
    {
        let (name, song) = arenas[i];
        let entities = sorted_picks_str(&arena_ents, i);
        out_arenas.push(CmiArena { name, song, entities });
        i = i + 1;
    }
    let mut out_ents: Vec<(&'a str, CmiEntity<'a>)> = Vec::new();
    let mut i: usize = 0;
    while i < ents.len()
        invariant
            0 <= i <= ents@.len(),
            meshes_view(ents@) == st.ents,
            tags_str(ent_names@) == st.ent_names,
            tags_u32(ent_anims@) == st.ent_anims,
            tags_u32(ent_splines@) == st.ent_splines,
            tags_u32(ent_scripts@) == st.ent_scripts,
            tags_str(ent_arenas@) == st.ent_arenas,
            out_ents@.len() == i,
            forall|q: int| 0 <= q < i ==> entity_is(#[trigger] out_ents@[q], st, q),
        decreases ents@.len() - i,
    {
        let (name, mesh) = ents[i];
        let ent = CmiEntity {
            mesh,
            animations: sorted_picks_u32(&ent_anims, i),
            animation_names: sorted_picks_str(&ent_names, i),
            splines: sorted_picks_u32(&ent_splines, i),
            scripts: sorted_picks_u32(&ent_scripts, i),
            arenas: sorted_picks_str(&ent_arenas, i),
        };
        out_ents.push((name, ent));
        i = i + 1;
    }
    let ghost sc0 = scripts@;
    let mut scripts = scripts;
    let mut out_scripts: Vec<(u32, CmiScript<'a>)> = Vec::new();
    let n = scripts.len();
    let mut i: usize = 0;
    assert(sc0.skip(0) =~= sc0);
    while i < n
        invariant
            0 <= i <= n,
            n == sc0.len(),
            sc0.len() == st.scripts.len(),
            scripts@ == sc0.skip(i as int),
            forall|q: int|
                0 <= q < st.scripts.len() ==> (#[trigger] sc0[q]).0 == st.scripts[q].0
                    && sc0[q].1.describes(st.scripts[q].1),
            tags_origin(origins@) == st.origins,
            out_scripts@.len() == i,
            forall|q: int| 0 <= q < i ==> script_is(#[trigger] out_scripts@[q], st, q),
        decreases n - i,
    {
        assert(scripts@[0] == sc0[i as int]);
        let (off, mut script) = scripts.remove(0);
        assert(scripts@ =~= sc0.skip(i + 1));
        script.call_origins = sorted_picks_origins(&origins, i);
        out_scripts.push((off, script));
        i = i + 1;
    }
    (out_arenas, out_scripts, out_ents)
}

impl<'a> Cmi<'a> {
    /// Whether the file is the one described.
    pub open spec fn is(&self, v: CmiV) -> bool {
        &&& self.filename.spec_bytes() == v.filename
        &&& self.arenas@.len() == v.st.arenas.len()
        &&& forall|i: int| 0 <= i < v.st.arenas.len() ==> arena_is(#[trigger] self.arenas@[i], v.st, i)
        &&& self.scripts@.len() == v.st.scripts.len()
        &&& forall|i: int| 0 <= i < v.st.scripts.len() ==> script_is(#[trigger] self.scripts@[i], v.st, i)
        &&& self.entities@.len() == v.st.ents.len()
        &&& forall|i: int| 0 <= i < v.st.ents.len() ==> entity_is(#[trigger] self.entities@[i], v.st, i)
    }

    /// Parses a CMI file at the reader's position, following every call from
    /// the init, setup and arena scripts; `None` where the file is not laid
    /// out as described.
    pub fn try_parse(reader: Reader<'a>) -> (res: Option<Cmi<'a>>)
        ensures
            match spec_cmi(reader.data(), reader.pos()) {
                Some(v) => res matches Some(c) && c.is(v),
                None => res is None,
            },
    {
        let (e, filename) = read_cmi_header(reader)?;
        let state = read_tables(&e)?;
        let ghost st0 = cmi_tables(e.data()).unwrap();
        let state = explore_exec(&e, state, Ghost(st0))?;
        let ghost st = explore(e.data(), st0).unwrap();
        let (arenas, scripts, entities) = finish(state, Ghost(st));
        Some(Cmi { filename, arenas, scripts, entities })
    }

    /// Parses a CMI file that is laid out as described.
    pub fn parse(reader: Reader<'a>) -> (c: Cmi<'a>)
        requires
            spec_cmi(reader.data(), reader.pos()) is Some,
        ensures
            c.is(spec_cmi(reader.data(), reader.pos()).unwrap()),
    {
        match Self::try_parse(reader) {
            Some(c) => c,
            None => Cmi { filename: "", arenas: Vec::new(), scripts: Vec::new(), entities: Vec::new() },
        }
    }
}

// ---------------------------------------------------------------------------
// What following the calls keeps

proof fn lemma_find_name(s: Seq<Seq<u8>>, name: Seq<u8>)
    ensures
        find_name(s, name) matches Some(i) ==> 0 <= i < s.len() && s[i] == name,
    decreases s.len(),
{
    if s.len() > 0 && s[0] != name {
        lemma_find_name(s.drop_first(), name);
    }
}

/// Every entity recorded for an arena names an arena of the state, and is
/// not that arena itself.
pub open spec fn arena_ents_ok(st: StateV) -> bool {
    forall|k: int|
        0 <= k < st.arena_ents.len() ==> 0 <= (#[trigger] st.arena_ents[k]).0 < st.arenas.len()
            && st.arena_ents[k].1 != st.arenas[st.arena_ents[k].0].0
}

proof fn lemma_find_offset(s: Seq<(u32, Seq<BlockV>)>, off: u32)
    ensures
        find_offset(s, off) is None ==> forall|k: int| 0 <= k < s.len() ==> (#[trigger] s[k]).0 != off,
        find_offset(s, off) matches Some(i) ==> 0 <= i < s.len() && s[i].0 == off,
    decreases s.len(),
{
    if s.len() > 0 && s[0].0 != off {
        lemma_find_offset(s.drop_first(), off);
        assert forall|k: int| 0 < k < s.len() implies s[k] == s.drop_first()[k - 1] by {}
    }
}

/// No two scripts found share an offset.
pub open spec fn distinct_offsets(st: StateV) -> bool {
    forall|i: int, j: int| 0 <= i < j < st.scripts.len() ==> (#[trigger] st.scripts[i]).0 != (#[trigger] st.scripts[j]).0
}

proof fn lemma_record_keeps(st: StateV, k: int, bs: Seq<BlockV>, target: u32, origin: OriginV)
    ensures
        record(st, k, bs, target, origin) matches Some(st2) ==> {
            &&& st2.arenas == st.arenas
            &&& st2.scripts == st.scripts
            &&& st2.stack == st.stack
            &&& st.ents.len() <= st2.ents.len()
            &&& st2.ents.take(st.ents.len() as int) == st.ents
            &&& arena_ents_ok(st) ==> arena_ents_ok(st2)
        },
{
    lemma_find_name(first_names(st.arenas), origin.arena_name);
    if let Some(st2) = record(st, k, bs, target, origin) {
        assert(st.ents.push((origin.target_name, None)).take(st.ents.len() as int) =~= st.ents);
        assert(st.ents.take(st.ents.len() as int) =~= st.ents);
        if arena_ents_ok(st) {
            assert forall|q: int| 0 <= q < st2.arena_ents.len() implies 0 <= (#[trigger] st2.arena_ents[q]).0
                < st2.arenas.len() && st2.arena_ents[q].1 != st2.arenas[st2.arena_ents[q].0].0 by {
                if q < st.arena_ents.len() {
                    assert(st2.arena_ents[q] == st.arena_ents[q]);
                }
            }
        }
    }
}

/// Following the calls keeps the arenas as they are and the entities found
/// before first, in order; every entity it records for an arena is another
/// entity than the arena, and it decodes each script once.
pub proof fn lemma_explore_keeps(e: Seq<u8>, st: StateV)
    ensures
        explore(e, st) matches Some(stf) ==> {
            &&& stf.arenas == st.arenas
            &&& st.ents.len() <= stf.ents.len()
            &&& stf.ents.take(st.ents.len() as int) == st.ents
            &&& arena_ents_ok(st) ==> arena_ents_ok(stf)
            &&& distinct_offsets(st) ==> distinct_offsets(stf)
        },
    decreases e.len() + 1 - st.scripts.len(), st.stack.len(),
{
    if st.stack.len() > 0 {
        let (target, origin) = st.stack.last();
        let st1 = StateV { stack: st.stack.drop_last(), ..st };
        assert(st.ents.take(st.ents.len() as int) =~= st.ents);
        match find_offset(st.scripts, target) {
            Some(k) => {
                lemma_record_keeps(st1, k, st.scripts[k].1, target, origin);
                if let Some(st2) = record(st1, k, st.scripts[k].1, target, origin) {
                    lemma_explore_keeps(e, st2);
                    if let Some(stf) = explore(e, st2) {
                        assert(stf.ents.take(st.ents.len() as int) =~= stf.ents.take(st2.ents.len() as int).take(
                            st.ents.len() as int,
                        ));
                    }
                }
            },
            None => if st.scripts.len() < e.len() + 1 {
                if let Some(bs) = script_blocks(e, target as int) {
                    let st1b = StateV {
                        scripts: st.scripts.push((target, bs)),
                        stack: st1.stack + call_items(bs, origin, target),
                        ..st1
                    };
                    lemma_find_offset(st.scripts, target);
                    if distinct_offsets(st) {
                        assert forall|i: int, j: int| 0 <= i < j < st1b.scripts.len() implies (
                        #[trigger] st1b.scripts[i]).0 != (#[trigger] st1b.scripts[j]).0 by {
                            if j == st.scripts.len() {
                                assert(st1b.scripts[i] == st.scripts[i]);
                            } else {
                                assert(st1b.scripts[i] == st.scripts[i]);
                                assert(st1b.scripts[j] == st.scripts[j]);
                            }
                        }
                    }
                    lemma_record_keeps(st1b, st.scripts.len() as int, bs, target, origin);
                    if let Some(st2) = record(st1b, st.scripts.len() as int, bs, target, origin) {
                        lemma_explore_keeps(e, st2);
                        if let Some(stf) = explore(e, st2) {
                            assert(stf.ents.take(st.ents.len() as int) =~= stf.ents.take(
                                st2.ents.len() as int,
                            ).take(st.ents.len() as int));
                        }
                    }
                }
            },
        }
    } else {
        assert(st.ents.take(st.ents.len() as int) =~= st.ents);
    }
}

proof fn lemma_picks_contains<A>(s: Seq<(int, A)>, i: int, x: A)
    ensures
        picks(s, i).contains(x) ==> exists|k: int| 0 <= k < s.len() && #[trigger] s[k] == (i, x),
    decreases s.len(),
{
    if s.len() > 0 {
        let f = |y: (int, A)| if y.0 == i { Some(y.1) } else { None };
        lemma_picks_contains(s.drop_last(), i, x);
        if picks(s, i).contains(x) {
            if picks(s.drop_last(), i).contains(x) {
                let k = choose|k: int| 0 <= k < s.drop_last().len() && #[trigger] s.drop_last()[k] == (i, x);
                assert(s[k] == (i, x));
            } else {
                assert(s[s.len() - 1] == (i, x));
            }
        }
    }
}

/// In a parsed file, the entities of the mesh table come first and in table
/// order, the arenas are those of the arena table, no arena has itself among
/// its entities, and no two scripts share an offset.
pub proof fn lemma_cmi_entities(d: Seq<u8>, p: int)
    requires
        spec_cmi(d, p) is Some,
    ensures
        ({
            let e = cmi_header(d, p).unwrap().0;
            let st0 = cmi_tables(e).unwrap();
            let v = spec_cmi(d, p).unwrap();
            &&& v.st.ents.take(st0.ents.len() as int) == st0.ents
            &&& v.st.arenas == st0.arenas
            &&& forall|ai: int|
                0 <= ai < v.st.arenas.len() ==> !(#[trigger] picks(v.st.arena_ents, ai)).contains(v.st.arenas[ai].0)
            &&& distinct_offsets(v.st)
        }),
{
    let e = cmi_header(d, p).unwrap().0;
    let st0 = cmi_tables(e).unwrap();
    let v = spec_cmi(d, p).unwrap();
    lemma_explore_keeps(e, st0);
    assert forall|ai: int| 0 <= ai < v.st.arenas.len() implies !(#[trigger] picks(v.st.arena_ents, ai)).contains(
        v.st.arenas[ai].0,
    ) by {
        lemma_picks_contains(v.st.arena_ents, ai, v.st.arenas[ai].0);
        if picks(v.st.arena_ents, ai).contains(v.st.arenas[ai].0) {
            let k = choose|k: int| 0 <= k < v.st.arena_ents.len() && #[trigger] v.st.arena_ents[k] == (
                ai,
                v.st.arenas[ai].0,
            );
            assert(v.st.arena_ents[k].1 != v.st.arenas[v.st.arena_ents[k].0].0);
        }
    }
}

// ---------------------------------------------------------------------------
// Reports of the scripts an entity runs

/// Who runs a script, seen from one of the entities that run it.
pub struct ScriptReport<'b> {
    /// The places in `call_origins` of the origins that run it for the entity, in order.
    pub own: Vec<usize>,
    /// The places of the origins that run it for other entities, in order.
    pub others: Vec<usize>,
    /// Whether the script is shared: some origin runs it for another entity,
    /// and it is not the empty script at offset 0.
    pub shared: bool,
    /// The reasons of the entity's own origins, sorted, without repeats.
    pub reasons: Vec<&'b str>,
    /// The arenas of the entity's own origins, sorted, without repeats.
    pub arenas: Vec<&'b str>,
}

/// The places below `n` where `p` holds, in increasing order.
pub open spec fn places(n: int, p: spec_fn(int) -> bool) -> Seq<usize>
    decreases n,
{
    if n <= 0 {
        Seq::empty()
    } else if p(n - 1) {
        places(n - 1, p).push((n - 1) as usize)
    } else {
        places(n - 1, p)
    }
}

/// The reasons of the origins at the places in `v`, as bytes.
pub open spec fn reasons_at(os: Seq<CmiCallOrigin>, v: Seq<usize>) -> Seq<Seq<u8>> {
    v.map_values(|k: usize| vstd::utf8::encode_utf8(os[k as int].reason@))
}

/// The arenas of the origins at the places in `v`, as bytes.
pub open spec fn arenas_at(os: Seq<CmiCallOrigin>, v: Seq<usize>) -> Seq<Seq<u8>> {
    v.map_values(|k: usize| os[k as int].arena_name.spec_bytes())
}

/// Whether origin `k` runs the script for the entity named `ent`.
pub open spec fn runs_for(os: Seq<CmiCallOrigin>, ent: Seq<u8>) -> spec_fn(int) -> bool {
    |k: int| os[k].target_name.spec_bytes() == ent
}

/// Whether origin `k` runs the script for another entity than `ent`.
pub open spec fn runs_for_other(os: Seq<CmiCallOrigin>, ent: Seq<u8>) -> spec_fn(int) -> bool {
    |k: int| os[k].target_name.spec_bytes() != ent
}

/// Sorts out who runs `script` (found at `offset`) as seen from the entity `entity`.
#[verifier::rlimit(40)]
pub fn script_report<'b, 'a>(script: &'b CmiScript<'a>, entity: &str, offset: u32) -> (r: ScriptReport<'b>)
    ensures
        r.own@ == places(script.call_origins@.len() as int, runs_for(script.call_origins@, entity.spec_bytes())),
        r.others@ == places(
            script.call_origins@.len() as int,
            runs_for_other(script.call_origins@, entity.spec_bytes()),
        ),
        r.shared == (offset != 0 && exists|k: int|
            0 <= k < script.call_origins@.len() && script.call_origins@[k].target_name.spec_bytes()
                != entity.spec_bytes()),
        crate::data_formats::cmi_operands::texts_view(r.reasons@) == sorted_of(
            reasons_at(script.call_origins@, r.own@),
            bytes_order(),
        ),
        crate::data_formats::cmi_operands::texts_view(r.arenas@) == sorted_of(
            arenas_at(script.call_origins@, r.own@),
            bytes_order(),
        ),
{
    let os = &script.call_origins;
    let ghost ov = os@;
    let ghost ent = entity.spec_bytes();
    let ghost pr = runs_for(ov, ent);
    let ghost po = runs_for_other(ov, ent);
    let mut own: Vec<usize> = Vec::new();
    let mut others: Vec<usize> = Vec::new();
    let mut shared = false;
    let mut reasons: Vec<&'b str> = Vec::new();
    let mut arenas: Vec<&'b str> = Vec::new();
    let mut k: usize = 0;
    while k < os.len()
        invariant
            0 <= k <= ov.len(),
            ov == os@,
            pr == runs_for(ov, ent),
            po == runs_for_other(ov, ent),
            ent == entity.spec_bytes(),
            own@ == places(k as int, pr),
            others@ == places(k as int, po),
            shared == (offset != 0 && exists|j: int| 0 <= j < k && ov[j].target_name.spec_bytes() != ent),
            crate::data_formats::cmi_operands::texts_view(reasons@) == reasons_at(ov, own@),
            crate::data_formats::cmi_operands::texts_view(arenas@) == arenas_at(ov, own@),
        decreases ov.len() - k,
    {
        let o = &os[k];
        let ghost (own0, oth0, r0, a0) = (
            own@,
            others@,
            crate::data_formats::cmi_operands::texts_view(reasons@),
            crate::data_formats::cmi_operands::texts_view(arenas@),
        );
        if crate::text::bytes_eq(o.target_name.as_bytes(), entity.as_bytes()) {
            own.push(k);
            let reason: &'b str = o.reason.as_str();
            reasons.push(reason);
            arenas.push(o.arena_name);
            proof {
                assert(crate::data_formats::cmi_operands::texts_view(reasons@) =~= r0.push(reason.spec_bytes()));
                assert(reasons_at(ov, own@) =~= reasons_at(ov, own0).push(vstd::utf8::encode_utf8(ov[k as int].reason@)));
                assert(crate::data_formats::cmi_operands::texts_view(arenas@) =~= a0.push(o.arena_name.spec_bytes()));
                assert(arenas_at(ov, own@) =~= arenas_at(ov, own0).push(ov[k as int].arena_name.spec_bytes()));
            }
        } else {
            others.push(k);
            if offset != 0 {
                shared = true;
            }
            proof {
                if offset != 0 {
                    assert(ov[k as int].target_name.spec_bytes() != ent);
                }
            }
        }
        k = k + 1;
    }
    let ghost rv = reasons@;
    let ghost av = arenas@;
    let reasons = sort_dedup(reasons);
    let arenas = sort_dedup(arenas);
    proof {
        lemma_bytes_order_total();
        crate::sorting::lemma_sorted_set_str(reasons@, rv);
        crate::sorting::lemma_sorted_set_str(arenas@, av);
        lemma_sorted_of(
            crate::data_formats::cmi_operands::texts_view(reasons@),
            crate::data_formats::cmi_operands::texts_view(rv),
            bytes_order(),
        );
        lemma_sorted_of(
            crate::data_formats::cmi_operands::texts_view(arenas@),
            crate::data_formats::cmi_operands::texts_view(av),
            bytes_order(),
        );
    }
    ScriptReport { own, others, shared, reasons, arenas }
}

} // verus!
