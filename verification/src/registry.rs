//! Which arenas of a level each entity belongs to: the entities of the
//! level's scripts, the meshes of each arena's asset file, and the corridor
//! BSP trees, which join the arena they lead from unless the scripts place
//! them.

use vstd::prelude::*;
use vstd::string::*;

use crate::data_formats::cmi_operands::texts_view;
use crate::file_formats::cmi::{Cmi, CmiArena, CmiEntity};
use crate::file_formats::mto::{Mto, MtoArena};
use crate::file_formats::sni::Sni;
use crate::sorting::{bytes_order, lemma_bytes_order_total, lemma_sorted_of, lemma_sorted_set_str, sort_dedup, sorted_of};

verus! {

/// The state of the registration: each entity with its arenas, the
/// entities of each arena of the scripts, and the mesh names met so far.
pub struct RegV {
    pub ents: Seq<(Seq<u8>, Seq<Seq<u8>>)>,
    pub arena_ents: Seq<Seq<Seq<u8>>>,
    pub seen: Seq<Seq<u8>>,
}

/// The first place of `n` among the names.
pub open spec fn seq_index(s: Seq<Seq<u8>>, n: Seq<u8>) -> Option<int>
    decreases s.len(),
{
    if s.len() == 0 {
        None
    } else {
        match seq_index(s.drop_last(), n) {
            Some(i) => Some(i),
            None => if s.last() == n {
                Some(s.len() - 1)
            } else {
                None
            },
        }
    }
}

/// The names of the entities.
pub open spec fn ent_names(ents: Seq<(Seq<u8>, Seq<Seq<u8>>)>) -> Seq<Seq<u8>> {
    ents.map_values(|e: (Seq<u8>, Seq<Seq<u8>>)| e.0)
}

/// The place of entity `m`, once it has been made where missing.
pub open spec fn ent_index(st: RegV, m: Seq<u8>) -> int {
    match seq_index(ent_names(st.ents), m) {
        Some(e) => e,
        None => st.ents.len() as int,
    }
}

/// The state with entity `m` made, with no arenas, where it is missing.
pub open spec fn with_entity(st: RegV, m: Seq<u8>) -> RegV {
    match seq_index(ent_names(st.ents), m) {
        Some(_) => st,
        None => RegV { ents: st.ents.push((m, Seq::empty())), ..st },
    }
}

/// Registers mesh `m` of arena `an`, whose arena in the scripts is number
/// `c`: the arena joins the mesh's arenas (kept sorted) and the mesh joins
/// the arena's entities; `None` where the arena already lists the mesh
/// though the mesh does not list the arena.
pub open spec fn add_mesh(st: RegV, c: int, an: Seq<u8>, m: Seq<u8>) -> Option<RegV> {
    let s1 = with_entity(st, m);
    let e = ent_index(st, m);
    let s2 = RegV { seen: s1.seen.push(m), ..s1 };
    if s2.ents[e].1.contains(an) {
        Some(s2)
    } else if s2.arena_ents[c].contains(m) {
        None
    } else {
        Some(
            RegV {
                ents: s2.ents.update(e, (m, sorted_of(s2.ents[e].1.push(an), bytes_order()))),
                arena_ents: s2.arena_ents.update(c, s2.arena_ents[c].push(m)),
                seen: s2.seen,
            },
        )
    }
}

/// Registers the first `k` meshes of an arena.
pub open spec fn add_meshes(st: RegV, c: int, an: Seq<u8>, ms: Seq<Seq<u8>>, k: int) -> Option<RegV>
    decreases k,
{
    if k <= 0 {
        Some(st)
    } else {
        match add_meshes(st, c, an, ms, k - 1) {
            Some(s) => add_mesh(s, c, an, ms[k - 1]),
            None => None,
        }
    }
}

/// Registers an arena of the asset file: `None` where the scripts have no
/// arena of its name, a mesh cannot be registered, its name is that of a
/// mesh met before, or the scripts do not place an entity of its name in it.
pub open spec fn add_arena(st: RegV, an: Seq<u8>, ms: Seq<Seq<u8>>, cmi_names: Seq<Seq<u8>>) -> Option<RegV> {
    match seq_index(cmi_names, an) {
        None => None,
        Some(c) => match add_meshes(st, c, an, ms, ms.len() as int) {
            None => None,
            Some(s1) => if s1.seen.contains(an) {
                None
            } else {
                let s2 = with_entity(RegV { seen: s1.seen.push(an), ..s1 }, an);
                if s2.ents[ent_index(s1, an)].1.contains(an) {
                    Some(s2)
                } else {
                    None
                }
            },
        },
    }
}

/// Registers the first `n` arenas of the asset file.
pub open spec fn add_arenas(st: RegV, arenas: Seq<(Seq<u8>, Seq<Seq<u8>>)>, cmi_names: Seq<Seq<u8>>, n: int) -> Option<RegV>
    decreases n,
{
    if n <= 0 {
        Some(st)
    } else {
        match add_arenas(st, arenas, cmi_names, n - 1) {
            Some(s) => add_arena(s, arenas[n - 1].0, arenas[n - 1].1, cmi_names),
            None => None,
        }
    }
}

/// The state with the corridor palettes made so far: each corridor that
/// the scripts place gets a palette copied from that of the arena it leads
/// from.
pub struct CorridorsV {
    pub reg: RegV,
    pub palettes: Seq<(Seq<u8>, Seq<u8>)>,
}

/// The names that have a palette: the arenas, then the corridors given one.
pub open spec fn palette_names(arena_names: Seq<Seq<u8>>, palettes: Seq<(Seq<u8>, Seq<u8>)>) -> Seq<Seq<u8>> {
    arena_names + palettes.map_values(|p: (Seq<u8>, Seq<u8>)| p.0)
}

/// Registers corridor `cn` (`C` and the name of the arena it leads from): a
/// corridor the scripts place in itself gets that arena's palette; any other
/// joins that arena. `None` where the name does not start with `C`, the
/// arena has no palette or no arena in the scripts, or a mesh of the name
/// was met before.
pub open spec fn add_corridor(st: CorridorsV, cn: Seq<u8>, arena_names: Seq<Seq<u8>>, cmi_names: Seq<Seq<u8>>) -> Option<
    CorridorsV,
> {
    if cn.len() == 0 || cn[0] != 0x43 {
        None
    } else {
        let an = cn.drop_first();
        let s1 = with_entity(st.reg, cn);
        let e = ent_index(st.reg, cn);
        if s1.ents[e].1.contains(cn) {
            if palette_names(arena_names, st.palettes).contains(an) {
                Some(CorridorsV { reg: s1, palettes: st.palettes.push((cn, an)) })
            } else {
                None
            }
        } else if s1.seen.contains(cn) {
            None
        } else {
            match seq_index(cmi_names, an) {
                None => None,
                Some(c) => Some(
                    CorridorsV {
                        reg: RegV {
                            ents: s1.ents.update(e, (cn, s1.ents[e].1.push(an))),
                            arena_ents: s1.arena_ents.update(c, s1.arena_ents[c].push(cn)),
                            seen: s1.seen.push(cn),
                        },
                        palettes: st.palettes,
                    },
                ),
            }
        }
    }
}

/// Registers the first `n` corridors.
pub open spec fn add_corridors(
    st: CorridorsV,
    cs: Seq<Seq<u8>>,
    arena_names: Seq<Seq<u8>>,
    cmi_names: Seq<Seq<u8>>,
    n: int,
) -> Option<CorridorsV>
    decreases n,
{
    if n <= 0 {
        Some(st)
    } else {
        match add_corridors(st, cs, arena_names, cmi_names, n - 1) {
            Some(s) => add_corridor(s, cs[n - 1], arena_names, cmi_names),
            None => None,
        }
    }
}

/// The entities of the scripts with their arenas.
pub open spec fn cmi_ents(es: Seq<(&str, CmiEntity)>) -> Seq<(Seq<u8>, Seq<Seq<u8>>)> {
    es.map_values(|e: (&str, CmiEntity)| (e.0.spec_bytes(), texts_view(e.1.arenas@)))
}

/// The entities of each arena of the scripts.
pub open spec fn cmi_arena_ents(arenas: Seq<CmiArena>) -> Seq<Seq<Seq<u8>>> {
    arenas.map_values(|a: CmiArena| texts_view(a.entities@))
}

pub open spec fn cmi_names(arenas: Seq<CmiArena>) -> Seq<Seq<u8>> {
    arenas.map_values(|a: CmiArena| a.name.spec_bytes())
}

/// Each arena of the asset file with the names of its meshes.
pub open spec fn mto_arenas(arenas: Seq<MtoArena>) -> Seq<(Seq<u8>, Seq<Seq<u8>>)> {
    arenas.map_values(|a: MtoArena| (a.name.spec_bytes(), mesh_names(a.meshes@)))
}

/// The names of the arenas.
pub open spec fn names_of(ms: Seq<(Seq<u8>, Seq<Seq<u8>>)>) -> Seq<Seq<u8>> {
    ms.map_values(|a: (Seq<u8>, Seq<Seq<u8>>)| a.0)
}

/// The names of the BSP trees of a sound file.
pub open spec fn bsp_names(v: Seq<(&str, &[u8])>) -> Seq<Seq<u8>> {
    v.map_values(|b: (&str, &[u8])| b.0.spec_bytes())
}

/// The registration of a level: the arenas of the asset file, then the
/// corridors; `None` where a step fails or the second sound file holds BSP
/// trees.
pub open spec fn registration(cmi: &Cmi, mto: &Mto, corridors: Seq<Seq<u8>>, extra_bsps: nat) -> Option<CorridorsV> {
    let init = RegV { ents: cmi_ents(cmi.entities@), arena_ents: cmi_arena_ents(cmi.arenas@), seen: Seq::empty() };
    let ms = mto_arenas(mto.arenas@);
    match add_arenas(init, ms, cmi_names(cmi.arenas@), ms.len() as int) {
        None => None,
        Some(r) => match add_corridors(
            CorridorsV { reg: r, palettes: Seq::empty() },
            corridors,
            names_of(ms),
            cmi_names(cmi.arenas@),
            corridors.len() as int,
        ) {
            None => None,
            Some(c) => if extra_bsps == 0 {
                Some(c)
            } else {
                None
            },
        },
    }
}

/// Where the entities of a level belong.
pub struct Registry<'a> {
    /// Each entity with the arenas it belongs to.
    pub entities: Vec<(&'a str, Vec<&'a str>)>,
    /// The entities of each arena of the scripts, in the scripts' order.
    pub arena_entities: Vec<Vec<&'a str>>,
    /// The mesh names met.
    pub seen: Vec<&'a str>,
    /// Each corridor placed by the scripts with the name whose palette it copies.
    pub corridor_palettes: Vec<(&'a str, &'a str)>,
}

pub open spec fn ents_view(v: Seq<(&str, Vec<&str>)>) -> Seq<(Seq<u8>, Seq<Seq<u8>>)> {
    v.map_values(|e: (&str, Vec<&str>)| (e.0.spec_bytes(), texts_view(e.1@)))
}

pub open spec fn lists_view(v: Seq<Vec<&str>>) -> Seq<Seq<Seq<u8>>> {
    v.map_values(|e: Vec<&str>| texts_view(e@))
}

pub open spec fn pairs_view(v: Seq<(&str, &str)>) -> Seq<(Seq<u8>, Seq<u8>)> {
    v.map_values(|e: (&str, &str)| (e.0.spec_bytes(), e.1.spec_bytes()))
}

impl<'a> Registry<'a> {
    pub open spec fn reg(&self) -> RegV {
        RegV { ents: ents_view(self.entities@), arena_ents: lists_view(self.arena_entities@), seen: texts_view(self.seen@) }
    }
}

/// The first place of `n` in the names.
fn find_str(v: &Vec<&str>, n: &str) -> (r: Option<usize>)
    ensures
        match r {
            Some(i) => seq_index(texts_view(v@), n.spec_bytes()) == Some(i as int),
            None => seq_index(texts_view(v@), n.spec_bytes()) is None,
        },
{
    find_bytes(v, n.as_bytes())
}

/// The first place of the name with bytes `n`.
fn find_bytes(v: &Vec<&str>, n: &[u8]) -> (r: Option<usize>)
    ensures
        match r {
            Some(i) => seq_index(texts_view(v@), n@) == Some(i as int),
            None => seq_index(texts_view(v@), n@) is None,
        },
{
    let ghost s = texts_view(v@);
    let mut k: usize = 0;
    while k < v.len()
        invariant
            0 <= k <= v@.len(),
            s == texts_view(v@),
            seq_index(s.take(k as int), n@) is None,
        decreases v@.len() - k,
    {
        assert(s.take(k + 1).drop_last() =~= s.take(k as int));
        if crate::text::bytes_eq(v[k].as_bytes(), n) {
            proof {
                lemma_index_prefix(s, n@, k + 1);
            }
            return Some(k);
        }
        k = k + 1;
    }
    assert(s.take(k as int) =~= s);
    None
}

proof fn lemma_index_prefix(s: Seq<Seq<u8>>, n: Seq<u8>, k: int)
    requires
        0 < k <= s.len(),
        seq_index(s.take(k), n) is Some,
    ensures
        seq_index(s, n) == seq_index(s.take(k), n),
    decreases s.len() - k,
{
    if k < s.len() {
        assert(s.take(k + 1).drop_last() =~= s.take(k));
        lemma_index_prefix(s, n, k + 1);
    } else {
        assert(s.take(k) =~= s);
    }
}

/// `seq_index` finds exactly the names held.
proof fn lemma_index_contains(s: Seq<Seq<u8>>, n: Seq<u8>)
    ensures
        seq_index(s, n) is Some <==> s.contains(n),
        seq_index(s, n) matches Some(i) ==> 0 <= i < s.len() && s[i] == n,
    decreases s.len(),
{
    if s.len() > 0 {
        lemma_index_contains(s.drop_last(), n);
        if s.drop_last().contains(n) {
            let j = choose|j: int| 0 <= j < s.drop_last().len() && s.drop_last()[j] == n;
            assert(s[j] == n);
        }
        if s.contains(n) && !s.drop_last().contains(n) {
            let j = choose|j: int| 0 <= j < s.len() && s[j] == n;
            if j < s.len() - 1 {
                assert(s.drop_last()[j] == n);
            }
        }
    }
}


fn copy_strs<'a>(v: &Vec<&'a str>) -> (r: Vec<&'a str>)
    ensures
        r@ == v@,
{
    let mut r: Vec<&'a str> = Vec::new();
    let mut k: usize = 0;
    while k < v.len()
        invariant
            0 <= k <= v@.len(),
            r@ == v@.take(k as int),
        decreases v@.len() - k,
    {
        r.push(v[k]);
        assert(r@ =~= v@.take(k + 1));
        k = k + 1;
    }
    assert(v@.take(k as int) =~= v@);
    r
}

fn contains_str(v: &Vec<&str>, n: &str) -> (b: bool)
    ensures
        b == texts_view(v@).contains(n.spec_bytes()),
{
    proof {
        lemma_index_contains(texts_view(v@), n.spec_bytes());
    }
    find_str(v, n).is_some()
}

fn push_str<'a>(v: &Vec<&'a str>, n: &'a str) -> (r: Vec<&'a str>)
    ensures
        texts_view(r@) == texts_view(v@).push(n.spec_bytes()),
{
    let mut r = copy_strs(v);
    r.push(n);
    assert(texts_view(r@) =~= texts_view(v@).push(n.spec_bytes()));
    r
}

/// Makes entity `m` where it is missing; gives its place.
fn ensure_entity<'a>(reg: &mut Registry<'a>, m: &'a str) -> (e: usize)
    ensures
        final(reg).reg() == with_entity(old(reg).reg(), m.spec_bytes()),
        e == ent_index(old(reg).reg(), m.spec_bytes()),
        final(reg).arena_entities@ == old(reg).arena_entities@,
        final(reg).seen@ == old(reg).seen@,
        final(reg).corridor_palettes@ == old(reg).corridor_palettes@,
        e < final(reg).entities@.len(),
        final(reg).entities@[e as int].0.spec_bytes() == m.spec_bytes(),
{
    let ghost st = reg.reg();
    let mut names: Vec<&'a str> = Vec::new();
    let mut k: usize = 0;
    while k < reg.entities.len()
        invariant
            0 <= k <= reg.entities@.len(),
            st == reg.reg(),
            texts_view(names@) == ent_names(st.ents).take(k as int),
        decreases reg.entities@.len() - k,
    {
        let ghost before = texts_view(names@);
        names.push(reg.entities[k].0);
        assert(st.ents[k as int].0 == reg.entities@[k as int].0.spec_bytes());
        assert(texts_view(names@) =~= before.push(st.ents[k as int].0));
        assert(ent_names(st.ents).take(k + 1) =~= ent_names(st.ents).take(k as int).push(st.ents[k as int].0));
        k = k + 1;
    }
    assert(texts_view(names@) =~= ent_names(st.ents));
    proof {
        lemma_index_contains(ent_names(st.ents), m.spec_bytes());
    }
    match find_str(&names, m) {
        Some(e) => {
            assert(ent_names(st.ents)[e as int] == m.spec_bytes());
            assert(reg.entities@[e as int].0.spec_bytes() == m.spec_bytes());
            e
        },
        None => {
            let e = reg.entities.len();
            let empty: Vec<&'a str> = Vec::new();
            assert(texts_view(empty@) =~= Seq::<Seq<u8>>::empty());
            reg.entities.push((m, empty));
            assert(reg.reg().ents =~= st.ents.push((m.spec_bytes(), Seq::empty())));
            e
        },
    }
}


/// The names sorted without repeats, as bytes.
fn sorted_names<'a>(v: Vec<&'a str>) -> (r: Vec<&'a str>)
    ensures
        texts_view(r@) == sorted_of(texts_view(v@), bytes_order()),
{
    let ghost vv = v@;
    let r = sort_dedup(v);
    proof {
        lemma_sorted_set_str(r@, vv);
        assert(r@.map_values(|s: &str| s.spec_bytes()) =~= texts_view(r@));
        assert(vv.map_values(|s: &str| s.spec_bytes()) =~= texts_view(vv));
        lemma_bytes_order_total();
        lemma_sorted_of(texts_view(r@), texts_view(vv), bytes_order());
    }
    r
}

fn add_mesh_exec<'a>(reg: &mut Registry<'a>, c: usize, an: &'a str, m: &'a str) -> (ok: bool)
    requires
        c < old(reg).arena_entities@.len(),
    ensures
        match add_mesh(old(reg).reg(), c as int, an.spec_bytes(), m.spec_bytes()) {
            Some(s) => ok && final(reg).reg() == s,
            None => !ok,
        },
        final(reg).arena_entities@.len() == old(reg).arena_entities@.len(),
        final(reg).corridor_palettes@ == old(reg).corridor_palettes@,
{
    let ghost st = reg.reg();
    let e = ensure_entity(reg, m);
    let ghost s1 = reg.reg();
    reg.seen.push(m);
    assert(reg.reg().seen =~= s1.seen.push(m.spec_bytes()));
    let ghost s2 = reg.reg();
    assert(s2 == RegV { seen: s1.seen.push(m.spec_bytes()), ..s1 });
    assert(s2.ents[e as int].1 == texts_view(reg.entities@[e as int].1@));
    if contains_str(&reg.entities[e].1, an) {
        return true;
    }
    assert(s2.arena_ents[c as int] == texts_view(reg.arena_entities@[c as int]@));
    if contains_str(&reg.arena_entities[c], m) {
        return false;
    }
    let list = push_str(&reg.entities[e].1, an);
    let sorted = sorted_names(list);
    reg.entities.set(e, (m, sorted));
    let al = push_str(&reg.arena_entities[c], m);
    reg.arena_entities.set(c, al);
    assert(reg.reg().ents =~= s2.ents.update(
        e as int,
        (m.spec_bytes(), sorted_of(s2.ents[e as int].1.push(an.spec_bytes()), bytes_order())),
    ));
    assert(reg.reg().arena_ents =~= s2.arena_ents.update(c as int, s2.arena_ents[c as int].push(m.spec_bytes())));
    true
}


proof fn lemma_add_meshes_none(st: RegV, c: int, an: Seq<u8>, ms: Seq<Seq<u8>>, k: int, n: int)
    requires
        0 <= k <= n,
        add_meshes(st, c, an, ms, k) is None,
    ensures
        add_meshes(st, c, an, ms, n) is None,
    decreases n - k,
{
    if k < n {
        lemma_add_meshes_none(st, c, an, ms, k + 1, n);
    }
}

proof fn lemma_add_arenas_none(st: RegV, a: Seq<(Seq<u8>, Seq<Seq<u8>>)>, cn: Seq<Seq<u8>>, k: int, n: int)
    requires
        0 <= k <= n,
        add_arenas(st, a, cn, k) is None,
    ensures
        add_arenas(st, a, cn, n) is None,
    decreases n - k,
{
    if k < n {
        lemma_add_arenas_none(st, a, cn, k + 1, n);
    }
}

proof fn lemma_add_corridors_none(
    st: CorridorsV,
    cs: Seq<Seq<u8>>,
    an: Seq<Seq<u8>>,
    cn: Seq<Seq<u8>>,
    k: int,
    n: int,
)
    requires
        0 <= k <= n,
        add_corridors(st, cs, an, cn, k) is None,
    ensures
        add_corridors(st, cs, an, cn, n) is None,
    decreases n - k,
{
    if k < n {
        lemma_add_corridors_none(st, cs, an, cn, k + 1, n);
    }
}

/// The names of the meshes of an arena.
pub open spec fn mesh_names(m: Seq<(&str, &[u8], bool)>) -> Seq<Seq<u8>> {
    m.map_values(|x: (&str, &[u8], bool)| x.0.spec_bytes())
}

fn add_arena_exec<'a>(reg: &mut Registry<'a>, arena: &MtoArena<'a>, cmi_names_v: &Vec<&'a str>) -> (ok: bool)
    requires
        old(reg).arena_entities@.len() == cmi_names_v@.len(),
    ensures
        match add_arena(old(reg).reg(), arena.name.spec_bytes(), mesh_names(arena.meshes@), texts_view(cmi_names_v@)) {
            Some(s) => ok && final(reg).reg() == s,
            None => !ok,
        },
        final(reg).arena_entities@.len() == old(reg).arena_entities@.len(),
        final(reg).corridor_palettes@ == old(reg).corridor_palettes@,
{
    let ghost st = reg.reg();
    let an = arena.name;
    let ghost ms = mesh_names(arena.meshes@);
    let c = match find_str(cmi_names_v, an) {
        Some(c) => c,
        None => return false,
    };
    proof {
        lemma_index_contains(texts_view(cmi_names_v@), an.spec_bytes());
    }
    let mut k: usize = 0;
    while k < arena.meshes.len()
        invariant
            0 <= k <= arena.meshes@.len(),
            ms == mesh_names(arena.meshes@),
            an == arena.name,
            st == old(reg).reg(),
            old(reg).arena_entities@.len() == cmi_names_v@.len(),
            seq_index(texts_view(cmi_names_v@), an.spec_bytes()) == Some(c as int),
            c < cmi_names_v@.len(),
            reg.arena_entities@.len() == cmi_names_v@.len(),
            reg.corridor_palettes@ == old(reg).corridor_palettes@,
            add_meshes(st, c as int, an.spec_bytes(), ms, k as int) == Some(reg.reg()),
        decreases arena.meshes@.len() - k,
    {
        let m = arena.meshes[k].0;
        assert(ms[k as int] == m.spec_bytes());
        let ghost pre = reg.reg();
        if !add_mesh_exec(reg, c, an, m) {
            proof {
                assert(add_mesh(pre, c as int, an.spec_bytes(), ms[k as int]) is None);
                assert(add_meshes(st, c as int, an.spec_bytes(), ms, k + 1) is None);
                lemma_add_meshes_none(st, c as int, an.spec_bytes(), ms, k + 1, ms.len() as int);
                assert(add_arena(st, an.spec_bytes(), ms, texts_view(cmi_names_v@)) is None);
            }
            return false;
        }
        k = k + 1;
    }
    let ghost s1 = reg.reg();
    if contains_str(&reg.seen, an) {
        return false;
    }
    reg.seen.push(an);
    assert(reg.reg().seen =~= s1.seen.push(an.spec_bytes()));
    assert(reg.reg() == RegV { seen: s1.seen.push(an.spec_bytes()), ..s1 });
    let e = ensure_entity(reg, an);
    assert(reg.reg().ents[e as int].1 == texts_view(reg.entities@[e as int].1@));
    contains_str(&reg.entities[e].1, an)
}

/// Which of the names, as bytes, has a palette: a position among the
/// arenas' names, else among the corridors given one.
fn find_palette_name<'a>(arena_names: &Vec<&'a str>, pals: &Vec<(&'a str, &'a str)>, n: &[u8]) -> (r: Option<&'a str>)
    ensures
        match r {
            Some(s) => palette_names(texts_view(arena_names@), pairs_view(pals@)).contains(n@) && s.spec_bytes() == n@,
            None => !palette_names(texts_view(arena_names@), pairs_view(pals@)).contains(n@),
        },
{
    let ghost all = palette_names(texts_view(arena_names@), pairs_view(pals@));
    let mut names: Vec<&'a str> = copy_strs(arena_names);
    let mut k: usize = 0;
    while k < pals.len()
        invariant
            0 <= k <= pals@.len(),
            texts_view(names@) == texts_view(arena_names@) + pairs_view(pals@).map_values(
                |p: (Seq<u8>, Seq<u8>)| p.0,
            ).take(k as int),
        decreases pals@.len() - k,
    {
        let ghost before = texts_view(names@);
        names.push(pals[k].0);
        assert(texts_view(names@) =~= before.push(pals@[k as int].0.spec_bytes()));
        assert(pairs_view(pals@).map_values(|p: (Seq<u8>, Seq<u8>)| p.0).take(k + 1) =~= pairs_view(pals@).map_values(
            |p: (Seq<u8>, Seq<u8>)| p.0,
        ).take(k as int).push(pals@[k as int].0.spec_bytes()));
        k = k + 1;
    }
    assert(texts_view(names@) =~= all);
    proof {
        lemma_index_contains(all, n@);
    }
    match find_bytes(&names, n) {
        Some(i) => {
            assert(texts_view(names@)[i as int] == n@);
            Some(names[i])
        },
        None => None,
    }
}

fn add_corridor_exec<'a>(
    reg: &mut Registry<'a>,
    cn: &'a str,
    arena_names: &Vec<&'a str>,
    cmi_names_v: &Vec<&'a str>,
) -> (ok: bool)
    requires
        old(reg).arena_entities@.len() == cmi_names_v@.len(),
    ensures
        match add_corridor(
            CorridorsV { reg: old(reg).reg(), palettes: pairs_view(old(reg).corridor_palettes@) },
            cn.spec_bytes(),
            texts_view(arena_names@),
            texts_view(cmi_names_v@),
        ) {
            Some(c) => ok && final(reg).reg() == c.reg && pairs_view(final(reg).corridor_palettes@) == c.palettes,
            None => !ok,
        },
        final(reg).arena_entities@.len() == old(reg).arena_entities@.len(),
{
    let ghost st = reg.reg();
    let b = cn.as_bytes();
    if b.len() == 0 || b[0] != 0x43 {
        return false;
    }
    let an = vstd::slice::slice_subrange(b, 1, b.len());
    assert(an@ =~= cn.spec_bytes().drop_first());
    let e = ensure_entity(reg, cn);
    let ghost s1 = reg.reg();
    assert(s1.ents[e as int].1 == texts_view(reg.entities@[e as int].1@));
    if contains_str(&reg.entities[e].1, cn) {
        match find_palette_name(arena_names, &reg.corridor_palettes, an) {
            Some(src) => {
                let ghost before = pairs_view(reg.corridor_palettes@);
                reg.corridor_palettes.push((cn, src));
                assert(pairs_view(reg.corridor_palettes@) =~= before.push((cn.spec_bytes(), an@)));
                return true;
            },
            None => return false,
        }
    }
    if contains_str(&reg.seen, cn) {
        return false;
    }
    let c = match find_bytes(cmi_names_v, an) {
        Some(c) => c,
        None => return false,
    };
    proof {
        lemma_index_contains(texts_view(cmi_names_v@), an@);
    }
    let arena_name = cmi_names_v[c];
    assert(texts_view(cmi_names_v@)[c as int] == cmi_names_v@[c as int].spec_bytes());
    assert(arena_name.spec_bytes() == an@);
    let list = push_str(&reg.entities[e].1, arena_name);
    reg.entities.set(e, (cn, list));
    let al = push_str(&reg.arena_entities[c], cn);
    reg.arena_entities.set(c, al);
    reg.seen.push(cn);
    assert(reg.reg().ents =~= s1.ents.update(e as int, (cn.spec_bytes(), s1.ents[e as int].1.push(an@))));
    assert(reg.reg().arena_ents =~= s1.arena_ents.update(c as int, s1.arena_ents[c as int].push(cn.spec_bytes())));
    assert(reg.reg().seen =~= s1.seen.push(cn.spec_bytes()));
    assert(s1 == with_entity(st, cn.spec_bytes()));
    true
}


/// Registers the entities of a level: each mesh of each arena of the asset
/// file joins that arena (the arena's entities, and the mesh's arenas kept
/// sorted); then each corridor BSP tree of `sni_o` either gets the palette of
/// the arena it leads from, where the scripts place it, or joins that arena.
/// `None` where the original checks fail (see [`registration`]).
pub fn register_level<'a>(cmi: &Cmi<'a>, mto: &Mto<'a>, sni_o: &Sni<'a>, sni_s: &Sni<'a>) -> (res: Option<Registry<'a>>)
    ensures
        match registration(cmi, mto, bsp_names(sni_o.bsps@), sni_s.bsps@.len()) {
            Some(c) => res matches Some(r) && r.reg() == c.reg && pairs_view(r.corridor_palettes@) == c.palettes,
            None => res is None,
        },
{
    let ghost init = RegV { ents: cmi_ents(cmi.entities@), arena_ents: cmi_arena_ents(cmi.arenas@), seen: Seq::empty() };
    let mut reg = Registry { entities: Vec::new(), arena_entities: Vec::new(), seen: Vec::new(), corridor_palettes: Vec::new() };
    let mut k: usize = 0;
    while k < cmi.entities.len()
        invariant
            0 <= k <= cmi.entities@.len(),
            ents_view(reg.entities@) == cmi_ents(cmi.entities@).take(k as int),
            reg.arena_entities@.len() == 0,
            reg.seen@.len() == 0,
            reg.corridor_palettes@.len() == 0,
        decreases cmi.entities@.len() - k,
    {
        let ghost before = ents_view(reg.entities@);
        let arenas = copy_strs(&cmi.entities[k].1.arenas);
        reg.entities.push((cmi.entities[k].0, arenas));
        assert(ents_view(reg.entities@) =~= before.push(cmi_ents(cmi.entities@)[k as int]));
        assert(cmi_ents(cmi.entities@).take(k + 1) =~= cmi_ents(cmi.entities@).take(k as int).push(
            cmi_ents(cmi.entities@)[k as int],
        ));
        k = k + 1;
    }
    assert(cmi_ents(cmi.entities@).take(k as int) =~= cmi_ents(cmi.entities@));
    assert(lists_view(reg.arena_entities@) =~= cmi_arena_ents(cmi.arenas@).take(0));
    let mut cnames: Vec<&'a str> = Vec::new();
    let mut k: usize = 0;
    while k < cmi.arenas.len()
        invariant
            0 <= k <= cmi.arenas@.len(),
            ents_view(reg.entities@) == cmi_ents(cmi.entities@),
            reg.seen@.len() == 0,
            reg.corridor_palettes@.len() == 0,
            lists_view(reg.arena_entities@) == cmi_arena_ents(cmi.arenas@).take(k as int),
            texts_view(cnames@) == cmi_names(cmi.arenas@).take(k as int),
        decreases cmi.arenas@.len() - k,
    {
        let ghost b1 = lists_view(reg.arena_entities@);
        let ghost b2 = texts_view(cnames@);
        let es = copy_strs(&cmi.arenas[k].entities);
        reg.arena_entities.push(es);
        cnames.push(cmi.arenas[k].name);
        assert(lists_view(reg.arena_entities@) =~= b1.push(cmi_arena_ents(cmi.arenas@)[k as int]));
        assert(cmi_arena_ents(cmi.arenas@).take(k + 1) =~= cmi_arena_ents(cmi.arenas@).take(k as int).push(
            cmi_arena_ents(cmi.arenas@)[k as int],
        ));
        assert(texts_view(cnames@) =~= b2.push(cmi_names(cmi.arenas@)[k as int]));
        assert(cmi_names(cmi.arenas@).take(k + 1) =~= cmi_names(cmi.arenas@).take(k as int).push(
            cmi_names(cmi.arenas@)[k as int],
        ));
        k = k + 1;
    }
    assert(cmi_arena_ents(cmi.arenas@).take(k as int) =~= cmi_arena_ents(cmi.arenas@));
    assert(cmi_names(cmi.arenas@).take(k as int) =~= cmi_names(cmi.arenas@));
    assert(reg.reg().seen =~= Seq::<Seq<u8>>::empty());
    assert(reg.reg() == init);
    let ghost ms = mto_arenas(mto.arenas@);
    let ghost cn = cmi_names(cmi.arenas@);
    let mut mnames: Vec<&'a str> = Vec::new();
    let mut i: usize = 0;
    while i < mto.arenas.len()
        invariant
            0 <= i <= mto.arenas@.len(),
            init == (RegV { ents: cmi_ents(cmi.entities@), arena_ents: cmi_arena_ents(cmi.arenas@), seen: Seq::empty() }),
            ms == mto_arenas(mto.arenas@),
            cn == cmi_names(cmi.arenas@),
            texts_view(cnames@) == cn,
            reg.arena_entities@.len() == cnames@.len(),
            reg.corridor_palettes@.len() == 0,
            add_arenas(init, ms, cn, i as int) == Some(reg.reg()),
            texts_view(mnames@) == names_of(ms).take(i as int),
        decreases mto.arenas@.len() - i,
    {
        let arena = &mto.arenas[i];
        assert(ms[i as int] == (arena.name.spec_bytes(), mesh_names(arena.meshes@)));
        let ghost pre = reg.reg();
        if !add_arena_exec(&mut reg, arena, &cnames) {
            proof {
                assert(add_arenas(init, ms, cn, i + 1) is None);
                lemma_add_arenas_none(init, ms, cn, i + 1, ms.len() as int);
            }
            return None;
        }
        let ghost b = texts_view(mnames@);
        mnames.push(arena.name);
        assert(texts_view(mnames@) =~= b.push(arena.name.spec_bytes()));
        assert(names_of(ms).take(i + 1) =~= names_of(ms).take(i as int).push(arena.name.spec_bytes()));
        i = i + 1;
    }
    assert(names_of(ms).take(i as int) =~= names_of(ms));
    let ghost r = reg.reg();
    let ghost cs = bsp_names(sni_o.bsps@);
    let ghost an = names_of(ms);
    let ghost st0 = CorridorsV { reg: r, palettes: Seq::empty() };
    assert(pairs_view(reg.corridor_palettes@) =~= Seq::<(Seq<u8>, Seq<u8>)>::empty());
    let mut j: usize = 0;
    while j < sni_o.bsps.len()
        invariant
            0 <= j <= sni_o.bsps@.len(),
            init == (RegV { ents: cmi_ents(cmi.entities@), arena_ents: cmi_arena_ents(cmi.arenas@), seen: Seq::empty() }),
            ms == mto_arenas(mto.arenas@),
            cn == cmi_names(cmi.arenas@),
            an == names_of(ms),
            add_arenas(init, ms, cn, ms.len() as int) == Some(r),
            st0 == (CorridorsV { reg: r, palettes: Seq::empty() }),
            cs == bsp_names(sni_o.bsps@),
            texts_view(cnames@) == cn,
            texts_view(mnames@) == an,
            reg.arena_entities@.len() == cnames@.len(),
            add_corridors(st0, cs, an, cn, j as int) == Some(
                CorridorsV { reg: reg.reg(), palettes: pairs_view(reg.corridor_palettes@) },
            ),
        decreases sni_o.bsps@.len() - j,
    {
        let name = sni_o.bsps[j].0;
        assert(cs[j as int] == name.spec_bytes());
        if !add_corridor_exec(&mut reg, name, &mnames, &cnames) {
            proof {
                assert(add_corridors(st0, cs, an, cn, j + 1) is None);
                lemma_add_corridors_none(st0, cs, an, cn, j + 1, cs.len() as int);
            }
            return None;
        }
        j = j + 1;
    }
    if sni_s.bsps.len() != 0 {
        return None;
    }
    Some(reg)
}

} // verus!
