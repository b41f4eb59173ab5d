//! A disassembly of the game's scripting bytecode: the blocks of a script,
//! found by following its branches, and the animations, paths and other
//! scripts that it refers to.

use vstd::prelude::*;

use crate::data_formats::cmi_decode::{Instr, InstrV, block_from, decode_block, instrs_view};
use crate::data_formats::cmi_operands::{Operand, OperandV, operands_view, texts_view};
use crate::reader::Reader;
use crate::sorting::{
    SortKey, bytes_less, bytes_lt, covers, drawn_from, has_same, lemma_bytes_lt_asymmetric,
    lemma_bytes_lt_irreflexive, lemma_bytes_lt_total, lemma_bytes_lt_transitive, lemma_sorted_set_str,
    lemma_sorted_set_u32, same_key, sort_dedup, sorted_set, strictly_sorted, bytes_order, u32_order,
};
use vstd::string::StringSliceAdditionalSpecFns;

verus! {

broadcast use crate::reader::lemma_reader_bounds;

// ---------------------------------------------------------------------------
// Block references

/// The block offsets that an operand refers to, in the order they are read.
pub open spec fn operand_refs(o: OperandV) -> Seq<u32> {
    match o {
        OperandV::Block(v) => seq![v],
        OperandV::Branch(b) => if b.code == 0xFE {
            seq![b.target1, b.target2]
        } else if b.code == 0xFC || b.code == 0x0C {
            seq![b.target1]
        } else {
            Seq::empty()
        },
        OperandV::Blocks(v) => v,
        OperandV::Weighted(w) => w.map_values(|x: (u8, u32)| x.1),
        _ => Seq::empty(),
    }
}

/// The block offsets that a sequence of operands refers to, in order.
pub open spec fn ops_refs(ops: Seq<OperandV>) -> Seq<u32> {
    ops.map_values(|o: OperandV| operand_refs(o)).flatten()
}

/// The block offsets that the instructions refer to, in order.
pub open spec fn instrs_refs(is: Seq<InstrV>) -> Seq<u32> {
    is.map_values(|i: InstrV| ops_refs(i.operands)).flatten()
}

proof fn lemma_ops_refs_take(ops: Seq<OperandV>, k: int)
    requires
        0 <= k < ops.len(),
    ensures
        ops_refs(ops.take(k + 1)) == ops_refs(ops.take(k)) + operand_refs(ops[k]),
{
    let f = |o: OperandV| operand_refs(o);
    assert(ops.take(k + 1).map_values(f) =~= ops.take(k).map_values(f).push(operand_refs(ops[k])));
    ops.take(k).map_values(f).lemma_flatten_push(operand_refs(ops[k]));
}

proof fn lemma_instrs_refs_take(is: Seq<InstrV>, k: int)
    requires
        0 <= k < is.len(),
    ensures
        instrs_refs(is.take(k + 1)) == instrs_refs(is.take(k)) + ops_refs(is[k].operands),
{
    let f = |i: InstrV| ops_refs(i.operands);
    assert(is.take(k + 1).map_values(f) =~= is.take(k).map_values(f).push(ops_refs(is[k].operands)));
    is.take(k).map_values(f).lemma_flatten_push(ops_refs(is[k].operands));
}

proof fn lemma_add_refs_one(blocks: Seq<u32>, r: u32)
    ensures
        add_refs(blocks, seq![r]) == add_ref(blocks, r),
{
    assert(seq![r].drop_first() =~= Seq::<u32>::empty());
    assert(seq![r][0] == r);
    assert(add_refs(add_ref(blocks, r), Seq::<u32>::empty()) == add_ref(blocks, r));
}

/// The list of known blocks after meeting a reference to `offset`: offset 0
/// means no block, and a block already known is not added again.
pub open spec fn add_ref(blocks: Seq<u32>, offset: u32) -> Seq<u32> {
    if offset == 0 || blocks.contains(offset) {
        blocks
    } else {
        blocks.push(offset)
    }
}

pub open spec fn add_refs(blocks: Seq<u32>, refs: Seq<u32>) -> Seq<u32>
    decreases refs.len(),
{
    if refs.len() == 0 {
        blocks
    } else {
        add_refs(add_ref(blocks, refs[0]), refs.drop_first())
    }
}

pub proof fn lemma_add_refs_concat(blocks: Seq<u32>, x: Seq<u32>, y: Seq<u32>)
    ensures
        add_refs(blocks, x + y) == add_refs(add_refs(blocks, x), y),
    decreases x.len(),
{
    if x.len() == 0 {
        assert(x + y =~= y);
    } else {
        assert((x + y).drop_first() =~= x.drop_first() + y);
        lemma_add_refs_concat(add_ref(blocks, x[0]), x.drop_first(), y);
    }
}

/// Records a reference to the block at `offset` and gives its number: 0 for
/// offset 0, the place of the offset where it is known already, and otherwise
/// the place where it is appended.
pub fn push_block(blocks: &mut Vec<u32>, offset: u32) -> (index: usize)
    ensures
        final(blocks)@ == add_ref(old(blocks)@, offset),
        offset == 0 ==> index == 0,
        offset != 0 ==> index < final(blocks)@.len() && final(blocks)@[index as int] == offset && forall|
            j: int,
        |
            0 <= j < index ==> final(blocks)@[j] != offset,
{
    if offset == 0 {
        return 0;
    }
    let mut i: usize = 0;
    while i < blocks.len()
        invariant
            blocks@ == old(blocks)@,
            offset != 0,
            0 <= i <= blocks@.len(),
            forall|j: int| 0 <= j < i ==> blocks@[j] != offset,
        decreases blocks@.len() - i,
    {
        if blocks[i] == offset {
            return i;
        }
        i = i + 1;
    }
    assert(!blocks@.contains(offset));
    let result = blocks.len();
    blocks.push(offset);
    result
}

/// Records the references in `list`.
fn push_all(blocks: &mut Vec<u32>, list: &Vec<u32>)
    ensures
        final(blocks)@ == add_refs(old(blocks)@, list@),
{
    let mut k: usize = 0;
    while k < list.len()
        invariant
            0 <= k <= list@.len(),
            blocks@ == add_refs(old(blocks)@, list@.take(k as int)),
        decreases list@.len() - k,
    {
        let ghost before = blocks@;
        push_block(blocks, list[k]);
        proof {
            assert(list@.take(k + 1) =~= list@.take(k as int) + seq![list@[k as int]]);
            lemma_add_refs_concat(old(blocks)@, list@.take(k as int), seq![list@[k as int]]);
            lemma_add_refs_one(before, list@[k as int]);
        }
        k = k + 1;
    }
    assert(list@.take(k as int) =~= list@);
}

/// Records the references of one operand.
fn push_operand_refs(blocks: &mut Vec<u32>, o: &Operand)
    ensures
        final(blocks)@ == add_refs(old(blocks)@, operand_refs(o@)),
{
    match o {
        Operand::Block(v) => {
            push_block(blocks, *v);
            proof {
                lemma_add_refs_one(old(blocks)@, *v);
            }
        },
        Operand::Branch(b) => {
            if b.code == 0xFE {
                push_block(blocks, b.target1);
                push_block(blocks, b.target2);
                proof {
                    let b0 = old(blocks)@;
                    lemma_add_refs_concat(b0, seq![b.target1], seq![b.target2]);
                    assert(seq![b.target1] + seq![b.target2] =~= seq![b.target1, b.target2]);
                    lemma_add_refs_one(b0, b.target1);
                    lemma_add_refs_one(add_ref(b0, b.target1), b.target2);
                }
            } else if b.code == 0xFC || b.code == 0x0C {
                push_block(blocks, b.target1);
                proof {
                    lemma_add_refs_one(old(blocks)@, b.target1);
                }
            }
        },
        Operand::Blocks(v) => {
            push_all(blocks, v);
        },
        Operand::Weighted(w) => {
            let mut k: usize = 0;
            let ghost list = w@.map_values(|x: (u8, u32)| x.1);
            while k < w.len()
                invariant
                    0 <= k <= w@.len(),
                    list == w@.map_values(|x: (u8, u32)| x.1),
                    blocks@ == add_refs(old(blocks)@, list.take(k as int)),
                decreases w@.len() - k,
            {
                let ghost before = blocks@;
                push_block(blocks, w[k].1);
                proof {
                    assert(list.take(k + 1) =~= list.take(k as int) + seq![w@[k as int].1]);
                    lemma_add_refs_concat(old(blocks)@, list.take(k as int), seq![w@[k as int].1]);
                    lemma_add_refs_one(before, w@[k as int].1);
                }
                k = k + 1;
            }
            assert(list.take(k as int) =~= list);
        },
        _ => {},
    }
}

/// Records the references of a sequence of instructions.
fn push_instrs_refs(blocks: &mut Vec<u32>, instrs: &Vec<Instr>)
    ensures
        final(blocks)@ == add_refs(old(blocks)@, instrs_refs(instrs_view(instrs@))),
{
    let ghost iv = instrs_view(instrs@);
    let mut k: usize = 0;
    while k < instrs.len()
        invariant
            0 <= k <= instrs@.len(),
            iv == instrs_view(instrs@),
            blocks@ == add_refs(old(blocks)@, instrs_refs(iv.take(k as int))),
        decreases instrs@.len() - k,
    {
        let ops = &instrs[k].operands;
        let ghost ov = iv[k as int].operands;
        let ghost start = blocks@;
        let mut j: usize = 0;
        while j < ops.len()
            invariant
                0 <= j <= ops@.len(),
                ov == crate::data_formats::cmi_operands::operands_view(ops@),
                blocks@ == add_refs(start, ops_refs(ov.take(j as int))),
            decreases ops@.len() - j,
        {
            let ghost before = blocks@;
            push_operand_refs(blocks, &ops[j]);
            proof {
                lemma_ops_refs_take(ov, j as int);
                lemma_add_refs_concat(start, ops_refs(ov.take(j as int)), operand_refs(ov[j as int]));
            }
            j = j + 1;
        }
        proof {
            assert(ov.take(j as int) =~= ov);
            lemma_instrs_refs_take(iv, k as int);
            lemma_add_refs_concat(old(blocks)@, instrs_refs(iv.take(k as int)), ops_refs(ov));
        }
        k = k + 1;
    }
    assert(iv.take(k as int) =~= iv);
}

// ---------------------------------------------------------------------------
// Calls into other scripts

/// Why a script calls another: the instruction that names it. The variants
/// are listed in the byte order of their names.
#[derive(Clone, Copy, Debug, PartialEq, Eq, Structural)]
pub enum CallReason {
    CreateChain,
    Order,
    Spawn,
    Spawn3D,
    Spawn56,
    Spawn71,
    Spawn9C,
    SpawnB3,
    SpawnBlit,
    SpawnDoor,
    SpawnPowerup,
    SpawnOnPath,
}

impl CallReason {
    /// The place of the reason in the order of its name.
    pub open spec fn rank(self) -> int {
        match self {
            CallReason::CreateChain => 0,
            CallReason::Order => 1,
            CallReason::Spawn => 2,
            CallReason::Spawn3D => 3,
            CallReason::Spawn56 => 4,
            CallReason::Spawn71 => 5,
            CallReason::Spawn9C => 6,
            CallReason::SpawnB3 => 7,
            CallReason::SpawnBlit => 8,
            CallReason::SpawnDoor => 9,
            CallReason::SpawnPowerup => 10,
            CallReason::SpawnOnPath => 11,
        }
    }

    pub fn rank_of(&self) -> (r: u8)
        ensures
            r == self.rank(),
    {
        match self {
            CallReason::CreateChain => 0,
            CallReason::Order => 1,
            CallReason::Spawn => 2,
            CallReason::Spawn3D => 3,
            CallReason::Spawn56 => 4,
            CallReason::Spawn71 => 5,
            CallReason::Spawn9C => 6,
            CallReason::SpawnB3 => 7,
            CallReason::SpawnBlit => 8,
            CallReason::SpawnDoor => 9,
            CallReason::SpawnPowerup => 10,
            CallReason::SpawnOnPath => 11,
        }
    }

    /// The name of the reason.
    pub open spec fn text(self) -> Seq<char> {
        match self {
            CallReason::CreateChain => "Create Chain"@,
            CallReason::Order => "Order"@,
            CallReason::Spawn => "Spawn"@,
            CallReason::Spawn3D => "Spawn (3D)"@,
            CallReason::Spawn56 => "Spawn (56)"@,
            CallReason::Spawn71 => "Spawn (71)"@,
            CallReason::Spawn9C => "Spawn (9C)"@,
            CallReason::SpawnB3 => "Spawn (B3)"@,
            CallReason::SpawnBlit => "Spawn Blit"@,
            CallReason::SpawnDoor => "Spawn Door"@,
            CallReason::SpawnPowerup => "Spawn Powerup"@,
            CallReason::SpawnOnPath => "Spawn on path"@,
        }
    }

    /// The name of the reason.
    pub fn as_str(&self) -> (s: &'static str)
        ensures
            s@ == self.text(),
    {
        match self {
            CallReason::CreateChain => "Create Chain",
            CallReason::Order => "Order",
            CallReason::Spawn => "Spawn",
            CallReason::Spawn3D => "Spawn (3D)",
            CallReason::Spawn56 => "Spawn (56)",
            CallReason::Spawn71 => "Spawn (71)",
            CallReason::Spawn9C => "Spawn (9C)",
            CallReason::SpawnB3 => "Spawn (B3)",
            CallReason::SpawnBlit => "Spawn Blit",
            CallReason::SpawnDoor => "Spawn Door",
            CallReason::SpawnPowerup => "Spawn Powerup",
            CallReason::SpawnOnPath => "Spawn on path",
        }
    }
}

/// The instructions that call other scripts, and why.
pub open spec fn reason_of(op: u8) -> Option<CallReason> {
    match op {
        0x04 => Some(CallReason::Order),
        0x1D => Some(CallReason::CreateChain),
        0x3D => Some(CallReason::Spawn3D),
        0x56 => Some(CallReason::Spawn56),
        0x71 => Some(CallReason::Spawn71),
        0x95 => Some(CallReason::SpawnDoor),
        0x9C => Some(CallReason::Spawn9C),
        0x9F => Some(CallReason::SpawnBlit),
        0xA1 => Some(CallReason::SpawnPowerup),
        0xB3 => Some(CallReason::SpawnB3),
        0xCE => Some(CallReason::SpawnOnPath),
        0xE6 => Some(CallReason::Spawn),
        _ => None,
    }
}

fn reason_for(op: u8) -> (r: Option<CallReason>)
    ensures
        r == reason_of(op),
{
    match op {
        0x04 => Some(CallReason::Order),
        0x1D => Some(CallReason::CreateChain),
        0x3D => Some(CallReason::Spawn3D),
        0x56 => Some(CallReason::Spawn56),
        0x71 => Some(CallReason::Spawn71),
        0x95 => Some(CallReason::SpawnDoor),
        0x9C => Some(CallReason::Spawn9C),
        0x9F => Some(CallReason::SpawnBlit),
        0xA1 => Some(CallReason::SpawnPowerup),
        0xB3 => Some(CallReason::SpawnB3),
        0xCE => Some(CallReason::SpawnOnPath),
        0xE6 => Some(CallReason::Spawn),
        _ => None,
    }
}

/// A call of another script: its offset, the name of what runs it, and why.
#[derive(Clone, Copy, Debug)]
pub struct CmiCalledScript<'a> {
    pub target_offset: u32,
    pub target_name: &'a str,
    pub reason: CallReason,
}

pub struct CalledV {
    pub target_offset: u32,
    pub target_name: Seq<u8>,
    pub reason: CallReason,
}

impl<'a> View for CmiCalledScript<'a> {
    type V = CalledV;

    open spec fn view(&self) -> CalledV {
        CalledV {
            target_offset: self.target_offset,
            target_name: self.target_name.spec_bytes(),
            reason: self.reason,
        }
    }
}

/// Where a script is called from, as the caller's file records it.
#[derive(Debug)]
pub struct CmiCallOrigin<'a> {
    pub arena_name: &'a str,
    pub source_name: &'a str,
    pub target_name: &'a str,
    pub reason: String,
    pub source_offset: u32,
}

/// The first script offset among the operands.
pub open spec fn first_ext(ops: Seq<OperandV>) -> Option<u32>
    decreases ops.len(),
{
    if ops.len() == 0 {
        None
    } else {
        match ops[0] {
            OperandV::Ext(v) => Some(v),
            _ => first_ext(ops.drop_first()),
        }
    }
}

/// The first string among the operands.
pub open spec fn first_text(ops: Seq<OperandV>) -> Option<Seq<u8>>
    decreases ops.len(),
{
    if ops.len() == 0 {
        None
    } else {
        match ops[0] {
            OperandV::Text(t) => Some(t),
            _ => first_text(ops.drop_first()),
        }
    }
}

/// The last string among the operands.
pub open spec fn last_text(ops: Seq<OperandV>) -> Option<Seq<u8>>
    decreases ops.len(),
{
    if ops.len() == 0 {
        None
    } else {
        match ops.last() {
            OperandV::Text(t) => Some(t),
            _ => last_text(ops.drop_last()),
        }
    }
}

/// The name given to a called script when its instruction names none.
pub open spec fn unknown_name() -> Seq<u8> {
    "Unknown".spec_bytes()
}

/// The name of what runs a called script: the last string of a 3D spawn
/// (whose first may name a point), the first string otherwise.
pub open spec fn call_name(op: u8, ops: Seq<OperandV>) -> Seq<u8> {
    let t = if op == 0x3D {
        last_text(ops)
    } else {
        first_text(ops)
    };
    match t {
        Some(n) => n,
        None => unknown_name(),
    }
}

/// The script that an instruction calls, if any.
pub open spec fn call_of(i: InstrV) -> Option<CalledV> {
    match (reason_of(i.opcode), first_ext(i.operands)) {
        (Some(r), Some(t)) => Some(
            CalledV { target_offset: t, target_name: call_name(i.opcode, i.operands), reason: r },
        ),
        _ => None,
    }
}

fn find_ext(ops: &Vec<Operand>) -> (r: Option<u32>)
    ensures
        r == first_ext(operands_view(ops@)),
{
    let ghost ov = operands_view(ops@);
    let mut k: usize = 0;
    assert(ov.skip(0) =~= ov);
    while k < ops.len()
        invariant
            0 <= k <= ops@.len(),
            ov == operands_view(ops@),
            first_ext(ov) == first_ext(ov.skip(k as int)),
        decreases ops@.len() - k,
    {
        assert(ov.skip(k as int)[0] == ov[k as int]);
        assert(ov.skip(k as int).drop_first() =~= ov.skip(k + 1));
        if let Operand::Ext(v) = &ops[k] {
            return Some(*v);
        }
        k = k + 1;
    }
    None
}

fn find_first_text<'a>(ops: &Vec<Operand<'a>>) -> (r: Option<&'a str>)
    ensures
        first_text(operands_view(ops@)) == match r {
            Some(s) => Some(s.spec_bytes()),
            None => None,
        },
{
    let ghost ov = operands_view(ops@);
    let mut k: usize = 0;
    assert(ov.skip(0) =~= ov);
    while k < ops.len()
        invariant
            0 <= k <= ops@.len(),
            ov == operands_view(ops@),
            first_text(ov) == first_text(ov.skip(k as int)),
        decreases ops@.len() - k,
    {
        assert(ov.skip(k as int)[0] == ov[k as int]);
        assert(ov.skip(k as int).drop_first() =~= ov.skip(k + 1));
        if let Operand::Text(s) = &ops[k] {
            return Some(*s);
        }
        k = k + 1;
    }
    None
}

fn find_last_text<'a>(ops: &Vec<Operand<'a>>) -> (r: Option<&'a str>)
    ensures
        last_text(operands_view(ops@)) == match r {
            Some(s) => Some(s.spec_bytes()),
            None => None,
        },
{
    let ghost ov = operands_view(ops@);
    let mut k: usize = ops.len();
    assert(ov.take(ov.len() as int) =~= ov);
    while k > 0
        invariant
            0 <= k <= ops@.len(),
            ov == operands_view(ops@),
            last_text(ov) == last_text(ov.take(k as int)),
        decreases k,
    {
        assert(ov.take(k as int).last() == ov[k - 1]);
        assert(ov.take(k as int).drop_last() =~= ov.take(k - 1));
        if let Operand::Text(s) = &ops[k - 1] {
            return Some(*s);
        }
        k = k - 1;
    }
    None
}

/// The script that an instruction calls, if any.
pub fn call_for<'a>(instr: &Instr<'a>) -> (r: Option<CmiCalledScript<'a>>)
    ensures
        call_of(instr@) == match r {
            Some(c) => Some(c@),
            None => None,
        },
{
    let reason = match reason_for(instr.opcode) {
        Some(r) => r,
        None => return None,
    };
    let target = match find_ext(&instr.operands) {
        Some(t) => t,
        None => return None,
    };
    let name = if instr.opcode == 0x3D {
        find_last_text(&instr.operands)
    } else {
        find_first_text(&instr.operands)
    };
    let target_name = match name {
        Some(n) => n,
        None => "Unknown",
    };
    Some(CmiCalledScript { target_offset: target, target_name, reason })
}

// ---------------------------------------------------------------------------
// What a script refers to

/// The operands of the instructions, in order.
pub open spec fn instrs_ops(is: Seq<InstrV>) -> Seq<OperandV> {
    is.map_values(|i: InstrV| i.operands).flatten()
}

pub open spec fn anim_name_of(o: OperandV) -> Option<Seq<u8>> {
    match o {
        OperandV::Anim(_, Some(n)) => Some(n),
        _ => None,
    }
}

pub open spec fn anim_offset_of(o: OperandV) -> Option<u32> {
    match o {
        OperandV::Anim(v, None) => Some(v),
        _ => None,
    }
}

pub open spec fn path_of(o: OperandV) -> Option<u32> {
    match o {
        OperandV::Path(v) => Some(v),
        _ => None,
    }
}

/// The names of the animations that the instructions refer to, in order.
pub open spec fn anim_names_in(is: Seq<InstrV>) -> Seq<Seq<u8>> {
    instrs_ops(is).filter_map(|o: OperandV| anim_name_of(o))
}

/// The offsets of the animations without a name that the instructions refer to.
pub open spec fn anim_offsets_in(is: Seq<InstrV>) -> Seq<u32> {
    instrs_ops(is).filter_map(|o: OperandV| anim_offset_of(o))
}

/// The offsets of the paths that the instructions refer to.
pub open spec fn paths_in(is: Seq<InstrV>) -> Seq<u32> {
    instrs_ops(is).filter_map(|o: OperandV| path_of(o))
}

/// The scripts that the instructions call.
pub open spec fn calls_in(is: Seq<InstrV>) -> Seq<CalledV> {
    is.filter_map(|i: InstrV| call_of(i))
}

pub proof fn lemma_filter_map_concat<A, B>(x: Seq<A>, y: Seq<A>, f: spec_fn(A) -> Option<B>)
    ensures
        (x + y).filter_map(f) == x.filter_map(f) + y.filter_map(f),
    decreases y.len(),
{
    if y.len() == 0 {
        assert(x + y =~= x);
        assert(x.filter_map(f) + y.filter_map(f) =~= x.filter_map(f));
    } else {
        assert((x + y).drop_last() =~= x + y.drop_last());
        assert((x + y).last() == y.last());
        lemma_filter_map_concat(x, y.drop_last(), f);
        match f(y.last()) {
            Some(v) => assert(x.filter_map(f) + y.drop_last().filter_map(f) + seq![v] =~= x.filter_map(
                f,
            ) + (y.drop_last().filter_map(f) + seq![v])),
            None => {},
        }
    }
}

proof fn lemma_instrs_ops_concat(x: Seq<InstrV>, y: Seq<InstrV>)
    ensures
        instrs_ops(x + y) == instrs_ops(x) + instrs_ops(y),
{
    let f = |i: InstrV| i.operands;
    assert((x + y).map_values(f) =~= x.map_values(f) + y.map_values(f));
    vstd::seq_lib::lemma_flatten_concat(x.map_values(f), y.map_values(f));
}

/// Everything a script refers to, gathered while its blocks are decoded.
struct Gathered<'a> {
    anim_names: Vec<&'a str>,
    anim_offsets: Vec<u32>,
    path_offsets: Vec<u32>,
    calls: Vec<CmiCalledScript<'a>>,
}

impl<'a> Gathered<'a> {
    spec fn holds(&self, is: Seq<InstrV>) -> bool {
        &&& texts_view(self.anim_names@) == anim_names_in(is)
        &&& self.anim_offsets@ == anim_offsets_in(is)
        &&& self.path_offsets@ == paths_in(is)
        &&& self.calls@.map_values(|c: CmiCalledScript| c@) == calls_in(is)
    }
}

/// Gathers what one operand refers to.
fn gather_operand<'a>(g: &mut Gathered<'a>, o: &Operand<'a>)
    ensures
        texts_view(final(g).anim_names@) == texts_view(old(g).anim_names@) + seq![o@].filter_map(
            |o: OperandV| anim_name_of(o),
        ),
        final(g).anim_offsets@ == old(g).anim_offsets@ + seq![o@].filter_map(
            |o: OperandV| anim_offset_of(o),
        ),
        final(g).path_offsets@ == old(g).path_offsets@ + seq![o@].filter_map(|o: OperandV| path_of(o)),
        final(g).calls@ == old(g).calls@,
{
    proof {
        reveal_with_fuel(Seq::filter_map, 2);
        assert(seq![o@].drop_last() =~= Seq::<OperandV>::empty());
    }
    match o {
        Operand::Anim(v, Some(n)) => {
            let ghost before = texts_view(g.anim_names@);
            g.anim_names.push(*n);
            proof {
                assert(texts_view(g.anim_names@) =~= before + seq![n.spec_bytes()]);
            }
            assert(g.anim_offsets@ =~= old(g).anim_offsets@ + Seq::<u32>::empty());
            assert(g.path_offsets@ =~= old(g).path_offsets@ + Seq::<u32>::empty());
        },
        Operand::Anim(v, None) => {
            g.anim_offsets.push(*v);
            assert(texts_view(g.anim_names@) =~= texts_view(old(g).anim_names@) + Seq::<Seq<u8>>::empty());
            assert(g.path_offsets@ =~= old(g).path_offsets@ + Seq::<u32>::empty());
        },
        Operand::Path(v) => {
            g.path_offsets.push(*v);
            assert(texts_view(g.anim_names@) =~= texts_view(old(g).anim_names@) + Seq::<Seq<u8>>::empty());
            assert(g.anim_offsets@ =~= old(g).anim_offsets@ + Seq::<u32>::empty());
        },
        _ => {
            assert(texts_view(g.anim_names@) =~= texts_view(old(g).anim_names@) + Seq::<Seq<u8>>::empty());
            assert(g.anim_offsets@ =~= old(g).anim_offsets@ + Seq::<u32>::empty());
            assert(g.path_offsets@ =~= old(g).path_offsets@ + Seq::<u32>::empty());
        },
    }
}

/// Gathers what the instructions of a block refer to.
fn gather_instrs<'a>(g: &mut Gathered<'a>, instrs: &Vec<Instr<'a>>, Ghost(before): Ghost<Seq<InstrV>>)
    requires
        old(g).holds(before),
    ensures
        final(g).holds(before + instrs_view(instrs@)),
{
    let ghost iv = instrs_view(instrs@);
    let mut k: usize = 0;
    assert(before + iv.take(0) =~= before);
    while k < instrs.len()
        invariant
            0 <= k <= instrs@.len(),
            iv == instrs_view(instrs@),
            g.holds(before + iv.take(k as int)),
        decreases instrs@.len() - k,
    {
        let instr = &instrs[k];
        let ghost ops = iv[k as int].operands;
        let ghost g0 = *g;
        let mut j: usize = 0;
        assert(ops.take(0) =~= Seq::<OperandV>::empty());
        while j < instr.operands.len()
            invariant
                0 <= j <= instr.operands@.len(),
                ops == operands_view(instr.operands@),
                texts_view(g.anim_names@) == texts_view(g0.anim_names@) + ops.take(j as int).filter_map(
                    |o: OperandV| anim_name_of(o),
                ),
                g.anim_offsets@ == g0.anim_offsets@ + ops.take(j as int).filter_map(
                    |o: OperandV| anim_offset_of(o),
                ),
                g.path_offsets@ == g0.path_offsets@ + ops.take(j as int).filter_map(
                    |o: OperandV| path_of(o),
                ),
                g.calls@ == g0.calls@,
            decreases instr.operands@.len() - j,
        {
            gather_operand(g, &instr.operands[j]);
            proof {
                assert(ops.take(j + 1) =~= ops.take(j as int) + seq![ops[j as int]]);
                lemma_filter_map_concat(ops.take(j as int), seq![ops[j as int]], |o: OperandV| anim_name_of(o));
                lemma_filter_map_concat(ops.take(j as int), seq![ops[j as int]], |o: OperandV| anim_offset_of(o));
                lemma_filter_map_concat(ops.take(j as int), seq![ops[j as int]], |o: OperandV| path_of(o));
            }
            j = j + 1;
        }
        let call = call_for(instr);
        let ghost calls0 = g.calls@;
        match call {
            Some(c) => g.calls.push(c),
            None => {},
        }
        proof {
            let prev = before + iv.take(k as int);
            let next = before + iv.take(k + 1);
            assert(ops.take(j as int) =~= ops);
            assert(next =~= prev + seq![iv[k as int]]);
            lemma_instrs_ops_concat(prev, seq![iv[k as int]]);
            assert(instrs_ops(seq![iv[k as int]]) =~= ops) by {
                reveal_with_fuel(Seq::flatten, 2);
                let f = |i: InstrV| i.operands;
                assert(seq![iv[k as int]].map_values(f) =~= seq![ops]);
                assert(seq![ops].drop_first() =~= Seq::<Seq<OperandV>>::empty());
                assert(ops + Seq::<OperandV>::empty() =~= ops);
            }
            lemma_filter_map_concat(instrs_ops(prev), ops, |o: OperandV| anim_name_of(o));
            lemma_filter_map_concat(instrs_ops(prev), ops, |o: OperandV| anim_offset_of(o));
            lemma_filter_map_concat(instrs_ops(prev), ops, |o: OperandV| path_of(o));
            lemma_filter_map_concat(prev, seq![iv[k as int]], |i: InstrV| call_of(i));
            reveal_with_fuel(Seq::filter_map, 2);
            assert(seq![iv[k as int]].drop_last() =~= Seq::<InstrV>::empty());
            let cf = |c: CmiCalledScript| c@;
            match call {
                Some(c) => assert(g.calls@.map_values(cf) =~= calls0.map_values(cf) + seq![c@]),
                None => assert(g.calls@.map_values(cf) =~= calls0.map_values(cf) + Seq::<CalledV>::empty()),
            }
        }
        k = k + 1;
    }
    assert(iv.take(k as int) =~= iv);
}

// ---------------------------------------------------------------------------
// Blocks and the walk over them

/// A decoded block: where it starts, its instructions, and the position after it.
#[derive(Debug)]
pub struct CmiBlock<'a> {
    pub offset: u32,
    pub instrs: Vec<Instr<'a>>,
    pub end: usize,
}

pub struct BlockV {
    pub offset: u32,
    pub instrs: Seq<InstrV>,
    pub end: int,
}

impl<'a> View for CmiBlock<'a> {
    type V = BlockV;

    open spec fn view(&self) -> BlockV {
        BlockV { offset: self.offset, instrs: instrs_view(self.instrs@), end: self.end as int }
    }
}

pub open spec fn blocks_view(v: Seq<CmiBlock>) -> Seq<BlockV> {
    v.map_values(|b: CmiBlock| b@)
}

/// The blocks from number `i` on, where `offsets` are the blocks known so far;
/// each block decoded adds the blocks it refers to.
///
/// Known offsets never repeat, and every block that decodes lies inside the
/// data, so when `i` reaches the length of the data no further block can decode.
pub open spec fn walk(d: Seq<u8>, offsets: Seq<u32>, i: int) -> Option<Seq<BlockV>>
    decreases d.len() - i,
{
    if i < 0 || i >= offsets.len() {
        Some(Seq::empty())
    } else if i >= d.len() {
        None
    } else {
        match block_from(d, offsets[i] as int) {
            Some((instrs, end)) => match walk(d, add_refs(offsets, instrs_refs(instrs)), i + 1) {
                Some(rest) => Some(seq![BlockV { offset: offsets[i], instrs, end }] + rest),
                None => None,
            },
            None => None,
        }
    }
}


/// The instructions of all the blocks, in order.
pub open spec fn all_instrs(bs: Seq<BlockV>) -> Seq<InstrV> {
    bs.map_values(|b: BlockV| b.instrs).flatten()
}

proof fn lemma_all_instrs_push(bs: Seq<BlockV>, b: BlockV)
    ensures
        all_instrs(bs.push(b)) == all_instrs(bs) + b.instrs,
{
    let f = |b: BlockV| b.instrs;
    assert(bs.push(b).map_values(f) =~= bs.map_values(f).push(b.instrs));
    bs.map_values(f).lemma_flatten_push(b.instrs);
}

/// Decodes the blocks of the script that starts at `start`, and gathers what they refer to.
fn walk_blocks<'a>(r: &Reader<'a>, start: u32) -> (res: Option<(Vec<CmiBlock<'a>>, Gathered<'a>)>)
    ensures
        match walk(r.data(), seq![start], 0) {
            Some(bs) => res matches Some((blocks, g)) && blocks_view(blocks@) == bs && g.holds(
                all_instrs(bs),
            ),
            None => res is None,
        },
{
    let ghost d = r.data();
    let ghost target = walk(d, seq![start], 0);
    let mut offsets: Vec<u32> = Vec::new();
    offsets.push(start);
    let mut out: Vec<CmiBlock<'a>> = Vec::new();
    let mut g = Gathered {
        anim_names: Vec::new(),
        anim_offsets: Vec::new(),
        path_offsets: Vec::new(),
        calls: Vec::new(),
    };
    proof {
        assert(offsets@ =~= seq![start]);
        if let Some(rest) = walk(d, offsets@, 0) {
            assert(blocks_view(out@) + rest =~= rest);
        }
        reveal_with_fuel(Seq::flatten, 1);
        assert(all_instrs(blocks_view(out@)) =~= Seq::<InstrV>::empty());
        assert(texts_view(g.anim_names@) =~= Seq::<Seq<u8>>::empty());
        assert(g.calls@.map_values(|c: CmiCalledScript| c@) =~= Seq::<CalledV>::empty());
        assert(instrs_ops(Seq::<InstrV>::empty()) =~= Seq::<OperandV>::empty());
    }
    let mut bi: usize = 0;
    while bi < offsets.len()
        invariant
            d == r.data(),
            target == walk(d, seq![start], 0),
            target == match walk(d, offsets@, bi as int) {
                Some(rest) => Some(blocks_view(out@) + rest),
                None => None,
            },
            g.holds(all_instrs(blocks_view(out@))),
        decreases d.len() - bi,
    {
        if bi >= r.len() {
            return None;
        }
        let offset = offsets[bi];
        let (instrs, end) = match decode_block(r, offset as usize) {
            Some(x) => x,
            None => return None,
        };
        let ghost iv = instrs_view(instrs@);
        let ghost bv = BlockV { offset, instrs: iv, end: end as int };
        let ghost done = blocks_view(out@);
        push_instrs_refs(&mut offsets, &instrs);
        gather_instrs(&mut g, &instrs, Ghost(all_instrs(done)));
        out.push(CmiBlock { offset, instrs, end });
        proof {
            assert(blocks_view(out@) =~= done.push(bv));
            lemma_all_instrs_push(done, bv);
            if let Some(rest) = walk(d, offsets@, bi + 1) {
                assert(done + (seq![bv] + rest) =~= done.push(bv) + rest);
            }
        }
        bi = bi + 1;
    }
    proof {
        assert(blocks_view(out@) + Seq::<BlockV>::empty() =~= blocks_view(out@));
    }
    Some((out, g))
}


/// The order of called scripts: by offset, then name, then reason.
pub open spec fn called_lt(a: CalledV, b: CalledV) -> bool {
    a.target_offset < b.target_offset || (a.target_offset == b.target_offset && (bytes_lt(
        a.target_name,
        b.target_name,
    ) || (a.target_name == b.target_name && a.reason.rank() < b.reason.rank())))
}

/// The order of called scripts.
pub open spec fn called_order() -> spec_fn(CalledV, CalledV) -> bool {
    |a: CalledV, b: CalledV| called_lt(a, b)
}

impl<'a> SortKey for CmiCalledScript<'a> {
    open spec fn key_lt(self, other: Self) -> bool {
        called_lt(self@, other@)
    }

    proof fn lemma_irreflexive(a: Self) {
        lemma_bytes_lt_irreflexive(a.target_name.spec_bytes());
    }

    proof fn lemma_transitive(a: Self, b: Self, c: Self) {
        let (x, y, z) = (a.target_name.spec_bytes(), b.target_name.spec_bytes(), c.target_name.spec_bytes());
        if bytes_lt(x, y) && bytes_lt(y, z) {
            lemma_bytes_lt_transitive(x, y, z);
        }
    }

    proof fn lemma_asymmetric(a: Self, b: Self) {
        let (x, y) = (a.target_name.spec_bytes(), b.target_name.spec_bytes());
        if bytes_lt(x, y) {
            lemma_bytes_lt_asymmetric(x, y);
        }
        if x == y {
            lemma_bytes_lt_irreflexive(x);
        }
    }

    fn less(&self, other: &Self) -> (r: bool) {
        if self.target_offset != other.target_offset {
            return self.target_offset < other.target_offset;
        }
        let (x, y) = (self.target_name.as_bytes(), other.target_name.as_bytes());
        if bytes_less(x, y) {
            return true;
        }
        if bytes_less(y, x) {
            return false;
        }
        proof {
            lemma_bytes_lt_total(x@, y@);
        }
        self.reason.rank_of() < other.reason.rank_of()
    }
}

pub proof fn lemma_called_order_total()
    ensures
        crate::sorting::strict_total(called_order()),
{
    let lt = called_order();
    assert forall|x: CalledV| !(#[trigger] lt(x, x)) by {
        lemma_bytes_lt_irreflexive(x.target_name);
    }
    assert forall|x: CalledV, y: CalledV, z: CalledV| #[trigger] lt(x, y) && #[trigger] lt(y, z) implies lt(
        x,
        z,
    ) by {
        if bytes_lt(x.target_name, y.target_name) && bytes_lt(y.target_name, z.target_name) {
            lemma_bytes_lt_transitive(x.target_name, y.target_name, z.target_name);
        }
    }
    assert forall|x: CalledV, y: CalledV| x != y implies #[trigger] lt(x, y) || lt(y, x) by {
        if !bytes_lt(x.target_name, y.target_name) && !bytes_lt(y.target_name, x.target_name) {
            lemma_bytes_lt_total(x.target_name, y.target_name);
        }
    }
}

/// What `sort_dedup` gives for called scripts, stated over their views.
#[verifier::rlimit(40)]
proof fn lemma_sorted_set_calls(r: Seq<CmiCalledScript>, v: Seq<CmiCalledScript>)
    requires
        strictly_sorted(r),
        drawn_from(r, v),
        covers(r, v),
    ensures
        sorted_set(
            r.map_values(|c: CmiCalledScript| c@),
            v.map_values(|c: CmiCalledScript| c@),
            called_order(),
        ),
{
    let rv = r.map_values(|c: CmiCalledScript| c@);
    let vv = v.map_values(|c: CmiCalledScript| c@);
    assert forall|i: int, j: int| 0 <= i < j < rv.len() implies called_lt(#[trigger] rv[i], #[trigger] rv[j]) by {
        assert(r[i].key_lt(r[j]));
    }
    assert forall|x: CalledV| rv.contains(x) <==> vv.contains(x) by {
        if rv.contains(x) {
            let i = choose|i: int| 0 <= i < rv.len() && rv[i] == x;
            assert(v.contains(r[i]));
            let p = choose|p: int| 0 <= p < v.len() && v[p] == r[i];
            assert(vv[p] == x);
        }
        if vv.contains(x) {
            let p = choose|p: int| 0 <= p < vv.len() && vv[p] == x;
            assert(has_same(r, v[p]));
            let q = choose|q: int| 0 <= q < r.len() && same_key(#[trigger] r[q], v[p]);
            let (a, b) = (r[q].target_name.spec_bytes(), v[p].target_name.spec_bytes());
            lemma_bytes_lt_total(a, b);
            assert(r[q].reason.rank() == v[p].reason.rank());
            assert(rv[q] == x);
        }
    }
}

/// A disassembled script.
#[derive(Debug)]
pub struct CmiScript<'a> {
    /// The blocks in the order they were found: the entry block first.
    pub blocks: Vec<CmiBlock<'a>>,
    /// The names of the animations used, sorted, without repeats.
    pub anim_names: Vec<&'a str>,
    /// The offsets of the animations used that have no name, sorted, without repeats.
    pub anim_offsets: Vec<u32>,
    /// The offsets of the paths used, sorted, without repeats.
    pub path_offsets: Vec<u32>,
    /// The scripts called, sorted, without repeats.
    pub called_scripts: Vec<CmiCalledScript<'a>>,
    /// Where the script is called from; filled in by the file that holds the callers.
    pub call_origins: Vec<CmiCallOrigin<'a>>,
}

/// The blocks of the script whose entry is at `pos`; a position of 0 means no script.
pub open spec fn script_blocks(d: Seq<u8>, pos: int) -> Option<Seq<BlockV>> {
    if pos == 0 {
        Some(Seq::empty())
    } else {
        walk(d, seq![pos as u32], 0)
    }
}

impl<'a> CmiScript<'a> {
    /// The script holds the blocks `bs`, and exactly what they refer to, sorted.
    pub open spec fn describes(&self, bs: Seq<BlockV>) -> bool {
        let is = all_instrs(bs);
        &&& blocks_view(self.blocks@) == bs
        &&& sorted_set(
            texts_view(self.anim_names@),
            anim_names_in(is),
            bytes_order(),
        )
        &&& sorted_set(self.anim_offsets@, anim_offsets_in(is), u32_order())
        &&& sorted_set(self.path_offsets@, paths_in(is), u32_order())
        &&& sorted_set(
            self.called_scripts@.map_values(|c: CmiCalledScript| c@),
            calls_in(is),
            called_order(),
        )
    }

    /// Disassembles the script at the reader's position; `None` where a block
    /// runs past the data, holds an operand that cannot be read or is out of
    /// range, or refers to an animation whose header cannot be read.
    pub fn try_parse(reader: Reader<'a>) -> (res: Option<CmiScript<'a>>)
        ensures
            match script_blocks(reader.data(), reader.pos()) {
                Some(bs) => res matches Some(s) && s.describes(bs) && s.call_origins@.len() == 0,
                None => res is None,
            },
    {
        let pos = reader.position();
        let (blocks, g) = if pos == 0 {
            let g = Gathered {
                anim_names: Vec::new(),
                anim_offsets: Vec::new(),
                path_offsets: Vec::new(),
                calls: Vec::new(),
            };
            proof {
                reveal_with_fuel(Seq::flatten, 1);
                assert(all_instrs(Seq::<BlockV>::empty()) =~= Seq::<InstrV>::empty());
                assert(instrs_ops(Seq::<InstrV>::empty()) =~= Seq::<OperandV>::empty());
                assert(texts_view(g.anim_names@) =~= Seq::<Seq<u8>>::empty());
                assert(g.calls@.map_values(|c: CmiCalledScript| c@) =~= Seq::<CalledV>::empty());
            }
            let blocks: Vec<CmiBlock<'a>> = Vec::new();
            assert(blocks_view(blocks@) =~= Seq::<BlockV>::empty());
            (blocks, g)
        } else {
            match walk_blocks(&reader, pos as u32) {
                Some(x) => x,
                None => return None,
            }
        };
        let ghost names = g.anim_names@;
        let ghost calls = g.calls@;
        let anim_names = sort_dedup(g.anim_names);
        let anim_offsets = sort_dedup(g.anim_offsets);
        let path_offsets = sort_dedup(g.path_offsets);
        let called_scripts = sort_dedup(g.calls);
        proof {
            lemma_sorted_set_str(anim_names@, names);
            lemma_sorted_set_u32(anim_offsets@, g.anim_offsets@);
            lemma_sorted_set_u32(path_offsets@, g.path_offsets@);
            lemma_sorted_set_calls(called_scripts@, calls);
        }
        Some(CmiScript { blocks, anim_names, anim_offsets, path_offsets, called_scripts, call_origins: Vec::new() })
    }

    /// Disassembles the script at the reader's position, which must decode.
    pub fn parse(reader: Reader<'a>) -> (s: CmiScript<'a>)
        requires
            script_blocks(reader.data(), reader.pos()) is Some,
        ensures
            s.describes(script_blocks(reader.data(), reader.pos()).unwrap()),
            s.call_origins@.len() == 0,
    {
        match Self::try_parse(reader) {
            Some(s) => s,
            None => CmiScript {
                blocks: Vec::new(),
                anim_names: Vec::new(),
                anim_offsets: Vec::new(),
                path_offsets: Vec::new(),
                called_scripts: Vec::new(),
                call_origins: Vec::new(),
            },
        }
    }

    /// The number of the block at `offset`: its place in `blocks`.
    pub fn block_index(&self, offset: u32) -> (r: Option<usize>)
        ensures
            match r {
                Some(i) => i < self.blocks@.len() && self.blocks@[i as int].offset == offset && forall|
                    j: int,
                |
                    0 <= j < i ==> self.blocks@[j].offset != offset,
                None => forall|j: int| 0 <= j < self.blocks@.len() ==> self.blocks@[j].offset != offset,
            },
    {
        let mut i: usize = 0;
        while i < self.blocks.len()
            invariant
                0 <= i <= self.blocks@.len(),
                forall|j: int| 0 <= j < i ==> self.blocks@[j].offset != offset,
            decreases self.blocks@.len() - i,
        {
            if self.blocks[i].offset == offset {
                return Some(i);
            }
            i = i + 1;
        }
        None
    }
}

// ---------------------------------------------------------------------------
// Laws of the walk

/// The known block offsets once the walk from block `i` is done.
pub open spec fn walk_offsets(d: Seq<u8>, offsets: Seq<u32>, i: int) -> Seq<u32>
    decreases d.len() - i,
{
    if i < 0 || i >= offsets.len() || i >= d.len() {
        offsets
    } else {
        match block_from(d, offsets[i] as int) {
            Some((instrs, end)) => walk_offsets(d, add_refs(offsets, instrs_refs(instrs)), i + 1),
            None => offsets,
        }
    }
}

proof fn lemma_add_refs_grows(blocks: Seq<u32>, refs: Seq<u32>)
    ensures
        add_refs(blocks, refs).len() >= blocks.len(),
        add_refs(blocks, refs).subrange(0, blocks.len() as int) == blocks,
        forall|r: u32| #[trigger] refs.contains(r) && r != 0 ==> add_refs(blocks, refs).contains(r),
        blocks.no_duplicates() ==> add_refs(blocks, refs).no_duplicates(),
    decreases refs.len(),
{
    if refs.len() > 0 {
        let b1 = add_ref(blocks, refs[0]);
        lemma_add_refs_grows(b1, refs.drop_first());
        let f = add_refs(b1, refs.drop_first());
        assert(b1.subrange(0, blocks.len() as int) =~= blocks);
        assert(f.subrange(0, blocks.len() as int) =~= b1.subrange(0, b1.len() as int).subrange(
            0,
            blocks.len() as int,
        ));
        assert(b1.subrange(0, b1.len() as int) =~= b1);
        assert forall|r: u32| #[trigger] refs.contains(r) && r != 0 implies f.contains(r) by {
            let k = choose|k: int| 0 <= k < refs.len() && refs[k] == r;
            if k == 0 {
                if !blocks.contains(r) {
                    assert(b1[blocks.len() as int] == r);
                }
                assert(b1.contains(r));
                let j = choose|j: int| 0 <= j < b1.len() && b1[j] == r;
                assert(f.subrange(0, b1.len() as int)[j] == r);
                assert(f[j] == r);
            } else {
                assert(refs.drop_first()[k - 1] == r);
                assert(refs.drop_first().contains(r));
            }
        }
        if blocks.no_duplicates() {
            assert(b1.no_duplicates());
        }
    }
}

proof fn lemma_walk_offsets(d: Seq<u8>, offsets: Seq<u32>, i: int)
    requires
        0 <= i <= offsets.len(),
        walk(d, offsets, i) is Some,
    ensures
        ({
            let rest = walk(d, offsets, i).unwrap();
            let f = walk_offsets(d, offsets, i);
            &&& f.len() >= offsets.len()
            &&& f.subrange(0, offsets.len() as int) == offsets
            &&& rest.len() == f.len() - i
            &&& forall|k: int| 0 <= k < rest.len() ==> (#[trigger] rest[k]).offset == f[i + k]
            &&& forall|k: int, r: u32|
                0 <= k < rest.len() && #[trigger] instrs_refs(rest[k].instrs).contains(r) && r != 0
                    ==> f.contains(r)
            &&& offsets.no_duplicates() ==> f.no_duplicates()
        }),
    decreases d.len() - i,
{
    if i >= offsets.len() {
        assert(offsets.subrange(0, offsets.len() as int) =~= offsets);
    } else {
        let (instrs, end) = block_from(d, offsets[i] as int).unwrap();
        let o2 = add_refs(offsets, instrs_refs(instrs));
        lemma_add_refs_grows(offsets, instrs_refs(instrs));
        lemma_walk_offsets(d, o2, i + 1);
        let rest = walk(d, offsets, i).unwrap();
        let rest2 = walk(d, o2, i + 1).unwrap();
        let f = walk_offsets(d, o2, i + 1);
        assert(rest == seq![BlockV { offset: offsets[i], instrs, end }] + rest2);
        assert(f.subrange(0, offsets.len() as int) =~= f.subrange(0, o2.len() as int).subrange(
            0,
            offsets.len() as int,
        ));
        assert(f[i] == offsets[i]) by {
            assert(f.subrange(0, offsets.len() as int)[i] == f[i]);
        }
        assert forall|k: int| 0 <= k < rest.len() implies (#[trigger] rest[k]).offset == f[i + k] by {
            if k > 0 {
                assert(rest[k] == rest2[k - 1]);
            }
        }
        assert forall|k: int, r: u32|
            0 <= k < rest.len() && #[trigger] instrs_refs(rest[k].instrs).contains(r) && r != 0
                implies f.contains(r) by {
            if k == 0 {
                assert(o2.contains(r));
                let j = choose|j: int| 0 <= j < o2.len() && o2[j] == r;
                assert(f.subrange(0, o2.len() as int)[j] == r);
                assert(f[j] == r);
            } else {
                assert(rest[k] == rest2[k - 1]);
            }
        }
    }
}

/// The blocks of a decoded script are closed under its references: every
/// block an instruction refers to (offset 0 meaning none) is one of its
/// blocks. No two blocks start at the same offset, and the entry block comes first.
pub proof fn lemma_script_blocks_closed(d: Seq<u8>, pos: int, bs: Seq<BlockV>)
    requires
        script_blocks(d, pos) == Some(bs),
    ensures
        forall|k: int, r: u32|
            0 <= k < bs.len() && #[trigger] instrs_refs(bs[k].instrs).contains(r) && r != 0 ==> exists|
                j: int,
            |
                0 <= j < bs.len() && bs[j].offset == r,
        forall|j: int, k: int| 0 <= j < k < bs.len() ==> bs[j].offset != bs[k].offset,
        pos != 0 ==> bs.len() >= 1 && bs[0].offset == pos as u32,
{
    if pos != 0 {
        let start = seq![pos as u32];
        lemma_walk_offsets(d, start, 0);
        let f = walk_offsets(d, start, 0);
        assert(start.no_duplicates());
        assert(f.subrange(0, 1)[0] == f[0]);
        assert forall|k: int, r: u32|
            0 <= k < bs.len() && #[trigger] instrs_refs(bs[k].instrs).contains(r) && r != 0 implies exists|
                j: int,
            |
                0 <= j < bs.len() && bs[j].offset == r by {
            assert(f.contains(r));
            let j = choose|j: int| 0 <= j < f.len() && f[j] == r;
            assert(bs[j].offset == f[0 + j]);
        }
        assert forall|j: int, k: int| 0 <= j < k < bs.len() implies bs[j].offset != bs[k].offset by {
            assert(bs[j].offset == f[0 + j]);
            assert(bs[k].offset == f[0 + k]);
        }
    }
}

} // verus!
