//! The operands of script instructions: how each kind is encoded, and readers for them.

use vstd::prelude::*;

use crate::reader::{FloatBits, Readable, Reader};
use crate::text::spec_fixed_str;
use vstd::string::StringSliceAdditionalSpecFns;

verus! {

broadcast use crate::reader::lemma_reader_bounds;

/// What kind of operand comes next in an instruction.
#[derive(Clone, Copy, Debug, PartialEq, Eq, Structural)]
pub enum Item {
    Byte,
    SByte,
    Half,
    SHalf,
    Word,
    SWord,
    /// An accepted 32-bit float.
    Float,
    /// A string prefixed by its length in one byte.
    Text,
    /// A string whose length is the byte operand at the given index.
    FixedText(usize),
    /// The offset of a block of the same script.
    Block,
    Branch,
    Compare,
    /// A variable reference or a direct float.
    Var,
    /// A variable reference: a target and an index, without a float.
    SimpleVar,
    Flag,
    /// The offset of a path.
    Path,
    /// The offset of an animation, whose name is looked up there.
    Anim,
    /// The offset of a script elsewhere.
    Ext,
    /// A triangle visibility code, below 6.
    VisFlag,
    /// An unsigned slot number counted from 1, shown as `(value - 1) % 16`.
    Slot,
    /// A signed slot number counted from 1, shown as `(value - 1) % 16`.
    SSlot,
    /// A nonzero 32-bit value, shown less one.
    WordLess1,
    /// A signed 16-bit angle, shown reduced into 0..360.
    Angle,
    /// The jump code of a script order: 0xFC or 0x0C.
    OrderJump,
    /// A count byte, then that many block offsets.
    BlockList,
    /// A count byte, then that many length-prefixed strings.
    TextList,
    /// A count byte, then that many pairs of a weight byte and a block offset.
    WeightedList,
    /// Either a variable reference, or 0xFF followed by two floats.
    RadiusArg,
}

/// A branch: a code, and the targets that the code takes (0 where none).
#[derive(Clone, Copy, Debug, PartialEq, Eq, Structural)]
pub struct BranchInfo {
    pub code: u8,
    pub target1: u32,
    pub target2: u32,
}

/// A comparison: its kind, and one or two floats (the second is 0 when absent).
#[derive(Clone, Copy, Debug, PartialEq, Eq, Structural)]
pub struct CompInfo {
    pub comp: u8,
    pub value2: FloatBits,
    pub value3: FloatBits,
}

/// A variable reference, or a direct value when the target is 3.
#[derive(Clone, Copy, Debug, PartialEq, Eq, Structural)]
pub struct VarInfo {
    pub target: u8,
    pub value: FloatBits,
    pub index: u8,
}

/// A flag variable: a target and a bit index.
#[derive(Clone, Copy, Debug, PartialEq, Eq, Structural)]
pub struct FlagVar {
    pub target: u8,
    pub index: u8,
}

/// A decoded operand.
#[derive(Debug)]
pub enum Operand<'a> {
    Byte(u8),
    SByte(i8),
    Half(u16),
    SHalf(i16),
    Word(u32),
    SWord(i32),
    Float(FloatBits),
    Text(&'a str),
    Block(u32),
    Branch(BranchInfo),
    Compare(CompInfo),
    Var(VarInfo),
    Flag(FlagVar),
    Path(u32),
    /// An animation offset, with the name stored there if it has one.
    Anim(u32, Option<&'a str>),
    Ext(u32),
    /// A slot number as shown: `(value - 1) % 16`.
    Slot(u8),
    SSlot(i8),
    Blocks(Vec<u32>),
    Texts(Vec<&'a str>),
    Weighted(Vec<(u8, u32)>),
    /// The two floats that follow the 0xFF of a radius argument.
    Scale(FloatBits, FloatBits),
}

/// An operand with its strings taken as bytes.
pub enum OperandV {
    Byte(u8),
    SByte(i8),
    Half(u16),
    SHalf(i16),
    Word(u32),
    SWord(i32),
    Float(FloatBits),
    Text(Seq<u8>),
    Block(u32),
    Branch(BranchInfo),
    Compare(CompInfo),
    Var(VarInfo),
    Flag(FlagVar),
    Path(u32),
    Anim(u32, Option<Seq<u8>>),
    Ext(u32),
    Slot(u8),
    SSlot(i8),
    Blocks(Seq<u32>),
    Texts(Seq<Seq<u8>>),
    Weighted(Seq<(u8, u32)>),
    Scale(FloatBits, FloatBits),
}

pub open spec fn texts_view(v: Seq<&str>) -> Seq<Seq<u8>> {
    v.map_values(|s: &str| s.spec_bytes())
}

impl<'a> View for Operand<'a> {
    type V = OperandV;

    open spec fn view(&self) -> OperandV {
        match *self {
            Operand::Byte(v) => OperandV::Byte(v),
            Operand::SByte(v) => OperandV::SByte(v),
            Operand::Half(v) => OperandV::Half(v),
            Operand::SHalf(v) => OperandV::SHalf(v),
            Operand::Word(v) => OperandV::Word(v),
            Operand::SWord(v) => OperandV::SWord(v),
            Operand::Float(v) => OperandV::Float(v),
            Operand::Text(s) => OperandV::Text(s.spec_bytes()),
            Operand::Block(v) => OperandV::Block(v),
            Operand::Branch(v) => OperandV::Branch(v),
            Operand::Compare(v) => OperandV::Compare(v),
            Operand::Var(v) => OperandV::Var(v),
            Operand::Flag(v) => OperandV::Flag(v),
            Operand::Path(v) => OperandV::Path(v),
            Operand::Anim(v, n) => OperandV::Anim(
                v,
                match n {
                    Some(s) => Some(s.spec_bytes()),
                    None => None,
                },
            ),
            Operand::Ext(v) => OperandV::Ext(v),
            Operand::Slot(v) => OperandV::Slot(v),
            Operand::SSlot(v) => OperandV::SSlot(v),
            Operand::Blocks(v) => OperandV::Blocks(v@),
            Operand::Texts(v) => OperandV::Texts(texts_view(v@)),
            Operand::Weighted(v) => OperandV::Weighted(v@),
            Operand::Scale(a, b) => OperandV::Scale(a, b),
        }
    }
}

/// The views of a sequence of operands.
pub open spec fn operands_view(v: Seq<Operand>) -> Seq<OperandV> {
    v.map_values(|o: Operand| o@)
}

// ---------------------------------------------------------------------------
// Encodings, as functions from the data and a position to the value and the
// position after it; `None` where the bytes do not hold such a value.

/// A value of type `T` at `p`, if it is there and acceptable.
pub open spec fn value_at<T: Readable>(d: Seq<u8>, p: int) -> Option<(T, int)> {
    if 0 <= p && p + T::spec_size() <= d.len() {
        let v = T::spec_decode(d.subrange(p, p + T::spec_size()));
        if v.spec_valid() {
            Some((v, p + T::spec_size()))
        } else {
            None
        }
    } else {
        None
    }
}

/// A string field of `n` bytes at `p`.
pub open spec fn fixed_text_at(d: Seq<u8>, p: int, n: int) -> Option<(Seq<u8>, int)> {
    if 0 <= p && 0 <= n <= 100 && p + n <= d.len() {
        match spec_fixed_str(d.subrange(p, p + n)) {
            Some(t) => Some((t, p + n)),
            None => None,
        }
    } else {
        None
    }
}

/// A string prefixed by its length in one byte at `p`.
pub open spec fn text_at(d: Seq<u8>, p: int) -> Option<(Seq<u8>, int)> {
    match value_at::<u8>(d, p) {
        Some((n, q)) => fixed_text_at(d, q, n as int),
        None => None,
    }
}

pub open spec fn branch_at(d: Seq<u8>, p: int) -> Option<(BranchInfo, int)> {
    match value_at::<u8>(d, p) {
        Some((code, q)) => if code == 0xFE {
            match value_at::<u32>(d, q) {
                Some((t1, q1)) => match value_at::<u32>(d, q1) {
                    Some((t2, q2)) => Some((BranchInfo { code, target1: t1, target2: t2 }, q2)),
                    None => None,
                },
                None => None,
            }
        } else if code == 0xFC || code == 0x0C {
            match value_at::<u32>(d, q) {
                Some((t1, q1)) => Some((BranchInfo { code, target1: t1, target2: 0 }, q1)),
                None => None,
            }
        } else {
            Some((BranchInfo { code, target1: 0, target2: 0 }, q))
        },
        None => None,
    }
}

pub open spec fn compare_at(d: Seq<u8>, p: int) -> Option<(CompInfo, int)> {
    match value_at::<u8>(d, p) {
        Some((comp, q)) => match value_at::<FloatBits>(d, q) {
            Some((v2, q1)) => if comp == 7 || comp == 8 {
                match value_at::<FloatBits>(d, q1) {
                    Some((v3, q2)) => Some((CompInfo { comp, value2: v2, value3: v3 }, q2)),
                    None => None,
                }
            } else {
                Some((CompInfo { comp, value2: v2, value3: FloatBits(0) }, q1))
            },
            None => None,
        },
        None => None,
    }
}

pub open spec fn var_at(d: Seq<u8>, p: int) -> Option<(VarInfo, int)> {
    match value_at::<u8>(d, p) {
        Some((target, q)) => if target == 3 {
            match value_at::<FloatBits>(d, q) {
                Some((v, q1)) => Some((VarInfo { target, value: v, index: 0 }, q1)),
                None => None,
            }
        } else {
            match value_at::<u8>(d, q) {
                Some((i, q1)) => Some((VarInfo { target, value: FloatBits(0), index: i }, q1)),
                None => None,
            }
        },
        None => None,
    }
}

/// A branch is a code byte followed by two 32-bit targets for code 0xFE
/// (call one, else the other), one for 0xFC (call) and 0x0C (goto), and none
/// for any other code; targets are stored low byte first.
pub proof fn lemma_branch_fields(d: Seq<u8>, p: int)
    requires
        0 <= p < d.len(),
    ensures
        ({
            let c = d[p];
            let n = if c == 0xFE {
                8int
            } else if c == 0xFC || c == 0x0C {
                4int
            } else {
                0int
            };
            &&& p + 1 + n <= d.len() ==> branch_at(d, p) is Some
            &&& branch_at(d, p) matches Some((b, q)) ==> {
                &&& b.code == c
                &&& q == p + 1 + n
                &&& n >= 4 ==> b.target1 as int == d[p + 1] + d[p + 2] * 0x100 + d[p + 3] * 0x10000 + d[p + 4]
                    * 0x1000000
                &&& n < 4 ==> b.target1 == 0
                &&& n == 8 ==> b.target2 as int == d[p + 5] + d[p + 6] * 0x100 + d[p + 7] * 0x10000 + d[p + 8]
                    * 0x1000000
                &&& n < 8 ==> b.target2 == 0
            }
        }),
{
}

/// A comparison is its kind byte and a float, and a second float for the
/// kinds 7 and 8 (a range).
pub proof fn lemma_compare_fields(d: Seq<u8>, p: int)
    requires
        0 <= p < d.len(),
    ensures
        compare_at(d, p) matches Some((c, q)) ==> {
            &&& c.comp == d[p]
            &&& q == p + 5 + (if d[p] == 7 || d[p] == 8 {
                4int
            } else {
                0int
            })
            &&& !(d[p] == 7 || d[p] == 8) ==> c.value3 == FloatBits(0)
        },
{
}

/// A variable reference is an owner byte then an index byte; the owner 3
/// instead takes a direct float value.
pub proof fn lemma_var_fields(d: Seq<u8>, p: int)
    requires
        0 <= p < d.len(),
    ensures
        d[p] != 3 && p + 2 <= d.len() ==> var_at(d, p) == Some(
            (VarInfo { target: d[p], value: FloatBits(0), index: d[p + 1] }, p + 2),
        ),
        var_at(d, p) matches Some((v, q)) ==> v.target == d[p] && q == p + (if d[p] == 3 {
            5int
        } else {
            2int
        }),
{
}

pub open spec fn byte_pair_at(d: Seq<u8>, p: int) -> Option<(u8, u8, int)> {
    match value_at::<u8>(d, p) {
        Some((a, q)) => match value_at::<u8>(d, q) {
            Some((b, q1)) => Some((a, b, q1)),
            None => None,
        },
        None => None,
    }
}

/// The name stored with an animation at `off`: the animation must hold at
/// least a 32-bit word there; when that word is 0 an 8-byte name may follow.
pub open spec fn anim_name_at(d: Seq<u8>, off: int) -> Option<Option<Seq<u8>>> {
    match value_at::<u32>(d, off) {
        Some((w, q)) => if w == 0 {
            match fixed_text_at(d, q, 8) {
                Some((t, _)) => Some(Some(t)),
                None => Some(None),
            }
        } else {
            Some(None)
        },
        None => None,
    }
}

/// The remainder of `v` by 16, with the sign of `v`, as Rust's `%` gives it.
pub open spec fn rem16(v: int) -> int {
    if v >= 0 {
        v % 16
    } else {
        -((-v) % 16)
    }
}


/// `n` block offsets from `p`.
pub open spec fn blocks_at(d: Seq<u8>, p: int, n: nat) -> Option<(Seq<u32>, int)>
    decreases n,
{
    if n == 0 {
        Some((Seq::empty(), p))
    } else {
        match value_at::<u32>(d, p) {
            Some((b, q)) => match blocks_at(d, q, (n - 1) as nat) {
                Some((bs, e)) => Some((seq![b] + bs, e)),
                None => None,
            },
            None => None,
        }
    }
}

/// `n` length-prefixed strings from `p`.
pub open spec fn texts_at(d: Seq<u8>, p: int, n: nat) -> Option<(Seq<Seq<u8>>, int)>
    decreases n,
{
    if n == 0 {
        Some((Seq::empty(), p))
    } else {
        match text_at(d, p) {
            Some((t, q)) => match texts_at(d, q, (n - 1) as nat) {
                Some((ts, e)) => Some((seq![t] + ts, e)),
                None => None,
            },
            None => None,
        }
    }
}

/// `n` pairs of a weight byte and a block offset from `p`.
pub open spec fn weighted_at(d: Seq<u8>, p: int, n: nat) -> Option<(Seq<(u8, u32)>, int)>
    decreases n,
{
    if n == 0 {
        Some((Seq::empty(), p))
    } else {
        match value_at::<u8>(d, p) {
            Some((w, q)) => match value_at::<u32>(d, q) {
                Some((b, q1)) => match weighted_at(d, q1, (n - 1) as nat) {
                    Some((ws, e)) => Some((seq![(w, b)] + ws, e)),
                    None => None,
                },
                None => None,
            },
            None => None,
        }
    }
}

/// The operands shown other than as stored: a slot byte `x` (from 1) is
/// shown as `x - 1` reduced modulo 16; a signed slot byte `x` as the
/// remainder of `x - 1` by 16 with the sign of `x - 1`; an angle as its value
/// reduced into 0..360; a word `w` (from 1) as `w - 1`. Each takes the bytes
/// it is stored in.
pub proof fn lemma_shown_operands(d: Seq<u8>, p: int, ops: Seq<OperandV>)
    requires
        0 <= p,
    ensures
        decode_item(d, p, Item::Slot, ops) matches Some((o, q)) ==> {
            &&& q == p + 1
            &&& d[p] >= 1
            &&& o matches OperandV::Slot(s) && 0 <= s < 16 && (d[p] - 1 - s) % 16 == 0
        },
        decode_item(d, p, Item::SSlot, ops) matches Some((o, q)) ==> {
            let x = if d[p] < 0x80 {
                d[p] as int
            } else {
                d[p] - 256
            };
            &&& q == p + 1
            &&& o matches OperandV::SSlot(s) && -16 < s < 16 && (x - 1 - s) % 16 == 0 && (s > 0 ==> x - 1 > 0) && (s
                < 0 ==> x - 1 < 0)
        },
        decode_item(d, p, Item::Angle, ops) matches Some((o, q)) ==> {
            let u = d[p] + d[p + 1] * 256;
            let v = if u < 0x8000 {
                u
            } else {
                u - 0x10000
            };
            &&& q == p + 2
            &&& o matches OperandV::SHalf(a) && 0 <= a < 360 && (v - a) % 360 == 0
        },
        decode_item(d, p, Item::WordLess1, ops) matches Some((o, q)) ==> {
            &&& q == p + 4
            &&& o matches OperandV::Word(w) && w as int == d[p] + d[p + 1] * 0x100 + d[p + 2] * 0x10000 + d[p + 3]
                * 0x1000000 - 1
        },
{
}

/// A list of `n` block offsets is `n` 32-bit words, low byte first.
pub proof fn lemma_blocks_words(d: Seq<u8>, p: int, n: nat)
    requires
        0 <= p,
    ensures
        blocks_at(d, p, n) matches Some((v, q)) ==> {
            &&& v.len() == n
            &&& q == p + 4 * n
            &&& forall|i: int|
                0 <= i < n ==> #[trigger] v[i] as int == d[p + 4 * i] + d[p + 4 * i + 1] * 0x100 + d[p + 4 * i + 2]
                    * 0x10000 + d[p + 4 * i + 3] * 0x1000000
        },
        p + 4 * n <= d.len() ==> blocks_at(d, p, n) is Some,
    decreases n,
{
    if n > 0 {
        lemma_blocks_words(d, p + 4, (n - 1) as nat);
        if let Some((v, q)) = blocks_at(d, p, n) {
            let rest = blocks_at(d, p + 4, (n - 1) as nat)->Some_0.0;
            assert forall|i: int| 0 <= i < n implies #[trigger] v[i] as int == d[p + 4 * i] + d[p + 4 * i + 1]
                * 0x100 + d[p + 4 * i + 2] * 0x10000 + d[p + 4 * i + 3] * 0x1000000 by {
                if i > 0 {
                    assert(v[i] == rest[i - 1]);
                    assert(p + 4 + 4 * (i - 1) == p + 4 * i);
                }
            }
        }
    }
}

/// A weighted list of `n` entries takes five bytes per entry: a weight byte
/// and a 32-bit block offset, low byte first.
pub proof fn lemma_weighted_entries(d: Seq<u8>, p: int, n: nat)
    requires
        0 <= p,
    ensures
        weighted_at(d, p, n) matches Some((v, q)) ==> {
            &&& v.len() == n
            &&& q == p + 5 * n
            &&& forall|i: int|
                0 <= i < n ==> (#[trigger] v[i]).0 == d[p + 5 * i] && v[i].1 as int == d[p + 5 * i + 1] + d[p + 5
                    * i + 2] * 0x100 + d[p + 5 * i + 3] * 0x10000 + d[p + 5 * i + 4] * 0x1000000
        },
        p + 5 * n <= d.len() ==> weighted_at(d, p, n) is Some,
    decreases n,
{
    if n > 0 {
        lemma_weighted_entries(d, p + 5, (n - 1) as nat);
        if let Some((v, q)) = weighted_at(d, p, n) {
            let rest = weighted_at(d, p + 5, (n - 1) as nat)->Some_0.0;
            assert forall|i: int| 0 <= i < n implies (#[trigger] v[i]).0 == d[p + 5 * i] && v[i].1 as int == d[p + 5
                * i + 1] + d[p + 5 * i + 2] * 0x100 + d[p + 5 * i + 3] * 0x10000 + d[p + 5 * i + 4] * 0x1000000 by {
                if i > 0 {
                    assert(v[i] == rest[i - 1]);
                    assert(p + 5 + 5 * (i - 1) == p + 5 * i);
                }
            }
        }
    }
}

/// One operand of kind `item` at `p`, after the operands `ops` of the same instruction.
pub open spec fn decode_item(d: Seq<u8>, p: int, item: Item, ops: Seq<OperandV>) -> Option<(OperandV, int)> {
    match item {
        Item::Byte => match value_at::<u8>(d, p) {
            Some((v, q)) => Some((OperandV::Byte(v), q)),
            None => None,
        },
        Item::SByte => match value_at::<i8>(d, p) {
            Some((v, q)) => Some((OperandV::SByte(v), q)),
            None => None,
        },
        Item::Half => match value_at::<u16>(d, p) {
            Some((v, q)) => Some((OperandV::Half(v), q)),
            None => None,
        },
        Item::SHalf => match value_at::<i16>(d, p) {
            Some((v, q)) => Some((OperandV::SHalf(v), q)),
            None => None,
        },
        Item::Word => match value_at::<u32>(d, p) {
            Some((v, q)) => Some((OperandV::Word(v), q)),
            None => None,
        },
        Item::SWord => match value_at::<i32>(d, p) {
            Some((v, q)) => Some((OperandV::SWord(v), q)),
            None => None,
        },
        Item::Float => match value_at::<FloatBits>(d, p) {
            Some((v, q)) => Some((OperandV::Float(v), q)),
            None => None,
        },
        Item::Text => match text_at(d, p) {
            Some((t, q)) => Some((OperandV::Text(t), q)),
            None => None,
        },
        Item::FixedText(i) => if i < ops.len() {
            match ops[i as int] {
                OperandV::Byte(n) => match fixed_text_at(d, p, n as int) {
                    Some((t, q)) => Some((OperandV::Text(t), q)),
                    None => None,
                },
                _ => None,
            }
        } else {
            None
        },
        Item::Block => match value_at::<u32>(d, p) {
            Some((v, q)) => Some((OperandV::Block(v), q)),
            None => None,
        },
        Item::Branch => match branch_at(d, p) {
            Some((v, q)) => Some((OperandV::Branch(v), q)),
            None => None,
        },
        Item::Compare => match compare_at(d, p) {
            Some((v, q)) => Some((OperandV::Compare(v), q)),
            None => None,
        },
        Item::Var => match var_at(d, p) {
            Some((v, q)) => Some((OperandV::Var(v), q)),
            None => None,
        },
        Item::SimpleVar => match byte_pair_at(d, p) {
            Some((t, i, q)) => Some((OperandV::Var(VarInfo { target: t, value: FloatBits(0), index: i }), q)),
            None => None,
        },
        Item::Flag => match byte_pair_at(d, p) {
            Some((t, i, q)) => Some((OperandV::Flag(FlagVar { target: t, index: i }), q)),
            None => None,
        },
        Item::Path => match value_at::<u32>(d, p) {
            Some((v, q)) => Some((OperandV::Path(v), q)),
            None => None,
        },
        Item::Anim => match value_at::<u32>(d, p) {
            Some((v, q)) => match anim_name_at(d, v as int) {
                Some(n) => Some((OperandV::Anim(v, n), q)),
                None => None,
            },
            None => None,
        },
        Item::Ext => match value_at::<u32>(d, p) {
            Some((v, q)) => Some((OperandV::Ext(v), q)),
            None => None,
        },
        Item::VisFlag => match value_at::<u8>(d, p) {
            Some((v, q)) => if v < 6 {
                Some((OperandV::Byte(v), q))
            } else {
                None
            },
            None => None,
        },
        Item::Slot => match value_at::<u8>(d, p) {
            Some((v, q)) => if v >= 1 {
                Some((OperandV::Slot(rem16(v - 1) as u8), q))
            } else {
                None
            },
            None => None,
        },
        Item::SSlot => match value_at::<i8>(d, p) {
            Some((v, q)) => if v > -128 {
                Some((OperandV::SSlot(rem16(v - 1) as i8), q))
            } else {
                None
            },
            None => None,
        },
        Item::WordLess1 => match value_at::<u32>(d, p) {
            Some((v, q)) => if v >= 1 {
                Some((OperandV::Word((v - 1) as u32), q))
            } else {
                None
            },
            None => None,
        },
        Item::Angle => match value_at::<i16>(d, p) {
            Some((v, q)) => Some((OperandV::SHalf((v % 360) as i16), q)),
            None => None,
        },
        Item::OrderJump => match value_at::<u8>(d, p) {
            Some((v, q)) => if v == 0xFC || v == 0x0C {
                Some((OperandV::Byte(v), q))
            } else {
                None
            },
            None => None,
        },
        Item::BlockList => match value_at::<u8>(d, p) {
            Some((n, q)) => match blocks_at(d, q, n as nat) {
                Some((v, e)) => Some((OperandV::Blocks(v), e)),
                None => None,
            },
            None => None,
        },
        Item::TextList => match value_at::<u8>(d, p) {
            Some((n, q)) => match texts_at(d, q, n as nat) {
                Some((v, e)) => Some((OperandV::Texts(v), e)),
                None => None,
            },
            None => None,
        },
        Item::WeightedList => match value_at::<u8>(d, p) {
            Some((n, q)) => match weighted_at(d, q, n as nat) {
                Some((v, e)) => Some((OperandV::Weighted(v), e)),
                None => None,
            },
            None => None,
        },
        Item::RadiusArg => match value_at::<u8>(d, p) {
            Some((c, q)) => if c == 0xFF {
                match value_at::<FloatBits>(d, q) {
                    Some((a, q1)) => match value_at::<FloatBits>(d, q1) {
                        Some((b, q2)) => Some((OperandV::Scale(a, b), q2)),
                        None => None,
                    },
                    None => None,
                }
            } else {
                match var_at(d, p) {
                    Some((v, q1)) => Some((OperandV::Var(v), q1)),
                    None => None,
                }
            },
            None => None,
        },
    }
}

/// What a reader's contract says of a decoding: on success the value and the
/// new position; on failure, that there is no such value.
pub open spec fn read_as<T>(res: Option<T>, spec: Option<(T, int)>, pos_after: int) -> bool {
    match res {
        Some(v) => spec == Some((v, pos_after)),
        None => spec is None,
    }
}

pub fn read_value<T: Readable>(r: &mut Reader) -> (res: Option<T>)
    ensures
        final(r).data() == old(r).data(),
        read_as(res, value_at::<T>(old(r).data(), old(r).pos()), final(r).pos()),
{
    r.try_get::<T>()
}

pub fn read_text<'a>(r: &mut Reader<'a>) -> (res: Option<&'a str>)
    ensures
        final(r).data() == old(r).data(),
        match res {
            Some(s) => text_at(old(r).data(), old(r).pos()) == Some((s.spec_bytes(), final(r).pos())),
            None => text_at(old(r).data(), old(r).pos()) is None,
        },
{
    r.try_pascal_str()
}

pub fn read_fixed_text<'a>(r: &mut Reader<'a>, n: usize) -> (res: Option<&'a str>)
    ensures
        final(r).data() == old(r).data(),
        match res {
            Some(s) => fixed_text_at(old(r).data(), old(r).pos(), n as int) == Some(
                (s.spec_bytes(), final(r).pos()),
            ),
            None => fixed_text_at(old(r).data(), old(r).pos(), n as int) is None,
        },
{
    r.try_str(n)
}

/// Reads a branch code and the block offsets it takes.
pub fn branch_code(r: &mut Reader) -> (res: Option<BranchInfo>)
    ensures
        final(r).data() == old(r).data(),
        read_as(res, branch_at(old(r).data(), old(r).pos()), final(r).pos()),
{
    let code = read_value::<u8>(r)?;
    if code == 0xFE {
        let target1 = read_value::<u32>(r)?;
        let target2 = read_value::<u32>(r)?;
        Some(BranchInfo { code, target1, target2 })
    } else if code == 0xFC || code == 0x0C {
        let target1 = read_value::<u32>(r)?;
        Some(BranchInfo { code, target1, target2: 0 })
    } else {
        Some(BranchInfo { code, target1: 0, target2: 0 })
    }
}

/// Reads a comparison kind and its one or two floats.
pub fn compare(r: &mut Reader) -> (res: Option<CompInfo>)
    ensures
        final(r).data() == old(r).data(),
        read_as(res, compare_at(old(r).data(), old(r).pos()), final(r).pos()),
{
    let comp = read_value::<u8>(r)?;
    let value2 = read_value::<FloatBits>(r)?;
    let mut value3 = FloatBits(0);
    if comp == 7 || comp == 8 {
        value3 = read_value::<FloatBits>(r)?;
    }
    Some(CompInfo { comp, value2, value3 })
}

/// Reads a variable reference, or a direct float when the target is 3.
pub fn var_or_data(r: &mut Reader) -> (res: Option<VarInfo>)
    ensures
        final(r).data() == old(r).data(),
        read_as(res, var_at(old(r).data(), old(r).pos()), final(r).pos()),
{
    let target = read_value::<u8>(r)?;
    if target == 3 {
        let value = read_value::<FloatBits>(r)?;
        Some(VarInfo { target, value, index: 0 })
    } else {
        let index = read_value::<u8>(r)?;
        Some(VarInfo { target, value: FloatBits(0), index })
    }
}

fn byte_pair(r: &mut Reader) -> (res: Option<(u8, u8)>)
    ensures
        final(r).data() == old(r).data(),
        match res {
            Some((a, b)) => byte_pair_at(old(r).data(), old(r).pos()) == Some((a, b, final(r).pos())),
            None => byte_pair_at(old(r).data(), old(r).pos()) is None,
        },
{
    let a = read_value::<u8>(r)?;
    let b = read_value::<u8>(r)?;
    Some((a, b))
}

/// Reads a variable reference without a direct value.
pub fn simple_var(r: &mut Reader) -> (res: Option<VarInfo>)
    ensures
        final(r).data() == old(r).data(),
        match res {
            Some(v) => byte_pair_at(old(r).data(), old(r).pos()) == Some(
                (v.target, v.index, final(r).pos()),
            ) && v.value == FloatBits(0),
            None => byte_pair_at(old(r).data(), old(r).pos()) is None,
        },
{
    let (target, index) = byte_pair(r)?;
    Some(VarInfo { target, value: FloatBits(0), index })
}

/// Reads a flag variable.
pub fn flag_var(r: &mut Reader) -> (res: Option<FlagVar>)
    ensures
        final(r).data() == old(r).data(),
        match res {
            Some(v) => byte_pair_at(old(r).data(), old(r).pos()) == Some(
                (v.target, v.index, final(r).pos()),
            ),
            None => byte_pair_at(old(r).data(), old(r).pos()) is None,
        },
{
    let (target, index) = byte_pair(r)?;
    Some(FlagVar { target, index })
}

/// Looks up the name of the animation at `anim_offset`.
pub fn get_anim_name<'a>(r: &Reader<'a>, anim_offset: u32) -> (res: Option<Option<&'a str>>)
    ensures
        match res {
            Some(n) => anim_name_at(r.data(), anim_offset as int) == Some(
                match n {
                    Some(s) => Some(s.spec_bytes()),
                    None => None,
                },
            ),
            None => anim_name_at(r.data(), anim_offset as int) is None,
        },
{
    let mut anim_reader = r.clone_at(anim_offset as usize);
    let word = read_value::<u32>(&mut anim_reader)?;
    if word == 0 {
        Some(read_fixed_text(&mut anim_reader, 8))
    } else {
        Some(None)
    }
}


fn read_blocks(r: &mut Reader, n: u8) -> (res: Option<Vec<u32>>)
    ensures
        final(r).data() == old(r).data(),
        match res {
            Some(v) => blocks_at(old(r).data(), old(r).pos(), n as nat) == Some((v@, final(r).pos())),
            None => blocks_at(old(r).data(), old(r).pos(), n as nat) is None,
        },
{
    let ghost d = r.data();
    let ghost p0 = r.pos();
    let mut out: Vec<u32> = Vec::new();
    let mut i: u8 = 0;
    while i < n
        invariant
            r.data() == d,
            d == old(r).data(),
            p0 == old(r).pos(),
            i <= n,
            blocks_at(d, p0, n as nat) == match blocks_at(d, r.pos(), (n - i) as nat) {
                Some((rest, e)) => Some((out@ + rest, e)),
                None => None,
            },
        decreases n - i,
    {
        let ghost before = out@;
        let b = match read_value::<u32>(r) {
            Some(b) => b,
            None => return None,
        };
        out.push(b);
        i = i + 1;
        proof {
            assert(out@ == before + seq![b]);
            match blocks_at(d, r.pos(), (n - i) as nat) {
                Some((rest, e)) => assert(out@ + rest =~= before + (seq![b] + rest)),
                None => {},
            }
        }
    }
    assert(out@ + Seq::<u32>::empty() =~= out@);
    Some(out)
}

fn read_texts<'a>(r: &mut Reader<'a>, n: u8) -> (res: Option<Vec<&'a str>>)
    ensures
        final(r).data() == old(r).data(),
        match res {
            Some(v) => texts_at(old(r).data(), old(r).pos(), n as nat) == Some(
                (texts_view(v@), final(r).pos()),
            ),
            None => texts_at(old(r).data(), old(r).pos(), n as nat) is None,
        },
{
    let ghost d = r.data();
    let ghost p0 = r.pos();
    let mut out: Vec<&'a str> = Vec::new();
    let mut i: u8 = 0;
    while i < n
        invariant
            r.data() == d,
            d == old(r).data(),
            p0 == old(r).pos(),
            i <= n,
            texts_at(d, p0, n as nat) == match texts_at(d, r.pos(), (n - i) as nat) {
                Some((rest, e)) => Some((texts_view(out@) + rest, e)),
                None => None,
            },
        decreases n - i,
    {
        let ghost before = texts_view(out@);
        let t = match read_text(r) {
            Some(t) => t,
            None => return None,
        };
        out.push(t);
        i = i + 1;
        proof {
            assert(texts_view(out@) =~= before + seq![t.spec_bytes()]);
            match texts_at(d, r.pos(), (n - i) as nat) {
                Some((rest, e)) => assert(texts_view(out@) + rest =~= before + (seq![t.spec_bytes()] + rest)),
                None => {},
            }
        }
    }
    assert(texts_view(out@) + Seq::<Seq<u8>>::empty() =~= texts_view(out@));
    Some(out)
}

fn read_weighted(r: &mut Reader, n: u8) -> (res: Option<Vec<(u8, u32)>>)
    ensures
        final(r).data() == old(r).data(),
        match res {
            Some(v) => weighted_at(old(r).data(), old(r).pos(), n as nat) == Some((v@, final(r).pos())),
            None => weighted_at(old(r).data(), old(r).pos(), n as nat) is None,
        },
{
    let ghost d = r.data();
    let ghost p0 = r.pos();
    let mut out: Vec<(u8, u32)> = Vec::new();
    let mut i: u8 = 0;
    while i < n
        invariant
            r.data() == d,
            d == old(r).data(),
            p0 == old(r).pos(),
            i <= n,
            weighted_at(d, p0, n as nat) == match weighted_at(d, r.pos(), (n - i) as nat) {
                Some((rest, e)) => Some((out@ + rest, e)),
                None => None,
            },
        decreases n - i,
    {
        let ghost before = out@;
        let w = match read_value::<u8>(r) {
            Some(w) => w,
            None => return None,
        };
        let b = match read_value::<u32>(r) {
            Some(b) => b,
            None => return None,
        };
        out.push((w, b));
        i = i + 1;
        proof {
            assert(out@ == before + seq![(w, b)]);
            match weighted_at(d, r.pos(), (n - i) as nat) {
                Some((rest, e)) => assert(out@ + rest =~= before + (seq![(w, b)] + rest)),
                None => {},
            }
        }
    }
    assert(out@ + Seq::<(u8, u32)>::empty() =~= out@);
    Some(out)
}


/// The signed remainder by 16 of a byte counted from 1.
fn slot_of(v: u8) -> (s: u8)
    requires
        v >= 1,
    ensures
        s == rem16(v - 1),
{
    (v - 1) % 16
}

fn sslot_of(v: i8) -> (s: i8)
    requires
        v > -128,
    ensures
        s == rem16(v - 1),
{
    let w: i16 = v as i16 - 1;
    if w >= 0 {
        (w % 16) as i8
    } else {
        let m: i16 = -w;
        (-(m % 16)) as i8
    }
}

/// An angle reduced into 0..360, as `rem_euclid` gives it.
fn angle_of(v: i16) -> (a: i16)
    ensures
        a == v % 360,
{
    let x: i16 = v % 360;
    if x < 0 {
        x + 360
    } else {
        x
    }
}

/// Reads one operand of kind `item`, after the operands `ops` of the same instruction.
pub fn read_item<'a>(r: &mut Reader<'a>, item: Item, ops: &Vec<Operand<'a>>) -> (res: Option<Operand<'a>>)
    ensures
        final(r).data() == old(r).data(),
        match res {
            Some(o) => decode_item(old(r).data(), old(r).pos(), item, operands_view(ops@)) == Some(
                (o@, final(r).pos()),
            ),
            None => decode_item(old(r).data(), old(r).pos(), item, operands_view(ops@)) is None,
        },
{
    match item {
        Item::Byte => Some(Operand::Byte(read_value::<u8>(r)?)),
        Item::SByte => Some(Operand::SByte(read_value::<i8>(r)?)),
        Item::Half => Some(Operand::Half(read_value::<u16>(r)?)),
        Item::SHalf => Some(Operand::SHalf(read_value::<i16>(r)?)),
        Item::Word => Some(Operand::Word(read_value::<u32>(r)?)),
        Item::SWord => Some(Operand::SWord(read_value::<i32>(r)?)),
        Item::Float => Some(Operand::Float(read_value::<FloatBits>(r)?)),
        Item::Text => Some(Operand::Text(read_text(r)?)),
        Item::FixedText(i) => {
            if i < ops.len() {
                match &ops[i] {
                    Operand::Byte(n) => Some(Operand::Text(read_fixed_text(r, *n as usize)?)),
                    _ => None,
                }
            } else {
                None
            }
        },
        Item::Block => Some(Operand::Block(read_value::<u32>(r)?)),
        Item::Branch => Some(Operand::Branch(branch_code(r)?)),
        Item::Compare => Some(Operand::Compare(compare(r)?)),
        Item::Var => Some(Operand::Var(var_or_data(r)?)),
        Item::SimpleVar => Some(Operand::Var(simple_var(r)?)),
        Item::Flag => Some(Operand::Flag(flag_var(r)?)),
        Item::Path => Some(Operand::Path(read_value::<u32>(r)?)),
        Item::Anim => {
            let off = read_value::<u32>(r)?;
            let name = get_anim_name(r, off)?;
            Some(Operand::Anim(off, name))
        },
        Item::Ext => Some(Operand::Ext(read_value::<u32>(r)?)),
        Item::VisFlag => {
            let v = read_value::<u8>(r)?;
            if v < 6 {
                Some(Operand::Byte(v))
            } else {
                None
            }
        },
        Item::Slot => {
            let v = read_value::<u8>(r)?;
            if v >= 1 {
                Some(Operand::Slot(slot_of(v)))
            } else {
                None
            }
        },
        Item::SSlot => {
            let v = read_value::<i8>(r)?;
            if v > -128 {
                Some(Operand::SSlot(sslot_of(v)))
            } else {
                None
            }
        },
        Item::WordLess1 => {
            let v = read_value::<u32>(r)?;
            if v >= 1 {
                Some(Operand::Word(v - 1))
            } else {
                None
            }
        },
        Item::Angle => {
            let v = read_value::<i16>(r)?;
            Some(Operand::SHalf(angle_of(v)))
        },
        Item::OrderJump => {
            let v = read_value::<u8>(r)?;
            if v == 0xFC || v == 0x0C {
                Some(Operand::Byte(v))
            } else {
                None
            }
        },
        Item::BlockList => {
            let n = read_value::<u8>(r)?;
            Some(Operand::Blocks(read_blocks(r, n)?))
        },
        Item::TextList => {
            let n = read_value::<u8>(r)?;
            Some(Operand::Texts(read_texts(r, n)?))
        },
        Item::WeightedList => {
            let n = read_value::<u8>(r)?;
            Some(Operand::Weighted(read_weighted(r, n)?))
        },
        Item::RadiusArg => {
            let start = *r;
            let c = read_value::<u8>(r)?;
            if c == 0xFF {
                let a = read_value::<FloatBits>(r)?;
                let b = read_value::<FloatBits>(r)?;
                Some(Operand::Scale(a, b))
            } else {
                *r = start;
                Some(Operand::Var(var_or_data(r)?))
            }
        },
    }
}

} // verus!
