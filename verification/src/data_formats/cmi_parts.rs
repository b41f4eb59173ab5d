//! The pieces a script listing is written from: text, operand names, and
//! floats, which are kept as their bits for the writer to show.

use vstd::prelude::*;
use vstd::string::*;

use crate::data_formats::cmi_operands::{BranchInfo, CompInfo, FlagVar, Operand, OperandV, VarInfo, operands_view};
use crate::data_formats::cmi_text::{
    BlockInfo, block_text, branch_code_text, branch_text, door_flag_names, door_flags, flag_names, flag_names_text,
    var_target, var_target_text, visflag_text,
};
use crate::numfmt::{dec, dec_signed, digits, hex, pad_left, signed_dec};
use crate::reader::FloatBits;
use crate::text::push_char;

verus! {

/// A piece of a listing.
pub enum PartV {
    Text(Seq<char>),
    /// A name from the script, as bytes.
    Name(Seq<u8>),
    /// A float shown as `{}` shows it.
    Float(u32),
    /// A float shown as `{:?}` shows it.
    FloatDebug(u32),
    /// Thirty divided by the float, shown as `{}` shows it.
    ThirtyOver(u32),
}

/// A piece of a listing.
pub enum ListingPart<'a> {
    Text(String),
    Name(&'a str),
    Float(FloatBits),
    FloatDebug(FloatBits),
    ThirtyOver(FloatBits),
}

impl<'a> View for ListingPart<'a> {
    type V = PartV;

    open spec fn view(&self) -> PartV {
        match self {
            ListingPart::Text(s) => PartV::Text(s@),
            ListingPart::Name(s) => PartV::Name(s.spec_bytes()),
            ListingPart::Float(f) => PartV::Float(f.0),
            ListingPart::FloatDebug(f) => PartV::FloatDebug(f.0),
            ListingPart::ThirtyOver(f) => PartV::ThirtyOver(f.0),
        }
    }
}

pub open spec fn listing_view(v: Seq<ListingPart>) -> Seq<PartV> {
    v.map_values(|p: ListingPart| p@)
}

pub fn push_part<'a>(p: &mut Vec<ListingPart<'a>>, x: ListingPart<'a>)
    ensures
        listing_view(final(p)@) == listing_view(old(p)@) + seq![x@],
{
    let ghost before = listing_view(p@);
    let ghost xv = x@;
    p.push(x);
    assert(listing_view(p@) =~= before + seq![xv]);
}

/// Appends the pieces of `q`.
pub fn append_parts<'a>(p: &mut Vec<ListingPart<'a>>, q: Vec<ListingPart<'a>>)
    ensures
        listing_view(final(p)@) == listing_view(old(p)@) + listing_view(q@),
{
    let ghost before = listing_view(p@);
    let ghost qv = listing_view(q@);
    let mut rest = q;
    let mut taken: Vec<ListingPart<'a>> = Vec::new();
    // move the pieces out from the back, then push them in order
    while rest.len() > 0
        invariant
            listing_view(rest@) + listing_view(taken@).reverse() == qv,
            listing_view(p@) == before,
        decreases rest@.len(),
    {
        let ghost r0 = listing_view(rest@);
        let ghost t0 = listing_view(taken@);
        let x = rest.pop().unwrap();
        let ghost xv = x@;
        taken.push(x);
        assert(listing_view(rest@) =~= r0.drop_last());
        assert(listing_view(taken@) =~= t0.push(xv));
        assert(r0 =~= r0.drop_last().push(xv));
        assert(t0.push(xv).reverse() =~= seq![xv] + t0.reverse());
        assert(listing_view(rest@) + listing_view(taken@).reverse() =~= qv);
    }
    assert(listing_view(rest@) =~= Seq::<PartV>::empty());
    assert(listing_view(taken@).reverse() =~= qv);
    let ghost tv = listing_view(taken@);
    let mut k: usize = taken.len();
    assert(tv.take(k as int) =~= tv);
    while k > 0
        invariant
            k == taken@.len(),
            k <= tv.len(),
            listing_view(taken@) == tv.take(k as int),
            tv.reverse() == qv,
            tv.len() == qv.len(),
            listing_view(p@) == before + qv.take((qv.len() - k) as int),
        decreases k,
    {
        let ghost t0 = listing_view(taken@);
        let x = taken.pop().unwrap();
        assert(x@ == t0[k - 1]);
        assert(t0[k - 1] == tv[k - 1]);
        assert(qv[qv.len() - k] == tv.reverse()[qv.len() - k]);
        push_part(p, x);
        assert(listing_view(taken@) =~= tv.take(k - 1));
        assert(qv.take((qv.len() - k + 1) as int) =~= qv.take((qv.len() - k) as int).push(qv[qv.len() - k]));
        k = k - 1;
    }
    assert(qv.take(qv.len() as int) =~= qv);
}

/// A piece of text.
pub open spec fn tx(s: Seq<char>) -> Seq<PartV> {
    seq![PartV::Text(s)]
}

pub fn put<'a>(p: &mut Vec<ListingPart<'a>>, s: &str)
    ensures
        listing_view(final(p)@) == listing_view(old(p)@) + tx(s@),
{
    push_part(p, ListingPart::Text(String::from_str(s)));
}

pub fn put_string<'a>(p: &mut Vec<ListingPart<'a>>, s: String)
    ensures
        listing_view(final(p)@) == listing_view(old(p)@) + tx(s@),
{
    push_part(p, ListingPart::Text(s));
}

/// A number in decimal.
pub open spec fn num_t(n: int) -> Seq<PartV> {
    tx(signed_dec(n))
}

pub fn put_num<'a>(p: &mut Vec<ListingPart<'a>>, n: i64)
    ensures
        listing_view(final(p)@) == listing_view(old(p)@) + num_t(n as int),
{
    put_string(p, dec_signed(n));
}

/// A number in upper-case hexadecimal, zero-padded to `w` digits.
pub open spec fn hex_t(n: int, w: int) -> Seq<PartV> {
    tx(pad_left(digits((n as u64) as nat, 16), w, '0'))
}

pub fn put_hex<'a>(p: &mut Vec<ListingPart<'a>>, n: i64, w: usize)
    ensures
        listing_view(final(p)@) == listing_view(old(p)@) + hex_t(n as int, w as int),
{
    put_string(p, hex(n as u64, w, true));
}

pub open spec fn bool_t(b: bool) -> Seq<PartV> {
    tx(if b { "true"@ } else { "false"@ })
}

pub fn put_bool<'a>(p: &mut Vec<ListingPart<'a>>, b: bool)
    ensures
        listing_view(final(p)@) == listing_view(old(p)@) + bool_t(b),
{
    if b {
        put(p, "true");
    } else {
        put(p, "false");
    }
}

// ---------------------------------------------------------------------------
// Operands

/// The value of a numeric operand (0 for any other).
pub open spec fn onum_s(ops: Seq<OperandV>, k: int) -> int {
    if 0 <= k < ops.len() {
        match ops[k] {
            OperandV::Byte(v) => v as int,
            OperandV::SByte(v) => v as int,
            OperandV::Half(v) => v as int,
            OperandV::SHalf(v) => v as int,
            OperandV::Word(v) => v as int,
            OperandV::SWord(v) => v as int,
            OperandV::Block(v) => v as int,
            OperandV::Path(v) => v as int,
            OperandV::Ext(v) => v as int,
            OperandV::Anim(v, _) => v as int,
            OperandV::Slot(v) => v as int,
            OperandV::SSlot(v) => v as int,
            _ => 0,
        }
    } else {
        0
    }
}

pub fn onum(ops: &Vec<Operand>, k: usize) -> (r: i64)
    ensures
        r as int == onum_s(operands_view(ops@), k as int),
{
    if k < ops.len() {
        match &ops[k] {
            Operand::Byte(v) => *v as i64,
            Operand::SByte(v) => *v as i64,
            Operand::Half(v) => *v as i64,
            Operand::SHalf(v) => *v as i64,
            Operand::Word(v) => *v as i64,
            Operand::SWord(v) => *v as i64,
            Operand::Block(v) => *v as i64,
            Operand::Path(v) => *v as i64,
            Operand::Ext(v) => *v as i64,
            Operand::Anim(v, _) => *v as i64,
            Operand::Slot(v) => *v as i64,
            Operand::SSlot(v) => *v as i64,
            _ => 0,
        }
    } else {
        0
    }
}

/// The bits of a float operand (0 for any other).
pub open spec fn ofl_s(ops: Seq<OperandV>, k: int) -> FloatBits {
    if 0 <= k < ops.len() {
        match ops[k] {
            OperandV::Float(f) => f,
            _ => FloatBits(0),
        }
    } else {
        FloatBits(0)
    }
}

pub fn ofl(ops: &Vec<Operand>, k: usize) -> (r: FloatBits)
    ensures
        r == ofl_s(operands_view(ops@), k as int),
{
    if k < ops.len() {
        match &ops[k] {
            Operand::Float(f) => *f,
            _ => FloatBits(0),
        }
    } else {
        FloatBits(0)
    }
}

pub open spec fn fl_t(ops: Seq<OperandV>, k: int) -> Seq<PartV> {
    seq![PartV::Float(ofl_s(ops, k).0)]
}

pub fn put_fl<'a>(p: &mut Vec<ListingPart<'a>>, ops: &Vec<Operand<'a>>, k: usize)
    ensures
        listing_view(final(p)@) == listing_view(old(p)@) + fl_t(operands_view(ops@), k as int),
{
    push_part(p, ListingPart::Float(ofl(ops, k)));
}

pub open spec fn thirty_t(ops: Seq<OperandV>, k: int) -> Seq<PartV> {
    seq![PartV::ThirtyOver(ofl_s(ops, k).0)]
}

pub fn put_thirty<'a>(p: &mut Vec<ListingPart<'a>>, ops: &Vec<Operand<'a>>, k: usize)
    ensures
        listing_view(final(p)@) == listing_view(old(p)@) + thirty_t(operands_view(ops@), k as int),
{
    push_part(p, ListingPart::ThirtyOver(ofl(ops, k)));
}

/// Floats `k..k + n`, shown as a list is shown by `{:?}`.
pub open spec fn flist_t(ops: Seq<OperandV>, k: int, n: int) -> Seq<PartV>
    decreases n,
{
    if n <= 0 {
        Seq::empty()
    } else if n == 1 {
        seq![PartV::FloatDebug(ofl_s(ops, k).0)]
    } else {
        flist_t(ops, k, n - 1) + tx(", "@) + seq![PartV::FloatDebug(ofl_s(ops, k + n - 1).0)]
    }
}

fn put_flist<'a>(p: &mut Vec<ListingPart<'a>>, ops: &Vec<Operand<'a>>, k: usize, n: usize)
    requires
        k + n <= usize::MAX,
    ensures
        listing_view(final(p)@) == listing_view(old(p)@) + flist_t(operands_view(ops@), k as int, n as int),
{
    let ghost before = listing_view(p@);
    let ghost o = operands_view(ops@);
    let mut i: usize = 0;
    assert(flist_t(o, k as int, 0) =~= Seq::<PartV>::empty());
    assert(listing_view(p@) =~= before + flist_t(o, k as int, 0));
    while i < n
        invariant
            0 <= i <= n,
            k + n <= usize::MAX,
            o == operands_view(ops@),
            listing_view(p@) == before + flist_t(o, k as int, i as int),
        decreases n - i,
    {
        if i == 0 {
            push_part(p, ListingPart::FloatDebug(ofl(ops, k)));
            assert(listing_view(p@) =~= before + flist_t(o, k as int, 1));
        } else {
            put(p, ", ");
            push_part(p, ListingPart::FloatDebug(ofl(ops, k + i)));
            assert(listing_view(p@) =~= before + flist_t(o, k as int, i + 1));
        }
        i = i + 1;
    }
}

/// Floats `k..k + n` in square brackets, as `{:?}` shows an array.
pub open spec fn arr_t(ops: Seq<OperandV>, k: int, n: int) -> Seq<PartV> {
    tx("["@) + flist_t(ops, k, n) + tx("]"@)
}

pub fn put_arr<'a>(p: &mut Vec<ListingPart<'a>>, ops: &Vec<Operand<'a>>, k: usize, n: usize)
    requires
        k + n <= usize::MAX,
    ensures
        listing_view(final(p)@) == listing_view(old(p)@) + arr_t(operands_view(ops@), k as int, n as int),
{
    let ghost before = listing_view(p@);
    put(p, "[");
    put_flist(p, ops, k, n);
    put(p, "]");
    assert(listing_view(p@) =~= before + arr_t(operands_view(ops@), k as int, n as int));
}

/// Floats `k..k + 3` as `{:?}` shows a point.
pub open spec fn v3_t(ops: Seq<OperandV>, k: int) -> Seq<PartV> {
    tx("Vec3("@) + flist_t(ops, k, 3) + tx(")"@)
}

pub fn put_v3<'a>(p: &mut Vec<ListingPart<'a>>, ops: &Vec<Operand<'a>>, k: usize)
    requires
        k + 3 <= usize::MAX,
    ensures
        listing_view(final(p)@) == listing_view(old(p)@) + v3_t(operands_view(ops@), k as int),
{
    let ghost before = listing_view(p@);
    put(p, "Vec3(");
    put_flist(p, ops, k, 3);
    put(p, ")");
    assert(listing_view(p@) =~= before + v3_t(operands_view(ops@), k as int));
}

/// Bytes `k..k + n` in square brackets, as `{:?}` shows an array.
pub open spec fn blist_t(ops: Seq<OperandV>, k: int, n: int) -> Seq<PartV>
    decreases n,
{
    if n <= 0 {
        Seq::empty()
    } else if n == 1 {
        num_t(onum_s(ops, k))
    } else {
        blist_t(ops, k, n - 1) + tx(", "@) + num_t(onum_s(ops, k + n - 1))
    }
}

pub open spec fn barr_t(ops: Seq<OperandV>, k: int, n: int) -> Seq<PartV> {
    tx("["@) + blist_t(ops, k, n) + tx("]"@)
}

pub fn put_barr<'a>(p: &mut Vec<ListingPart<'a>>, ops: &Vec<Operand<'a>>, k: usize, n: usize)
    requires
        k + n <= usize::MAX,
    ensures
        listing_view(final(p)@) == listing_view(old(p)@) + barr_t(operands_view(ops@), k as int, n as int),
{
    let ghost before = listing_view(p@);
    let ghost o = operands_view(ops@);
    put(p, "[");
    let ghost b1 = listing_view(p@);
    let mut i: usize = 0;
    assert(blist_t(o, k as int, 0) =~= Seq::<PartV>::empty());
    assert(listing_view(p@) =~= b1 + blist_t(o, k as int, 0));
    while i < n
        invariant
            0 <= i <= n,
            k + n <= usize::MAX,
            o == operands_view(ops@),
            b1 == before + tx("["@),
            listing_view(p@) == b1 + blist_t(o, k as int, i as int),
        decreases n - i,
    {
        if i == 0 {
            put_num(p, onum(ops, k));
            assert(listing_view(p@) =~= b1 + blist_t(o, k as int, 1));
        } else {
            put(p, ", ");
            put_num(p, onum(ops, k + i));
            assert(listing_view(p@) =~= b1 + blist_t(o, k as int, i + 1));
        }
        i = i + 1;
    }
    put(p, "]");
    assert(listing_view(p@) =~= before + barr_t(o, k as int, n as int));
}

/// A name operand (nothing for any other).
pub open spec fn otext_s(ops: Seq<OperandV>, k: int) -> Option<Seq<u8>> {
    if 0 <= k < ops.len() {
        match ops[k] {
            OperandV::Text(t) => Some(t),
            OperandV::Anim(_, n) => n,
            _ => None,
        }
    } else {
        None
    }
}

pub fn otext<'a>(ops: &Vec<Operand<'a>>, k: usize) -> (r: Option<&'a str>)
    ensures
        match r {
            Some(s) => otext_s(operands_view(ops@), k as int) == Some(s.spec_bytes()),
            None => otext_s(operands_view(ops@), k as int) is None,
        },
{
    if k < ops.len() {
        match &ops[k] {
            Operand::Text(t) => Some(*t),
            Operand::Anim(_, n) => *n,
            _ => None,
        }
    } else {
        None
    }
}

pub open spec fn name_t(ops: Seq<OperandV>, k: int) -> Seq<PartV> {
    match otext_s(ops, k) {
        Some(s) => seq![PartV::Name(s)],
        None => Seq::empty(),
    }
}

pub fn put_name<'a>(p: &mut Vec<ListingPart<'a>>, ops: &Vec<Operand<'a>>, k: usize)
    ensures
        listing_view(final(p)@) == listing_view(old(p)@) + name_t(operands_view(ops@), k as int),
{
    match otext(ops, k) {
        Some(s) => push_part(p, ListingPart::Name(s)),
        None => {
            assert(listing_view(p@) =~= listing_view(p@) + Seq::<PartV>::empty());
        },
    }
}

/// Whether operand `k` is an animation stored with a name.
pub open spec fn named_s(ops: Seq<OperandV>, k: int) -> bool {
    0 <= k < ops.len() && (ops[k] matches OperandV::Anim(_, Some(_)))
}

pub fn named(ops: &Vec<Operand>, k: usize) -> (b: bool)
    ensures
        b == named_s(operands_view(ops@), k as int),
{
    k < ops.len() && match &ops[k] {
        Operand::Anim(_, Some(_)) => true,
        _ => false,
    }
}

/// Whether operand `k` is the empty string.
pub open spec fn empty_s(ops: Seq<OperandV>, k: int) -> bool {
    0 <= k < ops.len() && (ops[k] matches OperandV::Text(t) && t.len() == 0)
}

pub fn empty_text(ops: &Vec<Operand>, k: usize) -> (b: bool)
    ensures
        b == empty_s(operands_view(ops@), k as int),
{
    k < ops.len() && match &ops[k] {
        Operand::Text(t) => t.as_bytes().len() == 0,
        _ => false,
    }
}

// ---------------------------------------------------------------------------
// Blocks

/// The place of the block at offset `o`, or `usize::MAX` where there is none.
pub open spec fn block_index(bs: Seq<u32>, o: u32) -> usize
    decreases bs.len(),
{
    if bs.len() == 0 {
        usize::MAX
    } else {
        let i = block_index(bs.drop_last(), o);
        if i != usize::MAX {
            i
        } else if bs.last() == o && bs.len() - 1 < usize::MAX {
            (bs.len() - 1) as usize
        } else {
            usize::MAX
        }
    }
}

pub fn find_block(bs: &Vec<u32>, o: u32) -> (r: usize)
    ensures
        r == block_index(bs@, o),
{
    let mut k: usize = 0;
    while k < bs.len()
        invariant
            0 <= k <= bs@.len(),
            block_index(bs@.take(k as int), o) == usize::MAX,
        decreases bs@.len() - k,
    {
        assert(bs@.take(k + 1).drop_last() =~= bs@.take(k as int));
        if bs[k] == o && k < usize::MAX {
            proof {
                lemma_block_index_prefix(bs@, o, k + 1);
            }
            return k;
        }
        k = k + 1;
    }
    assert(bs@.take(k as int) =~= bs@);
    usize::MAX
}

proof fn lemma_block_index_prefix(bs: Seq<u32>, o: u32, n: int)
    requires
        0 < n <= bs.len(),
        block_index(bs.take(n), o) != usize::MAX,
    ensures
        block_index(bs, o) == block_index(bs.take(n), o),
    decreases bs.len() - n,
{
    if n < bs.len() {
        assert(bs.take(n + 1).drop_last() =~= bs.take(n));
        lemma_block_index_prefix(bs, o, n + 1);
    } else {
        assert(bs.take(n) =~= bs);
    }
}

/// How a reference to the block at `o` is written.
pub open spec fn blk_label(bs: Seq<u32>, o: u32) -> Seq<char> {
    block_text(BlockInfo { index: block_index(bs, o), offset: o })
}

pub fn block_label(bs: &Vec<u32>, o: u32) -> (s: String)
    ensures
        s@ == blk_label(bs@, o),
{
    let b = BlockInfo { index: find_block(bs, o), offset: o };
    b.text()
}

pub open spec fn blk_t(bs: Seq<u32>, ops: Seq<OperandV>, k: int) -> Seq<PartV> {
    tx(blk_label(bs, onum_s(ops, k) as u32))
}

pub fn put_blk<'a>(p: &mut Vec<ListingPart<'a>>, bs: &Vec<u32>, ops: &Vec<Operand<'a>>, k: usize)
    ensures
        listing_view(final(p)@) == listing_view(old(p)@) + blk_t(bs@, operands_view(ops@), k as int),
{
    put_string(p, block_label(bs, onum(ops, k) as u32));
}

pub open spec fn ext_t(ops: Seq<OperandV>, k: int) -> Seq<PartV> {
    tx(block_text(BlockInfo { index: usize::MAX, offset: onum_s(ops, k) as u32 }))
}

pub fn put_ext<'a>(p: &mut Vec<ListingPart<'a>>, ops: &Vec<Operand<'a>>, k: usize)
    ensures
        listing_view(final(p)@) == listing_view(old(p)@) + ext_t(operands_view(ops@), k as int),
{
    let b = BlockInfo { index: usize::MAX, offset: onum(ops, k) as u32 };
    put_string(p, b.text());
}

/// A branch operand (code 0 for any other).
pub open spec fn obr_s(ops: Seq<OperandV>, k: int) -> BranchInfo {
    if 0 <= k < ops.len() {
        match ops[k] {
            OperandV::Branch(b) => b,
            _ => BranchInfo { code: 0, target1: 0, target2: 0 },
        }
    } else {
        BranchInfo { code: 0, target1: 0, target2: 0 }
    }
}

pub fn obr(ops: &Vec<Operand>, k: usize) -> (r: BranchInfo)
    ensures
        r == obr_s(operands_view(ops@), k as int),
{
    if k < ops.len() {
        match &ops[k] {
            Operand::Branch(b) => *b,
            _ => BranchInfo { code: 0, target1: 0, target2: 0 },
        }
    } else {
        BranchInfo { code: 0, target1: 0, target2: 0 }
    }
}

pub open spec fn br_t(bs: Seq<u32>, ops: Seq<OperandV>, k: int) -> Seq<PartV> {
    let b = obr_s(ops, k);
    tx(
        branch_text(
            b.code,
            block_text(BlockInfo { index: block_index(bs, b.target1), offset: b.target1 }),
            block_text(BlockInfo { index: block_index(bs, b.target2), offset: b.target2 }),
        ),
    )
}

pub fn put_br<'a>(p: &mut Vec<ListingPart<'a>>, bs: &Vec<u32>, ops: &Vec<Operand<'a>>, k: usize)
    ensures
        listing_view(final(p)@) == listing_view(old(p)@) + br_t(bs@, operands_view(ops@), k as int),
{
    let b = obr(ops, k);
    let t1 = BlockInfo { index: find_block(bs, b.target1), offset: b.target1 };
    let t2 = BlockInfo { index: find_block(bs, b.target2), offset: b.target2 };
    put_string(p, branch_code_text(b.code, &t1, &t2));
}

// ---------------------------------------------------------------------------
// Variables, flags and comparisons

pub open spec fn ovar_s(ops: Seq<OperandV>, k: int) -> VarInfo {
    if 0 <= k < ops.len() {
        match ops[k] {
            OperandV::Var(v) => v,
            _ => VarInfo { target: 0, value: FloatBits(0), index: 0 },
        }
    } else {
        VarInfo { target: 0, value: FloatBits(0), index: 0 }
    }
}

pub fn ovar(ops: &Vec<Operand>, k: usize) -> (r: VarInfo)
    ensures
        r == ovar_s(operands_view(ops@), k as int),
{
    if k < ops.len() {
        match &ops[k] {
            Operand::Var(v) => *v,
            _ => VarInfo { target: 0, value: FloatBits(0), index: 0 },
        }
    } else {
        VarInfo { target: 0, value: FloatBits(0), index: 0 }
    }
}

/// How a variable is written: `Owner_vars[index]`.
pub open spec fn var_name(v: VarInfo) -> Seq<char> {
    var_target_text(v.target) + "_vars["@ + digits(v.index as nat, 10) + "]"@
}

fn var_name_exec(v: VarInfo) -> (s: String)
    ensures
        s@ == var_name(v),
{
    let mut s = var_target(v.target);
    s.append("_vars[");
    let n = dec(v.index as u64);
    s.append(n.as_str());
    s.append("]");
    s
}

/// A variable or a direct value.
pub open spec fn var_t(ops: Seq<OperandV>, k: int) -> Seq<PartV> {
    let v = ovar_s(ops, k);
    if v.target == 3 {
        seq![PartV::Float(v.value.0)]
    } else {
        tx(var_name(v))
    }
}

pub fn put_var<'a>(p: &mut Vec<ListingPart<'a>>, ops: &Vec<Operand<'a>>, k: usize)
    ensures
        listing_view(final(p)@) == listing_view(old(p)@) + var_t(operands_view(ops@), k as int),
{
    let v = ovar(ops, k);
    if v.target == 3 {
        push_part(p, ListingPart::Float(v.value));
    } else {
        put_string(p, var_name_exec(v));
    }
}

/// A variable without a direct value: a direct one is written as 0.
pub open spec fn svar_t(ops: Seq<OperandV>, k: int) -> Seq<PartV> {
    let v = ovar_s(ops, k);
    if v.target == 3 {
        tx("0"@)
    } else {
        tx(var_name(v))
    }
}

pub fn put_svar<'a>(p: &mut Vec<ListingPart<'a>>, ops: &Vec<Operand<'a>>, k: usize)
    ensures
        listing_view(final(p)@) == listing_view(old(p)@) + svar_t(operands_view(ops@), k as int),
{
    let v = ovar(ops, k);
    if v.target == 3 {
        put(p, "0");
    } else {
        put_string(p, var_name_exec(v));
    }
}

pub open spec fn oflag_s(ops: Seq<OperandV>, k: int) -> FlagVar {
    if 0 <= k < ops.len() {
        match ops[k] {
            OperandV::Flag(v) => v,
            _ => FlagVar { target: 0, index: 0 },
        }
    } else {
        FlagVar { target: 0, index: 0 }
    }
}

pub fn oflag(ops: &Vec<Operand>, k: usize) -> (r: FlagVar)
    ensures
        r == oflag_s(operands_view(ops@), k as int),
{
    if k < ops.len() {
        match &ops[k] {
            Operand::Flag(v) => *v,
            _ => FlagVar { target: 0, index: 0 },
        }
    } else {
        FlagVar { target: 0, index: 0 }
    }
}

/// How a flag variable is written: `Owner_flags[bit]`, door bits by name,
/// noting an index above 31.
pub open spec fn flag_text(f: FlagVar) -> Seq<char> {
    let index = f.index & 31u8;
    let value = 1u32 << index;
    let head = if f.target == 5 {
        var_target_text(f.target) + "_flags["@ + flag_names_text(door_flags(), value) + "]"@
    } else {
        var_target_text(f.target) + "_flags[0x"@ + digits(value as nat, 16) + "]"@
    };
    if f.index != index {
        head + " (index clipped: "@ + digits(f.index as nat, 10) + ")"@
    } else {
        head
    }
}

pub open spec fn flag_t(ops: Seq<OperandV>, k: int) -> Seq<PartV> {
    tx(flag_text(oflag_s(ops, k)))
}

pub fn put_flag<'a>(p: &mut Vec<ListingPart<'a>>, ops: &Vec<Operand<'a>>, k: usize)
    ensures
        listing_view(final(p)@) == listing_view(old(p)@) + flag_t(operands_view(ops@), k as int),
{
    let f = oflag(ops, k);
    let fi = f.index;
    let index = fi & 31u8;
    assert(index < 32) by (bit_vector)
        requires
            index == fi & 31u8,
    ;
    let value = 1u32 << index;
    let mut s = var_target(f.target);
    if f.target == 5 {
        s.append("_flags[");
        let names = door_flag_names();
        let t = flag_names(names.as_slice(), value);
        s.append(t.as_str());
        s.append("]");
    } else {
        s.append("_flags[0x");
        let t = hex(value as u64, 0, true);
        s.append(t.as_str());
        s.append("]");
        assert(pad_left(digits(value as nat, 16), 0, '0') == digits(value as nat, 16));
    }
    if f.index != index {
        s.append(" (index clipped: ");
        let t = dec(f.index as u64);
        s.append(t.as_str());
        s.append(")");
    }
    put_string(p, s);
}

pub open spec fn ocomp_s(ops: Seq<OperandV>, k: int) -> CompInfo {
    if 0 <= k < ops.len() {
        match ops[k] {
            OperandV::Compare(c) => c,
            _ => CompInfo { comp: 0, value2: FloatBits(0), value3: FloatBits(0) },
        }
    } else {
        CompInfo { comp: 0, value2: FloatBits(0), value3: FloatBits(0) }
    }
}

pub fn ocomp(ops: &Vec<Operand>, k: usize) -> (r: CompInfo)
    ensures
        r == ocomp_s(operands_view(ops@), k as int),
{
    if k < ops.len() {
        match &ops[k] {
            Operand::Compare(c) => *c,
            _ => CompInfo { comp: 0, value2: FloatBits(0), value3: FloatBits(0) },
        }
    } else {
        CompInfo { comp: 0, value2: FloatBits(0), value3: FloatBits(0) }
    }
}

/// A comparison of the value written as `v`.
pub open spec fn comp_parts(c: CompInfo, v: Seq<PartV>) -> Seq<PartV> {
    let f2 = seq![PartV::Float(c.value2.0)];
    let f3 = seq![PartV::Float(c.value3.0)];
    if c.comp == 1 || c.comp == 3 {
        tx("("@) + v + tx(" < "@) + f2 + tx(")"@)
    } else if c.comp == 2 || c.comp == 4 {
        tx("("@) + f2 + tx(" < "@) + v + tx(")"@)
    } else if c.comp == 5 || c.comp == 6 {
        tx("("@) + v + tx(" == "@) + f2 + tx(")"@)
    } else if c.comp == 7 {
        tx("("@) + f2 + tx(" <= "@) + v + tx(" <= "@) + f3 + tx(")"@)
    } else if c.comp == 8 {
        tx("("@) + f2 + tx(" </= "@) + v + tx(" </= "@) + f3 + tx(")"@)
    } else {
        tx("(unknown: "@) + num_t(c.comp as int) + tx(", value: "@) + v + tx(", value2: "@) + f2 + tx(
            ", value3: "@,
        ) + f3 + tx(")"@)
    }
}

pub open spec fn comp_t(ops: Seq<OperandV>, k: int) -> Seq<PartV> {
    comp_parts(ocomp_s(ops, k), tx("value"@))
}

pub open spec fn compv_t(ops: Seq<OperandV>, k: int, kv: int) -> Seq<PartV> {
    comp_parts(ocomp_s(ops, k), svar_t(ops, kv))
}

/// Writes the value being compared: the word `value`, or variable `kv`.
fn put_comp_value<'a>(p: &mut Vec<ListingPart<'a>>, ops: &Vec<Operand<'a>>, kv: Option<usize>)
    ensures
        listing_view(final(p)@) == listing_view(old(p)@) + match kv {
            Some(k) => svar_t(operands_view(ops@), k as int),
            None => tx("value"@),
        },
{
    match kv {
        Some(k) => put_svar(p, ops, k),
        None => put(p, "value"),
    }
}

fn put_comp_any<'a>(p: &mut Vec<ListingPart<'a>>, ops: &Vec<Operand<'a>>, k: usize, kv: Option<usize>)
    ensures
        listing_view(final(p)@) == listing_view(old(p)@) + comp_parts(
            ocomp_s(operands_view(ops@), k as int),
            match kv {
                Some(j) => svar_t(operands_view(ops@), j as int),
                None => tx("value"@),
            },
        ),
{
    let ghost before = listing_view(p@);
    let ghost v = match kv {
        Some(j) => svar_t(operands_view(ops@), j as int),
        None => tx("value"@),
    };
    let c = ocomp(ops, k);
    let ghost f2 = seq![PartV::Float(c.value2.0)];
    let ghost f3 = seq![PartV::Float(c.value3.0)];
    if c.comp == 1 || c.comp == 3 {
        put(p, "(");
        put_comp_value(p, ops, kv);
        put(p, " < ");
        push_part(p, ListingPart::Float(c.value2));
        put(p, ")");
        assert(listing_view(p@) =~= before + (tx("("@) + v + tx(" < "@) + f2 + tx(")"@)));
    } else if c.comp == 2 || c.comp == 4 {
        put(p, "(");
        push_part(p, ListingPart::Float(c.value2));
        put(p, " < ");
        put_comp_value(p, ops, kv);
        put(p, ")");
        assert(listing_view(p@) =~= before + (tx("("@) + f2 + tx(" < "@) + v + tx(")"@)));
    } else if c.comp == 5 || c.comp == 6 {
        put(p, "(");
        put_comp_value(p, ops, kv);
        put(p, " == ");
        push_part(p, ListingPart::Float(c.value2));
        put(p, ")");
        assert(listing_view(p@) =~= before + (tx("("@) + v + tx(" == "@) + f2 + tx(")"@)));
    } else if c.comp == 7 || c.comp == 8 {
        let (a, b) = if c.comp == 7 {
            (" <= ", " <= ")
        } else {
            (" </= ", " </= ")
        };
        put(p, "(");
        push_part(p, ListingPart::Float(c.value2));
        put(p, a);
        put_comp_value(p, ops, kv);
        put(p, b);
        push_part(p, ListingPart::Float(c.value3));
        put(p, ")");
        if c.comp == 7 {
            assert(listing_view(p@) =~= before + (tx("("@) + f2 + tx(" <= "@) + v + tx(" <= "@) + f3 + tx(")"@)));
        } else {
            assert(listing_view(p@) =~= before + (tx("("@) + f2 + tx(" </= "@) + v + tx(" </= "@) + f3 + tx(")"@)));
        }
    } else {
        put(p, "(unknown: ");
        put_num(p, c.comp as i64);
        put(p, ", value: ");
        put_comp_value(p, ops, kv);
        put(p, ", value2: ");
        push_part(p, ListingPart::Float(c.value2));
        put(p, ", value3: ");
        push_part(p, ListingPart::Float(c.value3));
        put(p, ")");
        assert(listing_view(p@) =~= before + (tx("(unknown: "@) + num_t(c.comp as int) + tx(", value: "@) + v + tx(
            ", value2: "@,
        ) + f2 + tx(", value3: "@) + f3 + tx(")"@)));
    }
}

pub fn put_comp<'a>(p: &mut Vec<ListingPart<'a>>, ops: &Vec<Operand<'a>>, k: usize)
    ensures
        listing_view(final(p)@) == listing_view(old(p)@) + comp_t(operands_view(ops@), k as int),
{
    put_comp_any(p, ops, k, None);
}

pub fn put_compv<'a>(p: &mut Vec<ListingPart<'a>>, ops: &Vec<Operand<'a>>, k: usize, kv: usize)
    ensures
        listing_view(final(p)@) == listing_view(old(p)@) + compv_t(operands_view(ops@), k as int, kv as int),
{
    put_comp_any(p, ops, k, Some(kv));
}

/// A triangle visibility code by name.
pub open spec fn visflag_t(ops: Seq<OperandV>, k: int) -> Seq<PartV> {
    tx(visflag_text(onum_s(ops, k) as u8))
}

pub fn put_visflag<'a>(p: &mut Vec<ListingPart<'a>>, ops: &Vec<Operand<'a>>, k: usize)
    ensures
        listing_view(final(p)@) == listing_view(old(p)@) + visflag_t(operands_view(ops@), k as int),
{
    let f = onum(ops, k) as u8;
    let s = match f {
        0 => "HIDE_AND_NOCLIP",
        1 => "SHOW_AND_COLLIDE",
        2 => "HIDE",
        3 => "SHOW",
        4 => "NOCLIP",
        _ => "COlLIDE",
    };
    put(p, s);
}

/// The names of a door's flags.
pub open spec fn door_t(ops: Seq<OperandV>, k: int) -> Seq<PartV> {
    tx(flag_names_text(door_flags(), onum_s(ops, k) as u32))
}

pub fn put_door<'a>(p: &mut Vec<ListingPart<'a>>, ops: &Vec<Operand<'a>>, k: usize)
    ensures
        listing_view(final(p)@) == listing_view(old(p)@) + door_t(operands_view(ops@), k as int),
{
    let names = door_flag_names();
    put_string(p, flag_names(names.as_slice(), onum(ops, k) as u32));
}

/// The character `x`, `y` or `z` for 0, 1 or 2.
pub open spec fn axis_t(i: int) -> Seq<PartV> {
    tx(seq![(0x78 + i) as char])
}

pub fn put_axis<'a>(p: &mut Vec<ListingPart<'a>>, i: i64)
    requires
        0 <= i < 3,
    ensures
        listing_view(final(p)@) == listing_view(old(p)@) + axis_t(i as int),
{
    let c: char = if i == 0 {
        'x'
    } else if i == 1 {
        'y'
    } else {
        'z'
    };
    let mut s = String::new();
    push_char(&mut s, c);
    assert(s@ =~= seq![(0x78 + i) as char]);
    put_string(p, s);
}

// ---------------------------------------------------------------------------
// Lists

pub open spec fn oblocks_s(ops: Seq<OperandV>, k: int) -> Seq<u32> {
    if 0 <= k < ops.len() {
        match ops[k] {
            OperandV::Blocks(v) => v,
            _ => Seq::empty(),
        }
    } else {
        Seq::empty()
    }
}

/// Block labels joined by `sep`, each preceded by `pre`.
pub open spec fn blocks_t(bs: Seq<u32>, v: Seq<u32>, n: int, pre: Seq<char>, sep: Seq<char>) -> Seq<PartV>
    decreases n,
{
    if n <= 0 {
        Seq::empty()
    } else if n == 1 {
        tx(pre) + tx(blk_label(bs, v[0]))
    } else {
        blocks_t(bs, v, n - 1, pre, sep) + tx(sep) + tx(pre) + tx(blk_label(bs, v[n - 1]))
    }
}

pub fn put_blocks<'a>(
    p: &mut Vec<ListingPart<'a>>,
    bs: &Vec<u32>,
    ops: &Vec<Operand<'a>>,
    k: usize,
    pre: &str,
    sep: &str,
)
    ensures
        listing_view(final(p)@) == listing_view(old(p)@) + blocks_t(
            bs@,
            oblocks_s(operands_view(ops@), k as int),
            oblocks_s(operands_view(ops@), k as int).len() as int,
            pre@,
            sep@,
        ),
{
    let ghost before = listing_view(p@);
    let ghost o = operands_view(ops@);
    if k >= ops.len() {
        assert(listing_view(p@) =~= before + Seq::<PartV>::empty());
        return;
    }
    match &ops[k] {
        Operand::Blocks(v) => {
            assert(oblocks_s(o, k as int) == v@);
            let mut i: usize = 0;
            assert(listing_view(p@) =~= before + blocks_t(bs@, v@, 0, pre@, sep@));
            while i < v.len()
                invariant
                    0 <= i <= v@.len(),
                    listing_view(p@) == before + blocks_t(bs@, v@, i as int, pre@, sep@),
                decreases v@.len() - i,
            {
                if i != 0 {
                    put(p, sep);
                }
                put(p, pre);
                put_string(p, block_label(bs, v[i]));
                assert(listing_view(p@) =~= before + blocks_t(bs@, v@, i + 1, pre@, sep@));
                i = i + 1;
            }
        },
        _ => {
            assert(listing_view(p@) =~= before + Seq::<PartV>::empty());
        },
    }
}

pub open spec fn otexts_s(ops: Seq<OperandV>, k: int) -> Seq<Seq<u8>> {
    if 0 <= k < ops.len() {
        match ops[k] {
            OperandV::Texts(v) => v,
            _ => Seq::empty(),
        }
    } else {
        Seq::empty()
    }
}

/// Names joined by `, `.
pub open spec fn names_t(v: Seq<Seq<u8>>, n: int) -> Seq<PartV>
    decreases n,
{
    if n <= 0 {
        Seq::empty()
    } else if n == 1 {
        seq![PartV::Name(v[0])]
    } else {
        names_t(v, n - 1) + tx(", "@) + seq![PartV::Name(v[n - 1])]
    }
}

pub fn put_names<'a>(p: &mut Vec<ListingPart<'a>>, ops: &Vec<Operand<'a>>, k: usize)
    ensures
        listing_view(final(p)@) == listing_view(old(p)@) + names_t(
            otexts_s(operands_view(ops@), k as int),
            otexts_s(operands_view(ops@), k as int).len() as int,
        ),
{
    let ghost before = listing_view(p@);
    let ghost o = operands_view(ops@);
    if k >= ops.len() {
        assert(listing_view(p@) =~= before + Seq::<PartV>::empty());
        return;
    }
    match &ops[k] {
        Operand::Texts(v) => {
            let ghost tv = crate::data_formats::cmi_operands::texts_view(v@);
            assert(otexts_s(o, k as int) == tv);
            let mut i: usize = 0;
            assert(listing_view(p@) =~= before + names_t(tv, 0));
            while i < v.len()
                invariant
                    0 <= i <= v@.len(),
                    tv == crate::data_formats::cmi_operands::texts_view(v@),
                    listing_view(p@) == before + names_t(tv, i as int),
                decreases v@.len() - i,
            {
                if i != 0 {
                    put(p, ", ");
                }
                push_part(p, ListingPart::Name(v[i]));
                assert(listing_view(p@) =~= before + names_t(tv, i + 1));
                i = i + 1;
            }
        },
        _ => {
            assert(listing_view(p@) =~= before + Seq::<PartV>::empty());
        },
    }
}

pub open spec fn oweighted_s(ops: Seq<OperandV>, k: int) -> Seq<(u8, u32)> {
    if 0 <= k < ops.len() {
        match ops[k] {
            OperandV::Weighted(v) => v,
            _ => Seq::empty(),
        }
    } else {
        Seq::empty()
    }
}

/// One weighted target.
pub open spec fn weight_t(bs: Seq<u32>, w: (u8, u32)) -> Seq<PartV> {
    tx("(weight: "@) + num_t(w.0 as int) + tx(", target: "@) + tx(blk_label(bs, w.1)) + tx(")"@)
}

/// Weighted targets joined by `, `.
pub open spec fn weights_t(bs: Seq<u32>, v: Seq<(u8, u32)>, n: int) -> Seq<PartV>
    decreases n,
{
    if n <= 0 {
        Seq::empty()
    } else if n == 1 {
        weight_t(bs, v[0])
    } else {
        weights_t(bs, v, n - 1) + tx(", "@) + weight_t(bs, v[n - 1])
    }
}

pub fn put_weights<'a>(p: &mut Vec<ListingPart<'a>>, bs: &Vec<u32>, ops: &Vec<Operand<'a>>, k: usize)
    ensures
        listing_view(final(p)@) == listing_view(old(p)@) + weights_t(
            bs@,
            oweighted_s(operands_view(ops@), k as int),
            oweighted_s(operands_view(ops@), k as int).len() as int,
        ),
{
    let ghost before = listing_view(p@);
    let ghost o = operands_view(ops@);
    if k >= ops.len() {
        assert(listing_view(p@) =~= before + Seq::<PartV>::empty());
        return;
    }
    match &ops[k] {
        Operand::Weighted(v) => {
            assert(oweighted_s(o, k as int) == v@);
            let mut i: usize = 0;
            assert(listing_view(p@) =~= before + weights_t(bs@, v@, 0));
            while i < v.len()
                invariant
                    0 <= i <= v@.len(),
                    listing_view(p@) == before + weights_t(bs@, v@, i as int),
                decreases v@.len() - i,
            {
                let ghost b0 = listing_view(p@);
                if i != 0 {
                    put(p, ", ");
                }
                let ghost b1 = listing_view(p@);
                let (w, t) = v[i];
                put(p, "(weight: ");
                put_num(p, w as i64);
                put(p, ", target: ");
                put_string(p, block_label(bs, t));
                put(p, ")");
                assert(listing_view(p@) =~= b1 + weight_t(bs@, v@[i as int]));
                assert(listing_view(p@) =~= before + weights_t(bs@, v@, i + 1));
                i = i + 1;
            }
        },
        _ => {
            assert(listing_view(p@) =~= before + Seq::<PartV>::empty());
        },
    }
}

// ---------------------------------------------------------------------------
// Small pieces used by the instruction lines

/// An empty listing.
pub fn new_parts<'a>() -> (p: Vec<ListingPart<'a>>)
    ensures
        listing_view(p@) == Seq::<PartV>::empty(),
{
    let p: Vec<ListingPart<'a>> = Vec::new();
    assert(listing_view(p@) =~= Seq::<PartV>::empty());
    p
}

/// A count in decimal.
pub fn put_count<'a>(p: &mut Vec<ListingPart<'a>>, n: u64)
    ensures
        listing_view(final(p)@) == listing_view(old(p)@) + num_t(n as int),
{
    put_string(p, dec(n));
}

/// An offset in upper-case hexadecimal, zero-padded to `w` digits.
pub fn put_hex_u64<'a>(p: &mut Vec<ListingPart<'a>>, n: u64, w: usize)
    ensures
        listing_view(final(p)@) == listing_view(old(p)@) + hex_t(n as int, w as int),
{
    put_string(p, hex(n, w, true));
}

/// The value of a byte operand (0 for any other).
pub open spec fn obyte_s(ops: Seq<OperandV>, k: int) -> u8 {
    if 0 <= k < ops.len() {
        match ops[k] {
            OperandV::Byte(v) => v,
            _ => 0,
        }
    } else {
        0
    }
}

pub fn obyte(ops: &Vec<Operand>, k: usize) -> (r: u8)
    ensures
        r == obyte_s(operands_view(ops@), k as int),
{
    if k < ops.len() {
        match &ops[k] {
            Operand::Byte(v) => *v,
            _ => 0,
        }
    } else {
        0
    }
}

/// Whether operand `k` holds the two floats of a scaling.
pub open spec fn is_scale_s(ops: Seq<OperandV>, k: int) -> bool {
    0 <= k < ops.len() && ops[k] is Scale
}

pub fn is_scale(ops: &Vec<Operand>, k: usize) -> (b: bool)
    ensures
        b == is_scale_s(operands_view(ops@), k as int),
{
    k < ops.len() && match &ops[k] {
        Operand::Scale(_, _) => true,
        _ => false,
    }
}

/// The first or the second float of a scaling operand.
pub open spec fn scale_t(ops: Seq<OperandV>, k: int, second: bool) -> Seq<PartV> {
    if 0 <= k < ops.len() {
        match ops[k] {
            OperandV::Scale(a, b) => seq![PartV::Float(if second { b.0 } else { a.0 })],
            _ => Seq::empty(),
        }
    } else {
        Seq::empty()
    }
}

pub fn put_scale<'a>(p: &mut Vec<ListingPart<'a>>, ops: &Vec<Operand<'a>>, k: usize, second: bool)
    ensures
        listing_view(final(p)@) == listing_view(old(p)@) + scale_t(operands_view(ops@), k as int, second),
{
    if k < ops.len() {
        match &ops[k] {
            Operand::Scale(a, b) => push_part(p, ListingPart::Float(if second { *b } else { *a })),
            _ => {
                assert(listing_view(p@) =~= listing_view(p@) + Seq::<PartV>::empty());
            },
        }
    } else {
        assert(listing_view(p@) =~= listing_view(p@) + Seq::<PartV>::empty());
    }
}

} // verus!
