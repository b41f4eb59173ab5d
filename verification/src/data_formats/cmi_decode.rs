//! Decoding instructions and blocks of the script bytecode.

use vstd::prelude::*;

use crate::data_formats::cmi_layout::{stage_items, stage_items_of};
use crate::data_formats::cmi_operands::{
    Item, Operand, OperandV, blocks_at, decode_item, fixed_text_at, operands_view, read_item, read_value,
    text_at, texts_at, value_at, weighted_at,
};
use crate::reader::{Readable, Reader};

verus! {

broadcast use crate::reader::lemma_reader_bounds;

/// Operands of the kinds `items` from `p`, appended to `ops`.
pub open spec fn decode_items(d: Seq<u8>, p: int, items: Seq<Item>, ops: Seq<OperandV>) -> Option<
    (Seq<OperandV>, int),
>
    decreases items.len(),
{
    if items.len() == 0 {
        Some((ops, p))
    } else {
        match decode_item(d, p, items[0], ops) {
            Some((o, q)) => decode_items(d, q, items.drop_first(), ops.push(o)),
            None => None,
        }
    }
}

/// The operands of instruction `op`, whose first operand is at `p`.
pub open spec fn decode_operands(d: Seq<u8>, p: int, op: u8) -> Option<(Seq<OperandV>, int)> {
    match decode_items(d, p, stage_items(op, 0, Seq::empty()), Seq::empty()) {
        Some((ops0, p0)) => match decode_items(d, p0, stage_items(op, 1, ops0), ops0) {
            Some((ops1, p1)) => decode_items(d, p1, stage_items(op, 2, ops1), ops1),
            None => None,
        },
        None => None,
    }
}

proof fn lemma_blocks_advance(d: Seq<u8>, p: int, n: nat)
    requires
        0 <= p <= d.len(),
    ensures
        blocks_at(d, p, n) matches Some((v, q)) ==> p <= q <= d.len(),
    decreases n,
{
    if n > 0 {
        if let Some((b, q)) = value_at::<u32>(d, p) {
            lemma_blocks_advance(d, q, (n - 1) as nat);
        }
    }
}

proof fn lemma_texts_advance(d: Seq<u8>, p: int, n: nat)
    requires
        0 <= p <= d.len(),
    ensures
        texts_at(d, p, n) matches Some((v, q)) ==> p <= q <= d.len(),
    decreases n,
{
    if n > 0 {
        if let Some((t, q)) = text_at(d, p) {
            lemma_texts_advance(d, q, (n - 1) as nat);
        }
    }
}

proof fn lemma_weighted_advance(d: Seq<u8>, p: int, n: nat)
    requires
        0 <= p <= d.len(),
    ensures
        weighted_at(d, p, n) matches Some((v, q)) ==> p <= q <= d.len(),
    decreases n,
{
    if n > 0 {
        if let Some((w, q)) = value_at::<u8>(d, p) {
            if let Some((b, q1)) = value_at::<u32>(d, q) {
                lemma_weighted_advance(d, q1, (n - 1) as nat);
            }
        }
    }
}

proof fn lemma_item_advances(d: Seq<u8>, p: int, item: Item, ops: Seq<OperandV>)
    requires
        0 <= p <= d.len(),
    ensures
        decode_item(d, p, item, ops) matches Some((o, q)) ==> p <= q <= d.len(),
{
    match item {
        Item::BlockList => {
            if let Some((n, q)) = value_at::<u8>(d, p) {
                lemma_blocks_advance(d, q, n as nat);
            }
        },
        Item::TextList => {
            if let Some((n, q)) = value_at::<u8>(d, p) {
                lemma_texts_advance(d, q, n as nat);
            }
        },
        Item::WeightedList => {
            if let Some((n, q)) = value_at::<u8>(d, p) {
                lemma_weighted_advance(d, q, n as nat);
            }
        },
        _ => {},
    }
}

proof fn lemma_items_advance(d: Seq<u8>, p: int, items: Seq<Item>, ops: Seq<OperandV>)
    requires
        0 <= p <= d.len(),
    ensures
        decode_items(d, p, items, ops) matches Some((v, q)) ==> p <= q <= d.len(),
    decreases items.len(),
{
    if items.len() > 0 {
        lemma_item_advances(d, p, items[0], ops);
        if let Some((o, q)) = decode_item(d, p, items[0], ops) {
            lemma_items_advance(d, q, items.drop_first(), ops.push(o));
        }
    }
}

pub proof fn lemma_operands_advance(d: Seq<u8>, p: int, op: u8)
    requires
        0 <= p <= d.len(),
    ensures
        decode_operands(d, p, op) matches Some((v, q)) ==> p <= q <= d.len(),
{
    lemma_items_advance(d, p, stage_items(op, 0, Seq::empty()), Seq::empty());
    if let Some((ops0, p0)) = decode_items(d, p, stage_items(op, 0, Seq::empty()), Seq::empty()) {
        lemma_items_advance(d, p0, stage_items(op, 1, ops0), ops0);
        if let Some((ops1, p1)) = decode_items(d, p0, stage_items(op, 1, ops0), ops0) {
            lemma_items_advance(d, p1, stage_items(op, 2, ops1), ops1);
        }
    }
}


/// Reads operands of the kinds `items`, appending them to `ops`.
fn read_items<'a>(r: &mut Reader<'a>, items: &Vec<Item>, ops: &mut Vec<Operand<'a>>) -> (ok: bool)
    ensures
        final(r).data() == old(r).data(),
        match decode_items(old(r).data(), old(r).pos(), items@, operands_view(old(ops)@)) {
            Some((v, q)) => ok && operands_view(final(ops)@) == v && final(r).pos() == q,
            None => !ok,
        },
{
    let ghost d = r.data();
    let ghost target = decode_items(d, r.pos(), items@, operands_view(ops@));
    let mut k: usize = 0;
    assert(items@.skip(0) =~= items@);
    while k < items.len()
        invariant
            r.data() == d,
            d == old(r).data(),
            0 <= k <= items@.len(),
            target == decode_items(old(r).data(), old(r).pos(), items@, operands_view(old(ops)@)),
            target == decode_items(d, r.pos(), items@.skip(k as int), operands_view(ops@)),
        decreases items@.len() - k,
    {
        proof {
            assert(items@.skip(k as int)[0] == items@[k as int]);
            assert(items@.skip(k as int).drop_first() =~= items@.skip(k + 1));
        }
        match read_item(r, items[k], ops) {
            Some(o) => {
                let ghost before = operands_view(ops@);
                ops.push(o);
                proof {
                    assert(operands_view(ops@) =~= before.push(o@));
                }
            },
            None => return false,
        }
        k = k + 1;
    }
    proof {
        assert(items@.skip(k as int) =~= Seq::<Item>::empty());
    }
    true
}

/// Reads the operands of instruction `op`.
pub fn read_operands<'a>(r: &mut Reader<'a>, op: u8) -> (res: Option<Vec<Operand<'a>>>)
    ensures
        final(r).data() == old(r).data(),
        match decode_operands(old(r).data(), old(r).pos(), op) {
            Some((v, q)) => res matches Some(ops) && operands_view(ops@) == v && final(r).pos() == q,
            None => res is None,
        },
{
    let mut ops: Vec<Operand<'a>> = Vec::new();
    proof {
        assert(operands_view(ops@) =~= Seq::<OperandV>::empty());
    }
    let items0 = stage_items_of(op, 0, &ops);
    if !read_items(r, &items0, &mut ops) {
        return None;
    }
    let items1 = stage_items_of(op, 1, &ops);
    if !read_items(r, &items1, &mut ops) {
        return None;
    }
    let items2 = stage_items_of(op, 2, &ops);
    if !read_items(r, &items2, &mut ops) {
        return None;
    }
    Some(ops)
}


/// A decoded instruction: where it starts, its opcode and its operands.
#[derive(Debug)]
pub struct Instr<'a> {
    pub offset: usize,
    pub opcode: u8,
    pub operands: Vec<Operand<'a>>,
}

pub struct InstrV {
    pub offset: int,
    pub opcode: u8,
    pub operands: Seq<OperandV>,
}

impl<'a> View for Instr<'a> {
    type V = InstrV;

    open spec fn view(&self) -> InstrV {
        InstrV { offset: self.offset as int, opcode: self.opcode, operands: operands_view(self.operands@) }
    }
}

pub open spec fn instrs_view(v: Seq<Instr>) -> Seq<InstrV> {
    v.map_values(|i: Instr| i@)
}

/// Instruction 0x76 has two 16-bit operands, low byte first: decoding them
/// at `p` reads four bytes.
pub proof fn lemma_op76_operands(d: Seq<u8>, p: int)
    requires
        0 <= p,
        p + 4 <= d.len(),
    ensures
        decode_operands(d, p, 0x76) == Some(
            (
                seq![
                    OperandV::Half((d[p] + d[p + 1] * 256) as u16),
                    OperandV::Half((d[p + 2] + d[p + 3] * 256) as u16),
                ],
                p + 4,
            ),
        ),
{
    reveal_with_fuel(decode_items, 3);
    assert(stage_items(0x76, 0, Seq::empty()) =~= seq![Item::Half, Item::Half]);
    let ops0 = seq![
        OperandV::Half((d[p] + d[p + 1] * 256) as u16),
        OperandV::Half((d[p + 2] + d[p + 3] * 256) as u16),
    ];
    assert(d.subrange(p, p + 2)[0] == d[p] && d.subrange(p, p + 2)[1] == d[p + 1]);
    assert(d.subrange(p + 2, p + 4)[0] == d[p + 2] && d.subrange(p + 2, p + 4)[1] == d[p + 3]);
    assert(decode_items(d, p, seq![Item::Half, Item::Half], Seq::empty()) == Some((ops0, p + 4))) by {
        assert(seq![Item::Half, Item::Half].drop_first() =~= seq![Item::Half]);
        assert(seq![Item::Half].drop_first() =~= Seq::<Item>::empty());
        assert(Seq::<OperandV>::empty().push(ops0[0]).push(ops0[1]) =~= ops0);
    }
    assert(stage_items(0x76, 1, ops0) =~= Seq::<Item>::empty());
    assert(stage_items(0x76, 2, ops0) =~= Seq::<Item>::empty());
}

/// Opcodes that end a block without operands: the invalid ones, and 0xE3.
pub open spec fn ends_block(op: u8) -> bool {
    op == 0x00 || op == 0x07 || op == 0x1E || op == 0xFE || op == 0xE3
}

/// The instructions of the block at `p`, and the position after its last byte.
///
/// A block runs up to a 0xFF byte; an invalid opcode or 0xE3 ends it too, and is
/// kept as an instruction without operands.
pub open spec fn block_from(d: Seq<u8>, p: int) -> Option<(Seq<InstrV>, int)>
    decreases d.len() - p,
{
    if 0 <= p < d.len() {
        let op = d[p];
        if op == 0xFF {
            Some((Seq::empty(), p + 1))
        } else if ends_block(op) {
            Some((seq![InstrV { offset: p, opcode: op, operands: Seq::empty() }], p + 1))
        } else {
            match decode_operands(d, p + 1, op) {
                Some((ops, q)) => {
                    proof {
                        lemma_operands_advance(d, p + 1, op);
                    }
                    match block_from(d, q) {
                        Some((rest, e)) => Some(
                            (seq![InstrV { offset: p, opcode: op, operands: ops }] + rest, e),
                        ),
                        None => None,
                    }
                },
                None => None,
            }
        }
    } else {
        None
    }
}

/// An instruction 0x76 in a block takes five bytes: the next instruction
/// starts five bytes on.
pub proof fn lemma_op76_in_block(d: Seq<u8>, p: int)
    requires
        0 <= p,
        p + 5 <= d.len(),
        d[p] == 0x76,
    ensures
        block_from(d, p) == match block_from(d, p + 5) {
            Some((rest, e)) => Some(
                (
                    seq![
                        InstrV {
                            offset: p,
                            opcode: 0x76,
                            operands: seq![
                                OperandV::Half((d[p + 1] + d[p + 2] * 256) as u16),
                                OperandV::Half((d[p + 3] + d[p + 4] * 256) as u16),
                            ],
                        },
                    ] + rest,
                    e,
                ),
            ),
            None => None,
        },
{
    lemma_op76_operands(d, p + 1);
}

fn ends_block_op(op: u8) -> (b: bool)
    ensures
        b == ends_block(op),
{
    op == 0x00 || op == 0x07 || op == 0x1E || op == 0xFE || op == 0xE3
}

/// Decodes the block that starts at `start`.
pub fn decode_block<'a>(r: &Reader<'a>, start: usize) -> (res: Option<(Vec<Instr<'a>>, usize)>)
    ensures
        match block_from(r.data(), start as int) {
            Some((v, e)) => res matches Some((instrs, end)) && instrs_view(instrs@) == v && end == e,
            None => res is None,
        },
{
    let ghost d = r.data();
    let mut rd = r.clone_at(start);
    let mut instrs: Vec<Instr<'a>> = Vec::new();
    let ghost target = block_from(d, start as int);
    assert(target == match block_from(d, rd.pos()) {
        Some((rest, e)) => Some((instrs_view(instrs@) + rest, e)),
        None => None,
    }) by {
        if let Some((rest, e)) = block_from(d, rd.pos()) {
            assert(instrs_view(instrs@) + rest =~= rest);
        }
    }
    loop
        invariant
            rd.data() == d,
            d == r.data(),
            target == block_from(d, start as int),
            target == match block_from(d, rd.pos()) {
                Some((rest, e)) => Some((instrs_view(instrs@) + rest, e)),
                None => None,
            },
        decreases d.len() - rd.pos(),
    {
        let offset = rd.position();
        let op = match read_value::<u8>(&mut rd) {
            Some(op) => op,
            None => return None,
        };
        if op == 0xFF {
            proof {
                assert(instrs_view(instrs@) + Seq::<InstrV>::empty() =~= instrs_view(instrs@));
            }
            return Some((instrs, offset + 1));
        }
        if ends_block_op(op) {
            let ghost before = instrs_view(instrs@);
            instrs.push(Instr { offset, opcode: op, operands: Vec::new() });
            proof {
                assert(operands_view(Seq::<Operand>::empty()) =~= Seq::<OperandV>::empty());
                assert(instrs_view(instrs@) =~= before + seq![InstrV { offset: offset as int, opcode: op, operands: Seq::empty() }]);
            }
            return Some((instrs, offset + 1));
        }
        let ghost p1 = rd.pos();
        proof {
            lemma_operands_advance(d, p1, op);
        }
        let operands = match read_operands(&mut rd, op) {
            Some(ops) => ops,
            None => return None,
        };
        let ghost before = instrs_view(instrs@);
        let ghost iv = InstrV { offset: offset as int, opcode: op, operands: operands_view(operands@) };
        instrs.push(Instr { offset, opcode: op, operands });
        proof {
            assert(instrs_view(instrs@) =~= before.push(iv));
            if let Some((rest, e)) = block_from(d, rd.pos()) {
                assert(before + (seq![iv] + rest) =~= before.push(iv) + rest);
            }
        }
    }
}

} // verus!
