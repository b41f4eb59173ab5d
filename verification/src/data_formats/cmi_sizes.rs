//! How many operands each instruction of fixed shape has, and how many bytes
//! they take: the next instruction starts just after them.

use vstd::prelude::*;

use crate::data_formats::cmi_decode::{decode_items, decode_operands};
use crate::data_formats::cmi_layout::stage_items;
use crate::data_formats::cmi_operands::Item;

verus! {

/// Instructions 0x00, 0x01, 0x06, 0x07, 0x09, 0x0F, 0x13, 0x14, 0x1E, 0x3C, 0x4B, 0x65, 0x6E, 0x7D, 0x7E, 0x82, 0xCC, 0xD3, 0xE3, 0xFD, 0xFE have no operands.
pub proof fn lemma_operands_0_in_0_bytes(d: Seq<u8>, p: int, op: u8)
    requires
        op == 0x00 || op == 0x01 || op == 0x06 || op == 0x07 || op == 0x09 || op == 0x0F || op == 0x13 || op == 0x14 || op == 0x1E || op == 0x3C || op == 0x4B || op == 0x65 || op == 0x6E || op == 0x7D || op == 0x7E || op == 0x82 || op == 0xCC || op == 0xD3 || op == 0xE3 || op == 0xFD || op == 0xFE,
    ensures
        decode_operands(d, p, op) matches Some((ops, q)) ==> q == p + 0 && ops.len() == 0,
{
    if op == 0x00 {
        assert(stage_items(op, 0, Seq::empty()) =~= Seq::<Item>::empty());
        reveal_with_fuel(decode_items, 1);
        match decode_items(d, p, stage_items(op, 0, Seq::empty()), Seq::empty()) {
            Some((o0, p0)) => {
                assert(stage_items(op, 1, o0) =~= Seq::<Item>::empty());
                assert(stage_items(op, 2, o0) =~= Seq::<Item>::empty());
            },
            None => {},
        }
    } else if op == 0x01 {
        assert(stage_items(op, 0, Seq::empty()) =~= Seq::<Item>::empty());
        reveal_with_fuel(decode_items, 1);
        match decode_items(d, p, stage_items(op, 0, Seq::empty()), Seq::empty()) {
            Some((o0, p0)) => {
                assert(stage_items(op, 1, o0) =~= Seq::<Item>::empty());
                assert(stage_items(op, 2, o0) =~= Seq::<Item>::empty());
            },
            None => {},
        }
    } else if op == 0x06 {
        assert(stage_items(op, 0, Seq::empty()) =~= Seq::<Item>::empty());
        reveal_with_fuel(decode_items, 1);
        match decode_items(d, p, stage_items(op, 0, Seq::empty()), Seq::empty()) {
            Some((o0, p0)) => {
                assert(stage_items(op, 1, o0) =~= Seq::<Item>::empty());
                assert(stage_items(op, 2, o0) =~= Seq::<Item>::empty());
            },
            None => {},
        }
    } else if op == 0x07 {
        assert(stage_items(op, 0, Seq::empty()) =~= Seq::<Item>::empty());
        reveal_with_fuel(decode_items, 1);
        match decode_items(d, p, stage_items(op, 0, Seq::empty()), Seq::empty()) {
            Some((o0, p0)) => {
                assert(stage_items(op, 1, o0) =~= Seq::<Item>::empty());
                assert(stage_items(op, 2, o0) =~= Seq::<Item>::empty());
            },
            None => {},
        }
    } else if op == 0x09 {
        assert(stage_items(op, 0, Seq::empty()) =~= Seq::<Item>::empty());
        reveal_with_fuel(decode_items, 1);
        match decode_items(d, p, stage_items(op, 0, Seq::empty()), Seq::empty()) {
            Some((o0, p0)) => {
                assert(stage_items(op, 1, o0) =~= Seq::<Item>::empty());
                assert(stage_items(op, 2, o0) =~= Seq::<Item>::empty());
            },
            None => {},
        }
    } else if op == 0x0F {
        assert(stage_items(op, 0, Seq::empty()) =~= Seq::<Item>::empty());
        reveal_with_fuel(decode_items, 1);
        match decode_items(d, p, stage_items(op, 0, Seq::empty()), Seq::empty()) {
            Some((o0, p0)) => {
                assert(stage_items(op, 1, o0) =~= Seq::<Item>::empty());
                assert(stage_items(op, 2, o0) =~= Seq::<Item>::empty());
            },
            None => {},
        }
    } else if op == 0x13 {
        assert(stage_items(op, 0, Seq::empty()) =~= Seq::<Item>::empty());
        reveal_with_fuel(decode_items, 1);
        match decode_items(d, p, stage_items(op, 0, Seq::empty()), Seq::empty()) {
            Some((o0, p0)) => {
                assert(stage_items(op, 1, o0) =~= Seq::<Item>::empty());
                assert(stage_items(op, 2, o0) =~= Seq::<Item>::empty());
            },
            None => {},
        }
    } else if op == 0x14 {
        assert(stage_items(op, 0, Seq::empty()) =~= Seq::<Item>::empty());
        reveal_with_fuel(decode_items, 1);
        match decode_items(d, p, stage_items(op, 0, Seq::empty()), Seq::empty()) {
            Some((o0, p0)) => {
                assert(stage_items(op, 1, o0) =~= Seq::<Item>::empty());
                assert(stage_items(op, 2, o0) =~= Seq::<Item>::empty());
            },
            None => {},
        }
    } else if op == 0x1E {
        assert(stage_items(op, 0, Seq::empty()) =~= Seq::<Item>::empty());
        reveal_with_fuel(decode_items, 1);
        match decode_items(d, p, stage_items(op, 0, Seq::empty()), Seq::empty()) {
            Some((o0, p0)) => {
                assert(stage_items(op, 1, o0) =~= Seq::<Item>::empty());
                assert(stage_items(op, 2, o0) =~= Seq::<Item>::empty());
            },
            None => {},
        }
    } else if op == 0x3C {
        assert(stage_items(op, 0, Seq::empty()) =~= Seq::<Item>::empty());
        reveal_with_fuel(decode_items, 1);
        match decode_items(d, p, stage_items(op, 0, Seq::empty()), Seq::empty()) {
            Some((o0, p0)) => {
                assert(stage_items(op, 1, o0) =~= Seq::<Item>::empty());
                assert(stage_items(op, 2, o0) =~= Seq::<Item>::empty());
            },
            None => {},
        }
    } else if op == 0x4B {
        assert(stage_items(op, 0, Seq::empty()) =~= Seq::<Item>::empty());
        reveal_with_fuel(decode_items, 1);
        match decode_items(d, p, stage_items(op, 0, Seq::empty()), Seq::empty()) {
            Some((o0, p0)) => {
                assert(stage_items(op, 1, o0) =~= Seq::<Item>::empty());
                assert(stage_items(op, 2, o0) =~= Seq::<Item>::empty());
            },
            None => {},
        }
    } else if op == 0x65 {
        assert(stage_items(op, 0, Seq::empty()) =~= Seq::<Item>::empty());
        reveal_with_fuel(decode_items, 1);
        match decode_items(d, p, stage_items(op, 0, Seq::empty()), Seq::empty()) {
            Some((o0, p0)) => {
                assert(stage_items(op, 1, o0) =~= Seq::<Item>::empty());
                assert(stage_items(op, 2, o0) =~= Seq::<Item>::empty());
            },
            None => {},
        }
    } else if op == 0x6E {
        assert(stage_items(op, 0, Seq::empty()) =~= Seq::<Item>::empty());
        reveal_with_fuel(decode_items, 1);
        match decode_items(d, p, stage_items(op, 0, Seq::empty()), Seq::empty()) {
            Some((o0, p0)) => {
                assert(stage_items(op, 1, o0) =~= Seq::<Item>::empty());
                assert(stage_items(op, 2, o0) =~= Seq::<Item>::empty());
            },
            None => {},
        }
    } else if op == 0x7D {
        assert(stage_items(op, 0, Seq::empty()) =~= Seq::<Item>::empty());
        reveal_with_fuel(decode_items, 1);
        match decode_items(d, p, stage_items(op, 0, Seq::empty()), Seq::empty()) {
            Some((o0, p0)) => {
                assert(stage_items(op, 1, o0) =~= Seq::<Item>::empty());
                assert(stage_items(op, 2, o0) =~= Seq::<Item>::empty());
            },
            None => {},
        }
    } else if op == 0x7E {
        assert(stage_items(op, 0, Seq::empty()) =~= Seq::<Item>::empty());
        reveal_with_fuel(decode_items, 1);
        match decode_items(d, p, stage_items(op, 0, Seq::empty()), Seq::empty()) {
            Some((o0, p0)) => {
                assert(stage_items(op, 1, o0) =~= Seq::<Item>::empty());
                assert(stage_items(op, 2, o0) =~= Seq::<Item>::empty());
            },
            None => {},
        }
    } else if op == 0x82 {
        assert(stage_items(op, 0, Seq::empty()) =~= Seq::<Item>::empty());
        reveal_with_fuel(decode_items, 1);
        match decode_items(d, p, stage_items(op, 0, Seq::empty()), Seq::empty()) {
            Some((o0, p0)) => {
                assert(stage_items(op, 1, o0) =~= Seq::<Item>::empty());
                assert(stage_items(op, 2, o0) =~= Seq::<Item>::empty());
            },
            None => {},
        }
    } else if op == 0xCC {
        assert(stage_items(op, 0, Seq::empty()) =~= Seq::<Item>::empty());
        reveal_with_fuel(decode_items, 1);
        match decode_items(d, p, stage_items(op, 0, Seq::empty()), Seq::empty()) {
            Some((o0, p0)) => {
                assert(stage_items(op, 1, o0) =~= Seq::<Item>::empty());
                assert(stage_items(op, 2, o0) =~= Seq::<Item>::empty());
            },
            None => {},
        }
    } else if op == 0xD3 {
        assert(stage_items(op, 0, Seq::empty()) =~= Seq::<Item>::empty());
        reveal_with_fuel(decode_items, 1);
        match decode_items(d, p, stage_items(op, 0, Seq::empty()), Seq::empty()) {
            Some((o0, p0)) => {
                assert(stage_items(op, 1, o0) =~= Seq::<Item>::empty());
                assert(stage_items(op, 2, o0) =~= Seq::<Item>::empty());
            },
            None => {},
        }
    } else if op == 0xE3 {
        assert(stage_items(op, 0, Seq::empty()) =~= Seq::<Item>::empty());
        reveal_with_fuel(decode_items, 1);
        match decode_items(d, p, stage_items(op, 0, Seq::empty()), Seq::empty()) {
            Some((o0, p0)) => {
                assert(stage_items(op, 1, o0) =~= Seq::<Item>::empty());
                assert(stage_items(op, 2, o0) =~= Seq::<Item>::empty());
            },
            None => {},
        }
    } else if op == 0xFD {
        assert(stage_items(op, 0, Seq::empty()) =~= Seq::<Item>::empty());
        reveal_with_fuel(decode_items, 1);
        match decode_items(d, p, stage_items(op, 0, Seq::empty()), Seq::empty()) {
            Some((o0, p0)) => {
                assert(stage_items(op, 1, o0) =~= Seq::<Item>::empty());
                assert(stage_items(op, 2, o0) =~= Seq::<Item>::empty());
            },
            None => {},
        }
    } else if op == 0xFE {
        assert(stage_items(op, 0, Seq::empty()) =~= Seq::<Item>::empty());
        reveal_with_fuel(decode_items, 1);
        match decode_items(d, p, stage_items(op, 0, Seq::empty()), Seq::empty()) {
            Some((o0, p0)) => {
                assert(stage_items(op, 1, o0) =~= Seq::<Item>::empty());
                assert(stage_items(op, 2, o0) =~= Seq::<Item>::empty());
            },
            None => {},
        }
    }
}

/// Instructions 0x0B, 0x17, 0x23, 0x24, 0x29, 0x49, 0x55, 0x58, 0x61, 0x6D, 0xCA, 0xCD, 0xF0, 0xFB have one operand taking 1 byte in all.
pub proof fn lemma_operands_1_in_1_bytes(d: Seq<u8>, p: int, op: u8)
    requires
        op == 0x0B || op == 0x17 || op == 0x23 || op == 0x24 || op == 0x29 || op == 0x49 || op == 0x55 || op == 0x58 || op == 0x61 || op == 0x6D || op == 0xCA || op == 0xCD || op == 0xF0 || op == 0xFB,
    ensures
        decode_operands(d, p, op) matches Some((ops, q)) ==> q == p + 1 && ops.len() == 1,
{
    if op == 0x0B {
        assert(stage_items(op, 0, Seq::empty()) =~= seq![Item::Byte]);
        assert(seq![Item::Byte].drop_first() =~= Seq::<Item>::empty());
        reveal_with_fuel(decode_items, 2);
        match decode_items(d, p, stage_items(op, 0, Seq::empty()), Seq::empty()) {
            Some((o0, p0)) => {
                assert(stage_items(op, 1, o0) =~= Seq::<Item>::empty());
                assert(stage_items(op, 2, o0) =~= Seq::<Item>::empty());
            },
            None => {},
        }
    } else if op == 0x17 {
        assert(stage_items(op, 0, Seq::empty()) =~= seq![Item::Byte]);
        assert(seq![Item::Byte].drop_first() =~= Seq::<Item>::empty());
        reveal_with_fuel(decode_items, 2);
        match decode_items(d, p, stage_items(op, 0, Seq::empty()), Seq::empty()) {
            Some((o0, p0)) => {
                assert(stage_items(op, 1, o0) =~= Seq::<Item>::empty());
                assert(stage_items(op, 2, o0) =~= Seq::<Item>::empty());
            },
            None => {},
        }
    } else if op == 0x23 {
        assert(stage_items(op, 0, Seq::empty()) =~= seq![Item::Byte]);
        assert(seq![Item::Byte].drop_first() =~= Seq::<Item>::empty());
        reveal_with_fuel(decode_items, 2);
        match decode_items(d, p, stage_items(op, 0, Seq::empty()), Seq::empty()) {
            Some((o0, p0)) => {
                assert(stage_items(op, 1, o0) =~= Seq::<Item>::empty());
                assert(stage_items(op, 2, o0) =~= Seq::<Item>::empty());
            },
            None => {},
        }
    } else if op == 0x24 {
        assert(stage_items(op, 0, Seq::empty()) =~= seq![Item::Byte]);
        assert(seq![Item::Byte].drop_first() =~= Seq::<Item>::empty());
        reveal_with_fuel(decode_items, 2);
        match decode_items(d, p, stage_items(op, 0, Seq::empty()), Seq::empty()) {
            Some((o0, p0)) => {
                assert(stage_items(op, 1, o0) =~= Seq::<Item>::empty());
                assert(stage_items(op, 2, o0) =~= Seq::<Item>::empty());
            },
            None => {},
        }
    } else if op == 0x29 {
        assert(stage_items(op, 0, Seq::empty()) =~= seq![Item::Byte]);
        assert(seq![Item::Byte].drop_first() =~= Seq::<Item>::empty());
        reveal_with_fuel(decode_items, 2);
        match decode_items(d, p, stage_items(op, 0, Seq::empty()), Seq::empty()) {
            Some((o0, p0)) => {
                assert(stage_items(op, 1, o0) =~= Seq::<Item>::empty());
                assert(stage_items(op, 2, o0) =~= Seq::<Item>::empty());
            },
            None => {},
        }
    } else if op == 0x49 {
        assert(stage_items(op, 0, Seq::empty()) =~= seq![Item::Byte]);
        assert(seq![Item::Byte].drop_first() =~= Seq::<Item>::empty());
        reveal_with_fuel(decode_items, 2);
        match decode_items(d, p, stage_items(op, 0, Seq::empty()), Seq::empty()) {
            Some((o0, p0)) => {
                assert(stage_items(op, 1, o0) =~= Seq::<Item>::empty());
                assert(stage_items(op, 2, o0) =~= Seq::<Item>::empty());
            },
            None => {},
        }
    } else if op == 0x55 {
        assert(stage_items(op, 0, Seq::empty()) =~= seq![Item::Byte]);
        assert(seq![Item::Byte].drop_first() =~= Seq::<Item>::empty());
        reveal_with_fuel(decode_items, 2);
        match decode_items(d, p, stage_items(op, 0, Seq::empty()), Seq::empty()) {
            Some((o0, p0)) => {
                assert(stage_items(op, 1, o0) =~= Seq::<Item>::empty());
                assert(stage_items(op, 2, o0) =~= Seq::<Item>::empty());
            },
            None => {},
        }
    } else if op == 0x58 {
        assert(stage_items(op, 0, Seq::empty()) =~= seq![Item::Byte]);
        assert(seq![Item::Byte].drop_first() =~= Seq::<Item>::empty());
        reveal_with_fuel(decode_items, 2);
        match decode_items(d, p, stage_items(op, 0, Seq::empty()), Seq::empty()) {
            Some((o0, p0)) => {
                assert(stage_items(op, 1, o0) =~= Seq::<Item>::empty());
                assert(stage_items(op, 2, o0) =~= Seq::<Item>::empty());
            },
            None => {},
        }
    } else if op == 0x61 {
        assert(stage_items(op, 0, Seq::empty()) =~= seq![Item::Byte]);
        assert(seq![Item::Byte].drop_first() =~= Seq::<Item>::empty());
        reveal_with_fuel(decode_items, 2);
        match decode_items(d, p, stage_items(op, 0, Seq::empty()), Seq::empty()) {
            Some((o0, p0)) => {
                assert(stage_items(op, 1, o0) =~= Seq::<Item>::empty());
                assert(stage_items(op, 2, o0) =~= Seq::<Item>::empty());
            },
            None => {},
        }
    } else if op == 0x6D {
        assert(stage_items(op, 0, Seq::empty()) =~= seq![Item::Byte]);
        assert(seq![Item::Byte].drop_first() =~= Seq::<Item>::empty());
        reveal_with_fuel(decode_items, 2);
        match decode_items(d, p, stage_items(op, 0, Seq::empty()), Seq::empty()) {
            Some((o0, p0)) => {
                assert(stage_items(op, 1, o0) =~= Seq::<Item>::empty());
                assert(stage_items(op, 2, o0) =~= Seq::<Item>::empty());
            },
            None => {},
        }
    } else if op == 0xCA {
        assert(stage_items(op, 0, Seq::empty()) =~= seq![Item::Byte]);
        assert(seq![Item::Byte].drop_first() =~= Seq::<Item>::empty());
        reveal_with_fuel(decode_items, 2);
        match decode_items(d, p, stage_items(op, 0, Seq::empty()), Seq::empty()) {
            Some((o0, p0)) => {
                assert(stage_items(op, 1, o0) =~= Seq::<Item>::empty());
                assert(stage_items(op, 2, o0) =~= Seq::<Item>::empty());
            },
            None => {},
        }
    } else if op == 0xCD {
        assert(stage_items(op, 0, Seq::empty()) =~= seq![Item::Byte]);
        assert(seq![Item::Byte].drop_first() =~= Seq::<Item>::empty());
        reveal_with_fuel(decode_items, 2);
        match decode_items(d, p, stage_items(op, 0, Seq::empty()), Seq::empty()) {
            Some((o0, p0)) => {
                assert(stage_items(op, 1, o0) =~= Seq::<Item>::empty());
                assert(stage_items(op, 2, o0) =~= Seq::<Item>::empty());
            },
            None => {},
        }
    } else if op == 0xF0 {
        assert(stage_items(op, 0, Seq::empty()) =~= seq![Item::Byte]);
        assert(seq![Item::Byte].drop_first() =~= Seq::<Item>::empty());
        reveal_with_fuel(decode_items, 2);
        match decode_items(d, p, stage_items(op, 0, Seq::empty()), Seq::empty()) {
            Some((o0, p0)) => {
                assert(stage_items(op, 1, o0) =~= Seq::<Item>::empty());
                assert(stage_items(op, 2, o0) =~= Seq::<Item>::empty());
            },
            None => {},
        }
    } else if op == 0xFB {
        assert(stage_items(op, 0, Seq::empty()) =~= seq![Item::Byte]);
        assert(seq![Item::Byte].drop_first() =~= Seq::<Item>::empty());
        reveal_with_fuel(decode_items, 2);
        match decode_items(d, p, stage_items(op, 0, Seq::empty()), Seq::empty()) {
            Some((o0, p0)) => {
                assert(stage_items(op, 1, o0) =~= Seq::<Item>::empty());
                assert(stage_items(op, 2, o0) =~= Seq::<Item>::empty());
            },
            None => {},
        }
    }
}

/// Instructions 0x08, 0x38, 0x44, 0x45, 0x46, 0x9A have one operand taking 2 bytes in all.
pub proof fn lemma_operands_1_in_2_bytes(d: Seq<u8>, p: int, op: u8)
    requires
        op == 0x08 || op == 0x38 || op == 0x44 || op == 0x45 || op == 0x46 || op == 0x9A,
    ensures
        decode_operands(d, p, op) matches Some((ops, q)) ==> q == p + 2 && ops.len() == 1,
{
    if op == 0x08 {
        assert(stage_items(op, 0, Seq::empty()) =~= seq![Item::Angle]);
        assert(seq![Item::Angle].drop_first() =~= Seq::<Item>::empty());
        reveal_with_fuel(decode_items, 2);
        match decode_items(d, p, stage_items(op, 0, Seq::empty()), Seq::empty()) {
            Some((o0, p0)) => {
                assert(stage_items(op, 1, o0) =~= Seq::<Item>::empty());
                assert(stage_items(op, 2, o0) =~= Seq::<Item>::empty());
            },
            None => {},
        }
    } else if op == 0x38 {
        assert(stage_items(op, 0, Seq::empty()) =~= seq![Item::SHalf]);
        assert(seq![Item::SHalf].drop_first() =~= Seq::<Item>::empty());
        reveal_with_fuel(decode_items, 2);
        match decode_items(d, p, stage_items(op, 0, Seq::empty()), Seq::empty()) {
            Some((o0, p0)) => {
                assert(stage_items(op, 1, o0) =~= Seq::<Item>::empty());
                assert(stage_items(op, 2, o0) =~= Seq::<Item>::empty());
            },
            None => {},
        }
    } else if op == 0x44 {
        assert(stage_items(op, 0, Seq::empty()) =~= seq![Item::Flag]);
        assert(seq![Item::Flag].drop_first() =~= Seq::<Item>::empty());
        reveal_with_fuel(decode_items, 2);
        match decode_items(d, p, stage_items(op, 0, Seq::empty()), Seq::empty()) {
            Some((o0, p0)) => {
                assert(stage_items(op, 1, o0) =~= Seq::<Item>::empty());
                assert(stage_items(op, 2, o0) =~= Seq::<Item>::empty());
            },
            None => {},
        }
    } else if op == 0x45 {
        assert(stage_items(op, 0, Seq::empty()) =~= seq![Item::Flag]);
        assert(seq![Item::Flag].drop_first() =~= Seq::<Item>::empty());
        reveal_with_fuel(decode_items, 2);
        match decode_items(d, p, stage_items(op, 0, Seq::empty()), Seq::empty()) {
            Some((o0, p0)) => {
                assert(stage_items(op, 1, o0) =~= Seq::<Item>::empty());
                assert(stage_items(op, 2, o0) =~= Seq::<Item>::empty());
            },
            None => {},
        }
    } else if op == 0x46 {
        assert(stage_items(op, 0, Seq::empty()) =~= seq![Item::Flag]);
        assert(seq![Item::Flag].drop_first() =~= Seq::<Item>::empty());
        reveal_with_fuel(decode_items, 2);
        match decode_items(d, p, stage_items(op, 0, Seq::empty()), Seq::empty()) {
            Some((o0, p0)) => {
                assert(stage_items(op, 1, o0) =~= Seq::<Item>::empty());
                assert(stage_items(op, 2, o0) =~= Seq::<Item>::empty());
            },
            None => {},
        }
    } else if op == 0x9A {
        assert(stage_items(op, 0, Seq::empty()) =~= seq![Item::SHalf]);
        assert(seq![Item::SHalf].drop_first() =~= Seq::<Item>::empty());
        reveal_with_fuel(decode_items, 2);
        match decode_items(d, p, stage_items(op, 0, Seq::empty()), Seq::empty()) {
            Some((o0, p0)) => {
                assert(stage_items(op, 1, o0) =~= Seq::<Item>::empty());
                assert(stage_items(op, 2, o0) =~= Seq::<Item>::empty());
            },
            None => {},
        }
    }
}

/// Instructions 0x62, 0xA8 have two operands taking 2 bytes in all.
pub proof fn lemma_operands_2_in_2_bytes(d: Seq<u8>, p: int, op: u8)
    requires
        op == 0x62 || op == 0xA8,
    ensures
        decode_operands(d, p, op) matches Some((ops, q)) ==> q == p + 2 && ops.len() == 2,
{
    if op == 0x62 {
        assert(stage_items(op, 0, Seq::empty()) =~= seq![Item::Byte, Item::VisFlag]);
        assert(seq![Item::Byte, Item::VisFlag].drop_first() =~= seq![Item::VisFlag]);
        assert(seq![Item::VisFlag].drop_first() =~= Seq::<Item>::empty());
        reveal_with_fuel(decode_items, 3);
        match decode_items(d, p, stage_items(op, 0, Seq::empty()), Seq::empty()) {
            Some((o0, p0)) => {
                assert(stage_items(op, 1, o0) =~= Seq::<Item>::empty());
                assert(stage_items(op, 2, o0) =~= Seq::<Item>::empty());
            },
            None => {},
        }
    } else if op == 0xA8 {
        assert(stage_items(op, 0, Seq::empty()) =~= seq![Item::Byte, Item::Byte]);
        assert(seq![Item::Byte, Item::Byte].drop_first() =~= seq![Item::Byte]);
        assert(seq![Item::Byte].drop_first() =~= Seq::<Item>::empty());
        reveal_with_fuel(decode_items, 3);
        match decode_items(d, p, stage_items(op, 0, Seq::empty()), Seq::empty()) {
            Some((o0, p0)) => {
                assert(stage_items(op, 1, o0) =~= Seq::<Item>::empty());
                assert(stage_items(op, 2, o0) =~= Seq::<Item>::empty());
            },
            None => {},
        }
    }
}

/// Instructions 0x8C, 0xA2 have two operands taking 3 bytes in all.
pub proof fn lemma_operands_2_in_3_bytes(d: Seq<u8>, p: int, op: u8)
    requires
        op == 0x8C || op == 0xA2,
    ensures
        decode_operands(d, p, op) matches Some((ops, q)) ==> q == p + 3 && ops.len() == 2,
{
    if op == 0x8C {
        assert(stage_items(op, 0, Seq::empty()) =~= seq![Item::Byte, Item::SHalf]);
        assert(seq![Item::Byte, Item::SHalf].drop_first() =~= seq![Item::SHalf]);
        assert(seq![Item::SHalf].drop_first() =~= Seq::<Item>::empty());
        reveal_with_fuel(decode_items, 3);
        match decode_items(d, p, stage_items(op, 0, Seq::empty()), Seq::empty()) {
            Some((o0, p0)) => {
                assert(stage_items(op, 1, o0) =~= Seq::<Item>::empty());
                assert(stage_items(op, 2, o0) =~= Seq::<Item>::empty());
            },
            None => {},
        }
    } else if op == 0xA2 {
        assert(stage_items(op, 0, Seq::empty()) =~= seq![Item::Slot, Item::SHalf]);
        assert(seq![Item::Slot, Item::SHalf].drop_first() =~= seq![Item::SHalf]);
        assert(seq![Item::SHalf].drop_first() =~= Seq::<Item>::empty());
        reveal_with_fuel(decode_items, 3);
        match decode_items(d, p, stage_items(op, 0, Seq::empty()), Seq::empty()) {
            Some((o0, p0)) => {
                assert(stage_items(op, 1, o0) =~= Seq::<Item>::empty());
                assert(stage_items(op, 2, o0) =~= Seq::<Item>::empty());
            },
            None => {},
        }
    }
}

/// Instructions 0x05, 0x15, 0x1C, 0x4C, 0x68, 0x6A, 0x6F, 0x74, 0x75, 0x78, 0x7C, 0x87, 0x98, 0x99, 0xA7, 0xAA, 0xDA have one operand taking 4 bytes in all.
pub proof fn lemma_operands_1_in_4_bytes(d: Seq<u8>, p: int, op: u8)
    requires
        op == 0x05 || op == 0x15 || op == 0x1C || op == 0x4C || op == 0x68 || op == 0x6A || op == 0x6F || op == 0x74 || op == 0x75 || op == 0x78 || op == 0x7C || op == 0x87 || op == 0x98 || op == 0x99 || op == 0xA7 || op == 0xAA || op == 0xDA,
    ensures
        decode_operands(d, p, op) matches Some((ops, q)) ==> q == p + 4 && ops.len() == 1,
{
    if op == 0x05 {
        assert(stage_items(op, 0, Seq::empty()) =~= seq![Item::Float]);
        assert(seq![Item::Float].drop_first() =~= Seq::<Item>::empty());
        reveal_with_fuel(decode_items, 2);
        match decode_items(d, p, stage_items(op, 0, Seq::empty()), Seq::empty()) {
            Some((o0, p0)) => {
                assert(stage_items(op, 1, o0) =~= Seq::<Item>::empty());
                assert(stage_items(op, 2, o0) =~= Seq::<Item>::empty());
            },
            None => {},
        }
    } else if op == 0x15 {
        assert(stage_items(op, 0, Seq::empty()) =~= seq![Item::SWord]);
        assert(seq![Item::SWord].drop_first() =~= Seq::<Item>::empty());
        reveal_with_fuel(decode_items, 2);
        match decode_items(d, p, stage_items(op, 0, Seq::empty()), Seq::empty()) {
            Some((o0, p0)) => {
                assert(stage_items(op, 1, o0) =~= Seq::<Item>::empty());
                assert(stage_items(op, 2, o0) =~= Seq::<Item>::empty());
            },
            None => {},
        }
    } else if op == 0x1C {
        assert(stage_items(op, 0, Seq::empty()) =~= seq![Item::Path]);
        assert(seq![Item::Path].drop_first() =~= Seq::<Item>::empty());
        reveal_with_fuel(decode_items, 2);
        match decode_items(d, p, stage_items(op, 0, Seq::empty()), Seq::empty()) {
            Some((o0, p0)) => {
                assert(stage_items(op, 1, o0) =~= Seq::<Item>::empty());
                assert(stage_items(op, 2, o0) =~= Seq::<Item>::empty());
            },
            None => {},
        }
    } else if op == 0x4C {
        assert(stage_items(op, 0, Seq::empty()) =~= seq![Item::Block]);
        assert(seq![Item::Block].drop_first() =~= Seq::<Item>::empty());
        reveal_with_fuel(decode_items, 2);
        match decode_items(d, p, stage_items(op, 0, Seq::empty()), Seq::empty()) {
            Some((o0, p0)) => {
                assert(stage_items(op, 1, o0) =~= Seq::<Item>::empty());
                assert(stage_items(op, 2, o0) =~= Seq::<Item>::empty());
            },
            None => {},
        }
    } else if op == 0x68 {
        assert(stage_items(op, 0, Seq::empty()) =~= seq![Item::Float]);
        assert(seq![Item::Float].drop_first() =~= Seq::<Item>::empty());
        reveal_with_fuel(decode_items, 2);
        match decode_items(d, p, stage_items(op, 0, Seq::empty()), Seq::empty()) {
            Some((o0, p0)) => {
                assert(stage_items(op, 1, o0) =~= Seq::<Item>::empty());
                assert(stage_items(op, 2, o0) =~= Seq::<Item>::empty());
            },
            None => {},
        }
    } else if op == 0x6A {
        assert(stage_items(op, 0, Seq::empty()) =~= seq![Item::Float]);
        assert(seq![Item::Float].drop_first() =~= Seq::<Item>::empty());
        reveal_with_fuel(decode_items, 2);
        match decode_items(d, p, stage_items(op, 0, Seq::empty()), Seq::empty()) {
            Some((o0, p0)) => {
                assert(stage_items(op, 1, o0) =~= Seq::<Item>::empty());
                assert(stage_items(op, 2, o0) =~= Seq::<Item>::empty());
            },
            None => {},
        }
    } else if op == 0x6F {
        assert(stage_items(op, 0, Seq::empty()) =~= seq![Item::SWord]);
        assert(seq![Item::SWord].drop_first() =~= Seq::<Item>::empty());
        reveal_with_fuel(decode_items, 2);
        match decode_items(d, p, stage_items(op, 0, Seq::empty()), Seq::empty()) {
            Some((o0, p0)) => {
                assert(stage_items(op, 1, o0) =~= Seq::<Item>::empty());
                assert(stage_items(op, 2, o0) =~= Seq::<Item>::empty());
            },
            None => {},
        }
    } else if op == 0x74 {
        assert(stage_items(op, 0, Seq::empty()) =~= seq![Item::Word]);
        assert(seq![Item::Word].drop_first() =~= Seq::<Item>::empty());
        reveal_with_fuel(decode_items, 2);
        match decode_items(d, p, stage_items(op, 0, Seq::empty()), Seq::empty()) {
            Some((o0, p0)) => {
                assert(stage_items(op, 1, o0) =~= Seq::<Item>::empty());
                assert(stage_items(op, 2, o0) =~= Seq::<Item>::empty());
            },
            None => {},
        }
    } else if op == 0x75 {
        assert(stage_items(op, 0, Seq::empty()) =~= seq![Item::Word]);
        assert(seq![Item::Word].drop_first() =~= Seq::<Item>::empty());
        reveal_with_fuel(decode_items, 2);
        match decode_items(d, p, stage_items(op, 0, Seq::empty()), Seq::empty()) {
            Some((o0, p0)) => {
                assert(stage_items(op, 1, o0) =~= Seq::<Item>::empty());
                assert(stage_items(op, 2, o0) =~= Seq::<Item>::empty());
            },
            None => {},
        }
    } else if op == 0x78 {
        assert(stage_items(op, 0, Seq::empty()) =~= seq![Item::Float]);
        assert(seq![Item::Float].drop_first() =~= Seq::<Item>::empty());
        reveal_with_fuel(decode_items, 2);
        match decode_items(d, p, stage_items(op, 0, Seq::empty()), Seq::empty()) {
            Some((o0, p0)) => {
                assert(stage_items(op, 1, o0) =~= Seq::<Item>::empty());
                assert(stage_items(op, 2, o0) =~= Seq::<Item>::empty());
            },
            None => {},
        }
    } else if op == 0x7C {
        assert(stage_items(op, 0, Seq::empty()) =~= seq![Item::Float]);
        assert(seq![Item::Float].drop_first() =~= Seq::<Item>::empty());
        reveal_with_fuel(decode_items, 2);
        match decode_items(d, p, stage_items(op, 0, Seq::empty()), Seq::empty()) {
            Some((o0, p0)) => {
                assert(stage_items(op, 1, o0) =~= Seq::<Item>::empty());
                assert(stage_items(op, 2, o0) =~= Seq::<Item>::empty());
            },
            None => {},
        }
    } else if op == 0x87 {
        assert(stage_items(op, 0, Seq::empty()) =~= seq![Item::Float]);
        assert(seq![Item::Float].drop_first() =~= Seq::<Item>::empty());
        reveal_with_fuel(decode_items, 2);
        match decode_items(d, p, stage_items(op, 0, Seq::empty()), Seq::empty()) {
            Some((o0, p0)) => {
                assert(stage_items(op, 1, o0) =~= Seq::<Item>::empty());
                assert(stage_items(op, 2, o0) =~= Seq::<Item>::empty());
            },
            None => {},
        }
    } else if op == 0x98 {
        assert(stage_items(op, 0, Seq::empty()) =~= seq![Item::Word]);
        assert(seq![Item::Word].drop_first() =~= Seq::<Item>::empty());
        reveal_with_fuel(decode_items, 2);
        match decode_items(d, p, stage_items(op, 0, Seq::empty()), Seq::empty()) {
            Some((o0, p0)) => {
                assert(stage_items(op, 1, o0) =~= Seq::<Item>::empty());
                assert(stage_items(op, 2, o0) =~= Seq::<Item>::empty());
            },
            None => {},
        }
    } else if op == 0x99 {
        assert(stage_items(op, 0, Seq::empty()) =~= seq![Item::Float]);
        assert(seq![Item::Float].drop_first() =~= Seq::<Item>::empty());
        reveal_with_fuel(decode_items, 2);
        match decode_items(d, p, stage_items(op, 0, Seq::empty()), Seq::empty()) {
            Some((o0, p0)) => {
                assert(stage_items(op, 1, o0) =~= Seq::<Item>::empty());
                assert(stage_items(op, 2, o0) =~= Seq::<Item>::empty());
            },
            None => {},
        }
    } else if op == 0xA7 {
        assert(stage_items(op, 0, Seq::empty()) =~= seq![Item::Float]);
        assert(seq![Item::Float].drop_first() =~= Seq::<Item>::empty());
        reveal_with_fuel(decode_items, 2);
        match decode_items(d, p, stage_items(op, 0, Seq::empty()), Seq::empty()) {
            Some((o0, p0)) => {
                assert(stage_items(op, 1, o0) =~= Seq::<Item>::empty());
                assert(stage_items(op, 2, o0) =~= Seq::<Item>::empty());
            },
            None => {},
        }
    } else if op == 0xAA {
        assert(stage_items(op, 0, Seq::empty()) =~= seq![Item::Float]);
        assert(seq![Item::Float].drop_first() =~= Seq::<Item>::empty());
        reveal_with_fuel(decode_items, 2);
        match decode_items(d, p, stage_items(op, 0, Seq::empty()), Seq::empty()) {
            Some((o0, p0)) => {
                assert(stage_items(op, 1, o0) =~= Seq::<Item>::empty());
                assert(stage_items(op, 2, o0) =~= Seq::<Item>::empty());
            },
            None => {},
        }
    } else if op == 0xDA {
        assert(stage_items(op, 0, Seq::empty()) =~= seq![Item::Float]);
        assert(seq![Item::Float].drop_first() =~= Seq::<Item>::empty());
        reveal_with_fuel(decode_items, 2);
        match decode_items(d, p, stage_items(op, 0, Seq::empty()), Seq::empty()) {
            Some((o0, p0)) => {
                assert(stage_items(op, 1, o0) =~= Seq::<Item>::empty());
                assert(stage_items(op, 2, o0) =~= Seq::<Item>::empty());
            },
            None => {},
        }
    }
}

/// Instruction 0x76 has two operands taking 4 bytes in all.
pub proof fn lemma_operands_2_in_4_bytes(d: Seq<u8>, p: int, op: u8)
    requires
        op == 0x76,
    ensures
        decode_operands(d, p, op) matches Some((ops, q)) ==> q == p + 4 && ops.len() == 2,
{
    if op == 0x76 {
        assert(stage_items(op, 0, Seq::empty()) =~= seq![Item::Half, Item::Half]);
        assert(seq![Item::Half, Item::Half].drop_first() =~= seq![Item::Half]);
        assert(seq![Item::Half].drop_first() =~= Seq::<Item>::empty());
        reveal_with_fuel(decode_items, 3);
        match decode_items(d, p, stage_items(op, 0, Seq::empty()), Seq::empty()) {
            Some((o0, p0)) => {
                assert(stage_items(op, 1, o0) =~= Seq::<Item>::empty());
                assert(stage_items(op, 2, o0) =~= Seq::<Item>::empty());
            },
            None => {},
        }
    }
}

/// Instructions 0xBA, 0xD9, 0xF6 have two operands taking 5 bytes in all.
pub proof fn lemma_operands_2_in_5_bytes(d: Seq<u8>, p: int, op: u8)
    requires
        op == 0xBA || op == 0xD9 || op == 0xF6,
    ensures
        decode_operands(d, p, op) matches Some((ops, q)) ==> q == p + 5 && ops.len() == 2,
{
    if op == 0xBA {
        assert(stage_items(op, 0, Seq::empty()) =~= seq![Item::Byte, Item::Float]);
        assert(seq![Item::Byte, Item::Float].drop_first() =~= seq![Item::Float]);
        assert(seq![Item::Float].drop_first() =~= Seq::<Item>::empty());
        reveal_with_fuel(decode_items, 3);
        match decode_items(d, p, stage_items(op, 0, Seq::empty()), Seq::empty()) {
            Some((o0, p0)) => {
                assert(stage_items(op, 1, o0) =~= Seq::<Item>::empty());
                assert(stage_items(op, 2, o0) =~= Seq::<Item>::empty());
            },
            None => {},
        }
    } else if op == 0xD9 {
        assert(stage_items(op, 0, Seq::empty()) =~= seq![Item::Byte, Item::Word]);
        assert(seq![Item::Byte, Item::Word].drop_first() =~= seq![Item::Word]);
        assert(seq![Item::Word].drop_first() =~= Seq::<Item>::empty());
        reveal_with_fuel(decode_items, 3);
        match decode_items(d, p, stage_items(op, 0, Seq::empty()), Seq::empty()) {
            Some((o0, p0)) => {
                assert(stage_items(op, 1, o0) =~= Seq::<Item>::empty());
                assert(stage_items(op, 2, o0) =~= Seq::<Item>::empty());
            },
            None => {},
        }
    } else if op == 0xF6 {
        assert(stage_items(op, 0, Seq::empty()) =~= seq![Item::Byte, Item::Float]);
        assert(seq![Item::Byte, Item::Float].drop_first() =~= seq![Item::Float]);
        assert(seq![Item::Float].drop_first() =~= Seq::<Item>::empty());
        reveal_with_fuel(decode_items, 3);
        match decode_items(d, p, stage_items(op, 0, Seq::empty()), Seq::empty()) {
            Some((o0, p0)) => {
                assert(stage_items(op, 1, o0) =~= Seq::<Item>::empty());
                assert(stage_items(op, 2, o0) =~= Seq::<Item>::empty());
            },
            None => {},
        }
    }
}

/// Instructions 0x41, 0x42, 0xB6, 0xD8 have two operands taking 6 bytes in all.
pub proof fn lemma_operands_2_in_6_bytes(d: Seq<u8>, p: int, op: u8)
    requires
        op == 0x41 || op == 0x42 || op == 0xB6 || op == 0xD8,
    ensures
        decode_operands(d, p, op) matches Some((ops, q)) ==> q == p + 6 && ops.len() == 2,
{
    if op == 0x41 {
        assert(stage_items(op, 0, Seq::empty()) =~= seq![Item::SimpleVar, Item::Float]);
        assert(seq![Item::SimpleVar, Item::Float].drop_first() =~= seq![Item::Float]);
        assert(seq![Item::Float].drop_first() =~= Seq::<Item>::empty());
        reveal_with_fuel(decode_items, 3);
        match decode_items(d, p, stage_items(op, 0, Seq::empty()), Seq::empty()) {
            Some((o0, p0)) => {
                assert(stage_items(op, 1, o0) =~= Seq::<Item>::empty());
                assert(stage_items(op, 2, o0) =~= Seq::<Item>::empty());
            },
            None => {},
        }
    } else if op == 0x42 {
        assert(stage_items(op, 0, Seq::empty()) =~= seq![Item::SimpleVar, Item::Float]);
        assert(seq![Item::SimpleVar, Item::Float].drop_first() =~= seq![Item::Float]);
        assert(seq![Item::Float].drop_first() =~= Seq::<Item>::empty());
        reveal_with_fuel(decode_items, 3);
        match decode_items(d, p, stage_items(op, 0, Seq::empty()), Seq::empty()) {
            Some((o0, p0)) => {
                assert(stage_items(op, 1, o0) =~= Seq::<Item>::empty());
                assert(stage_items(op, 2, o0) =~= Seq::<Item>::empty());
            },
            None => {},
        }
    } else if op == 0xB6 {
        assert(stage_items(op, 0, Seq::empty()) =~= seq![Item::SimpleVar, Item::Float]);
        assert(seq![Item::SimpleVar, Item::Float].drop_first() =~= seq![Item::Float]);
        assert(seq![Item::Float].drop_first() =~= Seq::<Item>::empty());
        reveal_with_fuel(decode_items, 3);
        match decode_items(d, p, stage_items(op, 0, Seq::empty()), Seq::empty()) {
            Some((o0, p0)) => {
                assert(stage_items(op, 1, o0) =~= Seq::<Item>::empty());
                assert(stage_items(op, 2, o0) =~= Seq::<Item>::empty());
            },
            None => {},
        }
    } else if op == 0xD8 {
        assert(stage_items(op, 0, Seq::empty()) =~= seq![Item::SimpleVar, Item::Float]);
        assert(seq![Item::SimpleVar, Item::Float].drop_first() =~= seq![Item::Float]);
        assert(seq![Item::Float].drop_first() =~= Seq::<Item>::empty());
        reveal_with_fuel(decode_items, 3);
        match decode_items(d, p, stage_items(op, 0, Seq::empty()), Seq::empty()) {
            Some((o0, p0)) => {
                assert(stage_items(op, 1, o0) =~= Seq::<Item>::empty());
                assert(stage_items(op, 2, o0) =~= Seq::<Item>::empty());
            },
            None => {},
        }
    }
}

/// Instruction 0x63 has three operands taking 6 bytes in all.
pub proof fn lemma_operands_3_in_6_bytes(d: Seq<u8>, p: int, op: u8)
    requires
        op == 0x63,
    ensures
        decode_operands(d, p, op) matches Some((ops, q)) ==> q == p + 6 && ops.len() == 3,
{
    if op == 0x63 {
        assert(stage_items(op, 0, Seq::empty()) =~= seq![Item::SSlot, Item::Byte, Item::Block]);
        assert(seq![Item::SSlot, Item::Byte, Item::Block].drop_first() =~= seq![Item::Byte, Item::Block]);
        assert(seq![Item::Byte, Item::Block].drop_first() =~= seq![Item::Block]);
        assert(seq![Item::Block].drop_first() =~= Seq::<Item>::empty());
        reveal_with_fuel(decode_items, 4);
        match decode_items(d, p, stage_items(op, 0, Seq::empty()), Seq::empty()) {
            Some((o0, p0)) => {
                assert(stage_items(op, 1, o0) =~= Seq::<Item>::empty());
                assert(stage_items(op, 2, o0) =~= Seq::<Item>::empty());
            },
            None => {},
        }
    }
}

/// Instructions 0x2B, 0x7A, 0xBB, 0xC9 have two operands taking 8 bytes in all.
pub proof fn lemma_operands_2_in_8_bytes(d: Seq<u8>, p: int, op: u8)
    requires
        op == 0x2B || op == 0x7A || op == 0xBB || op == 0xC9,
    ensures
        decode_operands(d, p, op) matches Some((ops, q)) ==> q == p + 8 && ops.len() == 2,
{
    if op == 0x2B {
        assert(stage_items(op, 0, Seq::empty()) =~= seq![Item::Float, Item::Float]);
        assert(seq![Item::Float, Item::Float].drop_first() =~= seq![Item::Float]);
        assert(seq![Item::Float].drop_first() =~= Seq::<Item>::empty());
        reveal_with_fuel(decode_items, 3);
        match decode_items(d, p, stage_items(op, 0, Seq::empty()), Seq::empty()) {
            Some((o0, p0)) => {
                assert(stage_items(op, 1, o0) =~= Seq::<Item>::empty());
                assert(stage_items(op, 2, o0) =~= Seq::<Item>::empty());
            },
            None => {},
        }
    } else if op == 0x7A {
        assert(stage_items(op, 0, Seq::empty()) =~= seq![Item::Float, Item::Float]);
        assert(seq![Item::Float, Item::Float].drop_first() =~= seq![Item::Float]);
        assert(seq![Item::Float].drop_first() =~= Seq::<Item>::empty());
        reveal_with_fuel(decode_items, 3);
        match decode_items(d, p, stage_items(op, 0, Seq::empty()), Seq::empty()) {
            Some((o0, p0)) => {
                assert(stage_items(op, 1, o0) =~= Seq::<Item>::empty());
                assert(stage_items(op, 2, o0) =~= Seq::<Item>::empty());
            },
            None => {},
        }
    } else if op == 0xBB {
        assert(stage_items(op, 0, Seq::empty()) =~= seq![Item::Float, Item::Float]);
        assert(seq![Item::Float, Item::Float].drop_first() =~= seq![Item::Float]);
        assert(seq![Item::Float].drop_first() =~= Seq::<Item>::empty());
        reveal_with_fuel(decode_items, 3);
        match decode_items(d, p, stage_items(op, 0, Seq::empty()), Seq::empty()) {
            Some((o0, p0)) => {
                assert(stage_items(op, 1, o0) =~= Seq::<Item>::empty());
                assert(stage_items(op, 2, o0) =~= Seq::<Item>::empty());
            },
            None => {},
        }
    } else if op == 0xC9 {
        assert(stage_items(op, 0, Seq::empty()) =~= seq![Item::Float, Item::Float]);
        assert(seq![Item::Float, Item::Float].drop_first() =~= seq![Item::Float]);
        assert(seq![Item::Float].drop_first() =~= Seq::<Item>::empty());
        reveal_with_fuel(decode_items, 3);
        match decode_items(d, p, stage_items(op, 0, Seq::empty()), Seq::empty()) {
            Some((o0, p0)) => {
                assert(stage_items(op, 1, o0) =~= Seq::<Item>::empty());
                assert(stage_items(op, 2, o0) =~= Seq::<Item>::empty());
            },
            None => {},
        }
    }
}

/// Instructions 0x4E, 0x4F, 0x50, 0xB8, 0xDC have three operands taking 12 bytes in all.
pub proof fn lemma_operands_3_in_12_bytes(d: Seq<u8>, p: int, op: u8)
    requires
        op == 0x4E || op == 0x4F || op == 0x50 || op == 0xB8 || op == 0xDC,
    ensures
        decode_operands(d, p, op) matches Some((ops, q)) ==> q == p + 12 && ops.len() == 3,
{
    if op == 0x4E {
        assert(stage_items(op, 0, Seq::empty()) =~= seq![Item::Float, Item::Float, Item::Float]);
        assert(seq![Item::Float, Item::Float, Item::Float].drop_first() =~= seq![Item::Float, Item::Float]);
        assert(seq![Item::Float, Item::Float].drop_first() =~= seq![Item::Float]);
        assert(seq![Item::Float].drop_first() =~= Seq::<Item>::empty());
        reveal_with_fuel(decode_items, 4);
        match decode_items(d, p, stage_items(op, 0, Seq::empty()), Seq::empty()) {
            Some((o0, p0)) => {
                assert(stage_items(op, 1, o0) =~= Seq::<Item>::empty());
                assert(stage_items(op, 2, o0) =~= Seq::<Item>::empty());
            },
            None => {},
        }
    } else if op == 0x4F {
        assert(stage_items(op, 0, Seq::empty()) =~= seq![Item::Float, Item::Float, Item::Float]);
        assert(seq![Item::Float, Item::Float, Item::Float].drop_first() =~= seq![Item::Float, Item::Float]);
        assert(seq![Item::Float, Item::Float].drop_first() =~= seq![Item::Float]);
        assert(seq![Item::Float].drop_first() =~= Seq::<Item>::empty());
        reveal_with_fuel(decode_items, 4);
        match decode_items(d, p, stage_items(op, 0, Seq::empty()), Seq::empty()) {
            Some((o0, p0)) => {
                assert(stage_items(op, 1, o0) =~= Seq::<Item>::empty());
                assert(stage_items(op, 2, o0) =~= Seq::<Item>::empty());
            },
            None => {},
        }
    } else if op == 0x50 {
        assert(stage_items(op, 0, Seq::empty()) =~= seq![Item::Float, Item::Float, Item::Float]);
        assert(seq![Item::Float, Item::Float, Item::Float].drop_first() =~= seq![Item::Float, Item::Float]);
        assert(seq![Item::Float, Item::Float].drop_first() =~= seq![Item::Float]);
        assert(seq![Item::Float].drop_first() =~= Seq::<Item>::empty());
        reveal_with_fuel(decode_items, 4);
        match decode_items(d, p, stage_items(op, 0, Seq::empty()), Seq::empty()) {
            Some((o0, p0)) => {
                assert(stage_items(op, 1, o0) =~= Seq::<Item>::empty());
                assert(stage_items(op, 2, o0) =~= Seq::<Item>::empty());
            },
            None => {},
        }
    } else if op == 0xB8 {
        assert(stage_items(op, 0, Seq::empty()) =~= seq![Item::Float, Item::Float, Item::Float]);
        assert(seq![Item::Float, Item::Float, Item::Float].drop_first() =~= seq![Item::Float, Item::Float]);
        assert(seq![Item::Float, Item::Float].drop_first() =~= seq![Item::Float]);
        assert(seq![Item::Float].drop_first() =~= Seq::<Item>::empty());
        reveal_with_fuel(decode_items, 4);
        match decode_items(d, p, stage_items(op, 0, Seq::empty()), Seq::empty()) {
            Some((o0, p0)) => {
                assert(stage_items(op, 1, o0) =~= Seq::<Item>::empty());
                assert(stage_items(op, 2, o0) =~= Seq::<Item>::empty());
            },
            None => {},
        }
    } else if op == 0xDC {
        assert(stage_items(op, 0, Seq::empty()) =~= seq![Item::Float, Item::Float, Item::Float]);
        assert(seq![Item::Float, Item::Float, Item::Float].drop_first() =~= seq![Item::Float, Item::Float]);
        assert(seq![Item::Float, Item::Float].drop_first() =~= seq![Item::Float]);
        assert(seq![Item::Float].drop_first() =~= Seq::<Item>::empty());
        reveal_with_fuel(decode_items, 4);
        match decode_items(d, p, stage_items(op, 0, Seq::empty()), Seq::empty()) {
            Some((o0, p0)) => {
                assert(stage_items(op, 1, o0) =~= Seq::<Item>::empty());
                assert(stage_items(op, 2, o0) =~= Seq::<Item>::empty());
            },
            None => {},
        }
    }
}

/// Instruction 0x89 has four operands taking 13 bytes in all.
pub proof fn lemma_operands_4_in_13_bytes(d: Seq<u8>, p: int, op: u8)
    requires
        op == 0x89,
    ensures
        decode_operands(d, p, op) matches Some((ops, q)) ==> q == p + 13 && ops.len() == 4,
{
    if op == 0x89 {
        assert(stage_items(op, 0, Seq::empty()) =~= seq![Item::Byte, Item::Float, Item::Float, Item::Float]);
        assert(seq![Item::Byte, Item::Float, Item::Float, Item::Float].drop_first() =~= seq![Item::Float, Item::Float, Item::Float]);
        assert(seq![Item::Float, Item::Float, Item::Float].drop_first() =~= seq![Item::Float, Item::Float]);
        assert(seq![Item::Float, Item::Float].drop_first() =~= seq![Item::Float]);
        assert(seq![Item::Float].drop_first() =~= Seq::<Item>::empty());
        reveal_with_fuel(decode_items, 5);
        match decode_items(d, p, stage_items(op, 0, Seq::empty()), Seq::empty()) {
            Some((o0, p0)) => {
                assert(stage_items(op, 1, o0) =~= Seq::<Item>::empty());
                assert(stage_items(op, 2, o0) =~= Seq::<Item>::empty());
            },
            None => {},
        }
    }
}

/// Instructions 0x5D, 0xEB have four operands taking 16 bytes in all.
pub proof fn lemma_operands_4_in_16_bytes(d: Seq<u8>, p: int, op: u8)
    requires
        op == 0x5D || op == 0xEB,
    ensures
        decode_operands(d, p, op) matches Some((ops, q)) ==> q == p + 16 && ops.len() == 4,
{
    if op == 0x5D {
        assert(stage_items(op, 0, Seq::empty()) =~= seq![Item::Float, Item::Float, Item::Float, Item::Float]);
        assert(seq![Item::Float, Item::Float, Item::Float, Item::Float].drop_first() =~= seq![Item::Float, Item::Float, Item::Float]);
        assert(seq![Item::Float, Item::Float, Item::Float].drop_first() =~= seq![Item::Float, Item::Float]);
        assert(seq![Item::Float, Item::Float].drop_first() =~= seq![Item::Float]);
        assert(seq![Item::Float].drop_first() =~= Seq::<Item>::empty());
        reveal_with_fuel(decode_items, 5);
        match decode_items(d, p, stage_items(op, 0, Seq::empty()), Seq::empty()) {
            Some((o0, p0)) => {
                assert(stage_items(op, 1, o0) =~= Seq::<Item>::empty());
                assert(stage_items(op, 2, o0) =~= Seq::<Item>::empty());
            },
            None => {},
        }
    } else if op == 0xEB {
        assert(stage_items(op, 0, Seq::empty()) =~= seq![Item::Float, Item::Float, Item::Float, Item::Float]);
        assert(seq![Item::Float, Item::Float, Item::Float, Item::Float].drop_first() =~= seq![Item::Float, Item::Float, Item::Float]);
        assert(seq![Item::Float, Item::Float, Item::Float].drop_first() =~= seq![Item::Float, Item::Float]);
        assert(seq![Item::Float, Item::Float].drop_first() =~= seq![Item::Float]);
        assert(seq![Item::Float].drop_first() =~= Seq::<Item>::empty());
        reveal_with_fuel(decode_items, 5);
        match decode_items(d, p, stage_items(op, 0, Seq::empty()), Seq::empty()) {
            Some((o0, p0)) => {
                assert(stage_items(op, 1, o0) =~= Seq::<Item>::empty());
                assert(stage_items(op, 2, o0) =~= Seq::<Item>::empty());
            },
            None => {},
        }
    }
}

/// Instruction 0xE2 has five operands taking 20 bytes in all.
pub proof fn lemma_operands_5_in_20_bytes(d: Seq<u8>, p: int, op: u8)
    requires
        op == 0xE2,
    ensures
        decode_operands(d, p, op) matches Some((ops, q)) ==> q == p + 20 && ops.len() == 5,
{
    if op == 0xE2 {
        assert(stage_items(op, 0, Seq::empty()) =~= seq![Item::Float, Item::Float, Item::Float, Item::Float, Item::Float]);
        assert(seq![Item::Float, Item::Float, Item::Float, Item::Float, Item::Float].drop_first() =~= seq![Item::Float, Item::Float, Item::Float, Item::Float]);
        assert(seq![Item::Float, Item::Float, Item::Float, Item::Float].drop_first() =~= seq![Item::Float, Item::Float, Item::Float]);
        assert(seq![Item::Float, Item::Float, Item::Float].drop_first() =~= seq![Item::Float, Item::Float]);
        assert(seq![Item::Float, Item::Float].drop_first() =~= seq![Item::Float]);
        assert(seq![Item::Float].drop_first() =~= Seq::<Item>::empty());
        reveal_with_fuel(decode_items, 6);
        match decode_items(d, p, stage_items(op, 0, Seq::empty()), Seq::empty()) {
            Some((o0, p0)) => {
                assert(stage_items(op, 1, o0) =~= Seq::<Item>::empty());
                assert(stage_items(op, 2, o0) =~= Seq::<Item>::empty());
            },
            None => {},
        }
    }
}

/// Instruction 0xEF has six operands taking 24 bytes in all.
pub proof fn lemma_operands_6_in_24_bytes(d: Seq<u8>, p: int, op: u8)
    requires
        op == 0xEF,
    ensures
        decode_operands(d, p, op) matches Some((ops, q)) ==> q == p + 24 && ops.len() == 6,
{
    if op == 0xEF {
        assert(stage_items(op, 0, Seq::empty()) =~= seq![Item::Float, Item::Float, Item::Float, Item::Float, Item::Float, Item::Float]);
        assert(seq![Item::Float, Item::Float, Item::Float, Item::Float, Item::Float, Item::Float].drop_first() =~= seq![Item::Float, Item::Float, Item::Float, Item::Float, Item::Float]);
        assert(seq![Item::Float, Item::Float, Item::Float, Item::Float, Item::Float].drop_first() =~= seq![Item::Float, Item::Float, Item::Float, Item::Float]);
        assert(seq![Item::Float, Item::Float, Item::Float, Item::Float].drop_first() =~= seq![Item::Float, Item::Float, Item::Float]);
        assert(seq![Item::Float, Item::Float, Item::Float].drop_first() =~= seq![Item::Float, Item::Float]);
        assert(seq![Item::Float, Item::Float].drop_first() =~= seq![Item::Float]);
        assert(seq![Item::Float].drop_first() =~= Seq::<Item>::empty());
        reveal_with_fuel(decode_items, 7);
        match decode_items(d, p, stage_items(op, 0, Seq::empty()), Seq::empty()) {
            Some((o0, p0)) => {
                assert(stage_items(op, 1, o0) =~= Seq::<Item>::empty());
                assert(stage_items(op, 2, o0) =~= Seq::<Item>::empty());
            },
            None => {},
        }
    }
}

/// Instruction 0x8B has seven operands taking 25 bytes in all.
#[verifier::rlimit(60)]
pub proof fn lemma_operands_7_in_25_bytes(d: Seq<u8>, p: int, op: u8)
    requires
        op == 0x8B,
    ensures
        decode_operands(d, p, op) matches Some((ops, q)) ==> q == p + 25 && ops.len() == 7,
{
    if op == 0x8B {
        assert(stage_items(op, 0, Seq::empty()) =~= seq![Item::Byte, Item::Float, Item::Float, Item::Float, Item::Float, Item::Float, Item::Float]);
        assert(seq![Item::Byte, Item::Float, Item::Float, Item::Float, Item::Float, Item::Float, Item::Float].drop_first() =~= seq![Item::Float, Item::Float, Item::Float, Item::Float, Item::Float, Item::Float]);
        assert(seq![Item::Float, Item::Float, Item::Float, Item::Float, Item::Float, Item::Float].drop_first() =~= seq![Item::Float, Item::Float, Item::Float, Item::Float, Item::Float]);
        assert(seq![Item::Float, Item::Float, Item::Float, Item::Float, Item::Float].drop_first() =~= seq![Item::Float, Item::Float, Item::Float, Item::Float]);
        assert(seq![Item::Float, Item::Float, Item::Float, Item::Float].drop_first() =~= seq![Item::Float, Item::Float, Item::Float]);
        assert(seq![Item::Float, Item::Float, Item::Float].drop_first() =~= seq![Item::Float, Item::Float]);
        assert(seq![Item::Float, Item::Float].drop_first() =~= seq![Item::Float]);
        assert(seq![Item::Float].drop_first() =~= Seq::<Item>::empty());
        reveal_with_fuel(decode_items, 8);
        match decode_items(d, p, stage_items(op, 0, Seq::empty()), Seq::empty()) {
            Some((o0, p0)) => {
                assert(stage_items(op, 1, o0) =~= Seq::<Item>::empty());
                assert(stage_items(op, 2, o0) =~= Seq::<Item>::empty());
            },
            None => {},
        }
    }
}

/// Instruction 0x88 has ten operands taking 34 bytes in all.
#[verifier::rlimit(60)]
pub proof fn lemma_operands_10_in_34_bytes(d: Seq<u8>, p: int, op: u8)
    requires
        op == 0x88,
    ensures
        decode_operands(d, p, op) matches Some((ops, q)) ==> q == p + 34 && ops.len() == 10,
{
    if op == 0x88 {
        assert(stage_items(op, 0, Seq::empty()) =~= seq![Item::Byte, Item::Float, Item::Float, Item::Float, Item::Float, Item::Byte, Item::Float, Item::Float, Item::Float, Item::Float]);
        assert(seq![Item::Byte, Item::Float, Item::Float, Item::Float, Item::Float, Item::Byte, Item::Float, Item::Float, Item::Float, Item::Float].drop_first() =~= seq![Item::Float, Item::Float, Item::Float, Item::Float, Item::Byte, Item::Float, Item::Float, Item::Float, Item::Float]);
        assert(seq![Item::Float, Item::Float, Item::Float, Item::Float, Item::Byte, Item::Float, Item::Float, Item::Float, Item::Float].drop_first() =~= seq![Item::Float, Item::Float, Item::Float, Item::Byte, Item::Float, Item::Float, Item::Float, Item::Float]);
        assert(seq![Item::Float, Item::Float, Item::Float, Item::Byte, Item::Float, Item::Float, Item::Float, Item::Float].drop_first() =~= seq![Item::Float, Item::Float, Item::Byte, Item::Float, Item::Float, Item::Float, Item::Float]);
        assert(seq![Item::Float, Item::Float, Item::Byte, Item::Float, Item::Float, Item::Float, Item::Float].drop_first() =~= seq![Item::Float, Item::Byte, Item::Float, Item::Float, Item::Float, Item::Float]);
        assert(seq![Item::Float, Item::Byte, Item::Float, Item::Float, Item::Float, Item::Float].drop_first() =~= seq![Item::Byte, Item::Float, Item::Float, Item::Float, Item::Float]);
        assert(seq![Item::Byte, Item::Float, Item::Float, Item::Float, Item::Float].drop_first() =~= seq![Item::Float, Item::Float, Item::Float, Item::Float]);
        assert(seq![Item::Float, Item::Float, Item::Float, Item::Float].drop_first() =~= seq![Item::Float, Item::Float, Item::Float]);
        assert(seq![Item::Float, Item::Float, Item::Float].drop_first() =~= seq![Item::Float, Item::Float]);
        assert(seq![Item::Float, Item::Float].drop_first() =~= seq![Item::Float]);
        assert(seq![Item::Float].drop_first() =~= Seq::<Item>::empty());
        reveal_with_fuel(decode_items, 11);
        match decode_items(d, p, stage_items(op, 0, Seq::empty()), Seq::empty()) {
            Some((o0, p0)) => {
                assert(stage_items(op, 1, o0) =~= Seq::<Item>::empty());
                assert(stage_items(op, 2, o0) =~= Seq::<Item>::empty());
            },
            None => {},
        }
    }
}

/// Instruction 0x8A has ten operands taking 37 bytes in all.
#[verifier::rlimit(60)]
pub proof fn lemma_operands_10_in_37_bytes(d: Seq<u8>, p: int, op: u8)
    requires
        op == 0x8A,
    ensures
        decode_operands(d, p, op) matches Some((ops, q)) ==> q == p + 37 && ops.len() == 10,
{
    if op == 0x8A {
        assert(stage_items(op, 0, Seq::empty()) =~= seq![Item::Byte, Item::Float, Item::Float, Item::Float, Item::Float, Item::Float, Item::Float, Item::Float, Item::Float, Item::Float]);
        assert(seq![Item::Byte, Item::Float, Item::Float, Item::Float, Item::Float, Item::Float, Item::Float, Item::Float, Item::Float, Item::Float].drop_first() =~= seq![Item::Float, Item::Float, Item::Float, Item::Float, Item::Float, Item::Float, Item::Float, Item::Float, Item::Float]);
        assert(seq![Item::Float, Item::Float, Item::Float, Item::Float, Item::Float, Item::Float, Item::Float, Item::Float, Item::Float].drop_first() =~= seq![Item::Float, Item::Float, Item::Float, Item::Float, Item::Float, Item::Float, Item::Float, Item::Float]);
        assert(seq![Item::Float, Item::Float, Item::Float, Item::Float, Item::Float, Item::Float, Item::Float, Item::Float].drop_first() =~= seq![Item::Float, Item::Float, Item::Float, Item::Float, Item::Float, Item::Float, Item::Float]);
        assert(seq![Item::Float, Item::Float, Item::Float, Item::Float, Item::Float, Item::Float, Item::Float].drop_first() =~= seq![Item::Float, Item::Float, Item::Float, Item::Float, Item::Float, Item::Float]);
        assert(seq![Item::Float, Item::Float, Item::Float, Item::Float, Item::Float, Item::Float].drop_first() =~= seq![Item::Float, Item::Float, Item::Float, Item::Float, Item::Float]);
        assert(seq![Item::Float, Item::Float, Item::Float, Item::Float, Item::Float].drop_first() =~= seq![Item::Float, Item::Float, Item::Float, Item::Float]);
        assert(seq![Item::Float, Item::Float, Item::Float, Item::Float].drop_first() =~= seq![Item::Float, Item::Float, Item::Float]);
        assert(seq![Item::Float, Item::Float, Item::Float].drop_first() =~= seq![Item::Float, Item::Float]);
        assert(seq![Item::Float, Item::Float].drop_first() =~= seq![Item::Float]);
        assert(seq![Item::Float].drop_first() =~= Seq::<Item>::empty());
        reveal_with_fuel(decode_items, 11);
        match decode_items(d, p, stage_items(op, 0, Seq::empty()), Seq::empty()) {
            Some((o0, p0)) => {
                assert(stage_items(op, 1, o0) =~= Seq::<Item>::empty());
                assert(stage_items(op, 2, o0) =~= Seq::<Item>::empty());
            },
            None => {},
        }
    }
}

} // verus!
