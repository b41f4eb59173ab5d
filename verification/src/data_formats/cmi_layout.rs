//! The operand layout of every instruction of the script bytecode.

use vstd::prelude::*;

use crate::data_formats::cmi_operands::{Item, Operand, OperandV, operands_view};
use vstd::string::StringSliceAdditionalSpecFns;

verus! {

/// The operands that begin the instruction `op`.
pub open spec fn first_items(op: u8) -> Seq<Item> {
    if op < 0x80 {
        first_items_low(op)
    } else {
        first_items_high(op)
    }
}

pub open spec fn first_items_low(op: u8) -> Seq<Item> {
    match op {
        0x01 | 0x06 | 0x09 | 0x0F | 0x13 | 0x14 | 0x3C | 0x4B | 0x65 | 0x6E | 0x7D | 0x7E => Seq::empty(),
        0x02 => seq![Item::Path, Item::Byte, Item::Byte, Item::Half, Item::Byte],
        0x03 | 0x3B => seq![Item::Anim],
        0x04 | 0x0B | 0x17 | 0x23 | 0x24 | 0x29 | 0x3D | 0x3F | 0x49 | 0x55 | 0x58 | 0x59 | 0x61 | 0x6D => seq![Item::Byte],
        0x05 | 0x68 | 0x6A | 0x78 | 0x7C => seq![Item::Float],
        0x08 => seq![Item::Angle],
        0x0A => seq![Item::Text, Item::Byte, Item::Branch],
        0x0C => seq![Item::BlockList],
        0x0D | 0x11 | 0x16 | 0x1B | 0x22 | 0x25 | 0x2C | 0x2E | 0x66 | 0x6C | 0x72 | 0x7B => seq![Item::Branch],
        0x0E | 0x39 => seq![Item::Half, Item::Byte, Item::Branch],
        0x10 => seq![Item::Half],
        0x12 | 0x2F | 0x30 | 0x79 => seq![Item::Float, Item::Branch],
        0x15 | 0x6F => seq![Item::SWord],
        0x18 | 0x4D => seq![Item::Byte, Item::Text],
        0x19 | 0x1A | 0x2A | 0x64 | 0x6B => seq![Item::Text],
        0x1C => seq![Item::Path],
        0x1D => seq![Item::Byte, Item::Text, Item::Ext],
        0x1F | 0x20 => seq![Item::TextList],
        0x21 => seq![Item::WordLess1, Item::Branch],
        0x26 | 0x2D | 0x36 | 0x3E | 0x7F => seq![Item::Compare, Item::Branch],
        0x27 | 0x28 | 0x32 | 0x33 | 0x34 | 0x35 | 0x37 | 0x3A | 0x40 | 0x52 | 0x54 | 0x5B => seq![Item::Var],
        0x2B | 0x7A => seq![Item::Float, Item::Float],
        0x31 => seq![Item::Byte, Item::Branch],
        0x38 => seq![Item::SHalf],
        0x41 | 0x42 => seq![Item::SimpleVar, Item::Float],
        0x43 => seq![Item::SimpleVar, Item::Compare, Item::Branch],
        0x44 | 0x45 | 0x46 => seq![Item::Flag],
        0x47 | 0x48 => seq![Item::Flag, Item::Branch],
        0x4A => seq![Item::Byte, Item::Byte, Item::Text],
        0x4C => seq![Item::Block],
        0x4E | 0x4F | 0x50 => seq![Item::Float, Item::Float, Item::Float],
        0x51 => seq![Item::Byte, Item::Var],
        0x53 => seq![Item::RadiusArg],
        0x56 | 0x71 => seq![Item::Float, Item::Float, Item::Float, Item::Text, Item::Ext],
        0x57 => seq![Item::Half, Item::Half, Item::Byte, Item::Branch],
        0x5A => seq![Item::Text, Item::Float],
        0x5C => seq![Item::Half, Item::Branch],
        0x5D => seq![Item::Float, Item::Float, Item::Float, Item::Float],
        0x5E | 0x5F => seq![Item::WeightedList],
        0x60 => seq![Item::Float, Item::Float, Item::Float, Item::Float, Item::Branch],
        0x62 => seq![Item::Byte, Item::VisFlag],
        0x63 => seq![Item::SSlot, Item::Byte, Item::Block],
        0x67 => seq![Item::Float, Item::Float, Item::Float, Item::Float, Item::Float, Item::Float, Item::Branch],
        0x69 => seq![Item::Float, Item::Float, Item::Float, Item::Float, Item::Float],
        0x70 => seq![Item::Text, Item::Float, Item::Float, Item::Float, Item::Float],
        0x73 => seq![Item::Float, Item::Float, Item::Branch],
        0x74 | 0x75 => seq![Item::Word],
        0x76 => seq![Item::Half, Item::Half],
        0x77 => seq![Item::Text, Item::Compare, Item::Branch],
        _ => Seq::empty(),
    }
}

pub open spec fn first_items_high(op: u8) -> Seq<Item> {
    match op {
        0x82 | 0xCC | 0xD3 | 0xFD => Seq::empty(),
        0x83 | 0x9F | 0xA4 | 0xAC | 0xB2 | 0xB4 | 0xB5 | 0xBD | 0xC1 | 0xCA | 0xCB | 0xCD | 0xE0 | 0xF0 | 0xF2 | 0xF5 | 0xFA | 0xFB => seq![Item::Byte],
        0x87 | 0x99 | 0xA7 | 0xAA | 0xDA => seq![Item::Float],
        0xFC => seq![Item::BlockList],
        0xA5 | 0xA6 | 0xAB | 0xB0 | 0xC5 | 0xD1 | 0xD4 | 0xE1 | 0xE7 => seq![Item::Branch],
        0xE5 => seq![Item::Float, Item::Branch],
        0xBE => seq![Item::Byte, Item::Text],
        0x8F | 0x93 | 0xAD | 0xDF | 0xE4 => seq![Item::Text],
        0x9C => seq![Item::Byte, Item::Text, Item::Ext],
        0xA0 | 0xB9 | 0xBC | 0xD5 | 0xD6 | 0xDE | 0xEA | 0xF1 => seq![Item::Compare, Item::Branch],
        0x86 | 0xA9 | 0xB1 | 0xC4 | 0xC7 | 0xD2 | 0xD7 => seq![Item::Var],
        0xBB | 0xC9 => seq![Item::Float, Item::Float],
        0xDD | 0xE8 | 0xF9 => seq![Item::Byte, Item::Branch],
        0x9A => seq![Item::SHalf],
        0xB6 | 0xD8 => seq![Item::SimpleVar, Item::Float],
        0xB8 | 0xDC => seq![Item::Float, Item::Float, Item::Float],
        0xA1 => seq![Item::Float, Item::Float, Item::Float, Item::Text, Item::Ext],
        0xEB => seq![Item::Float, Item::Float, Item::Float, Item::Float],
        0xC0 | 0xC8 => seq![Item::Float, Item::Float, Item::Float, Item::Float, Item::Branch],
        0xED => seq![Item::Float, Item::Float, Item::Float, Item::Float, Item::Float, Item::Float, Item::Branch],
        0xE2 => seq![Item::Float, Item::Float, Item::Float, Item::Float, Item::Float],
        0xCF | 0xDB => seq![Item::Float, Item::Float, Item::Branch],
        0x98 => seq![Item::Word],
        0x80 => seq![Item::Text, Item::Byte, Item::Byte],
        0x81 => seq![Item::Byte, Item::TextList],
        0x84 | 0xA8 => seq![Item::Byte, Item::Byte],
        0x85 => seq![Item::Text, Item::Byte, Item::Float],
        0x88 => seq![Item::Byte, Item::Float, Item::Float, Item::Float, Item::Float, Item::Byte, Item::Float, Item::Float, Item::Float, Item::Float],
        0x89 => seq![Item::Byte, Item::Float, Item::Float, Item::Float],
        0x8A => seq![Item::Byte, Item::Float, Item::Float, Item::Float, Item::Float, Item::Float, Item::Float, Item::Float, Item::Float, Item::Float],
        0x8B => seq![Item::Byte, Item::Float, Item::Float, Item::Float, Item::Float, Item::Float, Item::Float],
        0x8C => seq![Item::Byte, Item::SHalf],
        0x8D => seq![Item::Byte, Item::Byte, Item::Byte, Item::Byte, Item::Byte, Item::Float],
        0x8E => seq![Item::Byte, Item::Text, Item::Byte, Item::Byte, Item::Float],
        0x90 => seq![Item::Text, Item::Float, Item::Float, Item::Float, Item::Float, Item::Float, Item::Float, Item::Byte, Item::Byte, Item::Float],
        0x91 | 0x94 => seq![Item::Text, Item::Float, Item::Float],
        0x92 => seq![Item::Byte, Item::Text, Item::Float, Item::Float, Item::Float, Item::Float, Item::Float, Item::Float],
        0x95 => seq![Item::Float, Item::Float, Item::Float, Item::Float, Item::SWord, Item::Text, Item::Text, Item::Ext],
        0x96 => seq![Item::Anim, Item::Anim],
        0x97 => seq![Item::Text, Item::Text, Item::Text, Item::Text],
        0x9B => seq![Item::Var, Item::Branch],
        0x9D => seq![Item::Text, Item::Word, Item::Float],
        0x9E => seq![Item::Byte, Item::Half, Item::Byte, Item::Byte, Item::Byte, Item::Byte],
        0xA2 => seq![Item::Slot, Item::SHalf],
        0xA3 => seq![Item::Slot, Item::Compare, Item::Branch],
        0xAE | 0xAF | 0xBF | 0xEE => seq![Item::Byte, Item::Compare, Item::Branch],
        0xB3 => seq![Item::Text, Item::Ext],
        0xB7 => seq![Item::SimpleVar, Item::BlockList],
        0xBA | 0xF4 | 0xF6 => seq![Item::Byte, Item::Float],
        0xC2 => seq![Item::VisFlag, Item::Byte, Item::Byte, Item::Byte, Item::Byte],
        0xC3 => seq![Item::SByte, Item::Branch],
        0xC6 => seq![Item::Text, Item::Byte, Item::Word, Item::Word],
        0xCE => seq![Item::Path, Item::Float, Item::Text, Item::Ext],
        0xD0 | 0xE9 => seq![Item::Text, Item::Branch],
        0xD9 => seq![Item::Byte, Item::Word],
        0xE6 => seq![Item::Float, Item::Float, Item::Float, Item::Float, Item::SWord, Item::Text, Item::Ext],
        0xEC => seq![Item::Float, Item::Float, Item::Float, Item::Branch],
        0xEF => seq![Item::Float, Item::Float, Item::Float, Item::Float, Item::Float, Item::Float],
        0xF3 => seq![Item::Byte, Item::SHalf, Item::Branch],
        0xF7 => seq![Item::Byte, Item::Text, Item::Float],
        0xF8 => seq![Item::Byte, Item::Float, Item::Float],
        _ => Seq::empty(),
    }
}

/// The byte value of operand `i`, if it is a byte.
pub open spec fn byte_at(ops: Seq<OperandV>, i: int) -> Option<u8> {
    if 0 <= i < ops.len() {
        match ops[i] {
            OperandV::Byte(v) => Some(v),
            _ => None,
        }
    } else {
        None
    }
}

pub open spec fn last_byte(ops: Seq<OperandV>) -> Option<u8> {
    byte_at(ops, ops.len() - 1)
}

/// Whether operand `i` is an empty string.
pub open spec fn empty_text_at(ops: Seq<OperandV>, i: int) -> bool {
    &&& 0 <= i < ops.len()
    &&& ops[i] matches OperandV::Text(t) && t.len() == 0
}

/// The operands that follow, once the first ones `ops` are known.
pub open spec fn more_items(op: u8, ops: Seq<OperandV>) -> Seq<Item> {
    match op {
        0x02 => if byte_at(ops, 4) == Some(0u8) {
            seq![Item::Float, Item::Float, Item::Float]
        } else {
            Seq::empty()
        },
        0x04 => if byte_at(ops, 0) == Some(7u8) {
            seq![Item::OrderJump, Item::Ext, Item::Byte]
        } else if byte_at(ops, 0) == Some(0x2Bu8) {
            seq![Item::Float, Item::Float, Item::Byte]
        } else {
            seq![Item::Byte]
        },
        0x2A => if empty_text_at(ops, 0) {
            seq![Item::Text, Item::Branch]
        } else {
            seq![Item::Branch]
        },
        0x3D => if byte_at(ops, 0) == Some(0u8) {
            seq![Item::Byte, Item::Text, Item::Ext]
        } else {
            seq![Item::Text, Item::Text, Item::Ext]
        },
        0x59 => match byte_at(ops, 0) {
            Some(t) => if t & 0x10u8 != 0 {
                seq![Item::Float, Item::Float, Item::Float, Item::Text]
            } else if t & 0x20u8 != 0 {
                seq![Item::Byte, Item::Text]
            } else if t & 0x40u8 != 0 {
                seq![Item::Float, Item::Float, Item::Float, Item::Text]
            } else {
                seq![Item::Text]
            },
            None => Seq::empty(),
        },
        0x84 => if byte_at(ops, 1) == Some(0xFFu8) {
            seq![Item::Float, Item::Float, Item::Float]
        } else {
            Seq::empty()
        },
        0x9E => match byte_at(ops, 2) {
            Some(v) => if v & 2u8 != 0 {
                seq![Item::Block]
            } else {
                Seq::empty()
            },
            None => Seq::empty(),
        },
        0x9F => if byte_at(ops, 0) == Some(1u8) || byte_at(ops, 0) == Some(2u8) {
            seq![Item::Float, Item::Float, Item::Float, Item::Float, Item::Float, Item::Float, Item::Text, Item::Ext]
        } else {
            seq![Item::Float, Item::Float, Item::Float, Item::Text, Item::Ext]
        },
        0xA4 => if byte_at(ops, 0) == Some(0u8) {
            Seq::empty()
        } else {
            seq![Item::Float, Item::Float, Item::Float, Item::Float]
        },
        0xAC => if byte_at(ops, 0) == Some(3u8) {
            seq![Item::Byte, Item::Float]
        } else {
            seq![Item::Float, Item::Float, Item::Float, Item::Float]
        },
        0xAD => if empty_text_at(ops, 0) {
            seq![Item::Text, Item::Float, Item::Float, Item::Float, Item::Float]
        } else {
            Seq::empty()
        },
        0xB2 => if byte_at(ops, 0) == Some(3u8) {
            seq![Item::Byte, Item::Float, Item::Float, Item::Float, Item::Byte]
        } else {
            seq![Item::Float, Item::Float, Item::Float, Item::Float, Item::Float, Item::Float, Item::Byte]
        },
        0xB4 => if byte_at(ops, 0) == Some(0u8) {
            Seq::empty()
        } else {
            seq![Item::Float, Item::Float, Item::Float]
        },
        0xB5 => if byte_at(ops, 0) == Some(1u8) {
            seq![Item::Byte, Item::Float, Item::Float, Item::SWord]
        } else if byte_at(ops, 0) == Some(0u8) {
            seq![Item::Slot, Item::Word]
        } else {
            Seq::empty()
        },
        0xBD => if byte_at(ops, 0) == Some(0u8) {
            seq![Item::Float, Item::Float]
        } else if byte_at(ops, 0) == Some(1u8) {
            seq![Item::Float]
        } else {
            Seq::empty()
        },
        0xC1 => if byte_at(ops, 0) == Some(3u8) {
            seq![Item::Text]
        } else {
            Seq::empty()
        },
        0xCB => if byte_at(ops, 0) == Some(1u8) {
            seq![Item::Float]
        } else {
            Seq::empty()
        },
        0xE0 => if byte_at(ops, 0) == Some(0u8) {
            Seq::empty()
        } else {
            seq![Item::Float, Item::Float]
        },
        0xF2 => if byte_at(ops, 0) == Some(0u8) {
            Seq::empty()
        } else {
            seq![Item::Float, Item::Float, Item::Float, Item::Float, Item::Float, Item::Float, Item::Float, Item::Float, Item::Float, Item::Float, Item::Float, Item::Float]
        },
        0xF5 => if byte_at(ops, 0) == Some(0u8) {
            seq![Item::Byte, Item::Byte, Item::FixedText(2)]
        } else {
            seq![Item::FixedText(0)]
        },
        0xF8 => if byte_at(ops, 0) == Some(0u8) {
            seq![Item::Float]
        } else {
            Seq::empty()
        },
        0xF9 => if byte_at(ops, 0) == Some(1u8) {
            seq![Item::Text]
        } else {
            Seq::empty()
        },
        0xFA => if byte_at(ops, 0) == Some(0xFFu8) {
            seq![Item::Text, Item::Byte]
        } else {
            seq![Item::Byte]
        },
        _ => Seq::empty(),
    }
}

/// The last operands, once `ops` are known (for the two instructions that need a third step).
pub open spec fn last_items(op: u8, ops: Seq<OperandV>) -> Seq<Item> {
    match op {
        0x04 => {
            let t = last_byte(ops);
            if t == Some(6u8) || t == Some(10u8) {
                seq![Item::Float, Item::Text]
            } else if t == Some(2u8) || t == Some(4u8) || t == Some(7u8) {
                seq![Item::Text]
            } else if t == Some(5u8) {
                seq![Item::Text, Item::Word]
            } else {
                Seq::empty()
            }
        },
        0xFA => if last_byte(ops) == Some(2u8) {
            seq![Item::Float, Item::Float, Item::Float, Item::Float, Item::Branch]
        } else {
            seq![Item::Float, Item::Float, Item::Float, Item::Float, Item::Float, Item::Float, Item::Branch]
        },
        _ => Seq::empty(),
    }
}

/// The operand kinds of step `stage` (0, 1 or 2) of instruction `op`.
pub open spec fn stage_items(op: u8, stage: int, ops: Seq<OperandV>) -> Seq<Item> {
    if stage == 0 {
        first_items(op)
    } else if stage == 1 {
        more_items(op, ops)
    } else {
        last_items(op, ops)
    }
}

fn first_items_low_of(op: u8) -> (r: Vec<Item>)
    requires
        op < 0x80,
    ensures
        r@ == first_items_low(op),
{
    match op {
        0x01 | 0x06 | 0x09 | 0x0F | 0x13 | 0x14 | 0x3C | 0x4B | 0x65 | 0x6E | 0x7D | 0x7E => Vec::new(),
        0x02 => vec![Item::Path, Item::Byte, Item::Byte, Item::Half, Item::Byte],
        0x03 | 0x3B => vec![Item::Anim],
        0x04 | 0x0B | 0x17 | 0x23 | 0x24 | 0x29 | 0x3D | 0x3F | 0x49 | 0x55 | 0x58 | 0x59 | 0x61 | 0x6D => vec![Item::Byte],
        0x05 | 0x68 | 0x6A | 0x78 | 0x7C => vec![Item::Float],
        0x08 => vec![Item::Angle],
        0x0A => vec![Item::Text, Item::Byte, Item::Branch],
        0x0C => vec![Item::BlockList],
        0x0D | 0x11 | 0x16 | 0x1B | 0x22 | 0x25 | 0x2C | 0x2E | 0x66 | 0x6C | 0x72 | 0x7B => vec![Item::Branch],
        0x0E | 0x39 => vec![Item::Half, Item::Byte, Item::Branch],
        0x10 => vec![Item::Half],
        0x12 | 0x2F | 0x30 | 0x79 => vec![Item::Float, Item::Branch],
        0x15 | 0x6F => vec![Item::SWord],
        0x18 | 0x4D => vec![Item::Byte, Item::Text],
        0x19 | 0x1A | 0x2A | 0x64 | 0x6B => vec![Item::Text],
        0x1C => vec![Item::Path],
        0x1D => vec![Item::Byte, Item::Text, Item::Ext],
        0x1F | 0x20 => vec![Item::TextList],
        0x21 => vec![Item::WordLess1, Item::Branch],
        0x26 | 0x2D | 0x36 | 0x3E | 0x7F => vec![Item::Compare, Item::Branch],
        0x27 | 0x28 | 0x32 | 0x33 | 0x34 | 0x35 | 0x37 | 0x3A | 0x40 | 0x52 | 0x54 | 0x5B => vec![Item::Var],
        0x2B | 0x7A => vec![Item::Float, Item::Float],
        0x31 => vec![Item::Byte, Item::Branch],
        0x38 => vec![Item::SHalf],
        0x41 | 0x42 => vec![Item::SimpleVar, Item::Float],
        0x43 => vec![Item::SimpleVar, Item::Compare, Item::Branch],
        0x44 | 0x45 | 0x46 => vec![Item::Flag],
        0x47 | 0x48 => vec![Item::Flag, Item::Branch],
        0x4A => vec![Item::Byte, Item::Byte, Item::Text],
        0x4C => vec![Item::Block],
        0x4E | 0x4F | 0x50 => vec![Item::Float, Item::Float, Item::Float],
        0x51 => vec![Item::Byte, Item::Var],
        0x53 => vec![Item::RadiusArg],
        0x56 | 0x71 => vec![Item::Float, Item::Float, Item::Float, Item::Text, Item::Ext],
        0x57 => vec![Item::Half, Item::Half, Item::Byte, Item::Branch],
        0x5A => vec![Item::Text, Item::Float],
        0x5C => vec![Item::Half, Item::Branch],
        0x5D => vec![Item::Float, Item::Float, Item::Float, Item::Float],
        0x5E | 0x5F => vec![Item::WeightedList],
        0x60 => vec![Item::Float, Item::Float, Item::Float, Item::Float, Item::Branch],
        0x62 => vec![Item::Byte, Item::VisFlag],
        0x63 => vec![Item::SSlot, Item::Byte, Item::Block],
        0x67 => vec![Item::Float, Item::Float, Item::Float, Item::Float, Item::Float, Item::Float, Item::Branch],
        0x69 => vec![Item::Float, Item::Float, Item::Float, Item::Float, Item::Float],
        0x70 => vec![Item::Text, Item::Float, Item::Float, Item::Float, Item::Float],
        0x73 => vec![Item::Float, Item::Float, Item::Branch],
        0x74 | 0x75 => vec![Item::Word],
        0x76 => vec![Item::Half, Item::Half],
        0x77 => vec![Item::Text, Item::Compare, Item::Branch],
        _ => Vec::new(),
    }
}

fn first_items_high_of(op: u8) -> (r: Vec<Item>)
    requires
        op >= 0x80,
    ensures
        r@ == first_items_high(op),
{
    match op {
        0x82 | 0xCC | 0xD3 | 0xFD => Vec::new(),
        0x83 | 0x9F | 0xA4 | 0xAC | 0xB2 | 0xB4 | 0xB5 | 0xBD | 0xC1 | 0xCA | 0xCB | 0xCD | 0xE0 | 0xF0 | 0xF2 | 0xF5 | 0xFA | 0xFB => vec![Item::Byte],
        0x87 | 0x99 | 0xA7 | 0xAA | 0xDA => vec![Item::Float],
        0xFC => vec![Item::BlockList],
        0xA5 | 0xA6 | 0xAB | 0xB0 | 0xC5 | 0xD1 | 0xD4 | 0xE1 | 0xE7 => vec![Item::Branch],
        0xE5 => vec![Item::Float, Item::Branch],
        0xBE => vec![Item::Byte, Item::Text],
        0x8F | 0x93 | 0xAD | 0xDF | 0xE4 => vec![Item::Text],
        0x9C => vec![Item::Byte, Item::Text, Item::Ext],
        0xA0 | 0xB9 | 0xBC | 0xD5 | 0xD6 | 0xDE | 0xEA | 0xF1 => vec![Item::Compare, Item::Branch],
        0x86 | 0xA9 | 0xB1 | 0xC4 | 0xC7 | 0xD2 | 0xD7 => vec![Item::Var],
        0xBB | 0xC9 => vec![Item::Float, Item::Float],
        0xDD | 0xE8 | 0xF9 => vec![Item::Byte, Item::Branch],
        0x9A => vec![Item::SHalf],
        0xB6 | 0xD8 => vec![Item::SimpleVar, Item::Float],
        0xB8 | 0xDC => vec![Item::Float, Item::Float, Item::Float],
        0xA1 => vec![Item::Float, Item::Float, Item::Float, Item::Text, Item::Ext],
        0xEB => vec![Item::Float, Item::Float, Item::Float, Item::Float],
        0xC0 | 0xC8 => vec![Item::Float, Item::Float, Item::Float, Item::Float, Item::Branch],
        0xED => vec![Item::Float, Item::Float, Item::Float, Item::Float, Item::Float, Item::Float, Item::Branch],
        0xE2 => vec![Item::Float, Item::Float, Item::Float, Item::Float, Item::Float],
        0xCF | 0xDB => vec![Item::Float, Item::Float, Item::Branch],
        0x98 => vec![Item::Word],
        0x80 => vec![Item::Text, Item::Byte, Item::Byte],
        0x81 => vec![Item::Byte, Item::TextList],
        0x84 | 0xA8 => vec![Item::Byte, Item::Byte],
        0x85 => vec![Item::Text, Item::Byte, Item::Float],
        0x88 => vec![Item::Byte, Item::Float, Item::Float, Item::Float, Item::Float, Item::Byte, Item::Float, Item::Float, Item::Float, Item::Float],
        0x89 => vec![Item::Byte, Item::Float, Item::Float, Item::Float],
        0x8A => vec![Item::Byte, Item::Float, Item::Float, Item::Float, Item::Float, Item::Float, Item::Float, Item::Float, Item::Float, Item::Float],
        0x8B => vec![Item::Byte, Item::Float, Item::Float, Item::Float, Item::Float, Item::Float, Item::Float],
        0x8C => vec![Item::Byte, Item::SHalf],
        0x8D => vec![Item::Byte, Item::Byte, Item::Byte, Item::Byte, Item::Byte, Item::Float],
        0x8E => vec![Item::Byte, Item::Text, Item::Byte, Item::Byte, Item::Float],
        0x90 => vec![Item::Text, Item::Float, Item::Float, Item::Float, Item::Float, Item::Float, Item::Float, Item::Byte, Item::Byte, Item::Float],
        0x91 | 0x94 => vec![Item::Text, Item::Float, Item::Float],
        0x92 => vec![Item::Byte, Item::Text, Item::Float, Item::Float, Item::Float, Item::Float, Item::Float, Item::Float],
        0x95 => vec![Item::Float, Item::Float, Item::Float, Item::Float, Item::SWord, Item::Text, Item::Text, Item::Ext],
        0x96 => vec![Item::Anim, Item::Anim],
        0x97 => vec![Item::Text, Item::Text, Item::Text, Item::Text],
        0x9B => vec![Item::Var, Item::Branch],
        0x9D => vec![Item::Text, Item::Word, Item::Float],
        0x9E => vec![Item::Byte, Item::Half, Item::Byte, Item::Byte, Item::Byte, Item::Byte],
        0xA2 => vec![Item::Slot, Item::SHalf],
        0xA3 => vec![Item::Slot, Item::Compare, Item::Branch],
        0xAE | 0xAF | 0xBF | 0xEE => vec![Item::Byte, Item::Compare, Item::Branch],
        0xB3 => vec![Item::Text, Item::Ext],
        0xB7 => vec![Item::SimpleVar, Item::BlockList],
        0xBA | 0xF4 | 0xF6 => vec![Item::Byte, Item::Float],
        0xC2 => vec![Item::VisFlag, Item::Byte, Item::Byte, Item::Byte, Item::Byte],
        0xC3 => vec![Item::SByte, Item::Branch],
        0xC6 => vec![Item::Text, Item::Byte, Item::Word, Item::Word],
        0xCE => vec![Item::Path, Item::Float, Item::Text, Item::Ext],
        0xD0 | 0xE9 => vec![Item::Text, Item::Branch],
        0xD9 => vec![Item::Byte, Item::Word],
        0xE6 => vec![Item::Float, Item::Float, Item::Float, Item::Float, Item::SWord, Item::Text, Item::Ext],
        0xEC => vec![Item::Float, Item::Float, Item::Float, Item::Branch],
        0xEF => vec![Item::Float, Item::Float, Item::Float, Item::Float, Item::Float, Item::Float],
        0xF3 => vec![Item::Byte, Item::SHalf, Item::Branch],
        0xF7 => vec![Item::Byte, Item::Text, Item::Float],
        0xF8 => vec![Item::Byte, Item::Float, Item::Float],
        _ => Vec::new(),
    }
}

fn byte_op(ops: &Vec<Operand>, i: usize) -> (r: Option<u8>)
    ensures
        r == byte_at(operands_view(ops@), i as int),
{
    if i < ops.len() {
        match &ops[i] {
            Operand::Byte(v) => Some(*v),
            _ => None,
        }
    } else {
        None
    }
}

fn last_byte_op(ops: &Vec<Operand>) -> (r: Option<u8>)
    ensures
        r == last_byte(operands_view(ops@)),
{
    if ops.len() == 0 {
        None
    } else {
        byte_op(ops, ops.len() - 1)
    }
}

fn empty_text_op(ops: &Vec<Operand>, i: usize) -> (r: bool)
    ensures
        r == empty_text_at(operands_view(ops@), i as int),
{
    if i < ops.len() {
        match &ops[i] {
            Operand::Text(s) => s.as_bytes().len() == 0,
            _ => false,
        }
    } else {
        false
    }
}

fn more_items_of(op: u8, ops: &Vec<Operand>) -> (r: Vec<Item>)
    ensures
        r@ == more_items(op, operands_view(ops@)),
{
    match op {
        0x02 => if byte_op(ops, 4) == Some(0u8) {
            vec![Item::Float, Item::Float, Item::Float]
        } else {
            Vec::new()
        },
        0x04 => if byte_op(ops, 0) == Some(7u8) {
            vec![Item::OrderJump, Item::Ext, Item::Byte]
        } else if byte_op(ops, 0) == Some(0x2Bu8) {
            vec![Item::Float, Item::Float, Item::Byte]
        } else {
            vec![Item::Byte]
        },
        0x2A => if empty_text_op(ops, 0) {
            vec![Item::Text, Item::Branch]
        } else {
            vec![Item::Branch]
        },
        0x3D => if byte_op(ops, 0) == Some(0u8) {
            vec![Item::Byte, Item::Text, Item::Ext]
        } else {
            vec![Item::Text, Item::Text, Item::Ext]
        },
        0x59 => match byte_op(ops, 0) {
            Some(t) => if t & 0x10u8 != 0 {
                vec![Item::Float, Item::Float, Item::Float, Item::Text]
            } else if t & 0x20u8 != 0 {
                vec![Item::Byte, Item::Text]
            } else if t & 0x40u8 != 0 {
                vec![Item::Float, Item::Float, Item::Float, Item::Text]
            } else {
                vec![Item::Text]
            },
            None => Vec::new(),
        },
        0x84 => if byte_op(ops, 1) == Some(0xFFu8) {
            vec![Item::Float, Item::Float, Item::Float]
        } else {
            Vec::new()
        },
        0x9E => match byte_op(ops, 2) {
            Some(v) => if v & 2u8 != 0 {
                vec![Item::Block]
            } else {
                Vec::new()
            },
            None => Vec::new(),
        },
        0x9F => if byte_op(ops, 0) == Some(1u8) || byte_op(ops, 0) == Some(2u8) {
            vec![Item::Float, Item::Float, Item::Float, Item::Float, Item::Float, Item::Float, Item::Text, Item::Ext]
        } else {
            vec![Item::Float, Item::Float, Item::Float, Item::Text, Item::Ext]
        },
        0xA4 => if byte_op(ops, 0) == Some(0u8) {
            Vec::new()
        } else {
            vec![Item::Float, Item::Float, Item::Float, Item::Float]
        },
        0xAC => if byte_op(ops, 0) == Some(3u8) {
            vec![Item::Byte, Item::Float]
        } else {
            vec![Item::Float, Item::Float, Item::Float, Item::Float]
        },
        0xAD => if empty_text_op(ops, 0) {
            vec![Item::Text, Item::Float, Item::Float, Item::Float, Item::Float]
        } else {
            Vec::new()
        },
        0xB2 => if byte_op(ops, 0) == Some(3u8) {
            vec![Item::Byte, Item::Float, Item::Float, Item::Float, Item::Byte]
        } else {
            vec![Item::Float, Item::Float, Item::Float, Item::Float, Item::Float, Item::Float, Item::Byte]
        },
        0xB4 => if byte_op(ops, 0) == Some(0u8) {
            Vec::new()
        } else {
            vec![Item::Float, Item::Float, Item::Float]
        },
        0xB5 => if byte_op(ops, 0) == Some(1u8) {
            vec![Item::Byte, Item::Float, Item::Float, Item::SWord]
        } else if byte_op(ops, 0) == Some(0u8) {
            vec![Item::Slot, Item::Word]
        } else {
            Vec::new()
        },
        0xBD => if byte_op(ops, 0) == Some(0u8) {
            vec![Item::Float, Item::Float]
        } else if byte_op(ops, 0) == Some(1u8) {
            vec![Item::Float]
        } else {
            Vec::new()
        },
        0xC1 => if byte_op(ops, 0) == Some(3u8) {
            vec![Item::Text]
        } else {
            Vec::new()
        },
        0xCB => if byte_op(ops, 0) == Some(1u8) {
            vec![Item::Float]
        } else {
            Vec::new()
        },
        0xE0 => if byte_op(ops, 0) == Some(0u8) {
            Vec::new()
        } else {
            vec![Item::Float, Item::Float]
        },
        0xF2 => if byte_op(ops, 0) == Some(0u8) {
            Vec::new()
        } else {
            vec![Item::Float, Item::Float, Item::Float, Item::Float, Item::Float, Item::Float, Item::Float, Item::Float, Item::Float, Item::Float, Item::Float, Item::Float]
        },
        0xF5 => if byte_op(ops, 0) == Some(0u8) {
            vec![Item::Byte, Item::Byte, Item::FixedText(2)]
        } else {
            vec![Item::FixedText(0)]
        },
        0xF8 => if byte_op(ops, 0) == Some(0u8) {
            vec![Item::Float]
        } else {
            Vec::new()
        },
        0xF9 => if byte_op(ops, 0) == Some(1u8) {
            vec![Item::Text]
        } else {
            Vec::new()
        },
        0xFA => if byte_op(ops, 0) == Some(0xFFu8) {
            vec![Item::Text, Item::Byte]
        } else {
            vec![Item::Byte]
        },
        _ => Vec::new(),
    }
}

fn last_items_of(op: u8, ops: &Vec<Operand>) -> (r: Vec<Item>)
    ensures
        r@ == last_items(op, operands_view(ops@)),
{
    match op {
        0x04 => {
            let t = last_byte_op(ops);
            if t == Some(6u8) || t == Some(10u8) {
                vec![Item::Float, Item::Text]
            } else if t == Some(2u8) || t == Some(4u8) || t == Some(7u8) {
                vec![Item::Text]
            } else if t == Some(5u8) {
                vec![Item::Text, Item::Word]
            } else {
                Vec::new()
            }
        },
        0xFA => if last_byte_op(ops) == Some(2u8) {
            vec![Item::Float, Item::Float, Item::Float, Item::Float, Item::Branch]
        } else {
            vec![Item::Float, Item::Float, Item::Float, Item::Float, Item::Float, Item::Float, Item::Branch]
        },
        _ => Vec::new(),
    }
}

/// The operand kinds of step `stage` of instruction `op`, after the operands `ops`.
pub fn stage_items_of(op: u8, stage: u8, ops: &Vec<Operand>) -> (r: Vec<Item>)
    ensures
        r@ == stage_items(op, stage as int, operands_view(ops@)),
{
    if stage == 0 {
        if op < 0x80 {
            first_items_low_of(op)
        } else {
            first_items_high_of(op)
        }
    } else if stage == 1 {
        more_items_of(op, ops)
    } else {
        last_items_of(op, ops)
    }
}

} // verus!
