//! Names used when a script is listed as text: variable targets, triangle
//! visibility codes, door flags, and the labels of blocks and branches.

use vstd::prelude::*;
use vstd::string::*;

use crate::numfmt::{dec, digits, hex, pad_left};
use crate::text::push_char;

verus! {

/// The name of the owner of a variable.
pub open spec fn var_target_text(index: u8) -> Seq<char> {
    match index {
        0 => "Global"@,
        1 => "Arena"@,
        2 => "Entity"@,
        3 => "Direct"@,
        4 => "SomeDynamicThing"@,
        5 => "Door"@,
        _ => "(Unknown "@ + digits(index as nat, 10) + ")"@,
    }
}

/// The name of the owner of a variable.
pub fn var_target(index: u8) -> (s: String)
    ensures
        s@ == var_target_text(index),
{
    match index {
        0 => String::from_str("Global"),
        1 => String::from_str("Arena"),
        2 => String::from_str("Entity"),
        3 => String::from_str("Direct"),
        4 => String::from_str("SomeDynamicThing"),
        5 => String::from_str("Door"),
        _ => {
            let mut s = String::from_str("(Unknown ");
            let n = dec(index as u64);
            s.append(n.as_str());
            s.append(")");
            s
        },
    }
}

/// The name of a triangle visibility code.
pub open spec fn visflag_text(flag: u8) -> Seq<char> {
    match flag {
        0 => "HIDE_AND_NOCLIP"@,
        1 => "SHOW_AND_COLLIDE"@,
        2 => "HIDE"@,
        3 => "SHOW"@,
        4 => "NOCLIP"@,
        _ => "COlLIDE"@,
    }
}

/// The name of a triangle visibility code; codes run from 0 to 5.
pub fn tri_visflag(flag: u8) -> (s: &'static str)
    requires
        flag < 6,
    ensures
        s@ == visflag_text(flag),
{
    match flag {
        0 => "HIDE_AND_NOCLIP",
        1 => "SHOW_AND_COLLIDE",
        2 => "HIDE",
        3 => "SHOW",
        4 => "NOCLIP",
        _ => "COlLIDE",
    }
}

/// The named bits of a door's flags.
pub open spec fn door_flags() -> Seq<(u32, Seq<char>)> {
    seq![
        (0x1u32, "OPEN"@),
        (0x2u32, "OPENING"@),
        (0x4u32, "CLOSING"@),
        (0x8u32, "CLOSED"@),
        (0x10u32, "HIDE_WHEN_OPEN"@),
        (0x20u32, "STAY_OPEN"@),
        (0x40u32, "LOCKED"@),
        (0x80u32, "JUST_NUKED"@),
        (0x100u32, "HIDE_LOCK"@),
    ]
}

pub open spec fn names_view(names: Seq<(u32, &str)>) -> Seq<(u32, Seq<char>)> {
    names.map_values(|p: (u32, &str)| (p.0, p.1@))
}

/// The named bits of a door's flags.
pub fn door_flag_names() -> (r: Vec<(u32, &'static str)>)
    ensures
        names_view(r@) == door_flags(),
{
    let r = vec![
        (0x1u32, "OPEN"),
        (0x2u32, "OPENING"),
        (0x4u32, "CLOSING"),
        (0x8u32, "CLOSED"),
        (0x10u32, "HIDE_WHEN_OPEN"),
        (0x20u32, "STAY_OPEN"),
        (0x40u32, "LOCKED"),
        (0x80u32, "JUST_NUKED"),
        (0x100u32, "HIDE_LOCK"),
    ];
    assert(names_view(r@) =~= door_flags());
    r
}

/// The names whose bits are all set in `value`, in order.
pub open spec fn flag_words(names: Seq<(u32, Seq<char>)>, value: u32) -> Seq<Seq<char>> {
    names.filter_map(|p: (u32, Seq<char>)| if value & p.0 == p.0 { Some(p.1) } else { None })
}

/// The bits of `value` that no matching name covers.
pub open spec fn flag_rest(names: Seq<(u32, Seq<char>)>, value: u32) -> u32 {
    names.fold_left(value, |r: u32, p: (u32, Seq<char>)| if value & p.0 == p.0 { r & !p.0 } else { r })
}

/// Words joined by `|`.
pub open spec fn join_bar(ws: Seq<Seq<char>>) -> Seq<char>
    decreases ws.len(),
{
    if ws.len() == 0 {
        Seq::empty()
    } else if ws.len() == 1 {
        ws[0]
    } else {
        join_bar(ws.drop_last()) + seq!['|'] + ws.last()
    }
}

/// The text of a flag value: the names of its set flags and, in hexadecimal,
/// any bits left over, joined by `|`, then the whole value in hexadecimal.
pub open spec fn flag_names_text(names: Seq<(u32, Seq<char>)>, value: u32) -> Seq<char> {
    let ws = flag_words(names, value);
    let rest = flag_rest(names, value);
    let parts = if rest != 0 {
        ws.push("0x"@ + digits(rest as nat, 16))
    } else {
        ws
    };
    join_bar(parts) + " (0x"@ + digits(value as nat, 16) + ")"@
}

proof fn lemma_join_bar_push(ws: Seq<Seq<char>>, w: Seq<char>)
    ensures
        join_bar(ws.push(w)) == if ws.len() == 0 {
            w
        } else {
            join_bar(ws) + seq!['|'] + w
        },
{
    assert(ws.push(w).drop_last() =~= ws);
    if ws.len() == 0 {
        assert(ws.push(w)[0] == w);
    }
}

/// Appends `w`, preceded by `|` unless it is the first word.
fn push_word(s: &mut String, w: &str, first: bool)
    ensures
        final(s)@ == if first {
            old(s)@ + w@
        } else {
            old(s)@ + seq!['|'] + w@
        },
{
    if !first {
        push_char(s, '|');
    }
    s.append(w);
}

/// The text of a flag value, naming the bits listed in `names`.
pub fn flag_names(names: &[(u32, &str)], value: u32) -> (s: String)
    ensures
        s@ == flag_names_text(names_view(names@), value),
{
    let ghost nv = names_view(names@);
    let ghost fw = |p: (u32, Seq<char>)| if value & p.0 == p.0 { Some(p.1) } else { None };
    let ghost fr = |r: u32, p: (u32, Seq<char>)| if value & p.0 == p.0 { r & !p.0 } else { r };
    let mut s = String::new();
    let mut first = true;
    let mut rest = value;
    let mut k: usize = 0;
    assert(nv.take(0) =~= Seq::<(u32, Seq<char>)>::empty());
    while k < names.len()
        invariant
            0 <= k <= names@.len(),
            nv == names_view(names@),
            fw == (|p: (u32, Seq<char>)| if value & p.0 == p.0 { Some(p.1) } else { None }),
            fr == (|r: u32, p: (u32, Seq<char>)| if value & p.0 == p.0 { r & !p.0 } else { r }),
            s@ == join_bar(nv.take(k as int).filter_map(fw)),
            first == (nv.take(k as int).filter_map(fw).len() == 0),
            rest == nv.take(k as int).fold_left(value, fr),
        decreases names@.len() - k,
    {
        let (mask, name) = names[k];
        let ghost ws = nv.take(k as int).filter_map(fw);
        proof {
            nv.lemma_filter_map_take_succ(fw, k as int);
            assert(nv.take(k + 1).drop_last() =~= nv.take(k as int));
            assert(nv[k as int] == (mask, name@));
        }
        if value & mask == mask {
            push_word(&mut s, name, first);
            proof {
                lemma_join_bar_push(ws, name@);
                assert(nv.take(k + 1).filter_map(fw) =~= ws.push(name@));
            }
            first = false;
            rest = rest & !mask;
        } else {
            assert(nv.take(k + 1).filter_map(fw) =~= ws);
        }
        k = k + 1;
    }
    assert(nv.take(k as int) =~= nv);
    if rest != 0 {
        let mut w = String::from_str("0x");
        let h = hex(rest as u64, 0, true);
        w.append(h.as_str());
        proof {
            lemma_join_bar_push(nv.filter_map(fw), w@);
        }
        push_word(&mut s, w.as_str(), first);
    }
    s.append(" (0x");
    let h = hex(value as u64, 0, true);
    s.append(h.as_str());
    s.append(")");
    s
}


/// A block as an instruction refers to it: its number in the script, or
/// `usize::MAX` for a script elsewhere; offset 0 means none.
#[derive(Clone, Copy, Debug, PartialEq, Eq, Structural)]
pub struct BlockInfo {
    pub index: usize,
    pub offset: u32,
}

/// Six upper-case hexadecimal digits of an offset.
pub open spec fn offset_text(offset: u32) -> Seq<char> {
    pad_left(digits(offset as nat, 16), 6, '0')
}

/// The label of a block reference.
pub open spec fn block_text(b: BlockInfo) -> Seq<char> {
    if b.offset == 0 {
        "(None)"@
    } else if b.index != usize::MAX {
        "block_"@ + digits(b.index as nat, 10) + " ("@ + offset_text(b.offset) + ")"@
    } else {
        "external ("@ + offset_text(b.offset) + ")"@
    }
}

impl BlockInfo {
    /// The label of the block reference.
    pub fn text(&self) -> (s: String)
        ensures
            s@ == block_text(*self),
    {
        if self.offset == 0 {
            return String::from_str("(None)");
        }
        let mut s = if self.index != usize::MAX {
            let mut s = String::from_str("block_");
            let n = dec(self.index as u64);
            s.append(n.as_str());
            s.append(" (");
            s
        } else {
            String::from_str("external (")
        };
        let h = hex(self.offset as u64, 6, true);
        s.append(h.as_str());
        s.append(")");
        s
    }
}

/// The text of a branch with the given code and target labels.
pub open spec fn branch_text(code: u8, t1: Seq<char>, t2: Seq<char>) -> Seq<char> {
    if code == 0 {
        "(none)"@
    } else if code == 0xFE {
        "{ call "@ + t1 + " } else { call "@ + t2 + " }"@
    } else if code == 0xFC {
        "{ call "@ + t1 + " }"@
    } else if code == 0xFD {
        "{ return }"@
    } else if code == 0x0C {
        "{ goto "@ + t1 + " }"@
    } else {
        "{ unknown (code: "@ + pad_left(digits(code as nat, 16), 2, ' ') + ") }"@
    }
}

/// The text of a branch, given the labels of its targets.
pub fn branch_code_text(code: u8, target1: &BlockInfo, target2: &BlockInfo) -> (s: String)
    ensures
        s@ == branch_text(code, block_text(*target1), block_text(*target2)),
{
    if code == 0 {
        String::from_str("(none)")
    } else if code == 0xFE {
        let mut s = String::from_str("{ call ");
        let a = target1.text();
        s.append(a.as_str());
        s.append(" } else { call ");
        let b = target2.text();
        s.append(b.as_str());
        s.append(" }");
        s
    } else if code == 0xFC {
        let mut s = String::from_str("{ call ");
        let a = target1.text();
        s.append(a.as_str());
        s.append(" }");
        s
    } else if code == 0xFD {
        String::from_str("{ return }")
    } else if code == 0x0C {
        let mut s = String::from_str("{ goto ");
        let a = target1.text();
        s.append(a.as_str());
        s.append(" }");
        s
    } else {
        let mut s = String::from_str("{ unknown (code: ");
        let h = hex(code as u64, 2, false);
        s.append(h.as_str());
        s.append(") }");
        s
    }
}

} // verus!
