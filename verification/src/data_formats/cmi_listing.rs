//! The text listing of a disassembled script: a header for each block, a line for
//! each instruction with what it does and its operands, and where the block ends.

use vstd::prelude::*;

use crate::data_formats::cmi_bytecode::{BlockV, CmiBlock, CmiScript, blocks_view, script_blocks};
use crate::data_formats::cmi_decode::{Instr, InstrV};
use crate::data_formats::cmi_operands::{Operand, OperandV, operands_view};
use crate::reader::Reader;
use crate::data_formats::cmi_parts::{
    ListingPart, PartV, append_parts, arr_t, axis_t, barr_t, blk_t, blocks_t, bool_t, br_t, comp_t, compv_t,
    door_t, empty_s, empty_text, ext_t, fl_t, flag_t, hex_t, is_scale, is_scale_s, listing_view, name_t,
    named, named_s, names_t, new_parts, num_t, obyte, obyte_s, oblocks_s, onum, onum_s, otexts_s, oweighted_s,
    put, put_arr, put_axis, put_barr, put_blk, put_blocks, put_bool, put_br, put_comp, put_compv, put_count,
    put_door, put_ext, put_fl, put_flag, put_hex, put_hex_u64, put_name, put_names, put_num, put_scale,
    put_svar, put_thirty, put_v3, put_var, put_visflag, put_weights, scale_t, svar_t, thirty_t, tx, v3_t,
    var_t, visflag_t, weights_t,
};

verus! {

/// What instructions 0x0 | 0x7 | 0x1E | 0xFE | 0xFF write.
pub open spec fn op00_text(bs: Seq<u32>, op: u8, o: Seq<OperandV>) -> Seq<PartV> {
    Seq::empty() + tx("Invalid!]"@)
}

fn op00_parts<'a>(bs: &Vec<u32>, op: u8, ops: &Vec<Operand<'a>>) -> (p: Vec<ListingPart<'a>>)
    ensures
        listing_view(p@) == op00_text(bs@, op, operands_view(ops@)),
{
    let mut p = new_parts();
    put(&mut p, "Invalid!]");
    p
}

/// What instruction 0x01 writes.
pub open spec fn op01_text(bs: Seq<u32>, op: u8, o: Seq<OperandV>) -> Seq<PartV> {
    Seq::empty() + tx("Set script resume point]"@)
}

fn op01_parts<'a>(bs: &Vec<u32>, op: u8, ops: &Vec<Operand<'a>>) -> (p: Vec<ListingPart<'a>>)
    ensures
        listing_view(p@) == op01_text(bs@, op, operands_view(ops@)),
{
    let mut p = new_parts();
    put(&mut p, "Set script resume point]");
    p
}

/// What instruction 0x02 writes.
pub open spec fn op02_text(bs: Seq<u32>, op: u8, o: Seq<OperandV>) -> Seq<PartV> {
    Seq::empty() + tx("Set path] v1: "@) + num_t(onum_s(o, 1)) + tx(", v2: "@) + num_t(onum_s(o, 2)) + tx(", v3: "@) + num_t(onum_s(o, 3)) + tx(", vec: "@) + (if onum_s(o, 4) == 0 { Seq::empty() + tx("Some("@) + v3_t(o, 5) + tx(")"@) } else { Seq::empty() + tx("None"@) }) + tx(", path offset: "@) + hex_t(onum_s(o, 0), 6)
}

fn op02_parts<'a>(bs: &Vec<u32>, op: u8, ops: &Vec<Operand<'a>>) -> (p: Vec<ListingPart<'a>>)
    ensures
        listing_view(p@) == op02_text(bs@, op, operands_view(ops@)),
{
    let mut p = new_parts();
    put(&mut p, "Set path] v1: ");
    put_num(&mut p, onum(ops, 1));
    put(&mut p, ", v2: ");
    put_num(&mut p, onum(ops, 2));
    put(&mut p, ", v3: ");
    put_num(&mut p, onum(ops, 3));
    put(&mut p, ", vec: ");
    let q1 = if onum(ops, 4) == 0 {
        let mut q1 = new_parts();
        put(&mut q1, "Some(");
        put_v3(&mut q1, ops, 5);
        put(&mut q1, ")");
        q1
    } else {
        let mut q1 = new_parts();
        put(&mut q1, "None");
        q1
    };
    append_parts(&mut p, q1);
    put(&mut p, ", path offset: ");
    put_hex(&mut p, onum(ops, 0), 6);
    p
}

/// What instruction 0x03 writes.
pub open spec fn op03_text(bs: Seq<u32>, op: u8, o: Seq<OperandV>) -> Seq<PartV> {
    Seq::empty() + (if named_s(o, 0) { Seq::empty() + tx("Set animation] name: "@) + name_t(o, 0) } else { Seq::empty() + tx("Set animation] anim offset: "@) + hex_t(onum_s(o, 0), 6) })
}

fn op03_parts<'a>(bs: &Vec<u32>, op: u8, ops: &Vec<Operand<'a>>) -> (p: Vec<ListingPart<'a>>)
    ensures
        listing_view(p@) == op03_text(bs@, op, operands_view(ops@)),
{
    let mut p = new_parts();
    let q1 = if named(ops, 0) {
        let mut q1 = new_parts();
        put(&mut q1, "Set animation] name: ");
        put_name(&mut q1, ops, 0);
        q1
    } else {
        let mut q1 = new_parts();
        put(&mut q1, "Set animation] anim offset: ");
        put_hex(&mut q1, onum(ops, 0), 6);
        q1
    };
    append_parts(&mut p, q1);
    p
}

/// What instruction 0x04 writes.
pub open spec fn op04_text(bs: Seq<u32>, op: u8, o: Seq<OperandV>) -> Seq<PartV> {
    Seq::empty() + tx("Give order] "@) + (if onum_s(o, 0) == 7 { Seq::empty() + tx("Run script ("@) + hex_t(onum_s(o, 2), 6) + tx(")"@) + tx(", Target: "@) + (if onum_s(o, 3) == 6 { Seq::empty() + tx("Visible (distance: "@) + fl_t(o, 4) + tx(")"@) } else { Seq::empty() + (if onum_s(o, 3) == 10 { Seq::empty() + tx("Height (min y: "@) + fl_t(o, 4) + tx(")"@) } else { Seq::empty() + (if onum_s(o, 3) == 3 { Seq::empty() + tx("Everyone"@) } else { Seq::empty() }) }) }) + (if onum_s(o, 3) == 2 { Seq::empty() + tx("Normal"@) + tx(", Name: "@) + name_t(o, 4) } else { Seq::empty() + (if onum_s(o, 3) == 3 { Seq::empty() } else { Seq::empty() + (if onum_s(o, 3) == 4 { Seq::empty() + tx("Single"@) + tx(", Name: "@) + name_t(o, 4) } else { Seq::empty() + (if onum_s(o, 3) == 5 { Seq::empty() + tx("ID="@) + num_t(onum_s(o, 5)) + tx(", Name: "@) + name_t(o, 4) } else { Seq::empty() + (if onum_s(o, 3) == 6 { Seq::empty() + tx(", Name: "@) + name_t(o, 5) } else { Seq::empty() + (if onum_s(o, 3) == 7 { Seq::empty() + tx("Children"@) + tx(", Name: "@) + name_t(o, 4) } else { Seq::empty() + (if onum_s(o, 3) == 9 { Seq::empty() + tx("Buddy"@) } else { Seq::empty() + (if onum_s(o, 3) == 10 { Seq::empty() + tx(", Name: "@) + name_t(o, 5) } else { Seq::empty() + tx("Unknown (target: "@) + num_t(onum_s(o, 3)) + tx(")"@) }) }) }) }) }) }) }) }) } else { Seq::empty() + (if onum_s(o, 0) == 0x2B { Seq::empty() + tx("Set home (dir: "@) + arr_t(o, 1, 2) + tx(")"@) + tx(", Target: "@) + (if onum_s(o, 3) == 6 { Seq::empty() + tx("Visible (distance: "@) + fl_t(o, 4) + tx(")"@) } else { Seq::empty() + (if onum_s(o, 3) == 10 { Seq::empty() + tx("Height (min y: "@) + fl_t(o, 4) + tx(")"@) } else { Seq::empty() + (if onum_s(o, 3) == 3 { Seq::empty() + tx("Everyone"@) } else { Seq::empty() }) }) }) + (if onum_s(o, 3) == 2 { Seq::empty() + tx("Normal"@) + tx(", Name: "@) + name_t(o, 4) } else { Seq::empty() + (if onum_s(o, 3) == 3 { Seq::empty() } else { Seq::empty() + (if onum_s(o, 3) == 4 { Seq::empty() + tx("Single"@) + tx(", Name: "@) + name_t(o, 4) } else { Seq::empty() + (if onum_s(o, 3) == 5 { Seq::empty() + tx("ID="@) + num_t(onum_s(o, 5)) + tx(", Name: "@) + name_t(o, 4) } else { Seq::empty() + (if onum_s(o, 3) == 6 { Seq::empty() + tx(", Name: "@) + name_t(o, 5) } else { Seq::empty() + (if onum_s(o, 3) == 7 { Seq::empty() + tx("Children"@) + tx(", Name: "@) + name_t(o, 4) } else { Seq::empty() + (if onum_s(o, 3) == 9 { Seq::empty() + tx("Buddy"@) } else { Seq::empty() + (if onum_s(o, 3) == 10 { Seq::empty() + tx(", Name: "@) + name_t(o, 5) } else { Seq::empty() + tx("Unknown (target: "@) + num_t(onum_s(o, 3)) + tx(")"@) }) }) }) }) }) }) }) }) } else { Seq::empty() + (if onum_s(o, 0) == 1 { Seq::empty() + tx("Set some home thing"@) } else { Seq::empty() + tx("Unknown! (code: "@) + num_t(onum_s(o, 0)) + tx(")"@) }) + tx(", Target: "@) + (if onum_s(o, 1) == 6 { Seq::empty() + tx("Visible (distance: "@) + fl_t(o, 2) + tx(")"@) } else { Seq::empty() + (if onum_s(o, 1) == 10 { Seq::empty() + tx("Height (min y: "@) + fl_t(o, 2) + tx(")"@) } else { Seq::empty() + (if onum_s(o, 1) == 3 { Seq::empty() + tx("Everyone"@) } else { Seq::empty() }) }) }) + (if onum_s(o, 1) == 2 { Seq::empty() + tx("Normal"@) + tx(", Name: "@) + name_t(o, 2) } else { Seq::empty() + (if onum_s(o, 1) == 3 { Seq::empty() } else { Seq::empty() + (if onum_s(o, 1) == 4 { Seq::empty() + tx("Single"@) + tx(", Name: "@) + name_t(o, 2) } else { Seq::empty() + (if onum_s(o, 1) == 5 { Seq::empty() + tx("ID="@) + num_t(onum_s(o, 3)) + tx(", Name: "@) + name_t(o, 2) } else { Seq::empty() + (if onum_s(o, 1) == 6 { Seq::empty() + tx(", Name: "@) + name_t(o, 3) } else { Seq::empty() + (if onum_s(o, 1) == 7 { Seq::empty() + tx("Children"@) + tx(", Name: "@) + name_t(o, 2) } else { Seq::empty() + (if onum_s(o, 1) == 9 { Seq::empty() + tx("Buddy"@) } else { Seq::empty() + (if onum_s(o, 1) == 10 { Seq::empty() + tx(", Name: "@) + name_t(o, 3) } else { Seq::empty() + tx("Unknown (target: "@) + num_t(onum_s(o, 1)) + tx(")"@) }) }) }) }) }) }) }) }) }) })
}

fn op04_parts<'a>(bs: &Vec<u32>, op: u8, ops: &Vec<Operand<'a>>) -> (p: Vec<ListingPart<'a>>)
    ensures
        listing_view(p@) == op04_text(bs@, op, operands_view(ops@)),
{
    let mut p = new_parts();
    put(&mut p, "Give order] ");
    let q1 = if onum(ops, 0) == 7 {
        let mut q1 = new_parts();
        put(&mut q1, "Run script (");
        put_hex(&mut q1, onum(ops, 2), 6);
        put(&mut q1, ")");
        put(&mut q1, ", Target: ");
        let q2 = if onum(ops, 3) == 6 {
            let mut q2 = new_parts();
            put(&mut q2, "Visible (distance: ");
            put_fl(&mut q2, ops, 4);
            put(&mut q2, ")");
            q2
        } else {
            let mut q2 = new_parts();
            let q3 = if onum(ops, 3) == 10 {
                let mut q3 = new_parts();
                put(&mut q3, "Height (min y: ");
                put_fl(&mut q3, ops, 4);
                put(&mut q3, ")");
                q3
            } else {
                let mut q3 = new_parts();
                let q4 = if onum(ops, 3) == 3 {
                    let mut q4 = new_parts();
                    put(&mut q4, "Everyone");
                    q4
                } else {
                    let mut q4 = new_parts();
                    q4
                };
                append_parts(&mut q3, q4);
                q3
            };
            append_parts(&mut q2, q3);
            q2
        };
        append_parts(&mut q1, q2);
        let q2 = if onum(ops, 3) == 2 {
            let mut q2 = new_parts();
            put(&mut q2, "Normal");
            put(&mut q2, ", Name: ");
            put_name(&mut q2, ops, 4);
            q2
        } else {
            let mut q2 = new_parts();
            let q3 = if onum(ops, 3) == 3 {
                let mut q3 = new_parts();
                q3
            } else {
                let mut q3 = new_parts();
                let q4 = if onum(ops, 3) == 4 {
                    let mut q4 = new_parts();
                    put(&mut q4, "Single");
                    put(&mut q4, ", Name: ");
                    put_name(&mut q4, ops, 4);
                    q4
                } else {
                    let mut q4 = new_parts();
                    let q5 = if onum(ops, 3) == 5 {
                        let mut q5 = new_parts();
                        put(&mut q5, "ID=");
                        put_num(&mut q5, onum(ops, 5));
                        put(&mut q5, ", Name: ");
                        put_name(&mut q5, ops, 4);
                        q5
                    } else {
                        let mut q5 = new_parts();
                        let q6 = if onum(ops, 3) == 6 {
                            let mut q6 = new_parts();
                            put(&mut q6, ", Name: ");
                            put_name(&mut q6, ops, 5);
                            q6
                        } else {
                            let mut q6 = new_parts();
                            let q7 = if onum(ops, 3) == 7 {
                                let mut q7 = new_parts();
                                put(&mut q7, "Children");
                                put(&mut q7, ", Name: ");
                                put_name(&mut q7, ops, 4);
                                q7
                            } else {
                                let mut q7 = new_parts();
                                let q8 = if onum(ops, 3) == 9 {
                                    let mut q8 = new_parts();
                                    put(&mut q8, "Buddy");
                                    q8
                                } else {
                                    let mut q8 = new_parts();
                                    let q9 = if onum(ops, 3) == 10 {
                                        let mut q9 = new_parts();
                                        put(&mut q9, ", Name: ");
                                        put_name(&mut q9, ops, 5);
                                        q9
                                    } else {
                                        let mut q9 = new_parts();
                                        put(&mut q9, "Unknown (target: ");
                                        put_num(&mut q9, onum(ops, 3));
                                        put(&mut q9, ")");
                                        q9
                                    };
                                    append_parts(&mut q8, q9);
                                    q8
                                };
                                append_parts(&mut q7, q8);
                                q7
                            };
                            append_parts(&mut q6, q7);
                            q6
                        };
                        append_parts(&mut q5, q6);
                        q5
                    };
                    append_parts(&mut q4, q5);
                    q4
                };
                append_parts(&mut q3, q4);
                q3
            };
            append_parts(&mut q2, q3);
            q2
        };
        append_parts(&mut q1, q2);
        q1
    } else {
        let mut q1 = new_parts();
        let q2 = if onum(ops, 0) == 0x2B {
            let mut q2 = new_parts();
            put(&mut q2, "Set home (dir: ");
            put_arr(&mut q2, ops, 1, 2);
            put(&mut q2, ")");
            put(&mut q2, ", Target: ");
            let q3 = if onum(ops, 3) == 6 {
                let mut q3 = new_parts();
                put(&mut q3, "Visible (distance: ");
                put_fl(&mut q3, ops, 4);
                put(&mut q3, ")");
                q3
            } else {
                let mut q3 = new_parts();
                let q4 = if onum(ops, 3) == 10 {
                    let mut q4 = new_parts();
                    put(&mut q4, "Height (min y: ");
                    put_fl(&mut q4, ops, 4);
                    put(&mut q4, ")");
                    q4
                } else {
                    let mut q4 = new_parts();
                    let q5 = if onum(ops, 3) == 3 {
                        let mut q5 = new_parts();
                        put(&mut q5, "Everyone");
                        q5
                    } else {
                        let mut q5 = new_parts();
                        q5
                    };
                    append_parts(&mut q4, q5);
                    q4
                };
                append_parts(&mut q3, q4);
                q3
            };
            append_parts(&mut q2, q3);
            let q3 = if onum(ops, 3) == 2 {
                let mut q3 = new_parts();
                put(&mut q3, "Normal");
                put(&mut q3, ", Name: ");
                put_name(&mut q3, ops, 4);
                q3
            } else {
                let mut q3 = new_parts();
                let q4 = if onum(ops, 3) == 3 {
                    let mut q4 = new_parts();
                    q4
                } else {
                    let mut q4 = new_parts();
                    let q5 = if onum(ops, 3) == 4 {
                        let mut q5 = new_parts();
                        put(&mut q5, "Single");
                        put(&mut q5, ", Name: ");
                        put_name(&mut q5, ops, 4);
                        q5
                    } else {
                        let mut q5 = new_parts();
                        let q6 = if onum(ops, 3) == 5 {
                            let mut q6 = new_parts();
                            put(&mut q6, "ID=");
                            put_num(&mut q6, onum(ops, 5));
                            put(&mut q6, ", Name: ");
                            put_name(&mut q6, ops, 4);
                            q6
                        } else {
                            let mut q6 = new_parts();
                            let q7 = if onum(ops, 3) == 6 {
                                let mut q7 = new_parts();
                                put(&mut q7, ", Name: ");
                                put_name(&mut q7, ops, 5);
                                q7
                            } else {
                                let mut q7 = new_parts();
                                let q8 = if onum(ops, 3) == 7 {
                                    let mut q8 = new_parts();
                                    put(&mut q8, "Children");
                                    put(&mut q8, ", Name: ");
                                    put_name(&mut q8, ops, 4);
                                    q8
                                } else {
                                    let mut q8 = new_parts();
                                    let q9 = if onum(ops, 3) == 9 {
                                        let mut q9 = new_parts();
                                        put(&mut q9, "Buddy");
                                        q9
                                    } else {
                                        let mut q9 = new_parts();
                                        let q10 = if onum(ops, 3) == 10 {
                                            let mut q10 = new_parts();
                                            put(&mut q10, ", Name: ");
                                            put_name(&mut q10, ops, 5);
                                            q10
                                        } else {
                                            let mut q10 = new_parts();
                                            put(&mut q10, "Unknown (target: ");
                                            put_num(&mut q10, onum(ops, 3));
                                            put(&mut q10, ")");
                                            q10
                                        };
                                        append_parts(&mut q9, q10);
                                        q9
                                    };
                                    append_parts(&mut q8, q9);
                                    q8
                                };
                                append_parts(&mut q7, q8);
                                q7
                            };
                            append_parts(&mut q6, q7);
                            q6
                        };
                        append_parts(&mut q5, q6);
                        q5
                    };
                    append_parts(&mut q4, q5);
                    q4
                };
                append_parts(&mut q3, q4);
                q3
            };
            append_parts(&mut q2, q3);
            q2
        } else {
            let mut q2 = new_parts();
            let q3 = if onum(ops, 0) == 1 {
                let mut q3 = new_parts();
                put(&mut q3, "Set some home thing");
                q3
            } else {
                let mut q3 = new_parts();
                put(&mut q3, "Unknown! (code: ");
                put_num(&mut q3, onum(ops, 0));
                put(&mut q3, ")");
                q3
            };
            append_parts(&mut q2, q3);
            put(&mut q2, ", Target: ");
            let q3 = if onum(ops, 1) == 6 {
                let mut q3 = new_parts();
                put(&mut q3, "Visible (distance: ");
                put_fl(&mut q3, ops, 2);
                put(&mut q3, ")");
                q3
            } else {
                let mut q3 = new_parts();
                let q4 = if onum(ops, 1) == 10 {
                    let mut q4 = new_parts();
                    put(&mut q4, "Height (min y: ");
                    put_fl(&mut q4, ops, 2);
                    put(&mut q4, ")");
                    q4
                } else {
                    let mut q4 = new_parts();
                    let q5 = if onum(ops, 1) == 3 {
                        let mut q5 = new_parts();
                        put(&mut q5, "Everyone");
                        q5
                    } else {
                        let mut q5 = new_parts();
                        q5
                    };
                    append_parts(&mut q4, q5);
                    q4
                };
                append_parts(&mut q3, q4);
                q3
            };
            append_parts(&mut q2, q3);
            let q3 = if onum(ops, 1) == 2 {
                let mut q3 = new_parts();
                put(&mut q3, "Normal");
                put(&mut q3, ", Name: ");
                put_name(&mut q3, ops, 2);
                q3
            } else {
                let mut q3 = new_parts();
                let q4 = if onum(ops, 1) == 3 {
                    let mut q4 = new_parts();
                    q4
                } else {
                    let mut q4 = new_parts();
                    let q5 = if onum(ops, 1) == 4 {
                        let mut q5 = new_parts();
                        put(&mut q5, "Single");
                        put(&mut q5, ", Name: ");
                        put_name(&mut q5, ops, 2);
                        q5
                    } else {
                        let mut q5 = new_parts();
                        let q6 = if onum(ops, 1) == 5 {
                            let mut q6 = new_parts();
                            put(&mut q6, "ID=");
                            put_num(&mut q6, onum(ops, 3));
                            put(&mut q6, ", Name: ");
                            put_name(&mut q6, ops, 2);
                            q6
                        } else {
                            let mut q6 = new_parts();
                            let q7 = if onum(ops, 1) == 6 {
                                let mut q7 = new_parts();
                                put(&mut q7, ", Name: ");
                                put_name(&mut q7, ops, 3);
                                q7
                            } else {
                                let mut q7 = new_parts();
                                let q8 = if onum(ops, 1) == 7 {
                                    let mut q8 = new_parts();
                                    put(&mut q8, "Children");
                                    put(&mut q8, ", Name: ");
                                    put_name(&mut q8, ops, 2);
                                    q8
                                } else {
                                    let mut q8 = new_parts();
                                    let q9 = if onum(ops, 1) == 9 {
                                        let mut q9 = new_parts();
                                        put(&mut q9, "Buddy");
                                        q9
                                    } else {
                                        let mut q9 = new_parts();
                                        let q10 = if onum(ops, 1) == 10 {
                                            let mut q10 = new_parts();
                                            put(&mut q10, ", Name: ");
                                            put_name(&mut q10, ops, 3);
                                            q10
                                        } else {
                                            let mut q10 = new_parts();
                                            put(&mut q10, "Unknown (target: ");
                                            put_num(&mut q10, onum(ops, 1));
                                            put(&mut q10, ")");
                                            q10
                                        };
                                        append_parts(&mut q9, q10);
                                        q9
                                    };
                                    append_parts(&mut q8, q9);
                                    q8
                                };
                                append_parts(&mut q7, q8);
                                q7
                            };
                            append_parts(&mut q6, q7);
                            q6
                        };
                        append_parts(&mut q5, q6);
                        q5
                    };
                    append_parts(&mut q4, q5);
                    q4
                };
                append_parts(&mut q3, q4);
                q3
            };
            append_parts(&mut q2, q3);
            q2
        };
        append_parts(&mut q1, q2);
        q1
    };
    append_parts(&mut p, q1);
    p
}

/// What instruction 0x05 writes.
pub open spec fn op05_text(bs: Seq<u32>, op: u8, o: Seq<OperandV>) -> Seq<PartV> {
    Seq::empty() + tx("Set camera zoom?] value: "@) + fl_t(o, 0)
}

fn op05_parts<'a>(bs: &Vec<u32>, op: u8, ops: &Vec<Operand<'a>>) -> (p: Vec<ListingPart<'a>>)
    ensures
        listing_view(p@) == op05_text(bs@, op, operands_view(ops@)),
{
    let mut p = new_parts();
    put(&mut p, "Set camera zoom?] value: ");
    put_fl(&mut p, ops, 0);
    p
}

/// What instruction 0x06 writes.
pub open spec fn op06_text(bs: Seq<u32>, op: u8, o: Seq<OperandV>) -> Seq<PartV> {
    Seq::empty() + tx("Set someCmiField to 6]"@)
}

fn op06_parts<'a>(bs: &Vec<u32>, op: u8, ops: &Vec<Operand<'a>>) -> (p: Vec<ListingPart<'a>>)
    ensures
        listing_view(p@) == op06_text(bs@, op, operands_view(ops@)),
{
    let mut p = new_parts();
    put(&mut p, "Set someCmiField to 6]");
    p
}

/// What instruction 0x08 writes.
pub open spec fn op08_text(bs: Seq<u32>, op: u8, o: Seq<OperandV>) -> Seq<PartV> {
    Seq::empty() + tx("Set yaw] angle: "@) + num_t(onum_s(o, 0))
}

fn op08_parts<'a>(bs: &Vec<u32>, op: u8, ops: &Vec<Operand<'a>>) -> (p: Vec<ListingPart<'a>>)
    ensures
        listing_view(p@) == op08_text(bs@, op, operands_view(ops@)),
{
    let mut p = new_parts();
    put(&mut p, "Set yaw] angle: ");
    put_num(&mut p, onum(ops, 0));
    p
}

/// What instruction 0x09 writes.
pub open spec fn op09_text(bs: Seq<u32>, op: u8, o: Seq<OperandV>) -> Seq<PartV> {
    Seq::empty() + tx("Clear function stack]"@)
}

fn op09_parts<'a>(bs: &Vec<u32>, op: u8, ops: &Vec<Operand<'a>>) -> (p: Vec<ListingPart<'a>>)
    ensures
        listing_view(p@) == op09_text(bs@, op, operands_view(ops@)),
{
    let mut p = new_parts();
    put(&mut p, "Clear function stack]");
    p
}

/// What instruction 0x0A writes.
pub open spec fn op0a_text(bs: Seq<u32>, op: u8, o: Seq<OperandV>) -> Seq<PartV> {
    Seq::empty() + tx("Branch if alien with name at index] name: "@) + name_t(o, 0) + tx(", index: "@) + num_t(onum_s(o, 1)) + tx(", "@) + br_t(bs, o, 2)
}

fn op0a_parts<'a>(bs: &Vec<u32>, op: u8, ops: &Vec<Operand<'a>>) -> (p: Vec<ListingPart<'a>>)
    ensures
        listing_view(p@) == op0a_text(bs@, op, operands_view(ops@)),
{
    let mut p = new_parts();
    put(&mut p, "Branch if alien with name at index] name: ");
    put_name(&mut p, ops, 0);
    put(&mut p, ", index: ");
    put_num(&mut p, onum(ops, 1));
    put(&mut p, ", ");
    put_br(&mut p, bs, ops, 2);
    p
}

/// What instruction 0x0B writes.
pub open spec fn op0b_text(bs: Seq<u32>, op: u8, o: Seq<OperandV>) -> Seq<PartV> {
    Seq::empty() + tx("Set min order range] "@) + num_t(onum_s(o, 0))
}

fn op0b_parts<'a>(bs: &Vec<u32>, op: u8, ops: &Vec<Operand<'a>>) -> (p: Vec<ListingPart<'a>>)
    ensures
        listing_view(p@) == op0b_text(bs@, op, operands_view(ops@)),
{
    let mut p = new_parts();
    put(&mut p, "Set min order range] ");
    put_num(&mut p, onum(ops, 0));
    p
}

/// What instruction 0x0C writes.
pub open spec fn op0c_text(bs: Seq<u32>, op: u8, o: Seq<OperandV>) -> Seq<PartV> {
    Seq::empty() + tx("Random jump] targets: ["@) + blocks_t(bs, oblocks_s(o, 0), oblocks_s(o, 0).len() as int, ""@, ", "@) + tx("]"@)
}

fn op0c_parts<'a>(bs: &Vec<u32>, op: u8, ops: &Vec<Operand<'a>>) -> (p: Vec<ListingPart<'a>>)
    ensures
        listing_view(p@) == op0c_text(bs@, op, operands_view(ops@)),
{
    let mut p = new_parts();
    put(&mut p, "Random jump] targets: [");
    put_blocks(&mut p, bs, ops, 0, "", ", ");
    put(&mut p, "]");
    p
}

/// What instruction 0x0D writes.
pub open spec fn op0d_text(bs: Seq<u32>, op: u8, o: Seq<OperandV>) -> Seq<PartV> {
    Seq::empty() + tx("Branch on some global3 field] "@) + br_t(bs, o, 0)
}

fn op0d_parts<'a>(bs: &Vec<u32>, op: u8, ops: &Vec<Operand<'a>>) -> (p: Vec<ListingPart<'a>>)
    ensures
        listing_view(p@) == op0d_text(bs@, op, operands_view(ops@)),
{
    let mut p = new_parts();
    put(&mut p, "Branch on some global3 field] ");
    put_br(&mut p, bs, ops, 0);
    p
}

/// What instruction 0x0E writes.
pub open spec fn op0e_text(bs: Seq<u32>, op: u8, o: Seq<OperandV>) -> Seq<PartV> {
    Seq::empty() + tx("Branch on visible] distance: "@) + num_t(onum_s(o, 0)) + tx(", angle: "@) + num_t(onum_s(o, 1)) + tx(", "@) + br_t(bs, o, 2)
}

fn op0e_parts<'a>(bs: &Vec<u32>, op: u8, ops: &Vec<Operand<'a>>) -> (p: Vec<ListingPart<'a>>)
    ensures
        listing_view(p@) == op0e_text(bs@, op, operands_view(ops@)),
{
    let mut p = new_parts();
    put(&mut p, "Branch on visible] distance: ");
    put_num(&mut p, onum(ops, 0));
    put(&mut p, ", angle: ");
    put_num(&mut p, onum(ops, 1));
    put(&mut p, ", ");
    put_br(&mut p, bs, ops, 2);
    p
}

/// What instruction 0x0F writes.
pub open spec fn op0f_text(bs: Seq<u32>, op: u8, o: Seq<OperandV>) -> Seq<PartV> {
    Seq::empty() + tx("Set some cmi field]"@)
}

fn op0f_parts<'a>(bs: &Vec<u32>, op: u8, ops: &Vec<Operand<'a>>) -> (p: Vec<ListingPart<'a>>)
    ensures
        listing_view(p@) == op0f_text(bs@, op, operands_view(ops@)),
{
    let mut p = new_parts();
    put(&mut p, "Set some cmi field]");
    p
}

/// What instruction 0x10 writes.
pub open spec fn op10_text(bs: Seq<u32>, op: u8, o: Seq<OperandV>) -> Seq<PartV> {
    Seq::empty() + (if onum_s(o, 0) == 0 { Seq::empty() + tx("Destroy entity]"@) } else { Seq::empty() + tx("Set entity health] value: "@) + num_t(onum_s(o, 0)) + tx(", (some flag set: "@) + bool_t(64999 < onum_s(o, 0)) + tx(")"@) })
}

fn op10_parts<'a>(bs: &Vec<u32>, op: u8, ops: &Vec<Operand<'a>>) -> (p: Vec<ListingPart<'a>>)
    ensures
        listing_view(p@) == op10_text(bs@, op, operands_view(ops@)),
{
    let mut p = new_parts();
    let q1 = if onum(ops, 0) == 0 {
        let mut q1 = new_parts();
        put(&mut q1, "Destroy entity]");
        q1
    } else {
        let mut q1 = new_parts();
        put(&mut q1, "Set entity health] value: ");
        put_num(&mut q1, onum(ops, 0));
        put(&mut q1, ", (some flag set: ");
        put_bool(&mut q1, 64999 < onum(ops, 0));
        put(&mut q1, ")");
        q1
    };
    append_parts(&mut p, q1);
    p
}

/// What instruction 0x11 writes.
pub open spec fn op11_text(bs: Seq<u32>, op: u8, o: Seq<OperandV>) -> Seq<PartV> {
    Seq::empty() + tx("Branch on some anim field] "@) + br_t(bs, o, 0)
}

fn op11_parts<'a>(bs: &Vec<u32>, op: u8, ops: &Vec<Operand<'a>>) -> (p: Vec<ListingPart<'a>>)
    ensures
        listing_view(p@) == op11_text(bs@, op, operands_view(ops@)),
{
    let mut p = new_parts();
    put(&mut p, "Branch on some anim field] ");
    put_br(&mut p, bs, ops, 0);
    p
}

/// What instruction 0x12 writes.
pub open spec fn op12_text(bs: Seq<u32>, op: u8, o: Seq<OperandV>) -> Seq<PartV> {
    Seq::empty() + tx("Branch with value?] value: "@) + fl_t(o, 0) + tx(", "@) + br_t(bs, o, 1)
}

fn op12_parts<'a>(bs: &Vec<u32>, op: u8, ops: &Vec<Operand<'a>>) -> (p: Vec<ListingPart<'a>>)
    ensures
        listing_view(p@) == op12_text(bs@, op, operands_view(ops@)),
{
    let mut p = new_parts();
    put(&mut p, "Branch with value?] value: ");
    put_fl(&mut p, ops, 0);
    put(&mut p, ", ");
    put_br(&mut p, bs, ops, 1);
    p
}

/// What instruction 0x13 writes.
pub open spec fn op13_text(bs: Seq<u32>, op: u8, o: Seq<OperandV>) -> Seq<PartV> {
    Seq::empty() + tx("Clear someAnimField3]"@)
}

fn op13_parts<'a>(bs: &Vec<u32>, op: u8, ops: &Vec<Operand<'a>>) -> (p: Vec<ListingPart<'a>>)
    ensures
        listing_view(p@) == op13_text(bs@, op, operands_view(ops@)),
{
    let mut p = new_parts();
    put(&mut p, "Clear someAnimField3]");
    p
}

/// What instruction 0x14 writes.
pub open spec fn op14_text(bs: Seq<u32>, op: u8, o: Seq<OperandV>) -> Seq<PartV> {
    Seq::empty() + tx("Clear somePath]"@)
}

fn op14_parts<'a>(bs: &Vec<u32>, op: u8, ops: &Vec<Operand<'a>>) -> (p: Vec<ListingPart<'a>>)
    ensures
        listing_view(p@) == op14_text(bs@, op, operands_view(ops@)),
{
    let mut p = new_parts();
    put(&mut p, "Clear somePath]");
    p
}

/// What instruction 0x15 writes.
pub open spec fn op15_text(bs: Seq<u32>, op: u8, o: Seq<OperandV>) -> Seq<PartV> {
    Seq::empty() + tx("Set someIndex] value: "@) + num_t(onum_s(o, 0))
}

fn op15_parts<'a>(bs: &Vec<u32>, op: u8, ops: &Vec<Operand<'a>>) -> (p: Vec<ListingPart<'a>>)
    ensures
        listing_view(p@) == op15_text(bs@, op, operands_view(ops@)),
{
    let mut p = new_parts();
    put(&mut p, "Set someIndex] value: ");
    put_num(&mut p, onum(ops, 0));
    p
}

/// What instruction 0x16 writes.
pub open spec fn op16_text(bs: Seq<u32>, op: u8, o: Seq<OperandV>) -> Seq<PartV> {
    Seq::empty() + tx("Branch on has parts] "@) + br_t(bs, o, 0)
}

fn op16_parts<'a>(bs: &Vec<u32>, op: u8, ops: &Vec<Operand<'a>>) -> (p: Vec<ListingPart<'a>>)
    ensures
        listing_view(p@) == op16_text(bs@, op, operands_view(ops@)),
{
    let mut p = new_parts();
    put(&mut p, "Branch on has parts] ");
    put_br(&mut p, bs, ops, 0);
    p
}

/// What instruction 0x17 writes.
pub open spec fn op17_text(bs: Seq<u32>, op: u8, o: Seq<OperandV>) -> Seq<PartV> {
    Seq::empty() + tx("Set flags[1] and some data] set: "@) + bool_t(onum_s(o, 0) != 0)
}

fn op17_parts<'a>(bs: &Vec<u32>, op: u8, ops: &Vec<Operand<'a>>) -> (p: Vec<ListingPart<'a>>)
    ensures
        listing_view(p@) == op17_text(bs@, op, operands_view(ops@)),
{
    let mut p = new_parts();
    put(&mut p, "Set flags[1] and some data] set: ");
    put_bool(&mut p, onum(ops, 0) != 0);
    p
}

/// What instruction 0x18 writes.
pub open spec fn op18_text(bs: Seq<u32>, op: u8, o: Seq<OperandV>) -> Seq<PartV> {
    Seq::empty() + tx("Set someName4] value: "@) + num_t(onum_s(o, 0)) + tx(", name: "@) + name_t(o, 1)
}

fn op18_parts<'a>(bs: &Vec<u32>, op: u8, ops: &Vec<Operand<'a>>) -> (p: Vec<ListingPart<'a>>)
    ensures
        listing_view(p@) == op18_text(bs@, op, operands_view(ops@)),
{
    let mut p = new_parts();
    put(&mut p, "Set someName4] value: ");
    put_num(&mut p, onum(ops, 0));
    put(&mut p, ", name: ");
    put_name(&mut p, ops, 1);
    p
}

/// What instruction 0x19 writes.
pub open spec fn op19_text(bs: Seq<u32>, op: u8, o: Seq<OperandV>) -> Seq<PartV> {
    Seq::empty() + tx("Set some name] name: "@) + name_t(o, 0)
}

fn op19_parts<'a>(bs: &Vec<u32>, op: u8, ops: &Vec<Operand<'a>>) -> (p: Vec<ListingPart<'a>>)
    ensures
        listing_view(p@) == op19_text(bs@, op, operands_view(ops@)),
{
    let mut p = new_parts();
    put(&mut p, "Set some name] name: ");
    put_name(&mut p, ops, 0);
    p
}

/// What instruction 0x1A writes.
pub open spec fn op1a_text(bs: Seq<u32>, op: u8, o: Seq<OperandV>) -> Seq<PartV> {
    Seq::empty() + tx("Set someName3] name: "@) + name_t(o, 0)
}

fn op1a_parts<'a>(bs: &Vec<u32>, op: u8, ops: &Vec<Operand<'a>>) -> (p: Vec<ListingPart<'a>>)
    ensures
        listing_view(p@) == op1a_text(bs@, op, operands_view(ops@)),
{
    let mut p = new_parts();
    put(&mut p, "Set someName3] name: ");
    put_name(&mut p, ops, 0);
    p
}

/// What instruction 0x1B writes.
pub open spec fn op1b_text(bs: Seq<u32>, op: u8, o: Seq<OperandV>) -> Seq<PartV> {
    Seq::empty() + tx("Branch on some global var] "@) + br_t(bs, o, 0)
}

fn op1b_parts<'a>(bs: &Vec<u32>, op: u8, ops: &Vec<Operand<'a>>) -> (p: Vec<ListingPart<'a>>)
    ensures
        listing_view(p@) == op1b_text(bs@, op, operands_view(ops@)),
{
    let mut p = new_parts();
    put(&mut p, "Branch on some global var] ");
    put_br(&mut p, bs, ops, 0);
    p
}

/// What instruction 0x1C writes.
pub open spec fn op1c_text(bs: Seq<u32>, op: u8, o: Seq<OperandV>) -> Seq<PartV> {
    Seq::empty() + tx("Mortar path] path offset: "@) + hex_t(onum_s(o, 0), 6)
}

fn op1c_parts<'a>(bs: &Vec<u32>, op: u8, ops: &Vec<Operand<'a>>) -> (p: Vec<ListingPart<'a>>)
    ensures
        listing_view(p@) == op1c_text(bs@, op, operands_view(ops@)),
{
    let mut p = new_parts();
    put(&mut p, "Mortar path] path offset: ");
    put_hex(&mut p, onum(ops, 0), 6);
    p
}

/// What instruction 0x1D writes.
pub open spec fn op1d_text(bs: Seq<u32>, op: u8, o: Seq<OperandV>) -> Seq<PartV> {
    Seq::empty() + tx("CreateChain] value1: "@) + num_t(onum_s(o, 0)) + tx(", name: "@) + name_t(o, 1) + tx(", target: "@) + ext_t(o, 2)
}

fn op1d_parts<'a>(bs: &Vec<u32>, op: u8, ops: &Vec<Operand<'a>>) -> (p: Vec<ListingPart<'a>>)
    ensures
        listing_view(p@) == op1d_text(bs@, op, operands_view(ops@)),
{
    let mut p = new_parts();
    put(&mut p, "CreateChain] value1: ");
    put_num(&mut p, onum(ops, 0));
    put(&mut p, ", name: ");
    put_name(&mut p, ops, 1);
    put(&mut p, ", target: ");
    put_ext(&mut p, ops, 2);
    p
}

/// What instruction 0x1F writes.
pub open spec fn op1f_text(bs: Seq<u32>, op: u8, o: Seq<OperandV>) -> Seq<PartV> {
    Seq::empty() + tx("Hide parts] names: ["@) + names_t(otexts_s(o, 0), otexts_s(o, 0).len() as int) + tx("]"@)
}

fn op1f_parts<'a>(bs: &Vec<u32>, op: u8, ops: &Vec<Operand<'a>>) -> (p: Vec<ListingPart<'a>>)
    ensures
        listing_view(p@) == op1f_text(bs@, op, operands_view(ops@)),
{
    let mut p = new_parts();
    put(&mut p, "Hide parts] names: [");
    put_names(&mut p, ops, 0);
    put(&mut p, "]");
    p
}

/// What instruction 0x20 writes.
pub open spec fn op20_text(bs: Seq<u32>, op: u8, o: Seq<OperandV>) -> Seq<PartV> {
    Seq::empty() + tx("Show parts] names: ["@) + names_t(otexts_s(o, 0), otexts_s(o, 0).len() as int) + tx("]"@)
}

fn op20_parts<'a>(bs: &Vec<u32>, op: u8, ops: &Vec<Operand<'a>>) -> (p: Vec<ListingPart<'a>>)
    ensures
        listing_view(p@) == op20_text(bs@, op, operands_view(ops@)),
{
    let mut p = new_parts();
    put(&mut p, "Show parts] names: [");
    put_names(&mut p, ops, 0);
    put(&mut p, "]");
    p
}

/// What instruction 0x21 writes.
pub open spec fn op21_text(bs: Seq<u32>, op: u8, o: Seq<OperandV>) -> Seq<PartV> {
    Seq::empty() + tx("Branch on somePath value] value: "@) + num_t(onum_s(o, 0)) + tx(", "@) + br_t(bs, o, 1)
}

fn op21_parts<'a>(bs: &Vec<u32>, op: u8, ops: &Vec<Operand<'a>>) -> (p: Vec<ListingPart<'a>>)
    ensures
        listing_view(p@) == op21_text(bs@, op, operands_view(ops@)),
{
    let mut p = new_parts();
    put(&mut p, "Branch on somePath value] value: ");
    put_num(&mut p, onum(ops, 0));
    put(&mut p, ", ");
    put_br(&mut p, bs, ops, 1);
    p
}

/// What instruction 0x22 writes.
pub open spec fn op22_text(bs: Seq<u32>, op: u8, o: Seq<OperandV>) -> Seq<PartV> {
    Seq::empty() + tx("Branch on has someAlien] "@) + br_t(bs, o, 0)
}

fn op22_parts<'a>(bs: &Vec<u32>, op: u8, ops: &Vec<Operand<'a>>) -> (p: Vec<ListingPart<'a>>)
    ensures
        listing_view(p@) == op22_text(bs@, op, operands_view(ops@)),
{
    let mut p = new_parts();
    put(&mut p, "Branch on has someAlien] ");
    put_br(&mut p, bs, ops, 0);
    p
}

/// What instruction 0x23 writes.
pub open spec fn op23_text(bs: Seq<u32>, op: u8, o: Seq<OperandV>) -> Seq<PartV> {
    Seq::empty() + tx("Set entity flag 4] set: "@) + num_t(onum_s(o, 0))
}

fn op23_parts<'a>(bs: &Vec<u32>, op: u8, ops: &Vec<Operand<'a>>) -> (p: Vec<ListingPart<'a>>)
    ensures
        listing_view(p@) == op23_text(bs@, op, operands_view(ops@)),
{
    let mut p = new_parts();
    put(&mut p, "Set entity flag 4] set: ");
    put_num(&mut p, onum(ops, 0));
    p
}

/// What instruction 0x24 writes.
pub open spec fn op24_text(bs: Seq<u32>, op: u8, o: Seq<OperandV>) -> Seq<PartV> {
    Seq::empty() + tx("Set entity flag 2] set: "@) + num_t(onum_s(o, 0))
}

fn op24_parts<'a>(bs: &Vec<u32>, op: u8, ops: &Vec<Operand<'a>>) -> (p: Vec<ListingPart<'a>>)
    ensures
        listing_view(p@) == op24_text(bs@, op, operands_view(ops@)),
{
    let mut p = new_parts();
    put(&mut p, "Set entity flag 2] set: ");
    put_num(&mut p, onum(ops, 0));
    p
}

/// What instruction 0x25 writes.
pub open spec fn op25_text(bs: Seq<u32>, op: u8, o: Seq<OperandV>) -> Seq<PartV> {
    Seq::empty() + tx("Branch on something] "@) + br_t(bs, o, 0)
}

fn op25_parts<'a>(bs: &Vec<u32>, op: u8, ops: &Vec<Operand<'a>>) -> (p: Vec<ListingPart<'a>>)
    ensures
        listing_view(p@) == op25_text(bs@, op, operands_view(ops@)),
{
    let mut p = new_parts();
    put(&mut p, "Branch on something] ");
    put_br(&mut p, bs, ops, 0);
    p
}

/// What instruction 0x26 writes.
pub open spec fn op26_text(bs: Seq<u32>, op: u8, o: Seq<OperandV>) -> Seq<PartV> {
    Seq::empty() + tx("Branch on vertical velocity] if "@) + comp_t(o, 0) + tx(" "@) + br_t(bs, o, 1)
}

fn op26_parts<'a>(bs: &Vec<u32>, op: u8, ops: &Vec<Operand<'a>>) -> (p: Vec<ListingPart<'a>>)
    ensures
        listing_view(p@) == op26_text(bs@, op, operands_view(ops@)),
{
    let mut p = new_parts();
    put(&mut p, "Branch on vertical velocity] if ");
    put_comp(&mut p, ops, 0);
    put(&mut p, " ");
    put_br(&mut p, bs, ops, 1);
    p
}

/// What instruction 0x27 writes.
pub open spec fn op27_text(bs: Seq<u32>, op: u8, o: Seq<OperandV>) -> Seq<PartV> {
    Seq::empty() + tx("Anim some facing value] "@) + var_t(o, 0)
}

fn op27_parts<'a>(bs: &Vec<u32>, op: u8, ops: &Vec<Operand<'a>>) -> (p: Vec<ListingPart<'a>>)
    ensures
        listing_view(p@) == op27_text(bs@, op, operands_view(ops@)),
{
    let mut p = new_parts();
    put(&mut p, "Anim some facing value] ");
    put_var(&mut p, ops, 0);
    p
}

/// What instruction 0x28 writes.
pub open spec fn op28_text(bs: Seq<u32>, op: u8, o: Seq<OperandV>) -> Seq<PartV> {
    Seq::empty() + tx("Anim facing yaw value] "@) + var_t(o, 0)
}

fn op28_parts<'a>(bs: &Vec<u32>, op: u8, ops: &Vec<Operand<'a>>) -> (p: Vec<ListingPart<'a>>)
    ensures
        listing_view(p@) == op28_text(bs@, op, operands_view(ops@)),
{
    let mut p = new_parts();
    put(&mut p, "Anim facing yaw value] ");
    put_var(&mut p, ops, 0);
    p
}

/// What instruction 0x29 writes.
pub open spec fn op29_text(bs: Seq<u32>, op: u8, o: Seq<OperandV>) -> Seq<PartV> {
    Seq::empty() + tx("Some sniper thing] index: "@) + num_t(onum_s(o, 0))
}

fn op29_parts<'a>(bs: &Vec<u32>, op: u8, ops: &Vec<Operand<'a>>) -> (p: Vec<ListingPart<'a>>)
    ensures
        listing_view(p@) == op29_text(bs@, op, operands_view(ops@)),
{
    let mut p = new_parts();
    put(&mut p, "Some sniper thing] index: ");
    put_num(&mut p, onum(ops, 0));
    p
}

/// What instruction 0x2A writes.
pub open spec fn op2a_text(bs: Seq<u32>, op: u8, o: Seq<OperandV>) -> Seq<PartV> {
    Seq::empty() + (if empty_s(o, 0) { Seq::empty() + tx("Branch if part exists] name: "@) + name_t(o, 1) + tx(", "@) + br_t(bs, o, 2) } else { Seq::empty() + tx("Branch if part exists] name: "@) + name_t(o, 0) + tx(", "@) + br_t(bs, o, 1) })
}

fn op2a_parts<'a>(bs: &Vec<u32>, op: u8, ops: &Vec<Operand<'a>>) -> (p: Vec<ListingPart<'a>>)
    ensures
        listing_view(p@) == op2a_text(bs@, op, operands_view(ops@)),
{
    let mut p = new_parts();
    let q1 = if empty_text(ops, 0) {
        let mut q1 = new_parts();
        put(&mut q1, "Branch if part exists] name: ");
        put_name(&mut q1, ops, 1);
        put(&mut q1, ", ");
        put_br(&mut q1, bs, ops, 2);
        q1
    } else {
        let mut q1 = new_parts();
        put(&mut q1, "Branch if part exists] name: ");
        put_name(&mut q1, ops, 0);
        put(&mut q1, ", ");
        put_br(&mut q1, bs, ops, 1);
        q1
    };
    append_parts(&mut p, q1);
    p
}

/// What instruction 0x2B writes.
pub open spec fn op2b_text(bs: Seq<u32>, op: u8, o: Seq<OperandV>) -> Seq<PartV> {
    Seq::empty() + tx("Move home] value: "@) + arr_t(o, 0, 2)
}

fn op2b_parts<'a>(bs: &Vec<u32>, op: u8, ops: &Vec<Operand<'a>>) -> (p: Vec<ListingPart<'a>>)
    ensures
        listing_view(p@) == op2b_text(bs@, op, operands_view(ops@)),
{
    let mut p = new_parts();
    put(&mut p, "Move home] value: ");
    put_arr(&mut p, ops, 0, 2);
    p
}

/// What instruction 0x2C writes.
pub open spec fn op2c_text(bs: Seq<u32>, op: u8, o: Seq<OperandV>) -> Seq<PartV> {
    Seq::empty() + tx("Branch on somCmiField] "@) + br_t(bs, o, 0)
}

fn op2c_parts<'a>(bs: &Vec<u32>, op: u8, ops: &Vec<Operand<'a>>) -> (p: Vec<ListingPart<'a>>)
    ensures
        listing_view(p@) == op2c_text(bs@, op, operands_view(ops@)),
{
    let mut p = new_parts();
    put(&mut p, "Branch on somCmiField] ");
    put_br(&mut p, bs, ops, 0);
    p
}

/// What instruction 0x2D writes.
pub open spec fn op2d_text(bs: Seq<u32>, op: u8, o: Seq<OperandV>) -> Seq<PartV> {
    Seq::empty() + tx("Branch on distance to player] if "@) + comp_t(o, 0) + tx(" "@) + br_t(bs, o, 1)
}

fn op2d_parts<'a>(bs: &Vec<u32>, op: u8, ops: &Vec<Operand<'a>>) -> (p: Vec<ListingPart<'a>>)
    ensures
        listing_view(p@) == op2d_text(bs@, op, operands_view(ops@)),
{
    let mut p = new_parts();
    put(&mut p, "Branch on distance to player] if ");
    put_comp(&mut p, ops, 0);
    put(&mut p, " ");
    put_br(&mut p, bs, ops, 1);
    p
}

/// What instruction 0x2E writes.
pub open spec fn op2e_text(bs: Seq<u32>, op: u8, o: Seq<OperandV>) -> Seq<PartV> {
    Seq::empty() + tx("Branch on hiding spot] "@) + br_t(bs, o, 0)
}

fn op2e_parts<'a>(bs: &Vec<u32>, op: u8, ops: &Vec<Operand<'a>>) -> (p: Vec<ListingPart<'a>>)
    ensures
        listing_view(p@) == op2e_text(bs@, op, operands_view(ops@)),
{
    let mut p = new_parts();
    put(&mut p, "Branch on hiding spot] ");
    put_br(&mut p, bs, ops, 0);
    p
}

/// What instruction 0x2F writes.
pub open spec fn op2f_text(bs: Seq<u32>, op: u8, o: Seq<OperandV>) -> Seq<PartV> {
    Seq::empty() + tx("Weighted random call (direct)] weight: "@) + fl_t(o, 0) + tx(", "@) + br_t(bs, o, 1)
}

fn op2f_parts<'a>(bs: &Vec<u32>, op: u8, ops: &Vec<Operand<'a>>) -> (p: Vec<ListingPart<'a>>)
    ensures
        listing_view(p@) == op2f_text(bs@, op, operands_view(ops@)),
{
    let mut p = new_parts();
    put(&mut p, "Weighted random call (direct)] weight: ");
    put_fl(&mut p, ops, 0);
    put(&mut p, ", ");
    put_br(&mut p, bs, ops, 1);
    p
}

/// What instruction 0x30 writes.
pub open spec fn op30_text(bs: Seq<u32>, op: u8, o: Seq<OperandV>) -> Seq<PartV> {
    Seq::empty() + tx("Weighted random call (framerate adjusted)] weight: "@) + fl_t(o, 0) + tx(", "@) + br_t(bs, o, 1)
}

fn op30_parts<'a>(bs: &Vec<u32>, op: u8, ops: &Vec<Operand<'a>>) -> (p: Vec<ListingPart<'a>>)
    ensures
        listing_view(p@) == op30_text(bs@, op, operands_view(ops@)),
{
    let mut p = new_parts();
    put(&mut p, "Weighted random call (framerate adjusted)] weight: ");
    put_fl(&mut p, ops, 0);
    put(&mut p, ", ");
    put_br(&mut p, bs, ops, 1);
    p
}

/// What instruction 0x31 writes.
pub open spec fn op31_text(bs: Seq<u32>, op: u8, o: Seq<OperandV>) -> Seq<PartV> {
    Seq::empty() + tx("Branch on some alien data] count: "@) + num_t(onum_s(o, 0)) + tx(", "@) + br_t(bs, o, 1)
}

fn op31_parts<'a>(bs: &Vec<u32>, op: u8, ops: &Vec<Operand<'a>>) -> (p: Vec<ListingPart<'a>>)
    ensures
        listing_view(p@) == op31_text(bs@, op, operands_view(ops@)),
{
    let mut p = new_parts();
    put(&mut p, "Branch on some alien data] count: ");
    put_num(&mut p, onum(ops, 0));
    put(&mut p, ", ");
    put_br(&mut p, bs, ops, 1);
    p
}

/// What instructions 0x32..=0x35 write.
pub open spec fn op32_text(bs: Seq<u32>, op: u8, o: Seq<OperandV>) -> Seq<PartV> {
    Seq::empty() + tx("Set entity someCmiDataValue] values["@) + num_t((if op == 0x35 { 0 } else { op - 0x31 })) + tx("] = "@) + var_t(o, 0)
}

fn op32_parts<'a>(bs: &Vec<u32>, op: u8, ops: &Vec<Operand<'a>>) -> (p: Vec<ListingPart<'a>>)
    ensures
        listing_view(p@) == op32_text(bs@, op, operands_view(ops@)),
{
    let mut p = new_parts();
    put(&mut p, "Set entity someCmiDataValue] values[");
    put_num(&mut p, (if op == 0x35 { 0 } else { op as i64 - 0x31 }));
    put(&mut p, "] = ");
    put_var(&mut p, ops, 0);
    p
}

/// What instruction 0x36 writes.
pub open spec fn op36_text(bs: Seq<u32>, op: u8, o: Seq<OperandV>) -> Seq<PartV> {
    Seq::empty() + tx("Branch on distance to something] if "@) + comp_t(o, 0) + tx(" "@) + br_t(bs, o, 1)
}

fn op36_parts<'a>(bs: &Vec<u32>, op: u8, ops: &Vec<Operand<'a>>) -> (p: Vec<ListingPart<'a>>)
    ensures
        listing_view(p@) == op36_text(bs@, op, operands_view(ops@)),
{
    let mut p = new_parts();
    put(&mut p, "Branch on distance to something] if ");
    put_comp(&mut p, ops, 0);
    put(&mut p, " ");
    put_br(&mut p, bs, ops, 1);
    p
}

/// What instruction 0x37 writes.
pub open spec fn op37_text(bs: Seq<u32>, op: u8, o: Seq<OperandV>) -> Seq<PartV> {
    Seq::empty() + tx("Set entity someCmiDataValue] values[5] = "@) + var_t(o, 0)
}

fn op37_parts<'a>(bs: &Vec<u32>, op: u8, ops: &Vec<Operand<'a>>) -> (p: Vec<ListingPart<'a>>)
    ensures
        listing_view(p@) == op37_text(bs@, op, operands_view(ops@)),
{
    let mut p = new_parts();
    put(&mut p, "Set entity someCmiDataValue] values[5] = ");
    put_var(&mut p, ops, 0);
    p
}

/// What instruction 0x38 writes.
pub open spec fn op38_text(bs: Seq<u32>, op: u8, o: Seq<OperandV>) -> Seq<PartV> {
    Seq::empty() + tx("Add someCmiField10] delta: "@) + num_t(onum_s(o, 0))
}

fn op38_parts<'a>(bs: &Vec<u32>, op: u8, ops: &Vec<Operand<'a>>) -> (p: Vec<ListingPart<'a>>)
    ensures
        listing_view(p@) == op38_text(bs@, op, operands_view(ops@)),
{
    let mut p = new_parts();
    put(&mut p, "Add someCmiField10] delta: ");
    put_num(&mut p, onum(ops, 0));
    p
}

/// What instruction 0x39 writes.
pub open spec fn op39_text(bs: Seq<u32>, op: u8, o: Seq<OperandV>) -> Seq<PartV> {
    Seq::empty() + tx("Branch if visible] distance: "@) + num_t(onum_s(o, 0)) + tx(", angle: "@) + num_t(onum_s(o, 1)) + tx(", "@) + br_t(bs, o, 2)
}

fn op39_parts<'a>(bs: &Vec<u32>, op: u8, ops: &Vec<Operand<'a>>) -> (p: Vec<ListingPart<'a>>)
    ensures
        listing_view(p@) == op39_text(bs@, op, operands_view(ops@)),
{
    let mut p = new_parts();
    put(&mut p, "Branch if visible] distance: ");
    put_num(&mut p, onum(ops, 0));
    put(&mut p, ", angle: ");
    put_num(&mut p, onum(ops, 1));
    put(&mut p, ", ");
    put_br(&mut p, bs, ops, 2);
    p
}

/// What instruction 0x3A writes.
pub open spec fn op3a_text(bs: Seq<u32>, op: u8, o: Seq<OperandV>) -> Seq<PartV> {
    Seq::empty() + tx("Set anim framerate] framerate: "@) + var_t(o, 0)
}

fn op3a_parts<'a>(bs: &Vec<u32>, op: u8, ops: &Vec<Operand<'a>>) -> (p: Vec<ListingPart<'a>>)
    ensures
        listing_view(p@) == op3a_text(bs@, op, operands_view(ops@)),
{
    let mut p = new_parts();
    put(&mut p, "Set anim framerate] framerate: ");
    put_var(&mut p, ops, 0);
    p
}

/// What instruction 0x3B writes.
pub open spec fn op3b_text(bs: Seq<u32>, op: u8, o: Seq<OperandV>) -> Seq<PartV> {
    Seq::empty() + (if named_s(o, 0) { Seq::empty() + tx("Set anim] name: "@) + name_t(o, 0) } else { Seq::empty() + tx("Set anim] anim offset: "@) + hex_t(onum_s(o, 0), 6) })
}

fn op3b_parts<'a>(bs: &Vec<u32>, op: u8, ops: &Vec<Operand<'a>>) -> (p: Vec<ListingPart<'a>>)
    ensures
        listing_view(p@) == op3b_text(bs@, op, operands_view(ops@)),
{
    let mut p = new_parts();
    let q1 = if named(ops, 0) {
        let mut q1 = new_parts();
        put(&mut q1, "Set anim] name: ");
        put_name(&mut q1, ops, 0);
        q1
    } else {
        let mut q1 = new_parts();
        put(&mut q1, "Set anim] anim offset: ");
        put_hex(&mut q1, onum(ops, 0), 6);
        q1
    };
    append_parts(&mut p, q1);
    p
}

/// What instruction 0x3C writes.
pub open spec fn op3c_text(bs: Seq<u32>, op: u8, o: Seq<OperandV>) -> Seq<PartV> {
    Seq::empty() + tx("Face player 2]"@)
}

fn op3c_parts<'a>(bs: &Vec<u32>, op: u8, ops: &Vec<Operand<'a>>) -> (p: Vec<ListingPart<'a>>)
    ensures
        listing_view(p@) == op3c_text(bs@, op, operands_view(ops@)),
{
    let mut p = new_parts();
    put(&mut p, "Face player 2]");
    p
}

/// What instruction 0x3D writes.
pub open spec fn op3d_text(bs: Seq<u32>, op: u8, o: Seq<OperandV>) -> Seq<PartV> {
    Seq::empty() + (if onum_s(o, 0) == 0 { Seq::empty() + tx("Spawn badguy] point index: "@) + num_t(onum_s(o, 1)) + tx(", name: "@) + name_t(o, 2) + tx(", target: "@) + ext_t(o, 3) } else { Seq::empty() + tx("Spawn badguy] target name: "@) + name_t(o, 1) + tx(", name: "@) + name_t(o, 2) + tx(", target: "@) + ext_t(o, 3) })
}

fn op3d_parts<'a>(bs: &Vec<u32>, op: u8, ops: &Vec<Operand<'a>>) -> (p: Vec<ListingPart<'a>>)
    ensures
        listing_view(p@) == op3d_text(bs@, op, operands_view(ops@)),
{
    let mut p = new_parts();
    let q1 = if onum(ops, 0) == 0 {
        let mut q1 = new_parts();
        put(&mut q1, "Spawn badguy] point index: ");
        put_num(&mut q1, onum(ops, 1));
        put(&mut q1, ", name: ");
        put_name(&mut q1, ops, 2);
        put(&mut q1, ", target: ");
        put_ext(&mut q1, ops, 3);
        q1
    } else {
        let mut q1 = new_parts();
        put(&mut q1, "Spawn badguy] target name: ");
        put_name(&mut q1, ops, 1);
        put(&mut q1, ", name: ");
        put_name(&mut q1, ops, 2);
        put(&mut q1, ", target: ");
        put_ext(&mut q1, ops, 3);
        q1
    };
    append_parts(&mut p, q1);
    p
}

/// What instruction 0x3E writes.
pub open spec fn op3e_text(bs: Seq<u32>, op: u8, o: Seq<OperandV>) -> Seq<PartV> {
    Seq::empty() + tx("Branch on angle to player] if "@) + comp_t(o, 0) + tx(" "@) + br_t(bs, o, 1)
}

fn op3e_parts<'a>(bs: &Vec<u32>, op: u8, ops: &Vec<Operand<'a>>) -> (p: Vec<ListingPart<'a>>)
    ensures
        listing_view(p@) == op3e_text(bs@, op, operands_view(ops@)),
{
    let mut p = new_parts();
    put(&mut p, "Branch on angle to player] if ");
    put_comp(&mut p, ops, 0);
    put(&mut p, " ");
    put_br(&mut p, bs, ops, 1);
    p
}

/// What instruction 0x3F writes.
pub open spec fn op3f_text(bs: Seq<u32>, op: u8, o: Seq<OperandV>) -> Seq<PartV> {
    Seq::empty() + (if onum_s(o, 0) == 0 { Seq::empty() + tx("Set flag 0x10]"@) } else { Seq::empty() + tx("Clear flag 0x10]"@) })
}

fn op3f_parts<'a>(bs: &Vec<u32>, op: u8, ops: &Vec<Operand<'a>>) -> (p: Vec<ListingPart<'a>>)
    ensures
        listing_view(p@) == op3f_text(bs@, op, operands_view(ops@)),
{
    let mut p = new_parts();
    let q1 = if onum(ops, 0) == 0 {
        let mut q1 = new_parts();
        put(&mut q1, "Set flag 0x10]");
        q1
    } else {
        let mut q1 = new_parts();
        put(&mut q1, "Clear flag 0x10]");
        q1
    };
    append_parts(&mut p, q1);
    p
}

/// What instruction 0x40 writes.
pub open spec fn op40_text(bs: Seq<u32>, op: u8, o: Seq<OperandV>) -> Seq<PartV> {
    Seq::empty() + tx("Delay] "@) + var_t(o, 0)
}

fn op40_parts<'a>(bs: &Vec<u32>, op: u8, ops: &Vec<Operand<'a>>) -> (p: Vec<ListingPart<'a>>)
    ensures
        listing_view(p@) == op40_text(bs@, op, operands_view(ops@)),
{
    let mut p = new_parts();
    put(&mut p, "Delay] ");
    put_var(&mut p, ops, 0);
    p
}

/// What instruction 0x41 writes.
pub open spec fn op41_text(bs: Seq<u32>, op: u8, o: Seq<OperandV>) -> Seq<PartV> {
    Seq::empty() + tx("Set Variable] "@) + svar_t(o, 0) + tx(" = "@) + fl_t(o, 1)
}

fn op41_parts<'a>(bs: &Vec<u32>, op: u8, ops: &Vec<Operand<'a>>) -> (p: Vec<ListingPart<'a>>)
    ensures
        listing_view(p@) == op41_text(bs@, op, operands_view(ops@)),
{
    let mut p = new_parts();
    put(&mut p, "Set Variable] ");
    put_svar(&mut p, ops, 0);
    put(&mut p, " = ");
    put_fl(&mut p, ops, 1);
    p
}

/// What instruction 0x42 writes.
pub open spec fn op42_text(bs: Seq<u32>, op: u8, o: Seq<OperandV>) -> Seq<PartV> {
    Seq::empty() + tx("Add to variable] "@) + svar_t(o, 0) + tx(" += "@) + fl_t(o, 1)
}

fn op42_parts<'a>(bs: &Vec<u32>, op: u8, ops: &Vec<Operand<'a>>) -> (p: Vec<ListingPart<'a>>)
    ensures
        listing_view(p@) == op42_text(bs@, op, operands_view(ops@)),
{
    let mut p = new_parts();
    put(&mut p, "Add to variable] ");
    put_svar(&mut p, ops, 0);
    put(&mut p, " += ");
    put_fl(&mut p, ops, 1);
    p
}

/// What instruction 0x43 writes.
pub open spec fn op43_text(bs: Seq<u32>, op: u8, o: Seq<OperandV>) -> Seq<PartV> {
    Seq::empty() + tx("Branch on variable compare] if "@) + compv_t(o, 1, 0) + tx(" "@) + br_t(bs, o, 2)
}

fn op43_parts<'a>(bs: &Vec<u32>, op: u8, ops: &Vec<Operand<'a>>) -> (p: Vec<ListingPart<'a>>)
    ensures
        listing_view(p@) == op43_text(bs@, op, operands_view(ops@)),
{
    let mut p = new_parts();
    put(&mut p, "Branch on variable compare] if ");
    put_compv(&mut p, ops, 1, 0);
    put(&mut p, " ");
    put_br(&mut p, bs, ops, 2);
    p
}

/// What instruction 0x44 writes.
pub open spec fn op44_text(bs: Seq<u32>, op: u8, o: Seq<OperandV>) -> Seq<PartV> {
    Seq::empty() + tx("Set flag var] "@) + flag_t(o, 0) + tx(" = true"@)
}

fn op44_parts<'a>(bs: &Vec<u32>, op: u8, ops: &Vec<Operand<'a>>) -> (p: Vec<ListingPart<'a>>)
    ensures
        listing_view(p@) == op44_text(bs@, op, operands_view(ops@)),
{
    let mut p = new_parts();
    put(&mut p, "Set flag var] ");
    put_flag(&mut p, ops, 0);
    put(&mut p, " = true");
    p
}

/// What instruction 0x45 writes.
pub open spec fn op45_text(bs: Seq<u32>, op: u8, o: Seq<OperandV>) -> Seq<PartV> {
    Seq::empty() + tx("Clear flag var] "@) + flag_t(o, 0) + tx(" = false"@)
}

fn op45_parts<'a>(bs: &Vec<u32>, op: u8, ops: &Vec<Operand<'a>>) -> (p: Vec<ListingPart<'a>>)
    ensures
        listing_view(p@) == op45_text(bs@, op, operands_view(ops@)),
{
    let mut p = new_parts();
    put(&mut p, "Clear flag var] ");
    put_flag(&mut p, ops, 0);
    put(&mut p, " = false");
    p
}

/// What instruction 0x46 writes.
pub open spec fn op46_text(bs: Seq<u32>, op: u8, o: Seq<OperandV>) -> Seq<PartV> {
    Seq::empty() + tx("Toggle flag var] "@) + flag_t(o, 0) + tx(" = (toggle)"@)
}

fn op46_parts<'a>(bs: &Vec<u32>, op: u8, ops: &Vec<Operand<'a>>) -> (p: Vec<ListingPart<'a>>)
    ensures
        listing_view(p@) == op46_text(bs@, op, operands_view(ops@)),
{
    let mut p = new_parts();
    put(&mut p, "Toggle flag var] ");
    put_flag(&mut p, ops, 0);
    put(&mut p, " = (toggle)");
    p
}

/// What instructions 0x47 | 0x48 write.
pub open spec fn op47_text(bs: Seq<u32>, op: u8, o: Seq<OperandV>) -> Seq<PartV> {
    Seq::empty() + tx("Branch on flag var] if "@) + flag_t(o, 0) + tx(" "@) + (if op == 0x47 { Seq::empty() + tx("== true"@) } else { Seq::empty() + tx("== false"@) }) + tx(" "@) + br_t(bs, o, 1)
}

fn op47_parts<'a>(bs: &Vec<u32>, op: u8, ops: &Vec<Operand<'a>>) -> (p: Vec<ListingPart<'a>>)
    ensures
        listing_view(p@) == op47_text(bs@, op, operands_view(ops@)),
{
    let mut p = new_parts();
    put(&mut p, "Branch on flag var] if ");
    put_flag(&mut p, ops, 0);
    put(&mut p, " ");
    let q1 = if op == 0x47 {
        let mut q1 = new_parts();
        put(&mut q1, "== true");
        q1
    } else {
        let mut q1 = new_parts();
        put(&mut q1, "== false");
        q1
    };
    append_parts(&mut p, q1);
    put(&mut p, " ");
    put_br(&mut p, bs, ops, 1);
    p
}

/// What instruction 0x49 writes.
pub open spec fn op49_text(bs: Seq<u32>, op: u8, o: Seq<OperandV>) -> Seq<PartV> {
    Seq::empty() + tx("Set max order range] value: "@) + num_t(onum_s(o, 0))
}

fn op49_parts<'a>(bs: &Vec<u32>, op: u8, ops: &Vec<Operand<'a>>) -> (p: Vec<ListingPart<'a>>)
    ensures
        listing_view(p@) == op49_text(bs@, op, operands_view(ops@)),
{
    let mut p = new_parts();
    put(&mut p, "Set max order range] value: ");
    put_num(&mut p, onum(ops, 0));
    p
}

/// What instruction 0x4A writes.
pub open spec fn op4a_text(bs: Seq<u32>, op: u8, o: Seq<OperandV>) -> Seq<PartV> {
    Seq::empty() + tx("Set some alien] value1: "@) + num_t(onum_s(o, 0)) + tx(", value2: "@) + num_t(onum_s(o, 1)) + tx(", name: "@) + name_t(o, 2)
}

fn op4a_parts<'a>(bs: &Vec<u32>, op: u8, ops: &Vec<Operand<'a>>) -> (p: Vec<ListingPart<'a>>)
    ensures
        listing_view(p@) == op4a_text(bs@, op, operands_view(ops@)),
{
    let mut p = new_parts();
    put(&mut p, "Set some alien] value1: ");
    put_num(&mut p, onum(ops, 0));
    put(&mut p, ", value2: ");
    put_num(&mut p, onum(ops, 1));
    put(&mut p, ", name: ");
    put_name(&mut p, ops, 2);
    p
}

/// What instruction 0x4B writes.
pub open spec fn op4b_text(bs: Seq<u32>, op: u8, o: Seq<OperandV>) -> Seq<PartV> {
    Seq::empty() + tx("Clear someCmiFIeld]"@)
}

fn op4b_parts<'a>(bs: &Vec<u32>, op: u8, ops: &Vec<Operand<'a>>) -> (p: Vec<ListingPart<'a>>)
    ensures
        listing_view(p@) == op4b_text(bs@, op, operands_view(ops@)),
{
    let mut p = new_parts();
    put(&mut p, "Clear someCmiFIeld]");
    p
}

/// What instruction 0x4C writes.
pub open spec fn op4c_text(bs: Seq<u32>, op: u8, o: Seq<OperandV>) -> Seq<PartV> {
    Seq::empty() + tx("Set on killed function] target: "@) + blk_t(bs, o, 0)
}

fn op4c_parts<'a>(bs: &Vec<u32>, op: u8, ops: &Vec<Operand<'a>>) -> (p: Vec<ListingPart<'a>>)
    ensures
        listing_view(p@) == op4c_text(bs@, op, operands_view(ops@)),
{
    let mut p = new_parts();
    put(&mut p, "Set on killed function] target: ");
    put_blk(&mut p, bs, ops, 0);
    p
}

/// What instruction 0x4D writes.
pub open spec fn op4d_text(bs: Seq<u32>, op: u8, o: Seq<OperandV>) -> Seq<PartV> {
    Seq::empty() + tx("Assert] message: \""@) + name_t(o, 1) + tx("\", (silent: "@) + bool_t(onum_s(o, 0) != 0) + tx(")"@)
}

fn op4d_parts<'a>(bs: &Vec<u32>, op: u8, ops: &Vec<Operand<'a>>) -> (p: Vec<ListingPart<'a>>)
    ensures
        listing_view(p@) == op4d_text(bs@, op, operands_view(ops@)),
{
    let mut p = new_parts();
    put(&mut p, "Assert] message: \"");
    put_name(&mut p, ops, 1);
    put(&mut p, "\", (silent: ");
    put_bool(&mut p, onum(ops, 0) != 0);
    put(&mut p, ")");
    p
}

/// What instruction 0x4E writes.
pub open spec fn op4e_text(bs: Seq<u32>, op: u8, o: Seq<OperandV>) -> Seq<PartV> {
    Seq::empty() + tx("Set home] "@) + v3_t(o, 0)
}

fn op4e_parts<'a>(bs: &Vec<u32>, op: u8, ops: &Vec<Operand<'a>>) -> (p: Vec<ListingPart<'a>>)
    ensures
        listing_view(p@) == op4e_text(bs@, op, operands_view(ops@)),
{
    let mut p = new_parts();
    put(&mut p, "Set home] ");
    put_v3(&mut p, ops, 0);
    p
}

/// What instruction 0x4F writes.
pub open spec fn op4f_text(bs: Seq<u32>, op: u8, o: Seq<OperandV>) -> Seq<PartV> {
    Seq::empty() + tx("Set position] pos: "@) + v3_t(o, 0)
}

fn op4f_parts<'a>(bs: &Vec<u32>, op: u8, ops: &Vec<Operand<'a>>) -> (p: Vec<ListingPart<'a>>)
    ensures
        listing_view(p@) == op4f_text(bs@, op, operands_view(ops@)),
{
    let mut p = new_parts();
    put(&mut p, "Set position] pos: ");
    put_v3(&mut p, ops, 0);
    p
}

/// What instruction 0x50 writes.
pub open spec fn op50_text(bs: Seq<u32>, op: u8, o: Seq<OperandV>) -> Seq<PartV> {
    Seq::empty() + tx("Add velocity in facing dir] dir: "@) + v3_t(o, 0)
}

fn op50_parts<'a>(bs: &Vec<u32>, op: u8, ops: &Vec<Operand<'a>>) -> (p: Vec<ListingPart<'a>>)
    ensures
        listing_view(p@) == op50_text(bs@, op, operands_view(ops@)),
{
    let mut p = new_parts();
    put(&mut p, "Add velocity in facing dir] dir: ");
    put_v3(&mut p, ops, 0);
    p
}

/// What instruction 0x51 writes.
pub open spec fn op51_text(bs: Seq<u32>, op: u8, o: Seq<OperandV>) -> Seq<PartV> {
    Seq::empty() + tx("Move in facing dir?] speed: "@) + var_t(o, 1) + tx(", use dt: "@) + bool_t(onum_s(o, 0) == 1)
}

fn op51_parts<'a>(bs: &Vec<u32>, op: u8, ops: &Vec<Operand<'a>>) -> (p: Vec<ListingPart<'a>>)
    ensures
        listing_view(p@) == op51_text(bs@, op, operands_view(ops@)),
{
    let mut p = new_parts();
    put(&mut p, "Move in facing dir?] speed: ");
    put_var(&mut p, ops, 1);
    put(&mut p, ", use dt: ");
    put_bool(&mut p, onum(ops, 0) == 1);
    p
}

/// What instruction 0x52 writes.
pub open spec fn op52_text(bs: Seq<u32>, op: u8, o: Seq<OperandV>) -> Seq<PartV> {
    Seq::empty() + tx("Set somedata2] "@) + var_t(o, 0)
}

fn op52_parts<'a>(bs: &Vec<u32>, op: u8, ops: &Vec<Operand<'a>>) -> (p: Vec<ListingPart<'a>>)
    ensures
        listing_view(p@) == op52_text(bs@, op, operands_view(ops@)),
{
    let mut p = new_parts();
    put(&mut p, "Set somedata2] ");
    put_var(&mut p, ops, 0);
    p
}

/// What instruction 0x53 writes.
pub open spec fn op53_text(bs: Seq<u32>, op: u8, o: Seq<OperandV>) -> Seq<PartV> {
    Seq::empty() + (if is_scale_s(o, 0) { Seq::empty() + tx("Scale maybeRadius] target: "@) + scale_t(o, 0, false) + tx(", speed: "@) + scale_t(o, 0, true) } else { Seq::empty() + tx("Set maybeRadius] "@) + var_t(o, 0) })
}

fn op53_parts<'a>(bs: &Vec<u32>, op: u8, ops: &Vec<Operand<'a>>) -> (p: Vec<ListingPart<'a>>)
    ensures
        listing_view(p@) == op53_text(bs@, op, operands_view(ops@)),
{
    let mut p = new_parts();
    let q1 = if is_scale(ops, 0) {
        let mut q1 = new_parts();
        put(&mut q1, "Scale maybeRadius] target: ");
        put_scale(&mut q1, ops, 0, false);
        put(&mut q1, ", speed: ");
        put_scale(&mut q1, ops, 0, true);
        q1
    } else {
        let mut q1 = new_parts();
        put(&mut q1, "Set maybeRadius] ");
        put_var(&mut q1, ops, 0);
        q1
    };
    append_parts(&mut p, q1);
    p
}

/// What instruction 0x54 writes.
pub open spec fn op54_text(bs: Seq<u32>, op: u8, o: Seq<OperandV>) -> Seq<PartV> {
    Seq::empty() + tx("Set someCmiField11] "@) + var_t(o, 0)
}

fn op54_parts<'a>(bs: &Vec<u32>, op: u8, ops: &Vec<Operand<'a>>) -> (p: Vec<ListingPart<'a>>)
    ensures
        listing_view(p@) == op54_text(bs@, op, operands_view(ops@)),
{
    let mut p = new_parts();
    put(&mut p, "Set someCmiField11] ");
    put_var(&mut p, ops, 0);
    p
}

/// What instruction 0x55 writes.
pub open spec fn op55_text(bs: Seq<u32>, op: u8, o: Seq<OperandV>) -> Seq<PartV> {
    Seq::empty() + tx("Set some data flag7] set: "@) + bool_t(onum_s(o, 0) != 0)
}

fn op55_parts<'a>(bs: &Vec<u32>, op: u8, ops: &Vec<Operand<'a>>) -> (p: Vec<ListingPart<'a>>)
    ensures
        listing_view(p@) == op55_text(bs@, op, operands_view(ops@)),
{
    let mut p = new_parts();
    put(&mut p, "Set some data flag7] set: ");
    put_bool(&mut p, onum(ops, 0) != 0);
    p
}

/// What instruction 0x56 writes.
pub open spec fn op56_text(bs: Seq<u32>, op: u8, o: Seq<OperandV>) -> Seq<PartV> {
    Seq::empty() + tx("Spawn entity 3] name: "@) + name_t(o, 3) + tx(", pos: "@) + v3_t(o, 0) + tx(", init: "@) + ext_t(o, 4)
}

fn op56_parts<'a>(bs: &Vec<u32>, op: u8, ops: &Vec<Operand<'a>>) -> (p: Vec<ListingPart<'a>>)
    ensures
        listing_view(p@) == op56_text(bs@, op, operands_view(ops@)),
{
    let mut p = new_parts();
    put(&mut p, "Spawn entity 3] name: ");
    put_name(&mut p, ops, 3);
    put(&mut p, ", pos: ");
    put_v3(&mut p, ops, 0);
    put(&mut p, ", init: ");
    put_ext(&mut p, ops, 4);
    p
}

/// What instruction 0x57 writes.
pub open spec fn op57_text(bs: Seq<u32>, op: u8, o: Seq<OperandV>) -> Seq<PartV> {
    Seq::empty() + tx("Branch if visible] min dist: "@) + num_t(onum_s(o, 0)) + tx(", max dist: "@) + num_t(onum_s(o, 1)) + tx(", angle: "@) + num_t(onum_s(o, 2)) + tx(", "@) + br_t(bs, o, 3)
}

fn op57_parts<'a>(bs: &Vec<u32>, op: u8, ops: &Vec<Operand<'a>>) -> (p: Vec<ListingPart<'a>>)
    ensures
        listing_view(p@) == op57_text(bs@, op, operands_view(ops@)),
{
    let mut p = new_parts();
    put(&mut p, "Branch if visible] min dist: ");
    put_num(&mut p, onum(ops, 0));
    put(&mut p, ", max dist: ");
    put_num(&mut p, onum(ops, 1));
    put(&mut p, ", angle: ");
    put_num(&mut p, onum(ops, 2));
    put(&mut p, ", ");
    put_br(&mut p, bs, ops, 3);
    p
}

/// What instruction 0x58 writes.
pub open spec fn op58_text(bs: Seq<u32>, op: u8, o: Seq<OperandV>) -> Seq<PartV> {
    Seq::empty() + tx("Set some cmi fields] value: "@) + num_t(onum_s(o, 0))
}

fn op58_parts<'a>(bs: &Vec<u32>, op: u8, ops: &Vec<Operand<'a>>) -> (p: Vec<ListingPart<'a>>)
    ensures
        listing_view(p@) == op58_text(bs@, op, operands_view(ops@)),
{
    let mut p = new_parts();
    put(&mut p, "Set some cmi fields] value: ");
    put_num(&mut p, onum(ops, 0));
    p
}

/// What instruction 0x59 writes.
pub open spec fn op59_text(bs: Seq<u32>, op: u8, o: Seq<OperandV>) -> Seq<PartV> {
    Seq::empty() + (if obyte_s(o, 0) & 0x10u8 != 0u8 { Seq::empty() + tx("Play? Sound] name: "@) + name_t(o, 4) + tx(", type: "@) + hex_t(onum_s(o, 0), 0) + tx(", p1: data ("@) + v3_t(o, 1) + tx(")"@) + tx(", p2: alien position"@) } else { Seq::empty() + (if obyte_s(o, 0) & 0x20u8 != 0u8 { Seq::empty() + tx("Play? Sound] name: "@) + name_t(o, 2) + tx(", type: "@) + hex_t(onum_s(o, 0), 0) + tx(", p1: index ("@) + num_t(onum_s(o, 1)) + tx(")"@) + tx(", p2: index ("@) + num_t(onum_s(o, 1)) + tx(")"@) } else { Seq::empty() + (if obyte_s(o, 0) & 0x40u8 != 0u8 { Seq::empty() + tx("Play? Sound] name: "@) + name_t(o, 4) + tx(", type: "@) + hex_t(onum_s(o, 0), 0) + tx(", p1: data ("@) + v3_t(o, 1) + tx(")"@) + tx(", p2: data ("@) + v3_t(o, 1) + tx(")"@) } else { Seq::empty() + tx("Play? Sound] name: "@) + name_t(o, 1) + tx(", type: "@) + hex_t(onum_s(o, 0), 0) + tx(", p1: alien position"@) + tx(", p2: alien position"@) }) }) })
}

fn op59_parts<'a>(bs: &Vec<u32>, op: u8, ops: &Vec<Operand<'a>>) -> (p: Vec<ListingPart<'a>>)
    ensures
        listing_view(p@) == op59_text(bs@, op, operands_view(ops@)),
{
    let mut p = new_parts();
    let q1 = if obyte(ops, 0) & 0x10u8 != 0u8 {
        let mut q1 = new_parts();
        put(&mut q1, "Play? Sound] name: ");
        put_name(&mut q1, ops, 4);
        put(&mut q1, ", type: ");
        put_hex(&mut q1, onum(ops, 0), 0);
        put(&mut q1, ", p1: data (");
        put_v3(&mut q1, ops, 1);
        put(&mut q1, ")");
        put(&mut q1, ", p2: alien position");
        q1
    } else {
        let mut q1 = new_parts();
        let q2 = if obyte(ops, 0) & 0x20u8 != 0u8 {
            let mut q2 = new_parts();
            put(&mut q2, "Play? Sound] name: ");
            put_name(&mut q2, ops, 2);
            put(&mut q2, ", type: ");
            put_hex(&mut q2, onum(ops, 0), 0);
            put(&mut q2, ", p1: index (");
            put_num(&mut q2, onum(ops, 1));
            put(&mut q2, ")");
            put(&mut q2, ", p2: index (");
            put_num(&mut q2, onum(ops, 1));
            put(&mut q2, ")");
            q2
        } else {
            let mut q2 = new_parts();
            let q3 = if obyte(ops, 0) & 0x40u8 != 0u8 {
                let mut q3 = new_parts();
                put(&mut q3, "Play? Sound] name: ");
                put_name(&mut q3, ops, 4);
                put(&mut q3, ", type: ");
                put_hex(&mut q3, onum(ops, 0), 0);
                put(&mut q3, ", p1: data (");
                put_v3(&mut q3, ops, 1);
                put(&mut q3, ")");
                put(&mut q3, ", p2: data (");
                put_v3(&mut q3, ops, 1);
                put(&mut q3, ")");
                q3
            } else {
                let mut q3 = new_parts();
                put(&mut q3, "Play? Sound] name: ");
                put_name(&mut q3, ops, 1);
                put(&mut q3, ", type: ");
                put_hex(&mut q3, onum(ops, 0), 0);
                put(&mut q3, ", p1: alien position");
                put(&mut q3, ", p2: alien position");
                q3
            };
            append_parts(&mut q2, q3);
            q2
        };
        append_parts(&mut q1, q2);
        q1
    };
    append_parts(&mut p, q1);
    p
}

/// What instruction 0x5A writes.
pub open spec fn op5a_text(bs: Seq<u32>, op: u8, o: Seq<OperandV>) -> Seq<PartV> {
    Seq::empty() + tx("Nothing?] name: "@) + name_t(o, 0) + tx(", value: "@) + fl_t(o, 1)
}

fn op5a_parts<'a>(bs: &Vec<u32>, op: u8, ops: &Vec<Operand<'a>>) -> (p: Vec<ListingPart<'a>>)
    ensures
        listing_view(p@) == op5a_text(bs@, op, operands_view(ops@)),
{
    let mut p = new_parts();
    put(&mut p, "Nothing?] name: ");
    put_name(&mut p, ops, 0);
    put(&mut p, ", value: ");
    put_fl(&mut p, ops, 1);
    p
}

/// What instruction 0x5B writes.
pub open spec fn op5b_text(bs: Seq<u32>, op: u8, o: Seq<OperandV>) -> Seq<PartV> {
    Seq::empty() + tx("Set entity someCmiField4] "@) + var_t(o, 0)
}

fn op5b_parts<'a>(bs: &Vec<u32>, op: u8, ops: &Vec<Operand<'a>>) -> (p: Vec<ListingPart<'a>>)
    ensures
        listing_view(p@) == op5b_text(bs@, op, operands_view(ops@)),
{
    let mut p = new_parts();
    put(&mut p, "Set entity someCmiField4] ");
    put_var(&mut p, ops, 0);
    p
}

/// What instruction 0x5C writes.
pub open spec fn op5c_text(bs: Seq<u32>, op: u8, o: Seq<OperandV>) -> Seq<PartV> {
    Seq::empty() + tx("Branch on anim field] value: "@) + num_t(onum_s(o, 0)) + tx(", "@) + br_t(bs, o, 1)
}

fn op5c_parts<'a>(bs: &Vec<u32>, op: u8, ops: &Vec<Operand<'a>>) -> (p: Vec<ListingPart<'a>>)
    ensures
        listing_view(p@) == op5c_text(bs@, op, operands_view(ops@)),
{
    let mut p = new_parts();
    put(&mut p, "Branch on anim field] value: ");
    put_num(&mut p, onum(ops, 0));
    put(&mut p, ", ");
    put_br(&mut p, bs, ops, 1);
    p
}

/// What instruction 0x5D writes.
pub open spec fn op5d_text(bs: Seq<u32>, op: u8, o: Seq<OperandV>) -> Seq<PartV> {
    Seq::empty() + tx("Move towards target] speed: "@) + fl_t(o, 0) + tx(", target: "@) + v3_t(o, 1)
}

fn op5d_parts<'a>(bs: &Vec<u32>, op: u8, ops: &Vec<Operand<'a>>) -> (p: Vec<ListingPart<'a>>)
    ensures
        listing_view(p@) == op5d_text(bs@, op, operands_view(ops@)),
{
    let mut p = new_parts();
    put(&mut p, "Move towards target] speed: ");
    put_fl(&mut p, ops, 0);
    put(&mut p, ", target: ");
    put_v3(&mut p, ops, 1);
    p
}

/// What instructions 0x5E | 0x5F write.
pub open spec fn op5e_text(bs: Seq<u32>, op: u8, o: Seq<OperandV>) -> Seq<PartV> {
    Seq::empty() + (if op == 0x5E { Seq::empty() + tx("Weighted random jump] targets: ["@) } else { Seq::empty() + tx("Weighted random call] targets: ["@) }) + weights_t(bs, oweighted_s(o, 0), oweighted_s(o, 0).len() as int) + tx("]"@)
}

fn op5e_parts<'a>(bs: &Vec<u32>, op: u8, ops: &Vec<Operand<'a>>) -> (p: Vec<ListingPart<'a>>)
    ensures
        listing_view(p@) == op5e_text(bs@, op, operands_view(ops@)),
{
    let mut p = new_parts();
    let q1 = if op == 0x5E {
        let mut q1 = new_parts();
        put(&mut q1, "Weighted random jump] targets: [");
        q1
    } else {
        let mut q1 = new_parts();
        put(&mut q1, "Weighted random call] targets: [");
        q1
    };
    append_parts(&mut p, q1);
    put_weights(&mut p, bs, ops, 0);
    put(&mut p, "]");
    p
}

/// What instruction 0x60 writes.
pub open spec fn op60_text(bs: Seq<u32>, op: u8, o: Seq<OperandV>) -> Seq<PartV> {
    Seq::empty() + tx("Branch on player in square] min XY: "@) + arr_t(o, 0, 2) + tx(", max XY: "@) + arr_t(o, 2, 2) + tx(", "@) + br_t(bs, o, 4)
}

fn op60_parts<'a>(bs: &Vec<u32>, op: u8, ops: &Vec<Operand<'a>>) -> (p: Vec<ListingPart<'a>>)
    ensures
        listing_view(p@) == op60_text(bs@, op, operands_view(ops@)),
{
    let mut p = new_parts();
    put(&mut p, "Branch on player in square] min XY: ");
    put_arr(&mut p, ops, 0, 2);
    put(&mut p, ", max XY: ");
    put_arr(&mut p, ops, 2, 2);
    put(&mut p, ", ");
    put_br(&mut p, bs, ops, 4);
    p
}

/// What instruction 0x61 writes.
pub open spec fn op61_text(bs: Seq<u32>, op: u8, o: Seq<OperandV>) -> Seq<PartV> {
    Seq::empty() + tx("Set entity flag 80] set: "@) + num_t(onum_s(o, 0))
}

fn op61_parts<'a>(bs: &Vec<u32>, op: u8, ops: &Vec<Operand<'a>>) -> (p: Vec<ListingPart<'a>>)
    ensures
        listing_view(p@) == op61_text(bs@, op, operands_view(ops@)),
{
    let mut p = new_parts();
    put(&mut p, "Set entity flag 80] set: ");
    put_num(&mut p, onum(ops, 0));
    p
}

/// What instruction 0x62 writes.
pub open spec fn op62_text(bs: Seq<u32>, op: u8, o: Seq<OperandV>) -> Seq<PartV> {
    Seq::empty() + tx("Set Triangle Visibility] id: "@) + num_t(onum_s(o, 0)) + tx(", visflag: "@) + visflag_t(o, 1)
}

fn op62_parts<'a>(bs: &Vec<u32>, op: u8, ops: &Vec<Operand<'a>>) -> (p: Vec<ListingPart<'a>>)
    ensures
        listing_view(p@) == op62_text(bs@, op, operands_view(ops@)),
{
    let mut p = new_parts();
    put(&mut p, "Set Triangle Visibility] id: ");
    put_num(&mut p, onum(ops, 0));
    put(&mut p, ", visflag: ");
    put_visflag(&mut p, ops, 1);
    p
}

/// What instruction 0x63 writes.
pub open spec fn op63_text(bs: Seq<u32>, op: u8, o: Seq<OperandV>) -> Seq<PartV> {
    Seq::empty() + tx("Set triangle damage trigger] trigger index: "@) + num_t(onum_s(o, 0)) + tx(", id: "@) + num_t(onum_s(o, 1)) + tx(", target: "@) + blk_t(bs, o, 2)
}

fn op63_parts<'a>(bs: &Vec<u32>, op: u8, ops: &Vec<Operand<'a>>) -> (p: Vec<ListingPart<'a>>)
    ensures
        listing_view(p@) == op63_text(bs@, op, operands_view(ops@)),
{
    let mut p = new_parts();
    put(&mut p, "Set triangle damage trigger] trigger index: ");
    put_num(&mut p, onum(ops, 0));
    put(&mut p, ", id: ");
    put_num(&mut p, onum(ops, 1));
    put(&mut p, ", target: ");
    put_blk(&mut p, bs, ops, 2);
    p
}

/// What instruction 0x64 writes.
pub open spec fn op64_text(bs: Seq<u32>, op: u8, o: Seq<OperandV>) -> Seq<PartV> {
    Seq::empty() + tx("Show arena] name: "@) + name_t(o, 0)
}

fn op64_parts<'a>(bs: &Vec<u32>, op: u8, ops: &Vec<Operand<'a>>) -> (p: Vec<ListingPart<'a>>)
    ensures
        listing_view(p@) == op64_text(bs@, op, operands_view(ops@)),
{
    let mut p = new_parts();
    put(&mut p, "Show arena] name: ");
    put_name(&mut p, ops, 0);
    p
}

/// What instruction 0x65 writes.
pub open spec fn op65_text(bs: Seq<u32>, op: u8, o: Seq<OperandV>) -> Seq<PartV> {
    Seq::empty() + tx("Face player]"@)
}

fn op65_parts<'a>(bs: &Vec<u32>, op: u8, ops: &Vec<Operand<'a>>) -> (p: Vec<ListingPart<'a>>)
    ensures
        listing_view(p@) == op65_text(bs@, op, operands_view(ops@)),
{
    let mut p = new_parts();
    put(&mut p, "Face player]");
    p
}

/// What instruction 0x66 writes.
pub open spec fn op66_text(bs: Seq<u32>, op: u8, o: Seq<OperandV>) -> Seq<PartV> {
    Seq::empty() + tx("Call if path exists] "@) + br_t(bs, o, 0)
}

fn op66_parts<'a>(bs: &Vec<u32>, op: u8, ops: &Vec<Operand<'a>>) -> (p: Vec<ListingPart<'a>>)
    ensures
        listing_view(p@) == op66_text(bs@, op, operands_view(ops@)),
{
    let mut p = new_parts();
    put(&mut p, "Call if path exists] ");
    put_br(&mut p, bs, ops, 0);
    p
}

/// What instruction 0x67 writes.
pub open spec fn op67_text(bs: Seq<u32>, op: u8, o: Seq<OperandV>) -> Seq<PartV> {
    Seq::empty() + tx("Trigger? (aabb)] min: "@) + v3_t(o, 3) + tx(", max: "@) + v3_t(o, 0) + tx(", "@) + br_t(bs, o, 6)
}

fn op67_parts<'a>(bs: &Vec<u32>, op: u8, ops: &Vec<Operand<'a>>) -> (p: Vec<ListingPart<'a>>)
    ensures
        listing_view(p@) == op67_text(bs@, op, operands_view(ops@)),
{
    let mut p = new_parts();
    put(&mut p, "Trigger? (aabb)] min: ");
    put_v3(&mut p, ops, 3);
    put(&mut p, ", max: ");
    put_v3(&mut p, ops, 0);
    put(&mut p, ", ");
    put_br(&mut p, bs, ops, 6);
    p
}

/// What instruction 0x68 writes.
pub open spec fn op68_text(bs: Seq<u32>, op: u8, o: Seq<OperandV>) -> Seq<PartV> {
    Seq::empty() + tx("Look at target] random weight: "@) + fl_t(o, 0)
}

fn op68_parts<'a>(bs: &Vec<u32>, op: u8, ops: &Vec<Operand<'a>>) -> (p: Vec<ListingPart<'a>>)
    ensures
        listing_view(p@) == op68_text(bs@, op, operands_view(ops@)),
{
    let mut p = new_parts();
    put(&mut p, "Look at target] random weight: ");
    put_fl(&mut p, ops, 0);
    p
}

/// What instruction 0x69 writes.
pub open spec fn op69_text(bs: Seq<u32>, op: u8, o: Seq<OperandV>) -> Seq<PartV> {
    Seq::empty() + tx("Turn to face stuff] values: "@) + arr_t(o, 0, 5)
}

fn op69_parts<'a>(bs: &Vec<u32>, op: u8, ops: &Vec<Operand<'a>>) -> (p: Vec<ListingPart<'a>>)
    ensures
        listing_view(p@) == op69_text(bs@, op, operands_view(ops@)),
{
    let mut p = new_parts();
    put(&mut p, "Turn to face stuff] values: ");
    put_arr(&mut p, ops, 0, 5);
    p
}

/// What instruction 0x6A writes.
pub open spec fn op6a_text(bs: Seq<u32>, op: u8, o: Seq<OperandV>) -> Seq<PartV> {
    Seq::empty() + tx("Set entity arena2OrFloatValue] value: "@) + fl_t(o, 0)
}

fn op6a_parts<'a>(bs: &Vec<u32>, op: u8, ops: &Vec<Operand<'a>>) -> (p: Vec<ListingPart<'a>>)
    ensures
        listing_view(p@) == op6a_text(bs@, op, operands_view(ops@)),
{
    let mut p = new_parts();
    put(&mut p, "Set entity arena2OrFloatValue] value: ");
    put_fl(&mut p, ops, 0);
    p
}

/// What instruction 0x6B writes.
pub open spec fn op6b_text(bs: Seq<u32>, op: u8, o: Seq<OperandV>) -> Seq<PartV> {
    Seq::empty() + tx("Start sound] sound: "@) + name_t(o, 0)
}

fn op6b_parts<'a>(bs: &Vec<u32>, op: u8, ops: &Vec<Operand<'a>>) -> (p: Vec<ListingPart<'a>>)
    ensures
        listing_view(p@) == op6b_text(bs@, op, operands_view(ops@)),
{
    let mut p = new_parts();
    put(&mut p, "Start sound] sound: ");
    put_name(&mut p, ops, 0);
    p
}

/// What instruction 0x6C writes.
pub open spec fn op6c_text(bs: Seq<u32>, op: u8, o: Seq<OperandV>) -> Seq<PartV> {
    Seq::empty() + tx("Branch on hit bbox] "@) + br_t(bs, o, 0)
}

fn op6c_parts<'a>(bs: &Vec<u32>, op: u8, ops: &Vec<Operand<'a>>) -> (p: Vec<ListingPart<'a>>)
    ensures
        listing_view(p@) == op6c_text(bs@, op, operands_view(ops@)),
{
    let mut p = new_parts();
    put(&mut p, "Branch on hit bbox] ");
    put_br(&mut p, bs, ops, 0);
    p
}

/// What instruction 0x6D writes.
pub open spec fn op6d_text(bs: Seq<u32>, op: u8, o: Seq<OperandV>) -> Seq<PartV> {
    Seq::empty() + tx("Hurt entity] value: "@) + num_t(onum_s(o, 0))
}

fn op6d_parts<'a>(bs: &Vec<u32>, op: u8, ops: &Vec<Operand<'a>>) -> (p: Vec<ListingPart<'a>>)
    ensures
        listing_view(p@) == op6d_text(bs@, op, operands_view(ops@)),
{
    let mut p = new_parts();
    put(&mut p, "Hurt entity] value: ");
    put_num(&mut p, onum(ops, 0));
    p
}

/// What instruction 0x6E writes.
pub open spec fn op6e_text(bs: Seq<u32>, op: u8, o: Seq<OperandV>) -> Seq<PartV> {
    Seq::empty() + tx("Destroy entity quiet]"@)
}

fn op6e_parts<'a>(bs: &Vec<u32>, op: u8, ops: &Vec<Operand<'a>>) -> (p: Vec<ListingPart<'a>>)
    ensures
        listing_view(p@) == op6e_text(bs@, op, operands_view(ops@)),
{
    let mut p = new_parts();
    put(&mut p, "Destroy entity quiet]");
    p
}

/// What instruction 0x6F writes.
pub open spec fn op6f_text(bs: Seq<u32>, op: u8, o: Seq<OperandV>) -> Seq<PartV> {
    Seq::empty() + tx("Set entity ID] ID: "@) + num_t(onum_s(o, 0))
}

fn op6f_parts<'a>(bs: &Vec<u32>, op: u8, ops: &Vec<Operand<'a>>) -> (p: Vec<ListingPart<'a>>)
    ensures
        listing_view(p@) == op6f_text(bs@, op, operands_view(ops@)),
{
    let mut p = new_parts();
    put(&mut p, "Set entity ID] ID: ");
    put_num(&mut p, onum(ops, 0));
    p
}

/// What instruction 0x70 writes.
pub open spec fn op70_text(bs: Seq<u32>, op: u8, o: Seq<OperandV>) -> Seq<PartV> {
    Seq::empty() + (if empty_s(o, 0) { Seq::empty() + tx("Teleport] pos: "@) + v3_t(o, 1) + tx(", angle: "@) + fl_t(o, 4) } else { Seq::empty() + tx("Teleport] arena: \""@) + name_t(o, 0) + tx("\", pos: "@) + v3_t(o, 1) + tx(", angle: "@) + fl_t(o, 4) })
}

fn op70_parts<'a>(bs: &Vec<u32>, op: u8, ops: &Vec<Operand<'a>>) -> (p: Vec<ListingPart<'a>>)
    ensures
        listing_view(p@) == op70_text(bs@, op, operands_view(ops@)),
{
    let mut p = new_parts();
    let q1 = if empty_text(ops, 0) {
        let mut q1 = new_parts();
        put(&mut q1, "Teleport] pos: ");
        put_v3(&mut q1, ops, 1);
        put(&mut q1, ", angle: ");
        put_fl(&mut q1, ops, 4);
        q1
    } else {
        let mut q1 = new_parts();
        put(&mut q1, "Teleport] arena: \"");
        put_name(&mut q1, ops, 0);
        put(&mut q1, "\", pos: ");
        put_v3(&mut q1, ops, 1);
        put(&mut q1, ", angle: ");
        put_fl(&mut q1, ops, 4);
        q1
    };
    append_parts(&mut p, q1);
    p
}

/// What instruction 0x71 writes.
pub open spec fn op71_text(bs: Seq<u32>, op: u8, o: Seq<OperandV>) -> Seq<PartV> {
    Seq::empty() + tx("Spawn alien] pos: "@) + v3_t(o, 0) + tx(", name: "@) + name_t(o, 3) + tx(", init target: "@) + ext_t(o, 4)
}

fn op71_parts<'a>(bs: &Vec<u32>, op: u8, ops: &Vec<Operand<'a>>) -> (p: Vec<ListingPart<'a>>)
    ensures
        listing_view(p@) == op71_text(bs@, op, operands_view(ops@)),
{
    let mut p = new_parts();
    put(&mut p, "Spawn alien] pos: ");
    put_v3(&mut p, ops, 0);
    put(&mut p, ", name: ");
    put_name(&mut p, ops, 3);
    put(&mut p, ", init target: ");
    put_ext(&mut p, ops, 4);
    p
}

/// What instruction 0x72 writes.
pub open spec fn op72_text(bs: Seq<u32>, op: u8, o: Seq<OperandV>) -> Seq<PartV> {
    Seq::empty() + tx("Branch on someAlien] "@) + br_t(bs, o, 0)
}

fn op72_parts<'a>(bs: &Vec<u32>, op: u8, ops: &Vec<Operand<'a>>) -> (p: Vec<ListingPart<'a>>)
    ensures
        listing_view(p@) == op72_text(bs@, op, operands_view(ops@)),
{
    let mut p = new_parts();
    put(&mut p, "Branch on someAlien] ");
    put_br(&mut p, bs, ops, 0);
    p
}

/// What instruction 0x73 writes.
pub open spec fn op73_text(bs: Seq<u32>, op: u8, o: Seq<OperandV>) -> Seq<PartV> {
    Seq::empty() + tx("Branch on wall proximity] angle: "@) + fl_t(o, 0) + tx(", distance: "@) + fl_t(o, 1) + tx(", "@) + br_t(bs, o, 2)
}

fn op73_parts<'a>(bs: &Vec<u32>, op: u8, ops: &Vec<Operand<'a>>) -> (p: Vec<ListingPart<'a>>)
    ensures
        listing_view(p@) == op73_text(bs@, op, operands_view(ops@)),
{
    let mut p = new_parts();
    put(&mut p, "Branch on wall proximity] angle: ");
    put_fl(&mut p, ops, 0);
    put(&mut p, ", distance: ");
    put_fl(&mut p, ops, 1);
    put(&mut p, ", ");
    put_br(&mut p, bs, ops, 2);
    p
}

/// What instruction 0x74 writes.
pub open spec fn op74_text(bs: Seq<u32>, op: u8, o: Seq<OperandV>) -> Seq<PartV> {
    Seq::empty() + tx("Set flags] flags: "@) + hex_t(onum_s(o, 0), 0)
}

fn op74_parts<'a>(bs: &Vec<u32>, op: u8, ops: &Vec<Operand<'a>>) -> (p: Vec<ListingPart<'a>>)
    ensures
        listing_view(p@) == op74_text(bs@, op, operands_view(ops@)),
{
    let mut p = new_parts();
    put(&mut p, "Set flags] flags: ");
    put_hex(&mut p, onum(ops, 0), 0);
    p
}

/// What instruction 0x75 writes.
pub open spec fn op75_text(bs: Seq<u32>, op: u8, o: Seq<OperandV>) -> Seq<PartV> {
    Seq::empty() + tx("Clear flags] flags: "@) + hex_t(onum_s(o, 0), 0)
}

fn op75_parts<'a>(bs: &Vec<u32>, op: u8, ops: &Vec<Operand<'a>>) -> (p: Vec<ListingPart<'a>>)
    ensures
        listing_view(p@) == op75_text(bs@, op, operands_view(ops@)),
{
    let mut p = new_parts();
    put(&mut p, "Clear flags] flags: ");
    put_hex(&mut p, onum(ops, 0), 0);
    p
}

/// What instruction 0x76 writes.
pub open spec fn op76_text(bs: Seq<u32>, op: u8, o: Seq<OperandV>) -> Seq<PartV> {
    Seq::empty() + tx("Set some anim fields] value1: "@) + num_t(onum_s(o, 0)) + tx(", value2: "@) + num_t(onum_s(o, 1))
}

fn op76_parts<'a>(bs: &Vec<u32>, op: u8, ops: &Vec<Operand<'a>>) -> (p: Vec<ListingPart<'a>>)
    ensures
        listing_view(p@) == op76_text(bs@, op, operands_view(ops@)),
{
    let mut p = new_parts();
    put(&mut p, "Set some anim fields] value1: ");
    put_num(&mut p, onum(ops, 0));
    put(&mut p, ", value2: ");
    put_num(&mut p, onum(ops, 1));
    p
}

/// What instruction 0x77 writes.
pub open spec fn op77_text(bs: Seq<u32>, op: u8, o: Seq<OperandV>) -> Seq<PartV> {
    Seq::empty() + tx("Find entity and branch on comparison] name: "@) + name_t(o, 0) + tx(", if "@) + comp_t(o, 1) + tx(" "@) + br_t(bs, o, 2)
}

fn op77_parts<'a>(bs: &Vec<u32>, op: u8, ops: &Vec<Operand<'a>>) -> (p: Vec<ListingPart<'a>>)
    ensures
        listing_view(p@) == op77_text(bs@, op, operands_view(ops@)),
{
    let mut p = new_parts();
    put(&mut p, "Find entity and branch on comparison] name: ");
    put_name(&mut p, ops, 0);
    put(&mut p, ", if ");
    put_comp(&mut p, ops, 1);
    put(&mut p, " ");
    put_br(&mut p, bs, ops, 2);
    p
}

/// What instruction 0x78 writes.
pub open spec fn op78_text(bs: Seq<u32>, op: u8, o: Seq<OperandV>) -> Seq<PartV> {
    Seq::empty() + tx("Set pitch angle] angle: "@) + fl_t(o, 0)
}

fn op78_parts<'a>(bs: &Vec<u32>, op: u8, ops: &Vec<Operand<'a>>) -> (p: Vec<ListingPart<'a>>)
    ensures
        listing_view(p@) == op78_text(bs@, op, operands_view(ops@)),
{
    let mut p = new_parts();
    put(&mut p, "Set pitch angle] angle: ");
    put_fl(&mut p, ops, 0);
    p
}

/// What instruction 0x79 writes.
pub open spec fn op79_text(bs: Seq<u32>, op: u8, o: Seq<OperandV>) -> Seq<PartV> {
    Seq::empty() + tx("Branch on distance from floor] distance: "@) + fl_t(o, 0) + tx(", "@) + br_t(bs, o, 1)
}

fn op79_parts<'a>(bs: &Vec<u32>, op: u8, ops: &Vec<Operand<'a>>) -> (p: Vec<ListingPart<'a>>)
    ensures
        listing_view(p@) == op79_text(bs@, op, operands_view(ops@)),
{
    let mut p = new_parts();
    put(&mut p, "Branch on distance from floor] distance: ");
    put_fl(&mut p, ops, 0);
    put(&mut p, ", ");
    put_br(&mut p, bs, ops, 1);
    p
}

/// What instruction 0x7A writes.
pub open spec fn op7a_text(bs: Seq<u32>, op: u8, o: Seq<OperandV>) -> Seq<PartV> {
    Seq::empty() + tx("Set pitch angle] speed: "@) + fl_t(o, 0) + tx(", angle: "@) + fl_t(o, 1)
}

fn op7a_parts<'a>(bs: &Vec<u32>, op: u8, ops: &Vec<Operand<'a>>) -> (p: Vec<ListingPart<'a>>)
    ensures
        listing_view(p@) == op7a_text(bs@, op, operands_view(ops@)),
{
    let mut p = new_parts();
    put(&mut p, "Set pitch angle] speed: ");
    put_fl(&mut p, ops, 0);
    put(&mut p, ", angle: ");
    put_fl(&mut p, ops, 1);
    p
}

/// What instruction 0x7B writes.
pub open spec fn op7b_text(bs: Seq<u32>, op: u8, o: Seq<OperandV>) -> Seq<PartV> {
    Seq::empty() + tx("Branch (arena)?] "@) + br_t(bs, o, 0)
}

fn op7b_parts<'a>(bs: &Vec<u32>, op: u8, ops: &Vec<Operand<'a>>) -> (p: Vec<ListingPart<'a>>)
    ensures
        listing_view(p@) == op7b_text(bs@, op, operands_view(ops@)),
{
    let mut p = new_parts();
    put(&mut p, "Branch (arena)?] ");
    put_br(&mut p, bs, ops, 0);
    p
}

/// What instruction 0x7C writes.
pub open spec fn op7c_text(bs: Seq<u32>, op: u8, o: Seq<OperandV>) -> Seq<PartV> {
    Seq::empty() + tx("Set someAngle] value: "@) + fl_t(o, 0)
}

fn op7c_parts<'a>(bs: &Vec<u32>, op: u8, ops: &Vec<Operand<'a>>) -> (p: Vec<ListingPart<'a>>)
    ensures
        listing_view(p@) == op7c_text(bs@, op, operands_view(ops@)),
{
    let mut p = new_parts();
    put(&mut p, "Set someAngle] value: ");
    put_fl(&mut p, ops, 0);
    p
}

/// What instruction 0x7D writes.
pub open spec fn op7d_text(bs: Seq<u32>, op: u8, o: Seq<OperandV>) -> Seq<PartV> {
    Seq::empty() + tx("Clear function stack]"@)
}

fn op7d_parts<'a>(bs: &Vec<u32>, op: u8, ops: &Vec<Operand<'a>>) -> (p: Vec<ListingPart<'a>>)
    ensures
        listing_view(p@) == op7d_text(bs@, op, operands_view(ops@)),
{
    let mut p = new_parts();
    put(&mut p, "Clear function stack]");
    p
}

/// What instruction 0x7E writes.
pub open spec fn op7e_text(bs: Seq<u32>, op: u8, o: Seq<OperandV>) -> Seq<PartV> {
    Seq::empty() + tx("Look at player (pitch angle only)]"@)
}

fn op7e_parts<'a>(bs: &Vec<u32>, op: u8, ops: &Vec<Operand<'a>>) -> (p: Vec<ListingPart<'a>>)
    ensures
        listing_view(p@) == op7e_text(bs@, op, operands_view(ops@)),
{
    let mut p = new_parts();
    put(&mut p, "Look at player (pitch angle only)]");
    p
}

/// What instruction 0x7F writes.
pub open spec fn op7f_text(bs: Seq<u32>, op: u8, o: Seq<OperandV>) -> Seq<PartV> {
    Seq::empty() + tx("Branch on someCmiField_10] if "@) + comp_t(o, 0) + tx(" "@) + br_t(bs, o, 1)
}

fn op7f_parts<'a>(bs: &Vec<u32>, op: u8, ops: &Vec<Operand<'a>>) -> (p: Vec<ListingPart<'a>>)
    ensures
        listing_view(p@) == op7f_text(bs@, op, operands_view(ops@)),
{
    let mut p = new_parts();
    put(&mut p, "Branch on someCmiField_10] if ");
    put_comp(&mut p, ops, 0);
    put(&mut p, " ");
    put_br(&mut p, bs, ops, 1);
    p
}

/// What instruction 0x80 writes.
pub open spec fn op80_text(bs: Seq<u32>, op: u8, o: Seq<OperandV>) -> Seq<PartV> {
    Seq::empty() + tx("Set thing] name: "@) + name_t(o, 0) + tx(", value1: "@) + num_t(onum_s(o, 1)) + tx(", value2: "@) + num_t(onum_s(o, 2))
}

fn op80_parts<'a>(bs: &Vec<u32>, op: u8, ops: &Vec<Operand<'a>>) -> (p: Vec<ListingPart<'a>>)
    ensures
        listing_view(p@) == op80_text(bs@, op, operands_view(ops@)),
{
    let mut p = new_parts();
    put(&mut p, "Set thing] name: ");
    put_name(&mut p, ops, 0);
    put(&mut p, ", value1: ");
    put_num(&mut p, onum(ops, 1));
    put(&mut p, ", value2: ");
    put_num(&mut p, onum(ops, 2));
    p
}

/// What instruction 0x81 writes.
pub open spec fn op81_text(bs: Seq<u32>, op: u8, o: Seq<OperandV>) -> Seq<PartV> {
    Seq::empty() + tx("Blow off parts] kind: "@) + num_t(onum_s(o, 0)) + tx(", parts: ["@) + names_t(otexts_s(o, 1), otexts_s(o, 1).len() as int) + tx("]"@)
}

fn op81_parts<'a>(bs: &Vec<u32>, op: u8, ops: &Vec<Operand<'a>>) -> (p: Vec<ListingPart<'a>>)
    ensures
        listing_view(p@) == op81_text(bs@, op, operands_view(ops@)),
{
    let mut p = new_parts();
    put(&mut p, "Blow off parts] kind: ");
    put_num(&mut p, onum(ops, 0));
    put(&mut p, ", parts: [");
    put_names(&mut p, ops, 1);
    put(&mut p, "]");
    p
}

/// What instruction 0x82 writes.
pub open spec fn op82_text(bs: Seq<u32>, op: u8, o: Seq<OperandV>) -> Seq<PartV> {
    Seq::empty() + tx("Create dent]"@)
}

fn op82_parts<'a>(bs: &Vec<u32>, op: u8, ops: &Vec<Operand<'a>>) -> (p: Vec<ListingPart<'a>>)
    ensures
        listing_view(p@) == op82_text(bs@, op, operands_view(ops@)),
{
    let mut p = new_parts();
    put(&mut p, "Create dent]");
    p
}

/// What instruction 0x83 writes.
pub open spec fn op83_text(bs: Seq<u32>, op: u8, o: Seq<OperandV>) -> Seq<PartV> {
    Seq::empty() + (if 0x32 < onum_s(o, 0) { Seq::empty() + tx("Run muse5 command] code: "@) + num_t(onum_s(o, 0)) } else { Seq::empty() + tx("Run muse5 command] code: "@) + num_t(onum_s(o, 0)) + tx(" (clear currentCmiArena)"@) })
}

fn op83_parts<'a>(bs: &Vec<u32>, op: u8, ops: &Vec<Operand<'a>>) -> (p: Vec<ListingPart<'a>>)
    ensures
        listing_view(p@) == op83_text(bs@, op, operands_view(ops@)),
{
    let mut p = new_parts();
    let q1 = if 0x32 < onum(ops, 0) {
        let mut q1 = new_parts();
        put(&mut q1, "Run muse5 command] code: ");
        put_num(&mut q1, onum(ops, 0));
        q1
    } else {
        let mut q1 = new_parts();
        put(&mut q1, "Run muse5 command] code: ");
        put_num(&mut q1, onum(ops, 0));
        put(&mut q1, " (clear currentCmiArena)");
        q1
    };
    append_parts(&mut p, q1);
    p
}

/// What instruction 0x84 writes.
pub open spec fn op84_text(bs: Seq<u32>, op: u8, o: Seq<OperandV>) -> Seq<PartV> {
    Seq::empty() + (if onum_s(o, 0) < 150 { Seq::empty() + (if onum_s(o, 1) == 0xFF { Seq::empty() + tx("Create bubble] chance: "@) + num_t(onum_s(o, 0)) + tx("%, pos: "@) + v3_t(o, 2) } else { Seq::empty() + tx("Create bubble] chance: "@) + num_t(onum_s(o, 0)) + tx("%, pos: somePoints["@) + num_t(onum_s(o, 1)) + tx("]"@) }) } else { Seq::empty() + tx("Setup new chunk] change: "@) + num_t(onum_s(o, 0) - 150) + tx("%"@) })
}

fn op84_parts<'a>(bs: &Vec<u32>, op: u8, ops: &Vec<Operand<'a>>) -> (p: Vec<ListingPart<'a>>)
    ensures
        listing_view(p@) == op84_text(bs@, op, operands_view(ops@)),
{
    let mut p = new_parts();
    let q1 = if onum(ops, 0) < 150 {
        let mut q1 = new_parts();
        let q2 = if onum(ops, 1) == 0xFF {
            let mut q2 = new_parts();
            put(&mut q2, "Create bubble] chance: ");
            put_num(&mut q2, onum(ops, 0));
            put(&mut q2, "%, pos: ");
            put_v3(&mut q2, ops, 2);
            q2
        } else {
            let mut q2 = new_parts();
            put(&mut q2, "Create bubble] chance: ");
            put_num(&mut q2, onum(ops, 0));
            put(&mut q2, "%, pos: somePoints[");
            put_num(&mut q2, onum(ops, 1));
            put(&mut q2, "]");
            q2
        };
        append_parts(&mut q1, q2);
        q1
    } else {
        let mut q1 = new_parts();
        put(&mut q1, "Setup new chunk] change: ");
        put_num(&mut q1, onum(ops, 0) - 150);
        put(&mut q1, "%");
        q1
    };
    append_parts(&mut p, q1);
    p
}

/// What instruction 0x85 writes.
pub open spec fn op85_text(bs: Seq<u32>, op: u8, o: Seq<OperandV>) -> Seq<PartV> {
    Seq::empty() + tx("Do something with material] name: "@) + name_t(o, 0) + tx(", code: "@) + num_t(onum_s(o, 1)) + tx(", value: "@) + fl_t(o, 2)
}

fn op85_parts<'a>(bs: &Vec<u32>, op: u8, ops: &Vec<Operand<'a>>) -> (p: Vec<ListingPart<'a>>)
    ensures
        listing_view(p@) == op85_text(bs@, op, operands_view(ops@)),
{
    let mut p = new_parts();
    put(&mut p, "Do something with material] name: ");
    put_name(&mut p, ops, 0);
    put(&mut p, ", code: ");
    put_num(&mut p, onum(ops, 1));
    put(&mut p, ", value: ");
    put_fl(&mut p, ops, 2);
    p
}

/// What instruction 0x86 writes.
pub open spec fn op86_text(bs: Seq<u32>, op: u8, o: Seq<OperandV>) -> Seq<PartV> {
    Seq::empty() + tx("Add angle1] "@) + var_t(o, 0)
}

fn op86_parts<'a>(bs: &Vec<u32>, op: u8, ops: &Vec<Operand<'a>>) -> (p: Vec<ListingPart<'a>>)
    ensures
        listing_view(p@) == op86_text(bs@, op, operands_view(ops@)),
{
    let mut p = new_parts();
    put(&mut p, "Add angle1] ");
    put_var(&mut p, ops, 0);
    p
}

/// What instruction 0x87 writes.
pub open spec fn op87_text(bs: Seq<u32>, op: u8, o: Seq<OperandV>) -> Seq<PartV> {
    Seq::empty() + tx("Screenshake] amount: "@) + fl_t(o, 0)
}

fn op87_parts<'a>(bs: &Vec<u32>, op: u8, ops: &Vec<Operand<'a>>) -> (p: Vec<ListingPart<'a>>)
    ensures
        listing_view(p@) == op87_text(bs@, op, operands_view(ops@)),
{
    let mut p = new_parts();
    put(&mut p, "Screenshake] amount: ");
    put_fl(&mut p, ops, 0);
    p
}

/// What instruction 0x88 writes.
pub open spec fn op88_text(bs: Seq<u32>, op: u8, o: Seq<OperandV>) -> Seq<PartV> {
    Seq::empty() + tx("Create slimes] count: "@) + num_t(onum_s(o, 0)) + tx(", velocity: "@) + v3_t(o, 1) + tx(", radius: "@) + fl_t(o, 4) + tx(", position: "@) + v3_t(o, 6) + tx(", center at entity: "@) + bool_t(onum_s(o, 5) == 0) + tx(", u: "@) + fl_t(o, 9)
}

fn op88_parts<'a>(bs: &Vec<u32>, op: u8, ops: &Vec<Operand<'a>>) -> (p: Vec<ListingPart<'a>>)
    ensures
        listing_view(p@) == op88_text(bs@, op, operands_view(ops@)),
{
    let mut p = new_parts();
    put(&mut p, "Create slimes] count: ");
    put_num(&mut p, onum(ops, 0));
    put(&mut p, ", velocity: ");
    put_v3(&mut p, ops, 1);
    put(&mut p, ", radius: ");
    put_fl(&mut p, ops, 4);
    put(&mut p, ", position: ");
    put_v3(&mut p, ops, 6);
    put(&mut p, ", center at entity: ");
    put_bool(&mut p, onum(ops, 5) == 0);
    put(&mut p, ", u: ");
    put_fl(&mut p, ops, 9);
    p
}

/// What instruction 0x89 writes.
pub open spec fn op89_text(bs: Seq<u32>, op: u8, o: Seq<OperandV>) -> Seq<PartV> {
    Seq::empty() + tx("Shatter triangle 1] tri id: "@) + num_t(onum_s(o, 0)) + tx(", vec: "@) + v3_t(o, 1)
}

fn op89_parts<'a>(bs: &Vec<u32>, op: u8, ops: &Vec<Operand<'a>>) -> (p: Vec<ListingPart<'a>>)
    ensures
        listing_view(p@) == op89_text(bs@, op, operands_view(ops@)),
{
    let mut p = new_parts();
    put(&mut p, "Shatter triangle 1] tri id: ");
    put_num(&mut p, onum(ops, 0));
    put(&mut p, ", vec: ");
    put_v3(&mut p, ops, 1);
    p
}

/// What instruction 0x8A writes.
pub open spec fn op8a_text(bs: Seq<u32>, op: u8, o: Seq<OperandV>) -> Seq<PartV> {
    Seq::empty() + tx("Shatter triangle 2] tri id: "@) + num_t(onum_s(o, 0)) + tx(", vec: "@) + v3_t(o, 1) + tx(", hitPoint1: "@) + v3_t(o, 4) + tx(", hitPoint2: "@) + v3_t(o, 7)
}

fn op8a_parts<'a>(bs: &Vec<u32>, op: u8, ops: &Vec<Operand<'a>>) -> (p: Vec<ListingPart<'a>>)
    ensures
        listing_view(p@) == op8a_text(bs@, op, operands_view(ops@)),
{
    let mut p = new_parts();
    put(&mut p, "Shatter triangle 2] tri id: ");
    put_num(&mut p, onum(ops, 0));
    put(&mut p, ", vec: ");
    put_v3(&mut p, ops, 1);
    put(&mut p, ", hitPoint1: ");
    put_v3(&mut p, ops, 4);
    put(&mut p, ", hitPoint2: ");
    put_v3(&mut p, ops, 7);
    p
}

/// What instruction 0x8B writes.
pub open spec fn op8b_text(bs: Seq<u32>, op: u8, o: Seq<OperandV>) -> Seq<PartV> {
    Seq::empty() + tx("Shatter triangle 3] tri id: "@) + num_t(onum_s(o, 0)) + tx(", v1: "@) + v3_t(o, 1) + tx(", v2: "@) + v3_t(o, 4)
}

fn op8b_parts<'a>(bs: &Vec<u32>, op: u8, ops: &Vec<Operand<'a>>) -> (p: Vec<ListingPart<'a>>)
    ensures
        listing_view(p@) == op8b_text(bs@, op, operands_view(ops@)),
{
    let mut p = new_parts();
    put(&mut p, "Shatter triangle 3] tri id: ");
    put_num(&mut p, onum(ops, 0));
    put(&mut p, ", v1: ");
    put_v3(&mut p, ops, 1);
    put(&mut p, ", v2: ");
    put_v3(&mut p, ops, 4);
    p
}

/// What instruction 0x8C writes.
pub open spec fn op8c_text(bs: Seq<u32>, op: u8, o: Seq<OperandV>) -> Seq<PartV> {
    Seq::empty() + tx("Set tri colour] tri id: "@) + num_t(onum_s(o, 0)) + tx(", material: "@) + num_t(onum_s(o, 1))
}

fn op8c_parts<'a>(bs: &Vec<u32>, op: u8, ops: &Vec<Operand<'a>>) -> (p: Vec<ListingPart<'a>>)
    ensures
        listing_view(p@) == op8c_text(bs@, op, operands_view(ops@)),
{
    let mut p = new_parts();
    put(&mut p, "Set tri colour] tri id: ");
    put_num(&mut p, onum(ops, 0));
    put(&mut p, ", material: ");
    put_num(&mut p, onum(ops, 1));
    p
}

/// What instruction 0x8D writes.
pub open spec fn op8d_text(bs: Seq<u32>, op: u8, o: Seq<OperandV>) -> Seq<PartV> {
    Seq::empty() + tx("Transparency fade] index: "@) + num_t(onum_s(o, 0)) + tx(", colour: "@) + barr_t(o, 1, 4) + tx(", time: "@) + fl_t(o, 5)
}

fn op8d_parts<'a>(bs: &Vec<u32>, op: u8, ops: &Vec<Operand<'a>>) -> (p: Vec<ListingPart<'a>>)
    ensures
        listing_view(p@) == op8d_text(bs@, op, operands_view(ops@)),
{
    let mut p = new_parts();
    put(&mut p, "Transparency fade] index: ");
    put_num(&mut p, onum(ops, 0));
    put(&mut p, ", colour: ");
    put_barr(&mut p, ops, 1, 4);
    put(&mut p, ", time: ");
    put_fl(&mut p, ops, 5);
    p
}

/// What instruction 0x8E writes.
pub open spec fn op8e_text(bs: Seq<u32>, op: u8, o: Seq<OperandV>) -> Seq<PartV> {
    Seq::empty() + tx("Activate fan] id: "@) + num_t(onum_s(o, 0)) + tx(", name: "@) + name_t(o, 1) + tx(", a: "@) + num_t(onum_s(o, 2)) + tx(", b: "@) + num_t(onum_s(o, 3)) + tx(", speed: "@) + fl_t(o, 4)
}

fn op8e_parts<'a>(bs: &Vec<u32>, op: u8, ops: &Vec<Operand<'a>>) -> (p: Vec<ListingPart<'a>>)
    ensures
        listing_view(p@) == op8e_text(bs@, op, operands_view(ops@)),
{
    let mut p = new_parts();
    put(&mut p, "Activate fan] id: ");
    put_num(&mut p, onum(ops, 0));
    put(&mut p, ", name: ");
    put_name(&mut p, ops, 1);
    put(&mut p, ", a: ");
    put_num(&mut p, onum(ops, 2));
    put(&mut p, ", b: ");
    put_num(&mut p, onum(ops, 3));
    put(&mut p, ", speed: ");
    put_fl(&mut p, ops, 4);
    p
}

/// What instruction 0x8F writes.
pub open spec fn op8f_text(bs: Seq<u32>, op: u8, o: Seq<OperandV>) -> Seq<PartV> {
    Seq::empty() + tx("Deactivate fan] name: "@) + name_t(o, 0)
}

fn op8f_parts<'a>(bs: &Vec<u32>, op: u8, ops: &Vec<Operand<'a>>) -> (p: Vec<ListingPart<'a>>)
    ensures
        listing_view(p@) == op8f_text(bs@, op, operands_view(ops@)),
{
    let mut p = new_parts();
    put(&mut p, "Deactivate fan] name: ");
    put_name(&mut p, ops, 0);
    p
}

/// What instruction 0x90 writes.
pub open spec fn op90_text(bs: Seq<u32>, op: u8, o: Seq<OperandV>) -> Seq<PartV> {
    Seq::empty() + tx("Create fan] name: "@) + name_t(o, 0) + tx(", bbox: "@) + v3_t(o, 1) + tx("-"@) + v3_t(o, 4) + tx(", value1: "@) + num_t(onum_s(o, 7)) + tx(", value2: "@) + num_t(onum_s(o, 8)) + tx(", speed: "@) + fl_t(o, 9)
}

fn op90_parts<'a>(bs: &Vec<u32>, op: u8, ops: &Vec<Operand<'a>>) -> (p: Vec<ListingPart<'a>>)
    ensures
        listing_view(p@) == op90_text(bs@, op, operands_view(ops@)),
{
    let mut p = new_parts();
    put(&mut p, "Create fan] name: ");
    put_name(&mut p, ops, 0);
    put(&mut p, ", bbox: ");
    put_v3(&mut p, ops, 1);
    put(&mut p, "-");
    put_v3(&mut p, ops, 4);
    put(&mut p, ", value1: ");
    put_num(&mut p, onum(ops, 7));
    put(&mut p, ", value2: ");
    put_num(&mut p, onum(ops, 8));
    put(&mut p, ", speed: ");
    put_fl(&mut p, ops, 9);
    p
}

/// What instruction 0x91 writes.
pub open spec fn op91_text(bs: Seq<u32>, op: u8, o: Seq<OperandV>) -> Seq<PartV> {
    Seq::empty() + tx("Set fan speed] name: "@) + name_t(o, 0) + tx(", speed: "@) + fl_t(o, 1) + tx(", delta: "@) + fl_t(o, 2)
}

fn op91_parts<'a>(bs: &Vec<u32>, op: u8, ops: &Vec<Operand<'a>>) -> (p: Vec<ListingPart<'a>>)
    ensures
        listing_view(p@) == op91_text(bs@, op, operands_view(ops@)),
{
    let mut p = new_parts();
    put(&mut p, "Set fan speed] name: ");
    put_name(&mut p, ops, 0);
    put(&mut p, ", speed: ");
    put_fl(&mut p, ops, 1);
    put(&mut p, ", delta: ");
    put_fl(&mut p, ops, 2);
    p
}

/// What instruction 0x92 writes.
pub open spec fn op92_text(bs: Seq<u32>, op: u8, o: Seq<OperandV>) -> Seq<PartV> {
    Seq::empty() + tx("Activate conveyor] id: "@) + num_t(onum_s(o, 0)) + tx(", name: "@) + name_t(o, 1) + tx(", speed: "@) + fl_t(o, 2) + tx(", size: "@) + v3_t(o, 3) + tx(", scale: "@) + arr_t(o, 6, 2)
}

fn op92_parts<'a>(bs: &Vec<u32>, op: u8, ops: &Vec<Operand<'a>>) -> (p: Vec<ListingPart<'a>>)
    ensures
        listing_view(p@) == op92_text(bs@, op, operands_view(ops@)),
{
    let mut p = new_parts();
    put(&mut p, "Activate conveyor] id: ");
    put_num(&mut p, onum(ops, 0));
    put(&mut p, ", name: ");
    put_name(&mut p, ops, 1);
    put(&mut p, ", speed: ");
    put_fl(&mut p, ops, 2);
    put(&mut p, ", size: ");
    put_v3(&mut p, ops, 3);
    put(&mut p, ", scale: ");
    put_arr(&mut p, ops, 6, 2);
    p
}

/// What instruction 0x93 writes.
pub open spec fn op93_text(bs: Seq<u32>, op: u8, o: Seq<OperandV>) -> Seq<PartV> {
    Seq::empty() + tx("Deactivate conveyor] name: "@) + name_t(o, 0)
}

fn op93_parts<'a>(bs: &Vec<u32>, op: u8, ops: &Vec<Operand<'a>>) -> (p: Vec<ListingPart<'a>>)
    ensures
        listing_view(p@) == op93_text(bs@, op, operands_view(ops@)),
{
    let mut p = new_parts();
    put(&mut p, "Deactivate conveyor] name: ");
    put_name(&mut p, ops, 0);
    p
}

/// What instruction 0x94 writes.
pub open spec fn op94_text(bs: Seq<u32>, op: u8, o: Seq<OperandV>) -> Seq<PartV> {
    Seq::empty() + tx("Set conveyor speed] name: "@) + name_t(o, 0) + tx(", speed: "@) + fl_t(o, 1) + tx(", delta: "@) + fl_t(o, 2)
}

fn op94_parts<'a>(bs: &Vec<u32>, op: u8, ops: &Vec<Operand<'a>>) -> (p: Vec<ListingPart<'a>>)
    ensures
        listing_view(p@) == op94_text(bs@, op, operands_view(ops@)),
{
    let mut p = new_parts();
    put(&mut p, "Set conveyor speed] name: ");
    put_name(&mut p, ops, 0);
    put(&mut p, ", speed: ");
    put_fl(&mut p, ops, 1);
    put(&mut p, ", delta: ");
    put_fl(&mut p, ops, 2);
    p
}

/// What instruction 0x95 writes.
pub open spec fn op95_text(bs: Seq<u32>, op: u8, o: Seq<OperandV>) -> Seq<PartV> {
    Seq::empty() + tx("Spawn Door] pos: "@) + v3_t(o, 0) + tx(", angle: "@) + fl_t(o, 3) + tx(", id: "@) + num_t(onum_s(o, 4)) + tx(", name: "@) + name_t(o, 5) + tx(", arena: "@) + name_t(o, 6) + tx(", init target: "@) + ext_t(o, 7)
}

fn op95_parts<'a>(bs: &Vec<u32>, op: u8, ops: &Vec<Operand<'a>>) -> (p: Vec<ListingPart<'a>>)
    ensures
        listing_view(p@) == op95_text(bs@, op, operands_view(ops@)),
{
    let mut p = new_parts();
    put(&mut p, "Spawn Door] pos: ");
    put_v3(&mut p, ops, 0);
    put(&mut p, ", angle: ");
    put_fl(&mut p, ops, 3);
    put(&mut p, ", id: ");
    put_num(&mut p, onum(ops, 4));
    put(&mut p, ", name: ");
    put_name(&mut p, ops, 5);
    put(&mut p, ", arena: ");
    put_name(&mut p, ops, 6);
    put(&mut p, ", init target: ");
    put_ext(&mut p, ops, 7);
    p
}

/// What instruction 0x96 writes.
pub open spec fn op96_text(bs: Seq<u32>, op: u8, o: Seq<OperandV>) -> Seq<PartV> {
    Seq::empty() + tx("Set door anims] open: "@) + (if named_s(o, 0) { Seq::empty() + name_t(o, 0) } else { Seq::empty() + hex_t(onum_s(o, 0), 6) }) + tx(", close: "@) + (if named_s(o, 1) { Seq::empty() + name_t(o, 1) } else { Seq::empty() + hex_t(onum_s(o, 1), 6) })
}

fn op96_parts<'a>(bs: &Vec<u32>, op: u8, ops: &Vec<Operand<'a>>) -> (p: Vec<ListingPart<'a>>)
    ensures
        listing_view(p@) == op96_text(bs@, op, operands_view(ops@)),
{
    let mut p = new_parts();
    put(&mut p, "Set door anims] open: ");
    let q1 = if named(ops, 0) {
        let mut q1 = new_parts();
        put_name(&mut q1, ops, 0);
        q1
    } else {
        let mut q1 = new_parts();
        put_hex(&mut q1, onum(ops, 0), 6);
        q1
    };
    append_parts(&mut p, q1);
    put(&mut p, ", close: ");
    let q1 = if named(ops, 1) {
        let mut q1 = new_parts();
        put_name(&mut q1, ops, 1);
        q1
    } else {
        let mut q1 = new_parts();
        put_hex(&mut q1, onum(ops, 1), 6);
        q1
    };
    append_parts(&mut p, q1);
    p
}

/// What instruction 0x97 writes.
pub open spec fn op97_text(bs: Seq<u32>, op: u8, o: Seq<OperandV>) -> Seq<PartV> {
    Seq::empty() + tx("Set door sounds] open: \""@) + name_t(o, 0) + tx("\", close: \""@) + name_t(o, 1) + tx("\", open finish: \""@) + name_t(o, 2) + tx("\", close finish: \""@) + name_t(o, 3) + tx("\""@)
}

fn op97_parts<'a>(bs: &Vec<u32>, op: u8, ops: &Vec<Operand<'a>>) -> (p: Vec<ListingPart<'a>>)
    ensures
        listing_view(p@) == op97_text(bs@, op, operands_view(ops@)),
{
    let mut p = new_parts();
    put(&mut p, "Set door sounds] open: \"");
    put_name(&mut p, ops, 0);
    put(&mut p, "\", close: \"");
    put_name(&mut p, ops, 1);
    put(&mut p, "\", open finish: \"");
    put_name(&mut p, ops, 2);
    put(&mut p, "\", close finish: \"");
    put_name(&mut p, ops, 3);
    put(&mut p, "\"");
    p
}

/// What instruction 0x98 writes.
pub open spec fn op98_text(bs: Seq<u32>, op: u8, o: Seq<OperandV>) -> Seq<PartV> {
    Seq::empty() + tx("Set door flags] flags: "@) + door_t(o, 0)
}

fn op98_parts<'a>(bs: &Vec<u32>, op: u8, ops: &Vec<Operand<'a>>) -> (p: Vec<ListingPart<'a>>)
    ensures
        listing_view(p@) == op98_text(bs@, op, operands_view(ops@)),
{
    let mut p = new_parts();
    put(&mut p, "Set door flags] flags: ");
    put_door(&mut p, ops, 0);
    p
}

/// What instruction 0x99 writes.
pub open spec fn op99_text(bs: Seq<u32>, op: u8, o: Seq<OperandV>) -> Seq<PartV> {
    Seq::empty() + tx("Set door open distance] distance: "@) + fl_t(o, 0)
}

fn op99_parts<'a>(bs: &Vec<u32>, op: u8, ops: &Vec<Operand<'a>>) -> (p: Vec<ListingPart<'a>>)
    ensures
        listing_view(p@) == op99_text(bs@, op, operands_view(ops@)),
{
    let mut p = new_parts();
    put(&mut p, "Set door open distance] distance: ");
    put_fl(&mut p, ops, 0);
    p
}

/// What instruction 0x9A writes.
pub open spec fn op9a_text(bs: Seq<u32>, op: u8, o: Seq<OperandV>) -> Seq<PartV> {
    Seq::empty() + tx("Wait for anim progress] value: "@) + num_t(onum_s(o, 0))
}

fn op9a_parts<'a>(bs: &Vec<u32>, op: u8, ops: &Vec<Operand<'a>>) -> (p: Vec<ListingPart<'a>>)
    ensures
        listing_view(p@) == op9a_text(bs@, op, operands_view(ops@)),
{
    let mut p = new_parts();
    put(&mut p, "Wait for anim progress] value: ");
    put_num(&mut p, onum(ops, 0));
    p
}

/// What instruction 0x9B writes.
pub open spec fn op9b_text(bs: Seq<u32>, op: u8, o: Seq<OperandV>) -> Seq<PartV> {
    Seq::empty() + tx("Branch on some stack value] value: "@) + var_t(o, 0) + tx(", "@) + br_t(bs, o, 1)
}

fn op9b_parts<'a>(bs: &Vec<u32>, op: u8, ops: &Vec<Operand<'a>>) -> (p: Vec<ListingPart<'a>>)
    ensures
        listing_view(p@) == op9b_text(bs@, op, operands_view(ops@)),
{
    let mut p = new_parts();
    put(&mut p, "Branch on some stack value] value: ");
    put_var(&mut p, ops, 0);
    put(&mut p, ", ");
    put_br(&mut p, bs, ops, 1);
    p
}

/// What instruction 0x9C writes.
pub open spec fn op9c_text(bs: Seq<u32>, op: u8, o: Seq<OperandV>) -> Seq<PartV> {
    Seq::empty() + tx("Spawn alien] name: "@) + name_t(o, 1) + tx(", position: somePoints["@) + num_t(onum_s(o, 0)) + tx("], init target: "@) + ext_t(o, 2)
}

fn op9c_parts<'a>(bs: &Vec<u32>, op: u8, ops: &Vec<Operand<'a>>) -> (p: Vec<ListingPart<'a>>)
    ensures
        listing_view(p@) == op9c_text(bs@, op, operands_view(ops@)),
{
    let mut p = new_parts();
    put(&mut p, "Spawn alien] name: ");
    put_name(&mut p, ops, 1);
    put(&mut p, ", position: somePoints[");
    put_num(&mut p, onum(ops, 0));
    put(&mut p, "], init target: ");
    put_ext(&mut p, ops, 2);
    p
}

/// What instruction 0x9D writes.
pub open spec fn op9d_text(bs: Seq<u32>, op: u8, o: Seq<OperandV>) -> Seq<PartV> {
    Seq::empty() + tx("Move to data thing] name: "@) + name_t(o, 0) + tx(", arena index: "@) + num_t(onum_s(o, 1)) + tx(", speed: "@) + fl_t(o, 2)
}

fn op9d_parts<'a>(bs: &Vec<u32>, op: u8, ops: &Vec<Operand<'a>>) -> (p: Vec<ListingPart<'a>>)
    ensures
        listing_view(p@) == op9d_text(bs@, op, operands_view(ops@)),
{
    let mut p = new_parts();
    put(&mut p, "Move to data thing] name: ");
    put_name(&mut p, ops, 0);
    put(&mut p, ", arena index: ");
    put_num(&mut p, onum(ops, 1));
    put(&mut p, ", speed: ");
    put_fl(&mut p, ops, 2);
    p
}

/// What instruction 0x9E writes.
pub open spec fn op9e_text(bs: Seq<u32>, op: u8, o: Seq<OperandV>) -> Seq<PartV> {
    Seq::empty() + tx("Check touch damage] value1: "@) + num_t(onum_s(o, 0)) + tx(", damage: "@) + num_t(onum_s(o, 1)) + tx(", value3: "@) + num_t(obyte_s(o, 2) + obyte_s(o, 3) * 256 + obyte_s(o, 4) * 65536 + obyte_s(o, 5) * 16777216) + (if obyte_s(o, 2) & 2u8 != 0u8 { Seq::empty() + tx(", target: "@) + blk_t(bs, o, 6) } else { Seq::empty() })
}

fn op9e_parts<'a>(bs: &Vec<u32>, op: u8, ops: &Vec<Operand<'a>>) -> (p: Vec<ListingPart<'a>>)
    ensures
        listing_view(p@) == op9e_text(bs@, op, operands_view(ops@)),
{
    let mut p = new_parts();
    put(&mut p, "Check touch damage] value1: ");
    put_num(&mut p, onum(ops, 0));
    put(&mut p, ", damage: ");
    put_num(&mut p, onum(ops, 1));
    put(&mut p, ", value3: ");
    put_num(&mut p, obyte(ops, 2) as i64 + obyte(ops, 3) as i64 * 256 + obyte(ops, 4) as i64 * 65536 + obyte(ops, 5) as i64 * 16777216);
    let q1 = if obyte(ops, 2) & 2u8 != 0u8 {
        let mut q1 = new_parts();
        put(&mut q1, ", target: ");
        put_blk(&mut q1, bs, ops, 6);
        q1
    } else {
        let mut q1 = new_parts();
        q1
    };
    append_parts(&mut p, q1);
    p
}

/// What instruction 0x9F writes.
pub open spec fn op9f_text(bs: Seq<u32>, op: u8, o: Seq<OperandV>) -> Seq<PartV> {
    Seq::empty() + (if (onum_s(o, 0) == 1 || onum_s(o, 0) == 2) { Seq::empty() + tx("Spawn blit alien] name: "@) + name_t(o, 7) + tx(", position type: "@) + num_t(onum_s(o, 0)) + tx(", pos1: "@) + v3_t(o, 1) + tx(", pos2: "@) + v3_t(o, 4) + tx(", init target: "@) + ext_t(o, 8) } else { Seq::empty() + tx("Spawn blit alien] name: "@) + name_t(o, 4) + tx(", position type: "@) + num_t(onum_s(o, 0)) + tx(", pos1: "@) + tx("Vec3(0.0, 0.0, 0.0)"@) + tx(", pos2: "@) + v3_t(o, 1) + tx(", init target: "@) + ext_t(o, 5) })
}

fn op9f_parts<'a>(bs: &Vec<u32>, op: u8, ops: &Vec<Operand<'a>>) -> (p: Vec<ListingPart<'a>>)
    ensures
        listing_view(p@) == op9f_text(bs@, op, operands_view(ops@)),
{
    let mut p = new_parts();
    let q1 = if (onum(ops, 0) == 1 || onum(ops, 0) == 2) {
        let mut q1 = new_parts();
        put(&mut q1, "Spawn blit alien] name: ");
        put_name(&mut q1, ops, 7);
        put(&mut q1, ", position type: ");
        put_num(&mut q1, onum(ops, 0));
        put(&mut q1, ", pos1: ");
        put_v3(&mut q1, ops, 1);
        put(&mut q1, ", pos2: ");
        put_v3(&mut q1, ops, 4);
        put(&mut q1, ", init target: ");
        put_ext(&mut q1, ops, 8);
        q1
    } else {
        let mut q1 = new_parts();
        put(&mut q1, "Spawn blit alien] name: ");
        put_name(&mut q1, ops, 4);
        put(&mut q1, ", position type: ");
        put_num(&mut q1, onum(ops, 0));
        put(&mut q1, ", pos1: ");
        put(&mut q1, "Vec3(0.0, 0.0, 0.0)");
        put(&mut q1, ", pos2: ");
        put_v3(&mut q1, ops, 1);
        put(&mut q1, ", init target: ");
        put_ext(&mut q1, ops, 5);
        q1
    };
    append_parts(&mut p, q1);
    p
}

/// What instruction 0xA0 writes.
pub open spec fn opa0_text(bs: Seq<u32>, op: u8, o: Seq<OperandV>) -> Seq<PartV> {
    Seq::empty() + tx("Branch on yaw] if "@) + comp_t(o, 0) + tx(" "@) + br_t(bs, o, 1)
}

fn opa0_parts<'a>(bs: &Vec<u32>, op: u8, ops: &Vec<Operand<'a>>) -> (p: Vec<ListingPart<'a>>)
    ensures
        listing_view(p@) == opa0_text(bs@, op, operands_view(ops@)),
{
    let mut p = new_parts();
    put(&mut p, "Branch on yaw] if ");
    put_comp(&mut p, ops, 0);
    put(&mut p, " ");
    put_br(&mut p, bs, ops, 1);
    p
}

/// What instruction 0xA1 writes.
pub open spec fn opa1_text(bs: Seq<u32>, op: u8, o: Seq<OperandV>) -> Seq<PartV> {
    Seq::empty() + tx("Spawn Powerup] name: "@) + name_t(o, 3) + tx(", pos: "@) + v3_t(o, 0) + tx(", init target: "@) + ext_t(o, 4)
}

fn opa1_parts<'a>(bs: &Vec<u32>, op: u8, ops: &Vec<Operand<'a>>) -> (p: Vec<ListingPart<'a>>)
    ensures
        listing_view(p@) == opa1_text(bs@, op, operands_view(ops@)),
{
    let mut p = new_parts();
    put(&mut p, "Spawn Powerup] name: ");
    put_name(&mut p, ops, 3);
    put(&mut p, ", pos: ");
    put_v3(&mut p, ops, 0);
    put(&mut p, ", init target: ");
    put_ext(&mut p, ops, 4);
    p
}

/// What instruction 0xA2 writes.
pub open spec fn opa2_text(bs: Seq<u32>, op: u8, o: Seq<OperandV>) -> Seq<PartV> {
    Seq::empty() + tx("Write arena thing index] thing index: "@) + num_t(onum_s(o, 0)) + tx(", value: "@) + num_t(onum_s(o, 1))
}

fn opa2_parts<'a>(bs: &Vec<u32>, op: u8, ops: &Vec<Operand<'a>>) -> (p: Vec<ListingPart<'a>>)
    ensures
        listing_view(p@) == opa2_text(bs@, op, operands_view(ops@)),
{
    let mut p = new_parts();
    put(&mut p, "Write arena thing index] thing index: ");
    put_num(&mut p, onum(ops, 0));
    put(&mut p, ", value: ");
    put_num(&mut p, onum(ops, 1));
    p
}

/// What instruction 0xA3 writes.
pub open spec fn opa3_text(bs: Seq<u32>, op: u8, o: Seq<OperandV>) -> Seq<PartV> {
    Seq::empty() + tx("Branch arena thing index comparison] thing index: "@) + num_t(onum_s(o, 0)) + tx(", if "@) + comp_t(o, 1) + tx(" "@) + br_t(bs, o, 2)
}

fn opa3_parts<'a>(bs: &Vec<u32>, op: u8, ops: &Vec<Operand<'a>>) -> (p: Vec<ListingPart<'a>>)
    ensures
        listing_view(p@) == opa3_text(bs@, op, operands_view(ops@)),
{
    let mut p = new_parts();
    put(&mut p, "Branch arena thing index comparison] thing index: ");
    put_num(&mut p, onum(ops, 0));
    put(&mut p, ", if ");
    put_comp(&mut p, ops, 1);
    put(&mut p, " ");
    put_br(&mut p, bs, ops, 2);
    p
}

/// What instruction 0xA4 writes.
pub open spec fn opa4_text(bs: Seq<u32>, op: u8, o: Seq<OperandV>) -> Seq<PartV> {
    Seq::empty() + (if onum_s(o, 0) == 0 { Seq::empty() + tx("Clear entity flag 0x80]"@) } else { Seq::empty() + tx("Set some entity data fields] code: "@) + num_t(onum_s(o, 0)) + tx(", nums: "@) + arr_t(o, 1, 4) })
}

fn opa4_parts<'a>(bs: &Vec<u32>, op: u8, ops: &Vec<Operand<'a>>) -> (p: Vec<ListingPart<'a>>)
    ensures
        listing_view(p@) == opa4_text(bs@, op, operands_view(ops@)),
{
    let mut p = new_parts();
    let q1 = if onum(ops, 0) == 0 {
        let mut q1 = new_parts();
        put(&mut q1, "Clear entity flag 0x80]");
        q1
    } else {
        let mut q1 = new_parts();
        put(&mut q1, "Set some entity data fields] code: ");
        put_num(&mut q1, onum(ops, 0));
        put(&mut q1, ", nums: ");
        put_arr(&mut q1, ops, 1, 4);
        q1
    };
    append_parts(&mut p, q1);
    p
}

/// What instruction 0xA5 writes.
pub open spec fn opa5_text(bs: Seq<u32>, op: u8, o: Seq<OperandV>) -> Seq<PartV> {
    Seq::empty() + tx("Branch on has target pos] "@) + br_t(bs, o, 0)
}

fn opa5_parts<'a>(bs: &Vec<u32>, op: u8, ops: &Vec<Operand<'a>>) -> (p: Vec<ListingPart<'a>>)
    ensures
        listing_view(p@) == opa5_text(bs@, op, operands_view(ops@)),
{
    let mut p = new_parts();
    put(&mut p, "Branch on has target pos] ");
    put_br(&mut p, bs, ops, 0);
    p
}

/// What instruction 0xA6 writes.
pub open spec fn opa6_text(bs: Seq<u32>, op: u8, o: Seq<OperandV>) -> Seq<PartV> {
    Seq::empty() + tx("Branch on can see some target] "@) + br_t(bs, o, 0)
}

fn opa6_parts<'a>(bs: &Vec<u32>, op: u8, ops: &Vec<Operand<'a>>) -> (p: Vec<ListingPart<'a>>)
    ensures
        listing_view(p@) == opa6_text(bs@, op, operands_view(ops@)),
{
    let mut p = new_parts();
    put(&mut p, "Branch on can see some target] ");
    put_br(&mut p, bs, ops, 0);
    p
}

/// What instruction 0xA7 writes.
pub open spec fn opa7_text(bs: Seq<u32>, op: u8, o: Seq<OperandV>) -> Seq<PartV> {
    Seq::empty() + tx("Move towards target] distance: "@) + fl_t(o, 0)
}

fn opa7_parts<'a>(bs: &Vec<u32>, op: u8, ops: &Vec<Operand<'a>>) -> (p: Vec<ListingPart<'a>>)
    ensures
        listing_view(p@) == opa7_text(bs@, op, operands_view(ops@)),
{
    let mut p = new_parts();
    put(&mut p, "Move towards target] distance: ");
    put_fl(&mut p, ops, 0);
    p
}

/// What instruction 0xA8 writes.
pub open spec fn opa8_text(bs: Seq<u32>, op: u8, o: Seq<OperandV>) -> Seq<PartV> {
    Seq::empty() + tx("Set triangle vis? 2] id: "@) + num_t(onum_s(o, 0)) + tx(", num: "@) + num_t(onum_s(o, 1))
}

fn opa8_parts<'a>(bs: &Vec<u32>, op: u8, ops: &Vec<Operand<'a>>) -> (p: Vec<ListingPart<'a>>)
    ensures
        listing_view(p@) == opa8_text(bs@, op, operands_view(ops@)),
{
    let mut p = new_parts();
    put(&mut p, "Set triangle vis? 2] id: ");
    put_num(&mut p, onum(ops, 0));
    put(&mut p, ", num: ");
    put_num(&mut p, onum(ops, 1));
    p
}

/// What instruction 0xA9 writes.
pub open spec fn opa9_text(bs: Seq<u32>, op: u8, o: Seq<OperandV>) -> Seq<PartV> {
    Seq::empty() + tx("Set someCmiData3] value = "@) + var_t(o, 0)
}

fn opa9_parts<'a>(bs: &Vec<u32>, op: u8, ops: &Vec<Operand<'a>>) -> (p: Vec<ListingPart<'a>>)
    ensures
        listing_view(p@) == opa9_text(bs@, op, operands_view(ops@)),
{
    let mut p = new_parts();
    put(&mut p, "Set someCmiData3] value = ");
    put_var(&mut p, ops, 0);
    p
}

/// What instruction 0xAA writes.
pub open spec fn opaa_text(bs: Seq<u32>, op: u8, o: Seq<OperandV>) -> Seq<PartV> {
    Seq::empty() + tx("Move towards player] speed: "@) + fl_t(o, 0)
}

fn opaa_parts<'a>(bs: &Vec<u32>, op: u8, ops: &Vec<Operand<'a>>) -> (p: Vec<ListingPart<'a>>)
    ensures
        listing_view(p@) == opaa_text(bs@, op, operands_view(ops@)),
{
    let mut p = new_parts();
    put(&mut p, "Move towards player] speed: ");
    put_fl(&mut p, ops, 0);
    p
}

/// What instruction 0xAB writes.
pub open spec fn opab_text(bs: Seq<u32>, op: u8, o: Seq<OperandV>) -> Seq<PartV> {
    Seq::empty() + tx("Branch on someAlien2] "@) + br_t(bs, o, 0)
}

fn opab_parts<'a>(bs: &Vec<u32>, op: u8, ops: &Vec<Operand<'a>>) -> (p: Vec<ListingPart<'a>>)
    ensures
        listing_view(p@) == opab_text(bs@, op, operands_view(ops@)),
{
    let mut p = new_parts();
    put(&mut p, "Branch on someAlien2] ");
    put_br(&mut p, bs, ops, 0);
    p
}

/// What instruction 0xAC writes.
pub open spec fn opac_text(bs: Seq<u32>, op: u8, o: Seq<OperandV>) -> Seq<PartV> {
    Seq::empty() + (if onum_s(o, 0) == 3 { Seq::empty() + tx("Explosion] point index: "@) + num_t(onum_s(o, 1)) + tx(", value: "@) + fl_t(o, 2) } else { Seq::empty() + tx("Explosion] position: "@) + v3_t(o, 1) + tx(", kind: "@) + num_t(onum_s(o, 0)) + tx(", value: "@) + fl_t(o, 4) })
}

fn opac_parts<'a>(bs: &Vec<u32>, op: u8, ops: &Vec<Operand<'a>>) -> (p: Vec<ListingPart<'a>>)
    ensures
        listing_view(p@) == opac_text(bs@, op, operands_view(ops@)),
{
    let mut p = new_parts();
    let q1 = if onum(ops, 0) == 3 {
        let mut q1 = new_parts();
        put(&mut q1, "Explosion] point index: ");
        put_num(&mut q1, onum(ops, 1));
        put(&mut q1, ", value: ");
        put_fl(&mut q1, ops, 2);
        q1
    } else {
        let mut q1 = new_parts();
        put(&mut q1, "Explosion] position: ");
        put_v3(&mut q1, ops, 1);
        put(&mut q1, ", kind: ");
        put_num(&mut q1, onum(ops, 0));
        put(&mut q1, ", value: ");
        put_fl(&mut q1, ops, 4);
        q1
    };
    append_parts(&mut p, q1);
    p
}

/// What instruction 0xAD writes.
pub open spec fn opad_text(bs: Seq<u32>, op: u8, o: Seq<OperandV>) -> Seq<PartV> {
    Seq::empty() + (if empty_s(o, 0) { Seq::empty() + tx("Teleport delta] name: "@) + name_t(o, 1) + tx(", delta: "@) + v3_t(o, 2) + tx(", delta angle: "@) + fl_t(o, 5) } else { Seq::empty() + tx("Set currentCmiArena teleport] name: "@) + name_t(o, 0) })
}

fn opad_parts<'a>(bs: &Vec<u32>, op: u8, ops: &Vec<Operand<'a>>) -> (p: Vec<ListingPart<'a>>)
    ensures
        listing_view(p@) == opad_text(bs@, op, operands_view(ops@)),
{
    let mut p = new_parts();
    let q1 = if empty_text(ops, 0) {
        let mut q1 = new_parts();
        put(&mut q1, "Teleport delta] name: ");
        put_name(&mut q1, ops, 1);
        put(&mut q1, ", delta: ");
        put_v3(&mut q1, ops, 2);
        put(&mut q1, ", delta angle: ");
        put_fl(&mut q1, ops, 5);
        q1
    } else {
        let mut q1 = new_parts();
        put(&mut q1, "Set currentCmiArena teleport] name: ");
        put_name(&mut q1, ops, 0);
        q1
    };
    append_parts(&mut p, q1);
    p
}

/// What instruction 0xAE writes.
pub open spec fn opae_text(bs: Seq<u32>, op: u8, o: Seq<OperandV>) -> Seq<PartV> {
    Seq::empty() + tx("Some pickup comparison branch 1?] pickup index: "@) + num_t(onum_s(o, 0)) + tx(", if "@) + comp_t(o, 1) + tx(" "@) + br_t(bs, o, 2)
}

fn opae_parts<'a>(bs: &Vec<u32>, op: u8, ops: &Vec<Operand<'a>>) -> (p: Vec<ListingPart<'a>>)
    ensures
        listing_view(p@) == opae_text(bs@, op, operands_view(ops@)),
{
    let mut p = new_parts();
    put(&mut p, "Some pickup comparison branch 1?] pickup index: ");
    put_num(&mut p, onum(ops, 0));
    put(&mut p, ", if ");
    put_comp(&mut p, ops, 1);
    put(&mut p, " ");
    put_br(&mut p, bs, ops, 2);
    p
}

/// What instruction 0xAF writes.
pub open spec fn opaf_text(bs: Seq<u32>, op: u8, o: Seq<OperandV>) -> Seq<PartV> {
    Seq::empty() + tx("Some pickup comparison branch 2?] pickup type: "@) + num_t(onum_s(o, 0)) + tx(", "@) + comp_t(o, 1) + tx(", "@) + br_t(bs, o, 2)
}

fn opaf_parts<'a>(bs: &Vec<u32>, op: u8, ops: &Vec<Operand<'a>>) -> (p: Vec<ListingPart<'a>>)
    ensures
        listing_view(p@) == opaf_text(bs@, op, operands_view(ops@)),
{
    let mut p = new_parts();
    put(&mut p, "Some pickup comparison branch 2?] pickup type: ");
    put_num(&mut p, onum(ops, 0));
    put(&mut p, ", ");
    put_comp(&mut p, ops, 1);
    put(&mut p, ", ");
    put_br(&mut p, bs, ops, 2);
    p
}

/// What instruction 0xB0 writes.
pub open spec fn opb0_text(bs: Seq<u32>, op: u8, o: Seq<OperandV>) -> Seq<PartV> {
    Seq::empty() + tx("Branch on flags 0x40000] "@) + br_t(bs, o, 0)
}

fn opb0_parts<'a>(bs: &Vec<u32>, op: u8, ops: &Vec<Operand<'a>>) -> (p: Vec<ListingPart<'a>>)
    ensures
        listing_view(p@) == opb0_text(bs@, op, operands_view(ops@)),
{
    let mut p = new_parts();
    put(&mut p, "Branch on flags 0x40000] ");
    put_br(&mut p, bs, ops, 0);
    p
}

/// What instruction 0xB1 writes.
pub open spec fn opb1_text(bs: Seq<u32>, op: u8, o: Seq<OperandV>) -> Seq<PartV> {
    Seq::empty() + tx("Set some damage radius] value = "@) + var_t(o, 0)
}

fn opb1_parts<'a>(bs: &Vec<u32>, op: u8, ops: &Vec<Operand<'a>>) -> (p: Vec<ListingPart<'a>>)
    ensures
        listing_view(p@) == opb1_text(bs@, op, operands_view(ops@)),
{
    let mut p = new_parts();
    put(&mut p, "Set some damage radius] value = ");
    put_var(&mut p, ops, 0);
    p
}

/// What instruction 0xB2 writes.
pub open spec fn opb2_text(bs: Seq<u32>, op: u8, o: Seq<OperandV>) -> Seq<PartV> {
    Seq::empty() + (if onum_s(o, 0) == 3 { Seq::empty() + tx("Explosion] pos: "@) + tx("Vec3(0.0, 0.0, 0.0)"@) + tx(", radius: "@) + fl_t(o, 2) + tx(", value1: "@) + num_t(onum_s(o, 0)) + tx(", value2: "@) + fl_t(o, 3) + tx(", value3: "@) + fl_t(o, 4) + tx(", value4: "@) + num_t(onum_s(o, 5)) } else { Seq::empty() + tx("Explosion] pos: "@) + v3_t(o, 1) + tx(", radius: "@) + fl_t(o, 4) + tx(", value1: "@) + num_t(onum_s(o, 0)) + tx(", value2: "@) + fl_t(o, 5) + tx(", value3: "@) + fl_t(o, 6) + tx(", value4: "@) + num_t(onum_s(o, 7)) })
}

fn opb2_parts<'a>(bs: &Vec<u32>, op: u8, ops: &Vec<Operand<'a>>) -> (p: Vec<ListingPart<'a>>)
    ensures
        listing_view(p@) == opb2_text(bs@, op, operands_view(ops@)),
{
    let mut p = new_parts();
    let q1 = if onum(ops, 0) == 3 {
        let mut q1 = new_parts();
        put(&mut q1, "Explosion] pos: ");
        put(&mut q1, "Vec3(0.0, 0.0, 0.0)");
        put(&mut q1, ", radius: ");
        put_fl(&mut q1, ops, 2);
        put(&mut q1, ", value1: ");
        put_num(&mut q1, onum(ops, 0));
        put(&mut q1, ", value2: ");
        put_fl(&mut q1, ops, 3);
        put(&mut q1, ", value3: ");
        put_fl(&mut q1, ops, 4);
        put(&mut q1, ", value4: ");
        put_num(&mut q1, onum(ops, 5));
        q1
    } else {
        let mut q1 = new_parts();
        put(&mut q1, "Explosion] pos: ");
        put_v3(&mut q1, ops, 1);
        put(&mut q1, ", radius: ");
        put_fl(&mut q1, ops, 4);
        put(&mut q1, ", value1: ");
        put_num(&mut q1, onum(ops, 0));
        put(&mut q1, ", value2: ");
        put_fl(&mut q1, ops, 5);
        put(&mut q1, ", value3: ");
        put_fl(&mut q1, ops, 6);
        put(&mut q1, ", value4: ");
        put_num(&mut q1, onum(ops, 7));
        q1
    };
    append_parts(&mut p, q1);
    p
}

/// What instruction 0xB3 writes.
pub open spec fn opb3_text(bs: Seq<u32>, op: u8, o: Seq<OperandV>) -> Seq<PartV> {
    Seq::empty() + tx("Spawn alien] name: "@) + name_t(o, 0) + tx(", init target: "@) + ext_t(o, 1)
}

fn opb3_parts<'a>(bs: &Vec<u32>, op: u8, ops: &Vec<Operand<'a>>) -> (p: Vec<ListingPart<'a>>)
    ensures
        listing_view(p@) == opb3_text(bs@, op, operands_view(ops@)),
{
    let mut p = new_parts();
    put(&mut p, "Spawn alien] name: ");
    put_name(&mut p, ops, 0);
    put(&mut p, ", init target: ");
    put_ext(&mut p, ops, 1);
    p
}

/// What instruction 0xB4 writes.
pub open spec fn opb4_text(bs: Seq<u32>, op: u8, o: Seq<OperandV>) -> Seq<PartV> {
    Seq::empty() + (if onum_s(o, 0) != 0 { Seq::empty() + tx("Teleport to someDynamicThing] delta: "@) + v3_t(o, 1) } else { Seq::empty() + tx("Teleport to someDynamicThing]"@) })
}

fn opb4_parts<'a>(bs: &Vec<u32>, op: u8, ops: &Vec<Operand<'a>>) -> (p: Vec<ListingPart<'a>>)
    ensures
        listing_view(p@) == opb4_text(bs@, op, operands_view(ops@)),
{
    let mut p = new_parts();
    let q1 = if onum(ops, 0) != 0 {
        let mut q1 = new_parts();
        put(&mut q1, "Teleport to someDynamicThing] delta: ");
        put_v3(&mut q1, ops, 1);
        q1
    } else {
        let mut q1 = new_parts();
        put(&mut q1, "Teleport to someDynamicThing]");
        q1
    };
    append_parts(&mut p, q1);
    p
}

/// What instruction 0xB5 writes.
pub open spec fn opb5_text(bs: Seq<u32>, op: u8, o: Seq<OperandV>) -> Seq<PartV> {
    Seq::empty() + (if onum_s(o, 0) == 1 { Seq::empty() + tx("Set some arena stuff based on arena var] var index: "@) + num_t(onum_s(o, 1)) + tx(", value1: "@) + fl_t(o, 2) + tx(", value2: "@) + fl_t(o, 3) + tx(", value3: "@) + num_t(onum_s(o, 4)) } else { Seq::empty() + (if onum_s(o, 0) == 0 { Seq::empty() + tx("Set some arena stuff based on arena thing index] thing index: "@) + num_t(onum_s(o, 1)) + tx(", value: "@) + num_t(onum_s(o, 2)) } else { Seq::empty() + tx("Set some arena stuff (unknown)] kind: "@) + num_t(onum_s(o, 0)) }) })
}

fn opb5_parts<'a>(bs: &Vec<u32>, op: u8, ops: &Vec<Operand<'a>>) -> (p: Vec<ListingPart<'a>>)
    ensures
        listing_view(p@) == opb5_text(bs@, op, operands_view(ops@)),
{
    let mut p = new_parts();
    let q1 = if onum(ops, 0) == 1 {
        let mut q1 = new_parts();
        put(&mut q1, "Set some arena stuff based on arena var] var index: ");
        put_num(&mut q1, onum(ops, 1));
        put(&mut q1, ", value1: ");
        put_fl(&mut q1, ops, 2);
        put(&mut q1, ", value2: ");
        put_fl(&mut q1, ops, 3);
        put(&mut q1, ", value3: ");
        put_num(&mut q1, onum(ops, 4));
        q1
    } else {
        let mut q1 = new_parts();
        let q2 = if onum(ops, 0) == 0 {
            let mut q2 = new_parts();
            put(&mut q2, "Set some arena stuff based on arena thing index] thing index: ");
            put_num(&mut q2, onum(ops, 1));
            put(&mut q2, ", value: ");
            put_num(&mut q2, onum(ops, 2));
            q2
        } else {
            let mut q2 = new_parts();
            put(&mut q2, "Set some arena stuff (unknown)] kind: ");
            put_num(&mut q2, onum(ops, 0));
            q2
        };
        append_parts(&mut q1, q2);
        q1
    };
    append_parts(&mut p, q1);
    p
}

/// What instruction 0xB6 writes.
pub open spec fn opb6_text(bs: Seq<u32>, op: u8, o: Seq<OperandV>) -> Seq<PartV> {
    Seq::empty() + tx("Weird] var: "@) + svar_t(o, 0) + tx(", value: "@) + fl_t(o, 1)
}

fn opb6_parts<'a>(bs: &Vec<u32>, op: u8, ops: &Vec<Operand<'a>>) -> (p: Vec<ListingPart<'a>>)
    ensures
        listing_view(p@) == opb6_text(bs@, op, operands_view(ops@)),
{
    let mut p = new_parts();
    put(&mut p, "Weird] var: ");
    put_svar(&mut p, ops, 0);
    put(&mut p, ", value: ");
    put_fl(&mut p, ops, 1);
    p
}

/// What instruction 0xB7 writes.
pub open spec fn opb7_text(bs: Seq<u32>, op: u8, o: Seq<OperandV>) -> Seq<PartV> {
    Seq::empty() + tx("Call by var index] index: "@) + svar_t(o, 0) + tx(", targets: ["@) + blocks_t(bs, oblocks_s(o, 1), oblocks_s(o, 1).len() as int, ""@, ", "@) + tx("]"@)
}

fn opb7_parts<'a>(bs: &Vec<u32>, op: u8, ops: &Vec<Operand<'a>>) -> (p: Vec<ListingPart<'a>>)
    ensures
        listing_view(p@) == opb7_text(bs@, op, operands_view(ops@)),
{
    let mut p = new_parts();
    put(&mut p, "Call by var index] index: ");
    put_svar(&mut p, ops, 0);
    put(&mut p, ", targets: [");
    put_blocks(&mut p, bs, ops, 1, "", ", ");
    put(&mut p, "]");
    p
}

/// What instruction 0xB8 writes.
pub open spec fn opb8_text(bs: Seq<u32>, op: u8, o: Seq<OperandV>) -> Seq<PartV> {
    Seq::empty() + tx("Destroy alien (and damage area)] value1?: "@) + fl_t(o, 0) + tx(", radius?: "@) + fl_t(o, 1) + tx(", size? : "@) + fl_t(o, 2)
}

fn opb8_parts<'a>(bs: &Vec<u32>, op: u8, ops: &Vec<Operand<'a>>) -> (p: Vec<ListingPart<'a>>)
    ensures
        listing_view(p@) == opb8_text(bs@, op, operands_view(ops@)),
{
    let mut p = new_parts();
    put(&mut p, "Destroy alien (and damage area)] value1?: ");
    put_fl(&mut p, ops, 0);
    put(&mut p, ", radius?: ");
    put_fl(&mut p, ops, 1);
    put(&mut p, ", size? : ");
    put_fl(&mut p, ops, 2);
    p
}

/// What instruction 0xB9 writes.
pub open spec fn opb9_text(bs: Seq<u32>, op: u8, o: Seq<OperandV>) -> Seq<PartV> {
    Seq::empty() + tx("Branch on someCmiDataValues0] if "@) + comp_t(o, 0) + tx(" "@) + br_t(bs, o, 1)
}

fn opb9_parts<'a>(bs: &Vec<u32>, op: u8, ops: &Vec<Operand<'a>>) -> (p: Vec<ListingPart<'a>>)
    ensures
        listing_view(p@) == opb9_text(bs@, op, operands_view(ops@)),
{
    let mut p = new_parts();
    put(&mut p, "Branch on someCmiDataValues0] if ");
    put_comp(&mut p, ops, 0);
    put(&mut p, " ");
    put_br(&mut p, bs, ops, 1);
    p
}

/// What instruction 0xBA writes.
pub open spec fn opba_text(bs: Seq<u32>, op: u8, o: Seq<OperandV>) -> Seq<PartV> {
    Seq::empty() + tx("Set someCmiField3] 30 * someCmiDataValues[0] * "@) + thirty_t(o, 1) + tx(" (unused: "@) + num_t(onum_s(o, 0)) + tx(")"@)
}

fn opba_parts<'a>(bs: &Vec<u32>, op: u8, ops: &Vec<Operand<'a>>) -> (p: Vec<ListingPart<'a>>)
    ensures
        listing_view(p@) == opba_text(bs@, op, operands_view(ops@)),
{
    let mut p = new_parts();
    put(&mut p, "Set someCmiField3] 30 * someCmiDataValues[0] * ");
    put_thirty(&mut p, ops, 1);
    put(&mut p, " (unused: ");
    put_num(&mut p, onum(ops, 0));
    put(&mut p, ")");
    p
}

/// What instruction 0xBB writes.
pub open spec fn opbb_text(bs: Seq<u32>, op: u8, o: Seq<OperandV>) -> Seq<PartV> {
    Seq::empty() + tx("Add random velocity] horizontal: "@) + fl_t(o, 0) + tx(", vertical: "@) + fl_t(o, 1)
}

fn opbb_parts<'a>(bs: &Vec<u32>, op: u8, ops: &Vec<Operand<'a>>) -> (p: Vec<ListingPart<'a>>)
    ensures
        listing_view(p@) == opbb_text(bs@, op, operands_view(ops@)),
{
    let mut p = new_parts();
    put(&mut p, "Add random velocity] horizontal: ");
    put_fl(&mut p, ops, 0);
    put(&mut p, ", vertical: ");
    put_fl(&mut p, ops, 1);
    p
}

/// What instruction 0xBC writes.
pub open spec fn opbc_text(bs: Seq<u32>, op: u8, o: Seq<OperandV>) -> Seq<PartV> {
    Seq::empty() + tx("Branch on distance to player] if "@) + comp_t(o, 0) + tx(" "@) + br_t(bs, o, 1)
}

fn opbc_parts<'a>(bs: &Vec<u32>, op: u8, ops: &Vec<Operand<'a>>) -> (p: Vec<ListingPart<'a>>)
    ensures
        listing_view(p@) == opbc_text(bs@, op, operands_view(ops@)),
{
    let mut p = new_parts();
    put(&mut p, "Branch on distance to player] if ");
    put_comp(&mut p, ops, 0);
    put(&mut p, " ");
    put_br(&mut p, bs, ops, 1);
    p
}

/// What instruction 0xBD writes.
pub open spec fn opbd_text(bs: Seq<u32>, op: u8, o: Seq<OperandV>) -> Seq<PartV> {
    Seq::empty() + (if (onum_s(o, 0) != 0 && onum_s(o, 0) != 1) { Seq::empty() + tx("Move towards player] (noop)"@) } else { Seq::empty() + (if onum_s(o, 0) == 0 { Seq::empty() + tx("Move towards player] max speed: "@) + fl_t(o, 1) + tx(", target z: "@) + fl_t(o, 2) } else { Seq::empty() + tx("Move towards player] max speed: "@) + fl_t(o, 1) }) })
}

fn opbd_parts<'a>(bs: &Vec<u32>, op: u8, ops: &Vec<Operand<'a>>) -> (p: Vec<ListingPart<'a>>)
    ensures
        listing_view(p@) == opbd_text(bs@, op, operands_view(ops@)),
{
    let mut p = new_parts();
    let q1 = if (onum(ops, 0) != 0 && onum(ops, 0) != 1) {
        let mut q1 = new_parts();
        put(&mut q1, "Move towards player] (noop)");
        q1
    } else {
        let mut q1 = new_parts();
        let q2 = if onum(ops, 0) == 0 {
            let mut q2 = new_parts();
            put(&mut q2, "Move towards player] max speed: ");
            put_fl(&mut q2, ops, 1);
            put(&mut q2, ", target z: ");
            put_fl(&mut q2, ops, 2);
            q2
        } else {
            let mut q2 = new_parts();
            put(&mut q2, "Move towards player] max speed: ");
            put_fl(&mut q2, ops, 1);
            q2
        };
        append_parts(&mut q1, q2);
        q1
    };
    append_parts(&mut p, q1);
    p
}

/// What instruction 0xBE writes.
pub open spec fn opbe_text(bs: Seq<u32>, op: u8, o: Seq<OperandV>) -> Seq<PartV> {
    Seq::empty() + tx("Set fan affects damp] name: "@) + name_t(o, 1) + tx(", on: "@) + bool_t(onum_s(o, 0) != 0)
}

fn opbe_parts<'a>(bs: &Vec<u32>, op: u8, ops: &Vec<Operand<'a>>) -> (p: Vec<ListingPart<'a>>)
    ensures
        listing_view(p@) == opbe_text(bs@, op, operands_view(ops@)),
{
    let mut p = new_parts();
    put(&mut p, "Set fan affects damp] name: ");
    put_name(&mut p, ops, 1);
    put(&mut p, ", on: ");
    put_bool(&mut p, onum(ops, 0) != 0);
    p
}

/// What instruction 0xBF writes.
pub open spec fn opbf_text(bs: Seq<u32>, op: u8, o: Seq<OperandV>) -> Seq<PartV> {
    Seq::empty() + tx("Branch on axis distance to player] index: "@) + (if obyte_s(o, 0) & 0x7Fu8 < 3u8 { Seq::empty() + axis_t((obyte_s(o, 0) & 0x7Fu8) as int) } else { Seq::empty() + num_t((obyte_s(o, 0) & 0x7Fu8) as int) }) + tx(" (abs: "@) + bool_t(obyte_s(o, 0) & 0x80u8 == 0u8) + tx("), if "@) + comp_t(o, 1) + tx(" "@) + br_t(bs, o, 2)
}

fn opbf_parts<'a>(bs: &Vec<u32>, op: u8, ops: &Vec<Operand<'a>>) -> (p: Vec<ListingPart<'a>>)
    ensures
        listing_view(p@) == opbf_text(bs@, op, operands_view(ops@)),
{
    let mut p = new_parts();
    put(&mut p, "Branch on axis distance to player] index: ");
    let q1 = if obyte(ops, 0) & 0x7Fu8 < 3u8 {
        let mut q1 = new_parts();
        put_axis(&mut q1, (obyte(ops, 0) & 0x7Fu8) as i64);
        q1
    } else {
        let mut q1 = new_parts();
        put_num(&mut q1, (obyte(ops, 0) & 0x7Fu8) as i64);
        q1
    };
    append_parts(&mut p, q1);
    put(&mut p, " (abs: ");
    put_bool(&mut p, obyte(ops, 0) & 0x80u8 == 0u8);
    put(&mut p, "), if ");
    put_comp(&mut p, ops, 1);
    put(&mut p, " ");
    put_br(&mut p, bs, ops, 2);
    p
}

/// What instruction 0xC0 writes.
pub open spec fn opc0_text(bs: Seq<u32>, op: u8, o: Seq<OperandV>) -> Seq<PartV> {
    Seq::empty() + tx("Branch on can move to] delta: "@) + v3_t(o, 0) + tx(", height: "@) + fl_t(o, 3) + tx(", "@) + br_t(bs, o, 4)
}

fn opc0_parts<'a>(bs: &Vec<u32>, op: u8, ops: &Vec<Operand<'a>>) -> (p: Vec<ListingPart<'a>>)
    ensures
        listing_view(p@) == opc0_text(bs@, op, operands_view(ops@)),
{
    let mut p = new_parts();
    put(&mut p, "Branch on can move to] delta: ");
    put_v3(&mut p, ops, 0);
    put(&mut p, ", height: ");
    put_fl(&mut p, ops, 3);
    put(&mut p, ", ");
    put_br(&mut p, bs, ops, 4);
    p
}

/// What instruction 0xC1 writes.
pub open spec fn opc1_text(bs: Seq<u32>, op: u8, o: Seq<OperandV>) -> Seq<PartV> {
    Seq::empty() + (if onum_s(o, 0) <= 2 { Seq::empty() + tx("Face velocity] code: "@) + num_t(onum_s(o, 0)) } else { Seq::empty() + (if onum_s(o, 0) < 4 { Seq::empty() + tx("Face entity] code: "@) + num_t(onum_s(o, 0)) + tx(", target: "@) + name_t(o, 1) } else { Seq::empty() + tx("Face unknown?] code: "@) + num_t(onum_s(o, 0)) }) })
}

fn opc1_parts<'a>(bs: &Vec<u32>, op: u8, ops: &Vec<Operand<'a>>) -> (p: Vec<ListingPart<'a>>)
    ensures
        listing_view(p@) == opc1_text(bs@, op, operands_view(ops@)),
{
    let mut p = new_parts();
    let q1 = if onum(ops, 0) <= 2 {
        let mut q1 = new_parts();
        put(&mut q1, "Face velocity] code: ");
        put_num(&mut q1, onum(ops, 0));
        q1
    } else {
        let mut q1 = new_parts();
        let q2 = if onum(ops, 0) < 4 {
            let mut q2 = new_parts();
            put(&mut q2, "Face entity] code: ");
            put_num(&mut q2, onum(ops, 0));
            put(&mut q2, ", target: ");
            put_name(&mut q2, ops, 1);
            q2
        } else {
            let mut q2 = new_parts();
            put(&mut q2, "Face unknown?] code: ");
            put_num(&mut q2, onum(ops, 0));
            q2
        };
        append_parts(&mut q1, q2);
        q1
    };
    append_parts(&mut p, q1);
    p
}

/// What instruction 0xC2 writes.
pub open spec fn opc2_text(bs: Seq<u32>, op: u8, o: Seq<OperandV>) -> Seq<PartV> {
    Seq::empty() + tx("Do something with bsp vis] id: "@) + num_t(onum_s(o, 1)) + tx(", visflag: "@) + visflag_t(o, 0) + tx(", vs: "@) + barr_t(o, 2, 3)
}

fn opc2_parts<'a>(bs: &Vec<u32>, op: u8, ops: &Vec<Operand<'a>>) -> (p: Vec<ListingPart<'a>>)
    ensures
        listing_view(p@) == opc2_text(bs@, op, operands_view(ops@)),
{
    let mut p = new_parts();
    put(&mut p, "Do something with bsp vis] id: ");
    put_num(&mut p, onum(ops, 1));
    put(&mut p, ", visflag: ");
    put_visflag(&mut p, ops, 0);
    put(&mut p, ", vs: ");
    put_barr(&mut p, ops, 2, 3);
    p
}

/// What instruction 0xC3 writes.
pub open spec fn opc3_text(bs: Seq<u32>, op: u8, o: Seq<OperandV>) -> Seq<PartV> {
    Seq::empty() + tx("Branch on some alien value] value: "@) + num_t(onum_s(o, 0)) + tx(", "@) + br_t(bs, o, 1)
}

fn opc3_parts<'a>(bs: &Vec<u32>, op: u8, ops: &Vec<Operand<'a>>) -> (p: Vec<ListingPart<'a>>)
    ensures
        listing_view(p@) == opc3_text(bs@, op, operands_view(ops@)),
{
    let mut p = new_parts();
    put(&mut p, "Branch on some alien value] value: ");
    put_num(&mut p, onum(ops, 0));
    put(&mut p, ", ");
    put_br(&mut p, bs, ops, 1);
    p
}

/// What instruction 0xC4 writes.
pub open spec fn opc4_text(bs: Seq<u32>, op: u8, o: Seq<OperandV>) -> Seq<PartV> {
    Seq::empty() + tx("Set dtiArenaNum] num: "@) + var_t(o, 0)
}

fn opc4_parts<'a>(bs: &Vec<u32>, op: u8, ops: &Vec<Operand<'a>>) -> (p: Vec<ListingPart<'a>>)
    ensures
        listing_view(p@) == opc4_text(bs@, op, operands_view(ops@)),
{
    let mut p = new_parts();
    put(&mut p, "Set dtiArenaNum] num: ");
    put_var(&mut p, ops, 0);
    p
}

/// What instruction 0xC5 writes.
pub open spec fn opc5_text(bs: Seq<u32>, op: u8, o: Seq<OperandV>) -> Seq<PartV> {
    Seq::empty() + tx("Branch on hide] "@) + br_t(bs, o, 0)
}

fn opc5_parts<'a>(bs: &Vec<u32>, op: u8, ops: &Vec<Operand<'a>>) -> (p: Vec<ListingPart<'a>>)
    ensures
        listing_view(p@) == opc5_text(bs@, op, operands_view(ops@)),
{
    let mut p = new_parts();
    put(&mut p, "Branch on hide] ");
    put_br(&mut p, bs, ops, 0);
    p
}

/// What instruction 0xC6 writes.
pub open spec fn opc6_text(bs: Seq<u32>, op: u8, o: Seq<OperandV>) -> Seq<PartV> {
    Seq::empty() + tx("Set someData] name: "@) + name_t(o, 0) + tx(", value1: "@) + num_t(onum_s(o, 1)) + tx(", value2: "@) + num_t(onum_s(o, 2)) + tx(", value3: "@) + num_t(onum_s(o, 3))
}

fn opc6_parts<'a>(bs: &Vec<u32>, op: u8, ops: &Vec<Operand<'a>>) -> (p: Vec<ListingPart<'a>>)
    ensures
        listing_view(p@) == opc6_text(bs@, op, operands_view(ops@)),
{
    let mut p = new_parts();
    put(&mut p, "Set someData] name: ");
    put_name(&mut p, ops, 0);
    put(&mut p, ", value1: ");
    put_num(&mut p, onum(ops, 1));
    put(&mut p, ", value2: ");
    put_num(&mut p, onum(ops, 2));
    put(&mut p, ", value3: ");
    put_num(&mut p, onum(ops, 3));
    p
}

/// What instruction 0xC7 writes.
pub open spec fn opc7_text(bs: Seq<u32>, op: u8, o: Seq<OperandV>) -> Seq<PartV> {
    Seq::empty() + tx("Set someCmiData] "@) + var_t(o, 0)
}

fn opc7_parts<'a>(bs: &Vec<u32>, op: u8, ops: &Vec<Operand<'a>>) -> (p: Vec<ListingPart<'a>>)
    ensures
        listing_view(p@) == opc7_text(bs@, op, operands_view(ops@)),
{
    let mut p = new_parts();
    put(&mut p, "Set someCmiData] ");
    put_var(&mut p, ops, 0);
    p
}

/// What instruction 0xC8 writes.
pub open spec fn opc8_text(bs: Seq<u32>, op: u8, o: Seq<OperandV>) -> Seq<PartV> {
    Seq::empty() + tx("Set someAnimVector, branch if done] speed: "@) + fl_t(o, 0) + tx(", target: "@) + v3_t(o, 1) + tx(", "@) + br_t(bs, o, 4)
}

fn opc8_parts<'a>(bs: &Vec<u32>, op: u8, ops: &Vec<Operand<'a>>) -> (p: Vec<ListingPart<'a>>)
    ensures
        listing_view(p@) == opc8_text(bs@, op, operands_view(ops@)),
{
    let mut p = new_parts();
    put(&mut p, "Set someAnimVector, branch if done] speed: ");
    put_fl(&mut p, ops, 0);
    put(&mut p, ", target: ");
    put_v3(&mut p, ops, 1);
    put(&mut p, ", ");
    put_br(&mut p, bs, ops, 4);
    p
}

/// What instruction 0xC9 writes.
pub open spec fn opc9_text(bs: Seq<u32>, op: u8, o: Seq<OperandV>) -> Seq<PartV> {
    Seq::empty() + tx("Add some anim facing thing] scale: "@) + fl_t(o, 0) + tx(", angle: "@) + fl_t(o, 1)
}

fn opc9_parts<'a>(bs: &Vec<u32>, op: u8, ops: &Vec<Operand<'a>>) -> (p: Vec<ListingPart<'a>>)
    ensures
        listing_view(p@) == opc9_text(bs@, op, operands_view(ops@)),
{
    let mut p = new_parts();
    put(&mut p, "Add some anim facing thing] scale: ");
    put_fl(&mut p, ops, 0);
    put(&mut p, ", angle: ");
    put_fl(&mut p, ops, 1);
    p
}

/// What instruction 0xCA writes.
pub open spec fn opca_text(bs: Seq<u32>, op: u8, o: Seq<OperandV>) -> Seq<PartV> {
    Seq::empty() + tx("Set background visibility] hidden: "@) + num_t(onum_s(o, 0))
}

fn opca_parts<'a>(bs: &Vec<u32>, op: u8, ops: &Vec<Operand<'a>>) -> (p: Vec<ListingPart<'a>>)
    ensures
        listing_view(p@) == opca_text(bs@, op, operands_view(ops@)),
{
    let mut p = new_parts();
    put(&mut p, "Set background visibility] hidden: ");
    put_num(&mut p, onum(ops, 0));
    p
}

/// What instruction 0xCB writes.
pub open spec fn opcb_text(bs: Seq<u32>, op: u8, o: Seq<OperandV>) -> Seq<PartV> {
    Seq::empty() + (if onum_s(o, 0) == 1 { Seq::empty() + tx("Angle camera to alien] offset: "@) + fl_t(o, 1) } else { Seq::empty() + tx("Angle camera to alien]"@) })
}

fn opcb_parts<'a>(bs: &Vec<u32>, op: u8, ops: &Vec<Operand<'a>>) -> (p: Vec<ListingPart<'a>>)
    ensures
        listing_view(p@) == opcb_text(bs@, op, operands_view(ops@)),
{
    let mut p = new_parts();
    let q1 = if onum(ops, 0) == 1 {
        let mut q1 = new_parts();
        put(&mut q1, "Angle camera to alien] offset: ");
        put_fl(&mut q1, ops, 1);
        q1
    } else {
        let mut q1 = new_parts();
        put(&mut q1, "Angle camera to alien]");
        q1
    };
    append_parts(&mut p, q1);
    p
}

/// What instruction 0xCC writes.
pub open spec fn opcc_text(bs: Seq<u32>, op: u8, o: Seq<OperandV>) -> Seq<PartV> {
    Seq::empty() + tx("Bounce]"@)
}

fn opcc_parts<'a>(bs: &Vec<u32>, op: u8, ops: &Vec<Operand<'a>>) -> (p: Vec<ListingPart<'a>>)
    ensures
        listing_view(p@) == opcc_text(bs@, op, operands_view(ops@)),
{
    let mut p = new_parts();
    put(&mut p, "Bounce]");
    p
}

/// What instruction 0xCD writes.
pub open spec fn opcd_text(bs: Seq<u32>, op: u8, o: Seq<OperandV>) -> Seq<PartV> {
    Seq::empty() + tx("Set someCmiField12] value: "@) + num_t(onum_s(o, 0))
}

fn opcd_parts<'a>(bs: &Vec<u32>, op: u8, ops: &Vec<Operand<'a>>) -> (p: Vec<ListingPart<'a>>)
    ensures
        listing_view(p@) == opcd_text(bs@, op, operands_view(ops@)),
{
    let mut p = new_parts();
    put(&mut p, "Set someCmiField12] value: ");
    put_num(&mut p, onum(ops, 0));
    p
}

/// What instruction 0xCE writes.
pub open spec fn opce_text(bs: Seq<u32>, op: u8, o: Seq<OperandV>) -> Seq<PartV> {
    Seq::empty() + tx("Spawn aliens on path] name: "@) + name_t(o, 2) + tx(", spacing: "@) + fl_t(o, 1) + tx(", init target: "@) + ext_t(o, 3) + tx(", path offset: "@) + hex_t(onum_s(o, 0), 6)
}

fn opce_parts<'a>(bs: &Vec<u32>, op: u8, ops: &Vec<Operand<'a>>) -> (p: Vec<ListingPart<'a>>)
    ensures
        listing_view(p@) == opce_text(bs@, op, operands_view(ops@)),
{
    let mut p = new_parts();
    put(&mut p, "Spawn aliens on path] name: ");
    put_name(&mut p, ops, 2);
    put(&mut p, ", spacing: ");
    put_fl(&mut p, ops, 1);
    put(&mut p, ", init target: ");
    put_ext(&mut p, ops, 3);
    put(&mut p, ", path offset: ");
    put_hex(&mut p, onum(ops, 0), 6);
    p
}

/// What instruction 0xCF writes.
pub open spec fn opcf_text(bs: Seq<u32>, op: u8, o: Seq<OperandV>) -> Seq<PartV> {
    Seq::empty() + tx("Turn to angle] angle: "@) + fl_t(o, 1) + tx(", speed: "@) + fl_t(o, 0) + tx(", "@) + br_t(bs, o, 2)
}

fn opcf_parts<'a>(bs: &Vec<u32>, op: u8, ops: &Vec<Operand<'a>>) -> (p: Vec<ListingPart<'a>>)
    ensures
        listing_view(p@) == opcf_text(bs@, op, operands_view(ops@)),
{
    let mut p = new_parts();
    put(&mut p, "Turn to angle] angle: ");
    put_fl(&mut p, ops, 1);
    put(&mut p, ", speed: ");
    put_fl(&mut p, ops, 0);
    put(&mut p, ", ");
    put_br(&mut p, bs, ops, 2);
    p
}

/// What instruction 0xD0 writes.
pub open spec fn opd0_text(bs: Seq<u32>, op: u8, o: Seq<OperandV>) -> Seq<PartV> {
    Seq::empty() + tx("Branch on has part] name: "@) + name_t(o, 0) + tx(", "@) + br_t(bs, o, 1)
}

fn opd0_parts<'a>(bs: &Vec<u32>, op: u8, ops: &Vec<Operand<'a>>) -> (p: Vec<ListingPart<'a>>)
    ensures
        listing_view(p@) == opd0_text(bs@, op, operands_view(ops@)),
{
    let mut p = new_parts();
    put(&mut p, "Branch on has part] name: ");
    put_name(&mut p, ops, 0);
    put(&mut p, ", ");
    put_br(&mut p, bs, ops, 1);
    p
}

/// What instruction 0xD1 writes.
pub open spec fn opd1_text(bs: Seq<u32>, op: u8, o: Seq<OperandV>) -> Seq<PartV> {
    Seq::empty() + tx("Branch on some alien stuff] "@) + br_t(bs, o, 0)
}

fn opd1_parts<'a>(bs: &Vec<u32>, op: u8, ops: &Vec<Operand<'a>>) -> (p: Vec<ListingPart<'a>>)
    ensures
        listing_view(p@) == opd1_text(bs@, op, operands_view(ops@)),
{
    let mut p = new_parts();
    put(&mut p, "Branch on some alien stuff] ");
    put_br(&mut p, bs, ops, 0);
    p
}

/// What instruction 0xD2 writes.
pub open spec fn opd2_text(bs: Seq<u32>, op: u8, o: Seq<OperandV>) -> Seq<PartV> {
    Seq::empty() + tx("Set someScale] scale: "@) + var_t(o, 0)
}

fn opd2_parts<'a>(bs: &Vec<u32>, op: u8, ops: &Vec<Operand<'a>>) -> (p: Vec<ListingPart<'a>>)
    ensures
        listing_view(p@) == opd2_text(bs@, op, operands_view(ops@)),
{
    let mut p = new_parts();
    put(&mut p, "Set someScale] scale: ");
    put_var(&mut p, ops, 0);
    p
}

/// What instruction 0xD3 writes.
pub open spec fn opd3_text(bs: Seq<u32>, op: u8, o: Seq<OperandV>) -> Seq<PartV> {
    Seq::empty() + tx("Zero velocity]"@)
}

fn opd3_parts<'a>(bs: &Vec<u32>, op: u8, ops: &Vec<Operand<'a>>) -> (p: Vec<ListingPart<'a>>)
    ensures
        listing_view(p@) == opd3_text(bs@, op, operands_view(ops@)),
{
    let mut p = new_parts();
    put(&mut p, "Zero velocity]");
    p
}

/// What instruction 0xD4 writes.
pub open spec fn opd4_text(bs: Seq<u32>, op: u8, o: Seq<OperandV>) -> Seq<PartV> {
    Seq::empty() + tx("Branch on some field] "@) + br_t(bs, o, 0)
}

fn opd4_parts<'a>(bs: &Vec<u32>, op: u8, ops: &Vec<Operand<'a>>) -> (p: Vec<ListingPart<'a>>)
    ensures
        listing_view(p@) == opd4_text(bs@, op, operands_view(ops@)),
{
    let mut p = new_parts();
    put(&mut p, "Branch on some field] ");
    put_br(&mut p, bs, ops, 0);
    p
}

/// What instruction 0xD5 writes.
pub open spec fn opd5_text(bs: Seq<u32>, op: u8, o: Seq<OperandV>) -> Seq<PartV> {
    Seq::empty() + tx("Branch on distance to thing] if "@) + comp_t(o, 0) + tx(" "@) + br_t(bs, o, 1)
}

fn opd5_parts<'a>(bs: &Vec<u32>, op: u8, ops: &Vec<Operand<'a>>) -> (p: Vec<ListingPart<'a>>)
    ensures
        listing_view(p@) == opd5_text(bs@, op, operands_view(ops@)),
{
    let mut p = new_parts();
    put(&mut p, "Branch on distance to thing] if ");
    put_comp(&mut p, ops, 0);
    put(&mut p, " ");
    put_br(&mut p, bs, ops, 1);
    p
}

/// What instruction 0xD6 writes.
pub open spec fn opd6_text(bs: Seq<u32>, op: u8, o: Seq<OperandV>) -> Seq<PartV> {
    Seq::empty() + tx("Branch on angle to thing] if "@) + comp_t(o, 0) + tx(" "@) + br_t(bs, o, 1)
}

fn opd6_parts<'a>(bs: &Vec<u32>, op: u8, ops: &Vec<Operand<'a>>) -> (p: Vec<ListingPart<'a>>)
    ensures
        listing_view(p@) == opd6_text(bs@, op, operands_view(ops@)),
{
    let mut p = new_parts();
    put(&mut p, "Branch on angle to thing] if ");
    put_comp(&mut p, ops, 0);
    put(&mut p, " ");
    put_br(&mut p, bs, ops, 1);
    p
}

/// What instruction 0xD7 writes.
pub open spec fn opd7_text(bs: Seq<u32>, op: u8, o: Seq<OperandV>) -> Seq<PartV> {
    Seq::empty() + tx("Increase some global field to value] value: "@) + var_t(o, 0)
}

fn opd7_parts<'a>(bs: &Vec<u32>, op: u8, ops: &Vec<Operand<'a>>) -> (p: Vec<ListingPart<'a>>)
    ensures
        listing_view(p@) == opd7_text(bs@, op, operands_view(ops@)),
{
    let mut p = new_parts();
    put(&mut p, "Increase some global field to value] value: ");
    put_var(&mut p, ops, 0);
    p
}

/// What instruction 0xD8 writes.
pub open spec fn opd8_text(bs: Seq<u32>, op: u8, o: Seq<OperandV>) -> Seq<PartV> {
    Seq::empty() + tx("Add var] "@) + svar_t(o, 0) + tx(" += "@) + fl_t(o, 1) + tx(" * dt"@)
}

fn opd8_parts<'a>(bs: &Vec<u32>, op: u8, ops: &Vec<Operand<'a>>) -> (p: Vec<ListingPart<'a>>)
    ensures
        listing_view(p@) == opd8_text(bs@, op, operands_view(ops@)),
{
    let mut p = new_parts();
    put(&mut p, "Add var] ");
    put_svar(&mut p, ops, 0);
    put(&mut p, " += ");
    put_fl(&mut p, ops, 1);
    put(&mut p, " * dt");
    p
}

/// What instruction 0xD9 writes.
pub open spec fn opd9_text(bs: Seq<u32>, op: u8, o: Seq<OperandV>) -> Seq<PartV> {
    Seq::empty() + tx("Set some travglobal offset] code: "@) + num_t(onum_s(o, 0)) + tx(", value: "@) + num_t(onum_s(o, 1))
}

fn opd9_parts<'a>(bs: &Vec<u32>, op: u8, ops: &Vec<Operand<'a>>) -> (p: Vec<ListingPart<'a>>)
    ensures
        listing_view(p@) == opd9_text(bs@, op, operands_view(ops@)),
{
    let mut p = new_parts();
    put(&mut p, "Set some travglobal offset] code: ");
    put_num(&mut p, onum(ops, 0));
    put(&mut p, ", value: ");
    put_num(&mut p, onum(ops, 1));
    p
}

/// What instruction 0xDA writes.
pub open spec fn opda_text(bs: Seq<u32>, op: u8, o: Seq<OperandV>) -> Seq<PartV> {
    Seq::empty() + tx("Set pitch angle] angle: "@) + fl_t(o, 0)
}

fn opda_parts<'a>(bs: &Vec<u32>, op: u8, ops: &Vec<Operand<'a>>) -> (p: Vec<ListingPart<'a>>)
    ensures
        listing_view(p@) == opda_text(bs@, op, operands_view(ops@)),
{
    let mut p = new_parts();
    put(&mut p, "Set pitch angle] angle: ");
    put_fl(&mut p, ops, 0);
    p
}

/// What instruction 0xDB writes.
pub open spec fn opdb_text(bs: Seq<u32>, op: u8, o: Seq<OperandV>) -> Seq<PartV> {
    Seq::empty() + tx("Target fire] y: "@) + fl_t(o, 0) + tx(", z: "@) + fl_t(o, 1) + tx(", target: "@) + br_t(bs, o, 2)
}

fn opdb_parts<'a>(bs: &Vec<u32>, op: u8, ops: &Vec<Operand<'a>>) -> (p: Vec<ListingPart<'a>>)
    ensures
        listing_view(p@) == opdb_text(bs@, op, operands_view(ops@)),
{
    let mut p = new_parts();
    put(&mut p, "Target fire] y: ");
    put_fl(&mut p, ops, 0);
    put(&mut p, ", z: ");
    put_fl(&mut p, ops, 1);
    put(&mut p, ", target: ");
    put_br(&mut p, bs, ops, 2);
    p
}

/// What instruction 0xDC writes.
pub open spec fn opdc_text(bs: Seq<u32>, op: u8, o: Seq<OperandV>) -> Seq<PartV> {
    Seq::empty() + tx("Set target] pos: "@) + v3_t(o, 0)
}

fn opdc_parts<'a>(bs: &Vec<u32>, op: u8, ops: &Vec<Operand<'a>>) -> (p: Vec<ListingPart<'a>>)
    ensures
        listing_view(p@) == opdc_text(bs@, op, operands_view(ops@)),
{
    let mut p = new_parts();
    put(&mut p, "Set target] pos: ");
    put_v3(&mut p, ops, 0);
    p
}

/// What instruction 0xDD writes.
pub open spec fn opdd_text(bs: Seq<u32>, op: u8, o: Seq<OperandV>) -> Seq<PartV> {
    Seq::empty() + tx("Try jumping] flag: "@) + bool_t(onum_s(o, 0) == 1) + tx(", "@) + br_t(bs, o, 1)
}

fn opdd_parts<'a>(bs: &Vec<u32>, op: u8, ops: &Vec<Operand<'a>>) -> (p: Vec<ListingPart<'a>>)
    ensures
        listing_view(p@) == opdd_text(bs@, op, operands_view(ops@)),
{
    let mut p = new_parts();
    put(&mut p, "Try jumping] flag: ");
    put_bool(&mut p, onum(ops, 0) == 1);
    put(&mut p, ", ");
    put_br(&mut p, bs, ops, 1);
    p
}

/// What instruction 0xDE writes.
pub open spec fn opde_text(bs: Seq<u32>, op: u8, o: Seq<OperandV>) -> Seq<PartV> {
    Seq::empty() + tx("Branch on instruction count] if "@) + comp_t(o, 0) + tx(" "@) + br_t(bs, o, 1)
}

fn opde_parts<'a>(bs: &Vec<u32>, op: u8, ops: &Vec<Operand<'a>>) -> (p: Vec<ListingPart<'a>>)
    ensures
        listing_view(p@) == opde_text(bs@, op, operands_view(ops@)),
{
    let mut p = new_parts();
    put(&mut p, "Branch on instruction count] if ");
    put_comp(&mut p, ops, 0);
    put(&mut p, " ");
    put_br(&mut p, bs, ops, 1);
    p
}

/// What instruction 0xDF writes.
pub open spec fn opdf_text(bs: Seq<u32>, op: u8, o: Seq<OperandV>) -> Seq<PartV> {
    Seq::empty() + tx("Load arena] name: "@) + name_t(o, 0)
}

fn opdf_parts<'a>(bs: &Vec<u32>, op: u8, ops: &Vec<Operand<'a>>) -> (p: Vec<ListingPart<'a>>)
    ensures
        listing_view(p@) == opdf_text(bs@, op, operands_view(ops@)),
{
    let mut p = new_parts();
    put(&mut p, "Load arena] name: ");
    put_name(&mut p, ops, 0);
    p
}

/// What instruction 0xE0 writes.
pub open spec fn ope0_text(bs: Seq<u32>, op: u8, o: Seq<OperandV>) -> Seq<PartV> {
    Seq::empty() + (if onum_s(o, 0) == 0 { Seq::empty() + tx("Stop sliding]"@) } else { Seq::empty() + tx("Update sliding] angle: "@) + fl_t(o, 1) + tx(", speed: "@) + fl_t(o, 2) })
}

fn ope0_parts<'a>(bs: &Vec<u32>, op: u8, ops: &Vec<Operand<'a>>) -> (p: Vec<ListingPart<'a>>)
    ensures
        listing_view(p@) == ope0_text(bs@, op, operands_view(ops@)),
{
    let mut p = new_parts();
    let q1 = if onum(ops, 0) == 0 {
        let mut q1 = new_parts();
        put(&mut q1, "Stop sliding]");
        q1
    } else {
        let mut q1 = new_parts();
        put(&mut q1, "Update sliding] angle: ");
        put_fl(&mut q1, ops, 1);
        put(&mut q1, ", speed: ");
        put_fl(&mut q1, ops, 2);
        q1
    };
    append_parts(&mut p, q1);
    p
}

/// What instruction 0xE1 writes.
pub open spec fn ope1_text(bs: Seq<u32>, op: u8, o: Seq<OperandV>) -> Seq<PartV> {
    Seq::empty() + tx("Branch on pSomething existing] "@) + br_t(bs, o, 0)
}

fn ope1_parts<'a>(bs: &Vec<u32>, op: u8, ops: &Vec<Operand<'a>>) -> (p: Vec<ListingPart<'a>>)
    ensures
        listing_view(p@) == ope1_text(bs@, op, operands_view(ops@)),
{
    let mut p = new_parts();
    put(&mut p, "Branch on pSomething existing] ");
    put_br(&mut p, bs, ops, 0);
    p
}

/// What instruction 0xE2 writes.
pub open spec fn ope2_text(bs: Seq<u32>, op: u8, o: Seq<OperandV>) -> Seq<PartV> {
    Seq::empty() + tx("Set some stuff] pos: "@) + v3_t(o, 0) + tx(", value1: "@) + fl_t(o, 3) + tx(", value2: "@) + fl_t(o, 4)
}

fn ope2_parts<'a>(bs: &Vec<u32>, op: u8, ops: &Vec<Operand<'a>>) -> (p: Vec<ListingPart<'a>>)
    ensures
        listing_view(p@) == ope2_text(bs@, op, operands_view(ops@)),
{
    let mut p = new_parts();
    put(&mut p, "Set some stuff] pos: ");
    put_v3(&mut p, ops, 0);
    put(&mut p, ", value1: ");
    put_fl(&mut p, ops, 3);
    put(&mut p, ", value2: ");
    put_fl(&mut p, ops, 4);
    p
}

/// What instruction 0xE3 writes.
pub open spec fn ope3_text(bs: Seq<u32>, op: u8, o: Seq<OperandV>) -> Seq<PartV> {
    Seq::empty() + tx("?]"@)
}

fn ope3_parts<'a>(bs: &Vec<u32>, op: u8, ops: &Vec<Operand<'a>>) -> (p: Vec<ListingPart<'a>>)
    ensures
        listing_view(p@) == ope3_text(bs@, op, operands_view(ops@)),
{
    let mut p = new_parts();
    put(&mut p, "?]");
    p
}

/// What instruction 0xE4 writes.
pub open spec fn ope4_text(bs: Seq<u32>, op: u8, o: Seq<OperandV>) -> Seq<PartV> {
    Seq::empty() + tx("Set someDynamicThing] name: "@) + name_t(o, 0)
}

fn ope4_parts<'a>(bs: &Vec<u32>, op: u8, ops: &Vec<Operand<'a>>) -> (p: Vec<ListingPart<'a>>)
    ensures
        listing_view(p@) == ope4_text(bs@, op, operands_view(ops@)),
{
    let mut p = new_parts();
    put(&mut p, "Set someDynamicThing] name: ");
    put_name(&mut p, ops, 0);
    p
}

/// What instruction 0xE5 writes.
pub open spec fn ope5_text(bs: Seq<u32>, op: u8, o: Seq<OperandV>) -> Seq<PartV> {
    Seq::empty() + tx("Turn towards home] turn speed: "@) + fl_t(o, 0) + tx(", complete: "@) + br_t(bs, o, 1)
}

fn ope5_parts<'a>(bs: &Vec<u32>, op: u8, ops: &Vec<Operand<'a>>) -> (p: Vec<ListingPart<'a>>)
    ensures
        listing_view(p@) == ope5_text(bs@, op, operands_view(ops@)),
{
    let mut p = new_parts();
    put(&mut p, "Turn towards home] turn speed: ");
    put_fl(&mut p, ops, 0);
    put(&mut p, ", complete: ");
    put_br(&mut p, bs, ops, 1);
    p
}

/// What instruction 0xE6 writes.
pub open spec fn ope6_text(bs: Seq<u32>, op: u8, o: Seq<OperandV>) -> Seq<PartV> {
    Seq::empty() + tx("Spawn Entity 2] name: "@) + name_t(o, 5) + tx(", pos: "@) + v3_t(o, 0) + tx(", angle: "@) + fl_t(o, 3) + tx(", arena_index: "@) + num_t(onum_s(o, 4)) + tx(", init target: "@) + ext_t(o, 6)
}

fn ope6_parts<'a>(bs: &Vec<u32>, op: u8, ops: &Vec<Operand<'a>>) -> (p: Vec<ListingPart<'a>>)
    ensures
        listing_view(p@) == ope6_text(bs@, op, operands_view(ops@)),
{
    let mut p = new_parts();
    put(&mut p, "Spawn Entity 2] name: ");
    put_name(&mut p, ops, 5);
    put(&mut p, ", pos: ");
    put_v3(&mut p, ops, 0);
    put(&mut p, ", angle: ");
    put_fl(&mut p, ops, 3);
    put(&mut p, ", arena_index: ");
    put_num(&mut p, onum(ops, 4));
    put(&mut p, ", init target: ");
    put_ext(&mut p, ops, 6);
    p
}

/// What instruction 0xE7 writes.
pub open spec fn ope7_text(bs: Seq<u32>, op: u8, o: Seq<OperandV>) -> Seq<PartV> {
    Seq::empty() + tx("Branch on someCmiField and stuff] "@) + br_t(bs, o, 0)
}

fn ope7_parts<'a>(bs: &Vec<u32>, op: u8, ops: &Vec<Operand<'a>>) -> (p: Vec<ListingPart<'a>>)
    ensures
        listing_view(p@) == ope7_text(bs@, op, operands_view(ops@)),
{
    let mut p = new_parts();
    put(&mut p, "Branch on someCmiField and stuff] ");
    put_br(&mut p, bs, ops, 0);
    p
}

/// What instruction 0xE8 writes.
pub open spec fn ope8_text(bs: Seq<u32>, op: u8, o: Seq<OperandV>) -> Seq<PartV> {
    Seq::empty() + tx("Fixed branch?] value: "@) + num_t(onum_s(o, 0)) + tx(", "@) + br_t(bs, o, 1)
}

fn ope8_parts<'a>(bs: &Vec<u32>, op: u8, ops: &Vec<Operand<'a>>) -> (p: Vec<ListingPart<'a>>)
    ensures
        listing_view(p@) == ope8_text(bs@, op, operands_view(ops@)),
{
    let mut p = new_parts();
    put(&mut p, "Fixed branch?] value: ");
    put_num(&mut p, onum(ops, 0));
    put(&mut p, ", ");
    put_br(&mut p, bs, ops, 1);
    p
}

/// What instruction 0xE9 writes.
pub open spec fn ope9_text(bs: Seq<u32>, op: u8, o: Seq<OperandV>) -> Seq<PartV> {
    Seq::empty() + tx("Branch on sound playing] name: "@) + name_t(o, 0) + tx(", "@) + br_t(bs, o, 1)
}

fn ope9_parts<'a>(bs: &Vec<u32>, op: u8, ops: &Vec<Operand<'a>>) -> (p: Vec<ListingPart<'a>>)
    ensures
        listing_view(p@) == ope9_text(bs@, op, operands_view(ops@)),
{
    let mut p = new_parts();
    put(&mut p, "Branch on sound playing] name: ");
    put_name(&mut p, ops, 0);
    put(&mut p, ", ");
    put_br(&mut p, bs, ops, 1);
    p
}

/// What instruction 0xEA writes.
pub open spec fn opea_text(bs: Seq<u32>, op: u8, o: Seq<OperandV>) -> Seq<PartV> {
    Seq::empty() + tx("Branch on angle to player] if "@) + comp_t(o, 0) + tx(" "@) + br_t(bs, o, 1)
}

fn opea_parts<'a>(bs: &Vec<u32>, op: u8, ops: &Vec<Operand<'a>>) -> (p: Vec<ListingPart<'a>>)
    ensures
        listing_view(p@) == opea_text(bs@, op, operands_view(ops@)),
{
    let mut p = new_parts();
    put(&mut p, "Branch on angle to player] if ");
    put_comp(&mut p, ops, 0);
    put(&mut p, " ");
    put_br(&mut p, bs, ops, 1);
    p
}

/// What instruction 0xEB writes.
pub open spec fn opeb_text(bs: Seq<u32>, op: u8, o: Seq<OperandV>) -> Seq<PartV> {
    Seq::empty() + tx("Turn params] nums: "@) + arr_t(o, 0, 4)
}

fn opeb_parts<'a>(bs: &Vec<u32>, op: u8, ops: &Vec<Operand<'a>>) -> (p: Vec<ListingPart<'a>>)
    ensures
        listing_view(p@) == opeb_text(bs@, op, operands_view(ops@)),
{
    let mut p = new_parts();
    put(&mut p, "Turn params] nums: ");
    put_arr(&mut p, ops, 0, 4);
    p
}

/// What instruction 0xEC writes.
pub open spec fn opec_text(bs: Seq<u32>, op: u8, o: Seq<OperandV>) -> Seq<PartV> {
    Seq::empty() + tx("Branch on floor] pos: "@) + v3_t(o, 0) + tx(", "@) + br_t(bs, o, 3)
}

fn opec_parts<'a>(bs: &Vec<u32>, op: u8, ops: &Vec<Operand<'a>>) -> (p: Vec<ListingPart<'a>>)
    ensures
        listing_view(p@) == opec_text(bs@, op, operands_view(ops@)),
{
    let mut p = new_parts();
    put(&mut p, "Branch on floor] pos: ");
    put_v3(&mut p, ops, 0);
    put(&mut p, ", ");
    put_br(&mut p, bs, ops, 3);
    p
}

/// What instruction 0xED writes.
pub open spec fn oped_text(bs: Seq<u32>, op: u8, o: Seq<OperandV>) -> Seq<PartV> {
    Seq::empty() + tx("Branch on inside box] min: "@) + v3_t(o, 0) + tx(", max: "@) + v3_t(o, 3) + tx(", "@) + br_t(bs, o, 6)
}

fn oped_parts<'a>(bs: &Vec<u32>, op: u8, ops: &Vec<Operand<'a>>) -> (p: Vec<ListingPart<'a>>)
    ensures
        listing_view(p@) == oped_text(bs@, op, operands_view(ops@)),
{
    let mut p = new_parts();
    put(&mut p, "Branch on inside box] min: ");
    put_v3(&mut p, ops, 0);
    put(&mut p, ", max: ");
    put_v3(&mut p, ops, 3);
    put(&mut p, ", ");
    put_br(&mut p, bs, ops, 6);
    p
}

/// What instruction 0xEE writes.
pub open spec fn opee_text(bs: Seq<u32>, op: u8, o: Seq<OperandV>) -> Seq<PartV> {
    Seq::empty() + tx("Branch on position component] component: "@) + (if obyte_s(o, 0) < 3u8 { Seq::empty() + axis_t(obyte_s(o, 0) as int) } else { Seq::empty() + tx("?"@) }) + tx(", if "@) + comp_t(o, 1) + tx(" "@) + br_t(bs, o, 2)
}

fn opee_parts<'a>(bs: &Vec<u32>, op: u8, ops: &Vec<Operand<'a>>) -> (p: Vec<ListingPart<'a>>)
    ensures
        listing_view(p@) == opee_text(bs@, op, operands_view(ops@)),
{
    let mut p = new_parts();
    put(&mut p, "Branch on position component] component: ");
    let q1 = if obyte(ops, 0) < 3u8 {
        let mut q1 = new_parts();
        put_axis(&mut q1, obyte(ops, 0) as i64);
        q1
    } else {
        let mut q1 = new_parts();
        put(&mut q1, "?");
        q1
    };
    append_parts(&mut p, q1);
    put(&mut p, ", if ");
    put_comp(&mut p, ops, 1);
    put(&mut p, " ");
    put_br(&mut p, bs, ops, 2);
    p
}

/// What instruction 0xEF writes.
pub open spec fn opef_text(bs: Seq<u32>, op: u8, o: Seq<OperandV>) -> Seq<PartV> {
    Seq::empty() + tx("Set someBbox] min: "@) + v3_t(o, 0) + tx(", max: "@) + v3_t(o, 3)
}

fn opef_parts<'a>(bs: &Vec<u32>, op: u8, ops: &Vec<Operand<'a>>) -> (p: Vec<ListingPart<'a>>)
    ensures
        listing_view(p@) == opef_text(bs@, op, operands_view(ops@)),
{
    let mut p = new_parts();
    put(&mut p, "Set someBbox] min: ");
    put_v3(&mut p, ops, 0);
    put(&mut p, ", max: ");
    put_v3(&mut p, ops, 3);
    p
}

/// What instruction 0xF0 writes.
pub open spec fn opf0_text(bs: Seq<u32>, op: u8, o: Seq<OperandV>) -> Seq<PartV> {
    Seq::empty() + tx("Set global someCmiField] value: "@) + num_t(onum_s(o, 0))
}

fn opf0_parts<'a>(bs: &Vec<u32>, op: u8, ops: &Vec<Operand<'a>>) -> (p: Vec<ListingPart<'a>>)
    ensures
        listing_view(p@) == opf0_text(bs@, op, operands_view(ops@)),
{
    let mut p = new_parts();
    put(&mut p, "Set global someCmiField] value: ");
    put_num(&mut p, onum(ops, 0));
    p
}

/// What instruction 0xF1 writes.
pub open spec fn opf1_text(bs: Seq<u32>, op: u8, o: Seq<OperandV>) -> Seq<PartV> {
    Seq::empty() + tx("Branch on some global pickup data] if "@) + comp_t(o, 0) + tx(" "@) + br_t(bs, o, 1)
}

fn opf1_parts<'a>(bs: &Vec<u32>, op: u8, ops: &Vec<Operand<'a>>) -> (p: Vec<ListingPart<'a>>)
    ensures
        listing_view(p@) == opf1_text(bs@, op, operands_view(ops@)),
{
    let mut p = new_parts();
    put(&mut p, "Branch on some global pickup data] if ");
    put_comp(&mut p, ops, 0);
    put(&mut p, " ");
    put_br(&mut p, bs, ops, 1);
    p
}

/// What instruction 0xF2 writes.
pub open spec fn opf2_text(bs: Seq<u32>, op: u8, o: Seq<OperandV>) -> Seq<PartV> {
    Seq::empty() + (if onum_s(o, 0) != 0 { Seq::empty() + tx("Set some transform matrix] transform: ["@) + arr_t(o, 1, 4) + tx(", "@) + arr_t(o, 5, 4) + tx(", "@) + arr_t(o, 9, 4) + tx("]"@) } else { Seq::empty() + tx("Clear some transform matrix]"@) })
}

fn opf2_parts<'a>(bs: &Vec<u32>, op: u8, ops: &Vec<Operand<'a>>) -> (p: Vec<ListingPart<'a>>)
    ensures
        listing_view(p@) == opf2_text(bs@, op, operands_view(ops@)),
{
    let mut p = new_parts();
    let q1 = if onum(ops, 0) != 0 {
        let mut q1 = new_parts();
        put(&mut q1, "Set some transform matrix] transform: [");
        put_arr(&mut q1, ops, 1, 4);
        put(&mut q1, ", ");
        put_arr(&mut q1, ops, 5, 4);
        put(&mut q1, ", ");
        put_arr(&mut q1, ops, 9, 4);
        put(&mut q1, "]");
        q1
    } else {
        let mut q1 = new_parts();
        put(&mut q1, "Clear some transform matrix]");
        q1
    };
    append_parts(&mut p, q1);
    p
}

/// What instruction 0xF3 writes.
pub open spec fn opf3_text(bs: Seq<u32>, op: u8, o: Seq<OperandV>) -> Seq<PartV> {
    Seq::empty() + tx("Branch on visible] point index: "@) + num_t(onum_s(o, 0)) + tx(", distance: "@) + num_t(onum_s(o, 1)) + tx(", target: "@) + br_t(bs, o, 2)
}

fn opf3_parts<'a>(bs: &Vec<u32>, op: u8, ops: &Vec<Operand<'a>>) -> (p: Vec<ListingPart<'a>>)
    ensures
        listing_view(p@) == opf3_text(bs@, op, operands_view(ops@)),
{
    let mut p = new_parts();
    put(&mut p, "Branch on visible] point index: ");
    put_num(&mut p, onum(ops, 0));
    put(&mut p, ", distance: ");
    put_num(&mut p, onum(ops, 1));
    put(&mut p, ", target: ");
    put_br(&mut p, bs, ops, 2);
    p
}

/// What instruction 0xF4 writes.
pub open spec fn opf4_text(bs: Seq<u32>, op: u8, o: Seq<OperandV>) -> Seq<PartV> {
    Seq::empty() + (if onum_s(o, 0) != 0 { Seq::empty() + tx("Add global cmiField1] value += "@) + fl_t(o, 1) } else { Seq::empty() + tx("Set global cmiField1] value = "@) + fl_t(o, 1) })
}

fn opf4_parts<'a>(bs: &Vec<u32>, op: u8, ops: &Vec<Operand<'a>>) -> (p: Vec<ListingPart<'a>>)
    ensures
        listing_view(p@) == opf4_text(bs@, op, operands_view(ops@)),
{
    let mut p = new_parts();
    let q1 = if onum(ops, 0) != 0 {
        let mut q1 = new_parts();
        put(&mut q1, "Add global cmiField1] value += ");
        put_fl(&mut q1, ops, 1);
        q1
    } else {
        let mut q1 = new_parts();
        put(&mut q1, "Set global cmiField1] value = ");
        put_fl(&mut q1, ops, 1);
        q1
    };
    append_parts(&mut p, q1);
    p
}

/// What instruction 0xF5 writes.
pub open spec fn opf5_text(bs: Seq<u32>, op: u8, o: Seq<OperandV>) -> Seq<PartV> {
    Seq::empty() + (if onum_s(o, 0) == 0 { Seq::empty() + tx("Get buddy] index: "@) + num_t(onum_s(o, 1)) + tx(", name: "@) + name_t(o, 3) } else { Seq::empty() + tx("Get buddy] index: 0, name: "@) + name_t(o, 1) })
}

fn opf5_parts<'a>(bs: &Vec<u32>, op: u8, ops: &Vec<Operand<'a>>) -> (p: Vec<ListingPart<'a>>)
    ensures
        listing_view(p@) == opf5_text(bs@, op, operands_view(ops@)),
{
    let mut p = new_parts();
    let q1 = if onum(ops, 0) == 0 {
        let mut q1 = new_parts();
        put(&mut q1, "Get buddy] index: ");
        put_num(&mut q1, onum(ops, 1));
        put(&mut q1, ", name: ");
        put_name(&mut q1, ops, 3);
        q1
    } else {
        let mut q1 = new_parts();
        put(&mut q1, "Get buddy] index: 0, name: ");
        put_name(&mut q1, ops, 1);
        q1
    };
    append_parts(&mut p, q1);
    p
}

/// What instruction 0xF6 writes.
pub open spec fn opf6_text(bs: Seq<u32>, op: u8, o: Seq<OperandV>) -> Seq<PartV> {
    Seq::empty() + tx("Turn to some thing] enable: "@) + bool_t(obyte_s(o, 0) & 1u8 != 0u8) + tx(", pitch: "@) + bool_t(obyte_s(o, 0) & 0x80u8 != 0u8) + tx(", speed: "@) + fl_t(o, 1)
}

fn opf6_parts<'a>(bs: &Vec<u32>, op: u8, ops: &Vec<Operand<'a>>) -> (p: Vec<ListingPart<'a>>)
    ensures
        listing_view(p@) == opf6_text(bs@, op, operands_view(ops@)),
{
    let mut p = new_parts();
    put(&mut p, "Turn to some thing] enable: ");
    put_bool(&mut p, obyte(ops, 0) & 1u8 != 0u8);
    put(&mut p, ", pitch: ");
    put_bool(&mut p, obyte(ops, 0) & 0x80u8 != 0u8);
    put(&mut p, ", speed: ");
    put_fl(&mut p, ops, 1);
    p
}

/// What instruction 0xF7 writes.
pub open spec fn opf7_text(bs: Seq<u32>, op: u8, o: Seq<OperandV>) -> Seq<PartV> {
    Seq::empty() + tx("Display Message] type: "@) + num_t(onum_s(o, 0)) + tx(", message: "@) + name_t(o, 1) + tx(", duration: "@) + fl_t(o, 2)
}

fn opf7_parts<'a>(bs: &Vec<u32>, op: u8, ops: &Vec<Operand<'a>>) -> (p: Vec<ListingPart<'a>>)
    ensures
        listing_view(p@) == opf7_text(bs@, op, operands_view(ops@)),
{
    let mut p = new_parts();
    put(&mut p, "Display Message] type: ");
    put_num(&mut p, onum(ops, 0));
    put(&mut p, ", message: ");
    put_name(&mut p, ops, 1);
    put(&mut p, ", duration: ");
    put_fl(&mut p, ops, 2);
    p
}

/// What instruction 0xF8 writes.
pub open spec fn opf8_text(bs: Seq<u32>, op: u8, o: Seq<OperandV>) -> Seq<PartV> {
    Seq::empty() + (if onum_s(o, 0) == 0 { Seq::empty() + tx("Set sliding vars] x: "@) + fl_t(o, 1) + tx(", y: "@) + fl_t(o, 2) + tx(", value: "@) + fl_t(o, 3) } else { Seq::empty() + tx("Set sliding vars] x: "@) + fl_t(o, 1) + tx(", y: "@) + fl_t(o, 2) })
}

fn opf8_parts<'a>(bs: &Vec<u32>, op: u8, ops: &Vec<Operand<'a>>) -> (p: Vec<ListingPart<'a>>)
    ensures
        listing_view(p@) == opf8_text(bs@, op, operands_view(ops@)),
{
    let mut p = new_parts();
    let q1 = if onum(ops, 0) == 0 {
        let mut q1 = new_parts();
        put(&mut q1, "Set sliding vars] x: ");
        put_fl(&mut q1, ops, 1);
        put(&mut q1, ", y: ");
        put_fl(&mut q1, ops, 2);
        put(&mut q1, ", value: ");
        put_fl(&mut q1, ops, 3);
        q1
    } else {
        let mut q1 = new_parts();
        put(&mut q1, "Set sliding vars] x: ");
        put_fl(&mut q1, ops, 1);
        put(&mut q1, ", y: ");
        put_fl(&mut q1, ops, 2);
        q1
    };
    append_parts(&mut p, q1);
    p
}

/// What instruction 0xF9 writes.
pub open spec fn opf9_text(bs: Seq<u32>, op: u8, o: Seq<OperandV>) -> Seq<PartV> {
    Seq::empty() + (if onum_s(o, 0) == 1 { Seq::empty() + tx("Branch on sound] name: "@) + name_t(o, 2) + tx(", "@) + br_t(bs, o, 1) } else { Seq::empty() + tx("Branch on sound] "@) + br_t(bs, o, 1) })
}

fn opf9_parts<'a>(bs: &Vec<u32>, op: u8, ops: &Vec<Operand<'a>>) -> (p: Vec<ListingPart<'a>>)
    ensures
        listing_view(p@) == opf9_text(bs@, op, operands_view(ops@)),
{
    let mut p = new_parts();
    let q1 = if onum(ops, 0) == 1 {
        let mut q1 = new_parts();
        put(&mut q1, "Branch on sound] name: ");
        put_name(&mut q1, ops, 2);
        put(&mut q1, ", ");
        put_br(&mut q1, bs, ops, 1);
        q1
    } else {
        let mut q1 = new_parts();
        put(&mut q1, "Branch on sound] ");
        put_br(&mut q1, bs, ops, 1);
        q1
    };
    append_parts(&mut p, q1);
    p
}

/// What instruction 0xFA writes.
pub open spec fn opfa_text(bs: Seq<u32>, op: u8, o: Seq<OperandV>) -> Seq<PartV> {
    Seq::empty() + tx("Branch on part in box] "@) + (if onum_s(o, 0) == 0xFF { Seq::empty() + tx("name: "@) + name_t(o, 1) + tx(", "@) + (if onum_s(o, 2) == 2 { Seq::empty() + tx("min: ["@) + fl_t(o, 3) + tx(", "@) + fl_t(o, 4) + tx("], max: ["@) + fl_t(o, 5) + tx(", "@) + fl_t(o, 6) + tx("], "@) + tx("target: "@) + br_t(bs, o, 7) } else { Seq::empty() + tx("min: ["@) + fl_t(o, 3) + tx(", "@) + fl_t(o, 4) + tx(", "@) + fl_t(o, 5) + tx("], max: ["@) + fl_t(o, 6) + tx(", "@) + fl_t(o, 7) + tx(", "@) + fl_t(o, 8) + tx("], "@) + tx("target: "@) + br_t(bs, o, 9) }) } else { Seq::empty() + tx("index: "@) + num_t(onum_s(o, 0)) + tx(", "@) + (if onum_s(o, 1) == 2 { Seq::empty() + tx("min: ["@) + fl_t(o, 2) + tx(", "@) + fl_t(o, 3) + tx("], max: ["@) + fl_t(o, 4) + tx(", "@) + fl_t(o, 5) + tx("], "@) + tx("target: "@) + br_t(bs, o, 6) } else { Seq::empty() + tx("min: ["@) + fl_t(o, 2) + tx(", "@) + fl_t(o, 3) + tx(", "@) + fl_t(o, 4) + tx("], max: ["@) + fl_t(o, 5) + tx(", "@) + fl_t(o, 6) + tx(", "@) + fl_t(o, 7) + tx("], "@) + tx("target: "@) + br_t(bs, o, 8) }) })
}

fn opfa_parts<'a>(bs: &Vec<u32>, op: u8, ops: &Vec<Operand<'a>>) -> (p: Vec<ListingPart<'a>>)
    ensures
        listing_view(p@) == opfa_text(bs@, op, operands_view(ops@)),
{
    let mut p = new_parts();
    put(&mut p, "Branch on part in box] ");
    let q1 = if onum(ops, 0) == 0xFF {
        let mut q1 = new_parts();
        put(&mut q1, "name: ");
        put_name(&mut q1, ops, 1);
        put(&mut q1, ", ");
        let q2 = if onum(ops, 2) == 2 {
            let mut q2 = new_parts();
            put(&mut q2, "min: [");
            put_fl(&mut q2, ops, 3);
            put(&mut q2, ", ");
            put_fl(&mut q2, ops, 4);
            put(&mut q2, "], max: [");
            put_fl(&mut q2, ops, 5);
            put(&mut q2, ", ");
            put_fl(&mut q2, ops, 6);
            put(&mut q2, "], ");
            put(&mut q2, "target: ");
            put_br(&mut q2, bs, ops, 7);
            q2
        } else {
            let mut q2 = new_parts();
            put(&mut q2, "min: [");
            put_fl(&mut q2, ops, 3);
            put(&mut q2, ", ");
            put_fl(&mut q2, ops, 4);
            put(&mut q2, ", ");
            put_fl(&mut q2, ops, 5);
            put(&mut q2, "], max: [");
            put_fl(&mut q2, ops, 6);
            put(&mut q2, ", ");
            put_fl(&mut q2, ops, 7);
            put(&mut q2, ", ");
            put_fl(&mut q2, ops, 8);
            put(&mut q2, "], ");
            put(&mut q2, "target: ");
            put_br(&mut q2, bs, ops, 9);
            q2
        };
        append_parts(&mut q1, q2);
        q1
    } else {
        let mut q1 = new_parts();
        put(&mut q1, "index: ");
        put_num(&mut q1, onum(ops, 0));
        put(&mut q1, ", ");
        let q2 = if onum(ops, 1) == 2 {
            let mut q2 = new_parts();
            put(&mut q2, "min: [");
            put_fl(&mut q2, ops, 2);
            put(&mut q2, ", ");
            put_fl(&mut q2, ops, 3);
            put(&mut q2, "], max: [");
            put_fl(&mut q2, ops, 4);
            put(&mut q2, ", ");
            put_fl(&mut q2, ops, 5);
            put(&mut q2, "], ");
            put(&mut q2, "target: ");
            put_br(&mut q2, bs, ops, 6);
            q2
        } else {
            let mut q2 = new_parts();
            put(&mut q2, "min: [");
            put_fl(&mut q2, ops, 2);
            put(&mut q2, ", ");
            put_fl(&mut q2, ops, 3);
            put(&mut q2, ", ");
            put_fl(&mut q2, ops, 4);
            put(&mut q2, "], max: [");
            put_fl(&mut q2, ops, 5);
            put(&mut q2, ", ");
            put_fl(&mut q2, ops, 6);
            put(&mut q2, ", ");
            put_fl(&mut q2, ops, 7);
            put(&mut q2, "], ");
            put(&mut q2, "target: ");
            put_br(&mut q2, bs, ops, 8);
            q2
        };
        append_parts(&mut q1, q2);
        q1
    };
    append_parts(&mut p, q1);
    p
}

/// What instruction 0xFB writes.
pub open spec fn opfb_text(bs: Seq<u32>, op: u8, o: Seq<OperandV>) -> Seq<PartV> {
    Seq::empty() + tx("Set some flag about player pos] value: "@) + num_t(onum_s(o, 0))
}

fn opfb_parts<'a>(bs: &Vec<u32>, op: u8, ops: &Vec<Operand<'a>>) -> (p: Vec<ListingPart<'a>>)
    ensures
        listing_view(p@) == opfb_text(bs@, op, operands_view(ops@)),
{
    let mut p = new_parts();
    put(&mut p, "Set some flag about player pos] value: ");
    put_num(&mut p, onum(ops, 0));
    p
}

/// What instruction 0xFC writes.
pub open spec fn opfc_text(bs: Seq<u32>, op: u8, o: Seq<OperandV>) -> Seq<PartV> {
    Seq::empty() + tx("Random call] targets:"@) + blocks_t(bs, oblocks_s(o, 0), oblocks_s(o, 0).len() as int, " "@, ""@)
}

fn opfc_parts<'a>(bs: &Vec<u32>, op: u8, ops: &Vec<Operand<'a>>) -> (p: Vec<ListingPart<'a>>)
    ensures
        listing_view(p@) == opfc_text(bs@, op, operands_view(ops@)),
{
    let mut p = new_parts();
    put(&mut p, "Random call] targets:");
    put_blocks(&mut p, bs, ops, 0, " ", "");
    p
}

/// What instruction 0xFD writes.
pub open spec fn opfd_text(bs: Seq<u32>, op: u8, o: Seq<OperandV>) -> Seq<PartV> {
    Seq::empty() + tx("Return]"@)
}

fn opfd_parts<'a>(bs: &Vec<u32>, op: u8, ops: &Vec<Operand<'a>>) -> (p: Vec<ListingPart<'a>>)
    ensures
        listing_view(p@) == opfd_text(bs@, op, operands_view(ops@)),
{
    let mut p = new_parts();
    put(&mut p, "Return]");
    p
}

pub open spec fn instr_text_low(bs: Seq<u32>, op: u8, o: Seq<OperandV>) -> Seq<PartV> {
    match op {
        0x00 | 0x07 | 0x1E => op00_text(bs, op, o),
        0x01 => op01_text(bs, op, o),
        0x02 => op02_text(bs, op, o),
        0x03 => op03_text(bs, op, o),
        0x04 => op04_text(bs, op, o),
        0x05 => op05_text(bs, op, o),
        0x06 => op06_text(bs, op, o),
        0x08 => op08_text(bs, op, o),
        0x09 => op09_text(bs, op, o),
        0x0A => op0a_text(bs, op, o),
        0x0B => op0b_text(bs, op, o),
        0x0C => op0c_text(bs, op, o),
        0x0D => op0d_text(bs, op, o),
        0x0E => op0e_text(bs, op, o),
        0x0F => op0f_text(bs, op, o),
        0x10 => op10_text(bs, op, o),
        0x11 => op11_text(bs, op, o),
        0x12 => op12_text(bs, op, o),
        0x13 => op13_text(bs, op, o),
        0x14 => op14_text(bs, op, o),
        0x15 => op15_text(bs, op, o),
        0x16 => op16_text(bs, op, o),
        0x17 => op17_text(bs, op, o),
        0x18 => op18_text(bs, op, o),
        0x19 => op19_text(bs, op, o),
        0x1A => op1a_text(bs, op, o),
        0x1B => op1b_text(bs, op, o),
        0x1C => op1c_text(bs, op, o),
        0x1D => op1d_text(bs, op, o),
        0x1F => op1f_text(bs, op, o),
        0x20 => op20_text(bs, op, o),
        0x21 => op21_text(bs, op, o),
        0x22 => op22_text(bs, op, o),
        0x23 => op23_text(bs, op, o),
        0x24 => op24_text(bs, op, o),
        0x25 => op25_text(bs, op, o),
        0x26 => op26_text(bs, op, o),
        0x27 => op27_text(bs, op, o),
        0x28 => op28_text(bs, op, o),
        0x29 => op29_text(bs, op, o),
        0x2A => op2a_text(bs, op, o),
        0x2B => op2b_text(bs, op, o),
        0x2C => op2c_text(bs, op, o),
        0x2D => op2d_text(bs, op, o),
        0x2E => op2e_text(bs, op, o),
        0x2F => op2f_text(bs, op, o),
        0x30 => op30_text(bs, op, o),
        0x31 => op31_text(bs, op, o),
        0x32 | 0x33 | 0x34 | 0x35 => op32_text(bs, op, o),
        0x36 => op36_text(bs, op, o),
        0x37 => op37_text(bs, op, o),
        0x38 => op38_text(bs, op, o),
        0x39 => op39_text(bs, op, o),
        0x3A => op3a_text(bs, op, o),
        0x3B => op3b_text(bs, op, o),
        0x3C => op3c_text(bs, op, o),
        0x3D => op3d_text(bs, op, o),
        0x3E => op3e_text(bs, op, o),
        0x3F => op3f_text(bs, op, o),
        0x40 => op40_text(bs, op, o),
        0x41 => op41_text(bs, op, o),
        0x42 => op42_text(bs, op, o),
        0x43 => op43_text(bs, op, o),
        0x44 => op44_text(bs, op, o),
        0x45 => op45_text(bs, op, o),
        0x46 => op46_text(bs, op, o),
        0x47 | 0x48 => op47_text(bs, op, o),
        0x49 => op49_text(bs, op, o),
        0x4A => op4a_text(bs, op, o),
        0x4B => op4b_text(bs, op, o),
        0x4C => op4c_text(bs, op, o),
        0x4D => op4d_text(bs, op, o),
        0x4E => op4e_text(bs, op, o),
        0x4F => op4f_text(bs, op, o),
        0x50 => op50_text(bs, op, o),
        0x51 => op51_text(bs, op, o),
        0x52 => op52_text(bs, op, o),
        0x53 => op53_text(bs, op, o),
        0x54 => op54_text(bs, op, o),
        0x55 => op55_text(bs, op, o),
        0x56 => op56_text(bs, op, o),
        0x57 => op57_text(bs, op, o),
        0x58 => op58_text(bs, op, o),
        0x59 => op59_text(bs, op, o),
        0x5A => op5a_text(bs, op, o),
        0x5B => op5b_text(bs, op, o),
        0x5C => op5c_text(bs, op, o),
        0x5D => op5d_text(bs, op, o),
        0x5E | 0x5F => op5e_text(bs, op, o),
        0x60 => op60_text(bs, op, o),
        0x61 => op61_text(bs, op, o),
        0x62 => op62_text(bs, op, o),
        0x63 => op63_text(bs, op, o),
        0x64 => op64_text(bs, op, o),
        0x65 => op65_text(bs, op, o),
        0x66 => op66_text(bs, op, o),
        0x67 => op67_text(bs, op, o),
        0x68 => op68_text(bs, op, o),
        0x69 => op69_text(bs, op, o),
        0x6A => op6a_text(bs, op, o),
        0x6B => op6b_text(bs, op, o),
        0x6C => op6c_text(bs, op, o),
        0x6D => op6d_text(bs, op, o),
        0x6E => op6e_text(bs, op, o),
        0x6F => op6f_text(bs, op, o),
        0x70 => op70_text(bs, op, o),
        0x71 => op71_text(bs, op, o),
        0x72 => op72_text(bs, op, o),
        0x73 => op73_text(bs, op, o),
        0x74 => op74_text(bs, op, o),
        0x75 => op75_text(bs, op, o),
        0x76 => op76_text(bs, op, o),
        0x77 => op77_text(bs, op, o),
        0x78 => op78_text(bs, op, o),
        0x79 => op79_text(bs, op, o),
        0x7A => op7a_text(bs, op, o),
        0x7B => op7b_text(bs, op, o),
        0x7C => op7c_text(bs, op, o),
        0x7D => op7d_text(bs, op, o),
        0x7E => op7e_text(bs, op, o),
        0x7F => op7f_text(bs, op, o),
        _ => Seq::empty(),
    }
}

fn instr_parts_low<'a>(bs: &Vec<u32>, op: u8, ops: &Vec<Operand<'a>>) -> (p: Vec<ListingPart<'a>>)
    ensures
        listing_view(p@) == instr_text_low(bs@, op, operands_view(ops@)),
{
    match op {
        0x00 | 0x07 | 0x1E => op00_parts(bs, op, ops),
        0x01 => op01_parts(bs, op, ops),
        0x02 => op02_parts(bs, op, ops),
        0x03 => op03_parts(bs, op, ops),
        0x04 => op04_parts(bs, op, ops),
        0x05 => op05_parts(bs, op, ops),
        0x06 => op06_parts(bs, op, ops),
        0x08 => op08_parts(bs, op, ops),
        0x09 => op09_parts(bs, op, ops),
        0x0A => op0a_parts(bs, op, ops),
        0x0B => op0b_parts(bs, op, ops),
        0x0C => op0c_parts(bs, op, ops),
        0x0D => op0d_parts(bs, op, ops),
        0x0E => op0e_parts(bs, op, ops),
        0x0F => op0f_parts(bs, op, ops),
        0x10 => op10_parts(bs, op, ops),
        0x11 => op11_parts(bs, op, ops),
        0x12 => op12_parts(bs, op, ops),
        0x13 => op13_parts(bs, op, ops),
        0x14 => op14_parts(bs, op, ops),
        0x15 => op15_parts(bs, op, ops),
        0x16 => op16_parts(bs, op, ops),
        0x17 => op17_parts(bs, op, ops),
        0x18 => op18_parts(bs, op, ops),
        0x19 => op19_parts(bs, op, ops),
        0x1A => op1a_parts(bs, op, ops),
        0x1B => op1b_parts(bs, op, ops),
        0x1C => op1c_parts(bs, op, ops),
        0x1D => op1d_parts(bs, op, ops),
        0x1F => op1f_parts(bs, op, ops),
        0x20 => op20_parts(bs, op, ops),
        0x21 => op21_parts(bs, op, ops),
        0x22 => op22_parts(bs, op, ops),
        0x23 => op23_parts(bs, op, ops),
        0x24 => op24_parts(bs, op, ops),
        0x25 => op25_parts(bs, op, ops),
        0x26 => op26_parts(bs, op, ops),
        0x27 => op27_parts(bs, op, ops),
        0x28 => op28_parts(bs, op, ops),
        0x29 => op29_parts(bs, op, ops),
        0x2A => op2a_parts(bs, op, ops),
        0x2B => op2b_parts(bs, op, ops),
        0x2C => op2c_parts(bs, op, ops),
        0x2D => op2d_parts(bs, op, ops),
        0x2E => op2e_parts(bs, op, ops),
        0x2F => op2f_parts(bs, op, ops),
        0x30 => op30_parts(bs, op, ops),
        0x31 => op31_parts(bs, op, ops),
        0x32 | 0x33 | 0x34 | 0x35 => op32_parts(bs, op, ops),
        0x36 => op36_parts(bs, op, ops),
        0x37 => op37_parts(bs, op, ops),
        0x38 => op38_parts(bs, op, ops),
        0x39 => op39_parts(bs, op, ops),
        0x3A => op3a_parts(bs, op, ops),
        0x3B => op3b_parts(bs, op, ops),
        0x3C => op3c_parts(bs, op, ops),
        0x3D => op3d_parts(bs, op, ops),
        0x3E => op3e_parts(bs, op, ops),
        0x3F => op3f_parts(bs, op, ops),
        0x40 => op40_parts(bs, op, ops),
        0x41 => op41_parts(bs, op, ops),
        0x42 => op42_parts(bs, op, ops),
        0x43 => op43_parts(bs, op, ops),
        0x44 => op44_parts(bs, op, ops),
        0x45 => op45_parts(bs, op, ops),
        0x46 => op46_parts(bs, op, ops),
        0x47 | 0x48 => op47_parts(bs, op, ops),
        0x49 => op49_parts(bs, op, ops),
        0x4A => op4a_parts(bs, op, ops),
        0x4B => op4b_parts(bs, op, ops),
        0x4C => op4c_parts(bs, op, ops),
        0x4D => op4d_parts(bs, op, ops),
        0x4E => op4e_parts(bs, op, ops),
        0x4F => op4f_parts(bs, op, ops),
        0x50 => op50_parts(bs, op, ops),
        0x51 => op51_parts(bs, op, ops),
        0x52 => op52_parts(bs, op, ops),
        0x53 => op53_parts(bs, op, ops),
        0x54 => op54_parts(bs, op, ops),
        0x55 => op55_parts(bs, op, ops),
        0x56 => op56_parts(bs, op, ops),
        0x57 => op57_parts(bs, op, ops),
        0x58 => op58_parts(bs, op, ops),
        0x59 => op59_parts(bs, op, ops),
        0x5A => op5a_parts(bs, op, ops),
        0x5B => op5b_parts(bs, op, ops),
        0x5C => op5c_parts(bs, op, ops),
        0x5D => op5d_parts(bs, op, ops),
        0x5E | 0x5F => op5e_parts(bs, op, ops),
        0x60 => op60_parts(bs, op, ops),
        0x61 => op61_parts(bs, op, ops),
        0x62 => op62_parts(bs, op, ops),
        0x63 => op63_parts(bs, op, ops),
        0x64 => op64_parts(bs, op, ops),
        0x65 => op65_parts(bs, op, ops),
        0x66 => op66_parts(bs, op, ops),
        0x67 => op67_parts(bs, op, ops),
        0x68 => op68_parts(bs, op, ops),
        0x69 => op69_parts(bs, op, ops),
        0x6A => op6a_parts(bs, op, ops),
        0x6B => op6b_parts(bs, op, ops),
        0x6C => op6c_parts(bs, op, ops),
        0x6D => op6d_parts(bs, op, ops),
        0x6E => op6e_parts(bs, op, ops),
        0x6F => op6f_parts(bs, op, ops),
        0x70 => op70_parts(bs, op, ops),
        0x71 => op71_parts(bs, op, ops),
        0x72 => op72_parts(bs, op, ops),
        0x73 => op73_parts(bs, op, ops),
        0x74 => op74_parts(bs, op, ops),
        0x75 => op75_parts(bs, op, ops),
        0x76 => op76_parts(bs, op, ops),
        0x77 => op77_parts(bs, op, ops),
        0x78 => op78_parts(bs, op, ops),
        0x79 => op79_parts(bs, op, ops),
        0x7A => op7a_parts(bs, op, ops),
        0x7B => op7b_parts(bs, op, ops),
        0x7C => op7c_parts(bs, op, ops),
        0x7D => op7d_parts(bs, op, ops),
        0x7E => op7e_parts(bs, op, ops),
        0x7F => op7f_parts(bs, op, ops),
        _ => new_parts(),
    }
}

pub open spec fn instr_text_high(bs: Seq<u32>, op: u8, o: Seq<OperandV>) -> Seq<PartV> {
    match op {
        0xFE | 0xFF => op00_text(bs, op, o),
        0x80 => op80_text(bs, op, o),
        0x81 => op81_text(bs, op, o),
        0x82 => op82_text(bs, op, o),
        0x83 => op83_text(bs, op, o),
        0x84 => op84_text(bs, op, o),
        0x85 => op85_text(bs, op, o),
        0x86 => op86_text(bs, op, o),
        0x87 => op87_text(bs, op, o),
        0x88 => op88_text(bs, op, o),
        0x89 => op89_text(bs, op, o),
        0x8A => op8a_text(bs, op, o),
        0x8B => op8b_text(bs, op, o),
        0x8C => op8c_text(bs, op, o),
        0x8D => op8d_text(bs, op, o),
        0x8E => op8e_text(bs, op, o),
        0x8F => op8f_text(bs, op, o),
        0x90 => op90_text(bs, op, o),
        0x91 => op91_text(bs, op, o),
        0x92 => op92_text(bs, op, o),
        0x93 => op93_text(bs, op, o),
        0x94 => op94_text(bs, op, o),
        0x95 => op95_text(bs, op, o),
        0x96 => op96_text(bs, op, o),
        0x97 => op97_text(bs, op, o),
        0x98 => op98_text(bs, op, o),
        0x99 => op99_text(bs, op, o),
        0x9A => op9a_text(bs, op, o),
        0x9B => op9b_text(bs, op, o),
        0x9C => op9c_text(bs, op, o),
        0x9D => op9d_text(bs, op, o),
        0x9E => op9e_text(bs, op, o),
        0x9F => op9f_text(bs, op, o),
        0xA0 => opa0_text(bs, op, o),
        0xA1 => opa1_text(bs, op, o),
        0xA2 => opa2_text(bs, op, o),
        0xA3 => opa3_text(bs, op, o),
        0xA4 => opa4_text(bs, op, o),
        0xA5 => opa5_text(bs, op, o),
        0xA6 => opa6_text(bs, op, o),
        0xA7 => opa7_text(bs, op, o),
        0xA8 => opa8_text(bs, op, o),
        0xA9 => opa9_text(bs, op, o),
        0xAA => opaa_text(bs, op, o),
        0xAB => opab_text(bs, op, o),
        0xAC => opac_text(bs, op, o),
        0xAD => opad_text(bs, op, o),
        0xAE => opae_text(bs, op, o),
        0xAF => opaf_text(bs, op, o),
        0xB0 => opb0_text(bs, op, o),
        0xB1 => opb1_text(bs, op, o),
        0xB2 => opb2_text(bs, op, o),
        0xB3 => opb3_text(bs, op, o),
        0xB4 => opb4_text(bs, op, o),
        0xB5 => opb5_text(bs, op, o),
        0xB6 => opb6_text(bs, op, o),
        0xB7 => opb7_text(bs, op, o),
        0xB8 => opb8_text(bs, op, o),
        0xB9 => opb9_text(bs, op, o),
        0xBA => opba_text(bs, op, o),
        0xBB => opbb_text(bs, op, o),
        0xBC => opbc_text(bs, op, o),
        0xBD => opbd_text(bs, op, o),
        0xBE => opbe_text(bs, op, o),
        0xBF => opbf_text(bs, op, o),
        0xC0 => opc0_text(bs, op, o),
        0xC1 => opc1_text(bs, op, o),
        0xC2 => opc2_text(bs, op, o),
        0xC3 => opc3_text(bs, op, o),
        0xC4 => opc4_text(bs, op, o),
        0xC5 => opc5_text(bs, op, o),
        0xC6 => opc6_text(bs, op, o),
        0xC7 => opc7_text(bs, op, o),
        0xC8 => opc8_text(bs, op, o),
        0xC9 => opc9_text(bs, op, o),
        0xCA => opca_text(bs, op, o),
        0xCB => opcb_text(bs, op, o),
        0xCC => opcc_text(bs, op, o),
        0xCD => opcd_text(bs, op, o),
        0xCE => opce_text(bs, op, o),
        0xCF => opcf_text(bs, op, o),
        0xD0 => opd0_text(bs, op, o),
        0xD1 => opd1_text(bs, op, o),
        0xD2 => opd2_text(bs, op, o),
        0xD3 => opd3_text(bs, op, o),
        0xD4 => opd4_text(bs, op, o),
        0xD5 => opd5_text(bs, op, o),
        0xD6 => opd6_text(bs, op, o),
        0xD7 => opd7_text(bs, op, o),
        0xD8 => opd8_text(bs, op, o),
        0xD9 => opd9_text(bs, op, o),
        0xDA => opda_text(bs, op, o),
        0xDB => opdb_text(bs, op, o),
        0xDC => opdc_text(bs, op, o),
        0xDD => opdd_text(bs, op, o),
        0xDE => opde_text(bs, op, o),
        0xDF => opdf_text(bs, op, o),
        0xE0 => ope0_text(bs, op, o),
        0xE1 => ope1_text(bs, op, o),
        0xE2 => ope2_text(bs, op, o),
        0xE3 => ope3_text(bs, op, o),
        0xE4 => ope4_text(bs, op, o),
        0xE5 => ope5_text(bs, op, o),
        0xE6 => ope6_text(bs, op, o),
        0xE7 => ope7_text(bs, op, o),
        0xE8 => ope8_text(bs, op, o),
        0xE9 => ope9_text(bs, op, o),
        0xEA => opea_text(bs, op, o),
        0xEB => opeb_text(bs, op, o),
        0xEC => opec_text(bs, op, o),
        0xED => oped_text(bs, op, o),
        0xEE => opee_text(bs, op, o),
        0xEF => opef_text(bs, op, o),
        0xF0 => opf0_text(bs, op, o),
        0xF1 => opf1_text(bs, op, o),
        0xF2 => opf2_text(bs, op, o),
        0xF3 => opf3_text(bs, op, o),
        0xF4 => opf4_text(bs, op, o),
        0xF5 => opf5_text(bs, op, o),
        0xF6 => opf6_text(bs, op, o),
        0xF7 => opf7_text(bs, op, o),
        0xF8 => opf8_text(bs, op, o),
        0xF9 => opf9_text(bs, op, o),
        0xFA => opfa_text(bs, op, o),
        0xFB => opfb_text(bs, op, o),
        0xFC => opfc_text(bs, op, o),
        0xFD => opfd_text(bs, op, o),
        _ => Seq::empty(),
    }
}

fn instr_parts_high<'a>(bs: &Vec<u32>, op: u8, ops: &Vec<Operand<'a>>) -> (p: Vec<ListingPart<'a>>)
    ensures
        listing_view(p@) == instr_text_high(bs@, op, operands_view(ops@)),
{
    match op {
        0xFE | 0xFF => op00_parts(bs, op, ops),
        0x80 => op80_parts(bs, op, ops),
        0x81 => op81_parts(bs, op, ops),
        0x82 => op82_parts(bs, op, ops),
        0x83 => op83_parts(bs, op, ops),
        0x84 => op84_parts(bs, op, ops),
        0x85 => op85_parts(bs, op, ops),
        0x86 => op86_parts(bs, op, ops),
        0x87 => op87_parts(bs, op, ops),
        0x88 => op88_parts(bs, op, ops),
        0x89 => op89_parts(bs, op, ops),
        0x8A => op8a_parts(bs, op, ops),
        0x8B => op8b_parts(bs, op, ops),
        0x8C => op8c_parts(bs, op, ops),
        0x8D => op8d_parts(bs, op, ops),
        0x8E => op8e_parts(bs, op, ops),
        0x8F => op8f_parts(bs, op, ops),
        0x90 => op90_parts(bs, op, ops),
        0x91 => op91_parts(bs, op, ops),
        0x92 => op92_parts(bs, op, ops),
        0x93 => op93_parts(bs, op, ops),
        0x94 => op94_parts(bs, op, ops),
        0x95 => op95_parts(bs, op, ops),
        0x96 => op96_parts(bs, op, ops),
        0x97 => op97_parts(bs, op, ops),
        0x98 => op98_parts(bs, op, ops),
        0x99 => op99_parts(bs, op, ops),
        0x9A => op9a_parts(bs, op, ops),
        0x9B => op9b_parts(bs, op, ops),
        0x9C => op9c_parts(bs, op, ops),
        0x9D => op9d_parts(bs, op, ops),
        0x9E => op9e_parts(bs, op, ops),
        0x9F => op9f_parts(bs, op, ops),
        0xA0 => opa0_parts(bs, op, ops),
        0xA1 => opa1_parts(bs, op, ops),
        0xA2 => opa2_parts(bs, op, ops),
        0xA3 => opa3_parts(bs, op, ops),
        0xA4 => opa4_parts(bs, op, ops),
        0xA5 => opa5_parts(bs, op, ops),
        0xA6 => opa6_parts(bs, op, ops),
        0xA7 => opa7_parts(bs, op, ops),
        0xA8 => opa8_parts(bs, op, ops),
        0xA9 => opa9_parts(bs, op, ops),
        0xAA => opaa_parts(bs, op, ops),
        0xAB => opab_parts(bs, op, ops),
        0xAC => opac_parts(bs, op, ops),
        0xAD => opad_parts(bs, op, ops),
        0xAE => opae_parts(bs, op, ops),
        0xAF => opaf_parts(bs, op, ops),
        0xB0 => opb0_parts(bs, op, ops),
        0xB1 => opb1_parts(bs, op, ops),
        0xB2 => opb2_parts(bs, op, ops),
        0xB3 => opb3_parts(bs, op, ops),
        0xB4 => opb4_parts(bs, op, ops),
        0xB5 => opb5_parts(bs, op, ops),
        0xB6 => opb6_parts(bs, op, ops),
        0xB7 => opb7_parts(bs, op, ops),
        0xB8 => opb8_parts(bs, op, ops),
        0xB9 => opb9_parts(bs, op, ops),
        0xBA => opba_parts(bs, op, ops),
        0xBB => opbb_parts(bs, op, ops),
        0xBC => opbc_parts(bs, op, ops),
        0xBD => opbd_parts(bs, op, ops),
        0xBE => opbe_parts(bs, op, ops),
        0xBF => opbf_parts(bs, op, ops),
        0xC0 => opc0_parts(bs, op, ops),
        0xC1 => opc1_parts(bs, op, ops),
        0xC2 => opc2_parts(bs, op, ops),
        0xC3 => opc3_parts(bs, op, ops),
        0xC4 => opc4_parts(bs, op, ops),
        0xC5 => opc5_parts(bs, op, ops),
        0xC6 => opc6_parts(bs, op, ops),
        0xC7 => opc7_parts(bs, op, ops),
        0xC8 => opc8_parts(bs, op, ops),
        0xC9 => opc9_parts(bs, op, ops),
        0xCA => opca_parts(bs, op, ops),
        0xCB => opcb_parts(bs, op, ops),
        0xCC => opcc_parts(bs, op, ops),
        0xCD => opcd_parts(bs, op, ops),
        0xCE => opce_parts(bs, op, ops),
        0xCF => opcf_parts(bs, op, ops),
        0xD0 => opd0_parts(bs, op, ops),
        0xD1 => opd1_parts(bs, op, ops),
        0xD2 => opd2_parts(bs, op, ops),
        0xD3 => opd3_parts(bs, op, ops),
        0xD4 => opd4_parts(bs, op, ops),
        0xD5 => opd5_parts(bs, op, ops),
        0xD6 => opd6_parts(bs, op, ops),
        0xD7 => opd7_parts(bs, op, ops),
        0xD8 => opd8_parts(bs, op, ops),
        0xD9 => opd9_parts(bs, op, ops),
        0xDA => opda_parts(bs, op, ops),
        0xDB => opdb_parts(bs, op, ops),
        0xDC => opdc_parts(bs, op, ops),
        0xDD => opdd_parts(bs, op, ops),
        0xDE => opde_parts(bs, op, ops),
        0xDF => opdf_parts(bs, op, ops),
        0xE0 => ope0_parts(bs, op, ops),
        0xE1 => ope1_parts(bs, op, ops),
        0xE2 => ope2_parts(bs, op, ops),
        0xE3 => ope3_parts(bs, op, ops),
        0xE4 => ope4_parts(bs, op, ops),
        0xE5 => ope5_parts(bs, op, ops),
        0xE6 => ope6_parts(bs, op, ops),
        0xE7 => ope7_parts(bs, op, ops),
        0xE8 => ope8_parts(bs, op, ops),
        0xE9 => ope9_parts(bs, op, ops),
        0xEA => opea_parts(bs, op, ops),
        0xEB => opeb_parts(bs, op, ops),
        0xEC => opec_parts(bs, op, ops),
        0xED => oped_parts(bs, op, ops),
        0xEE => opee_parts(bs, op, ops),
        0xEF => opef_parts(bs, op, ops),
        0xF0 => opf0_parts(bs, op, ops),
        0xF1 => opf1_parts(bs, op, ops),
        0xF2 => opf2_parts(bs, op, ops),
        0xF3 => opf3_parts(bs, op, ops),
        0xF4 => opf4_parts(bs, op, ops),
        0xF5 => opf5_parts(bs, op, ops),
        0xF6 => opf6_parts(bs, op, ops),
        0xF7 => opf7_parts(bs, op, ops),
        0xF8 => opf8_parts(bs, op, ops),
        0xF9 => opf9_parts(bs, op, ops),
        0xFA => opfa_parts(bs, op, ops),
        0xFB => opfb_parts(bs, op, ops),
        0xFC => opfc_parts(bs, op, ops),
        0xFD => opfd_parts(bs, op, ops),
        _ => new_parts(),
    }
}

/// What instruction `op` with operands `o` writes after its opcode; `bs` are the
/// offsets of the script's blocks, by which block operands are named.
pub open spec fn instr_text(bs: Seq<u32>, op: u8, o: Seq<OperandV>) -> Seq<PartV> {
    if op < 0x80 {
        instr_text_low(bs, op, o)
    } else {
        instr_text_high(bs, op, o)
    }
}

/// The line of one instruction: `[offset: opcode ` and what it writes.
pub open spec fn instr_line(bs: Seq<u32>, i: InstrV) -> Seq<PartV> {
    tx("["@) + hex_t(i.offset, 6) + tx(": "@) + hex_t(i.opcode as int, 2) + tx(" "@) + instr_text(
        bs,
        i.opcode,
        i.operands,
    ) + tx("\n"@)
}

/// The lines of the first `n` instructions of `is`.
pub open spec fn lines_upto(bs: Seq<u32>, is: Seq<InstrV>, n: int) -> Seq<PartV>
    decreases n,
{
    if n <= 0 {
        Seq::empty()
    } else {
        lines_upto(bs, is, n - 1) + instr_line(bs, is[n - 1])
    }
}

/// The header of block `k`, which starts at `offset`: the first block is `main`.
pub open spec fn block_head(k: int, offset: u32) -> Seq<PartV> {
    if k == 0 {
        tx("main (offset "@) + hex_t(offset as int, 6) + tx(")\n"@)
    } else {
        tx("block_"@) + num_t(k) + tx(" (offset "@) + hex_t(offset as int, 6) + tx(")\n"@)
    }
}

/// Block `k`: its header, its lines, and the offset just past its end.
pub open spec fn block_listing(bs: Seq<u32>, k: int, b: BlockV) -> Seq<PartV> {
    block_head(k, b.offset) + lines_upto(bs, b.instrs, b.instrs.len() as int) + tx("(end offset "@) + hex_t(
        b.end,
        6,
    ) + tx(")\n\n"@)
}

/// The offsets of the blocks, in order.
pub open spec fn block_offsets(v: Seq<BlockV>) -> Seq<u32> {
    v.map_values(|b: BlockV| b.offset)
}

/// The listing of the first `n` blocks.
pub open spec fn listing_upto(v: Seq<BlockV>, n: int) -> Seq<PartV>
    decreases n,
{
    if n <= 0 {
        Seq::empty()
    } else {
        listing_upto(v, n - 1) + block_listing(block_offsets(v), n - 1, v[n - 1])
    }
}

/// The listing of a script whose blocks are `v`, in the order they were found.
pub open spec fn spec_listing(v: Seq<BlockV>) -> Seq<PartV> {
    listing_upto(v, v.len() as int)
}

fn instr_parts<'a>(bs: &Vec<u32>, op: u8, ops: &Vec<Operand<'a>>) -> (p: Vec<ListingPart<'a>>)
    ensures
        listing_view(p@) == instr_text(bs@, op, operands_view(ops@)),
{
    if op < 0x80 {
        instr_parts_low(bs, op, ops)
    } else {
        instr_parts_high(bs, op, ops)
    }
}

fn line_parts<'a>(bs: &Vec<u32>, i: &Instr<'a>) -> (p: Vec<ListingPart<'a>>)
    ensures
        listing_view(p@) == instr_line(bs@, i@),
{
    let mut p = new_parts();
    put(&mut p, "[");
    put_hex_u64(&mut p, i.offset as u64, 6);
    put(&mut p, ": ");
    put_hex_u64(&mut p, i.opcode as u64, 2);
    put(&mut p, " ");
    let q = instr_parts(bs, i.opcode, &i.operands);
    append_parts(&mut p, q);
    put(&mut p, "\n");
    p
}

fn head_parts<'a>(k: usize, offset: u32) -> (p: Vec<ListingPart<'a>>)
    ensures
        listing_view(p@) == block_head(k as int, offset),
{
    let mut p = new_parts();
    if k == 0 {
        put(&mut p, "main (offset ");
    } else {
        put(&mut p, "block_");
        put_count(&mut p, k as u64);
        put(&mut p, " (offset ");
    }
    put_hex_u64(&mut p, offset as u64, 6);
    put(&mut p, ")\n");
    p
}

fn block_parts<'a>(bs: &Vec<u32>, k: usize, b: &CmiBlock<'a>) -> (p: Vec<ListingPart<'a>>)
    ensures
        listing_view(p@) == block_listing(bs@, k as int, b@),
{
    let ghost is = b@.instrs;
    let mut p = head_parts(k, b.offset);
    let ghost head = listing_view(p@);
    let mut j: usize = 0;
    while j < b.instrs.len()
        invariant
            j <= b.instrs@.len(),
            is == b@.instrs,
            is.len() == b.instrs@.len(),
            head == block_head(k as int, b.offset),
            listing_view(p@) == head + lines_upto(bs@, is, j as int),
        decreases b.instrs@.len() - j,
    {
        let q = line_parts(bs, &b.instrs[j]);
        append_parts(&mut p, q);
        j = j + 1;
    }
    put(&mut p, "(end offset ");
    put_hex_u64(&mut p, b.end as u64, 6);
    put(&mut p, ")\n\n");
    p
}

/// The listing of a disassembled script, as the script's text export shows it:
/// for each block in the order found, `main` or `block_k` with its offset, then
/// one line per instruction, `[offset: opcode Name] operands`, then the offset
/// just past the block.
pub fn script_listing<'a>(script: &CmiScript<'a>) -> (parts: Vec<ListingPart<'a>>)
    ensures
        listing_view(parts@) == spec_listing(blocks_view(script.blocks@)),
{
    let ghost v = blocks_view(script.blocks@);
    let mut bs: Vec<u32> = Vec::new();
    let mut i: usize = 0;
    while i < script.blocks.len()
        invariant
            i <= script.blocks@.len(),
            v == blocks_view(script.blocks@),
            bs@ == block_offsets(v).take(i as int),
        decreases script.blocks@.len() - i,
    {
        bs.push(script.blocks[i].offset);
        assert(block_offsets(v).take(i + 1) =~= block_offsets(v).take(i as int).push(v[i as int].offset));
        i = i + 1;
    }
    assert(bs@ =~= block_offsets(v));
    let mut p = new_parts();
    let mut k: usize = 0;
    while k < script.blocks.len()
        invariant
            k <= script.blocks@.len(),
            v == blocks_view(script.blocks@),
            bs@ == block_offsets(v),
            listing_view(p@) == listing_upto(v, k as int),
        decreases script.blocks@.len() - k,
    {
        let q = block_parts(&bs, k, &script.blocks[k]);
        append_parts(&mut p, q);
        k = k + 1;
    }
    p
}

/// Disassembles the script at the reader's position and lists it; `None` where
/// the script does not decode (see `CmiScript::try_parse`).
pub fn parse_cmi<'a>(reader: Reader<'a>) -> (res: Option<Vec<ListingPart<'a>>>)
    ensures
        match script_blocks(reader.data(), reader.pos()) {
            Some(bs) => res matches Some(p) && listing_view(p@) == spec_listing(bs),
            None => res is None,
        },
{
    match CmiScript::try_parse(reader) {
        Some(s) => Some(script_listing(&s)),
        None => None,
    }
}

impl<'a> CmiScript<'a> {
    /// The listing of the script, as `script_listing` gives it.
    pub fn summary(&self) -> (parts: Vec<ListingPart<'a>>)
        ensures
            listing_view(parts@) == spec_listing(blocks_view(self.blocks@)),
    {
        script_listing(self)
    }
}

} // verus!
