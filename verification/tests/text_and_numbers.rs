use mdk_parse::data_formats::cmi_text::{
    branch_code_text, door_flag_names, flag_names, tri_visflag, var_target, BlockInfo,
};
use mdk_parse::gltf::{to_uri, to_uri_mime};
use mdk_parse::naming::output_file_name;
use mdk_parse::named_vec::NamedVec;
use mdk_parse::numfmt::{dec, dec_signed, hex};
use mdk_parse::sorting::sort_dedup;

#[test]
fn decimal_and_hex_formatting() {
    assert_eq!(dec(0), "0");
    assert_eq!(dec(1234567), "1234567");
    assert_eq!(dec_signed(-42), "-42");
    assert_eq!(dec_signed(7), "7");
    assert_eq!(hex(0xABC, 6, true), "000ABC");
    assert_eq!(hex(0x5, 2, false), " 5");
    assert_eq!(hex(0x12345, 2, true), "12345");
}

#[test]
fn variable_targets_are_named() {
    assert_eq!(var_target(0), "Global");
    assert_eq!(var_target(5), "Door");
    assert_eq!(var_target(9), "(Unknown 9)");
}

#[test]
fn triangle_visibility_codes_are_named() {
    assert_eq!(tri_visflag(0), "HIDE_AND_NOCLIP");
    assert_eq!(tri_visflag(3), "SHOW");
    assert_eq!(tri_visflag(5), "COlLIDE");
}

#[test]
fn door_flags_list_names_and_leftover_bits() {
    let names = door_flag_names();
    assert_eq!(names.len(), 9);
    assert_eq!(flag_names(&names, 0x3), "OPEN|OPENING (0x3)");
    assert_eq!(flag_names(&names, 0x409), "OPEN|CLOSED|0x400 (0x409)");
    assert_eq!(flag_names(&names, 0xA00), "0xA00 (0xA00)");
    assert_eq!(flag_names(&names, 0), " (0x0)");
}

#[test]
fn block_labels() {
    let none = BlockInfo { index: 0, offset: 0 };
    let local = BlockInfo { index: 3, offset: 0x1A2B };
    let ext = BlockInfo { index: usize::MAX, offset: 0xFF };
    assert_eq!(none.text(), "(None)");
    assert_eq!(local.text(), "block_3 (001A2B)");
    assert_eq!(ext.text(), "external (0000FF)");
}

#[test]
fn branch_texts() {
    let a = BlockInfo { index: 1, offset: 0x10 };
    let b = BlockInfo { index: usize::MAX, offset: 0x20 };
    assert_eq!(branch_code_text(0, &a, &b), "(none)");
    assert_eq!(
        branch_code_text(0xFE, &a, &b),
        "{ call block_1 (000010) } else { call external (000020) }"
    );
    assert_eq!(branch_code_text(0xFC, &a, &b), "{ call block_1 (000010) }");
    assert_eq!(branch_code_text(0xFD, &a, &b), "{ return }");
    assert_eq!(branch_code_text(0x0C, &a, &b), "{ goto block_1 (000010) }");
    assert_eq!(branch_code_text(0x7, &a, &b), "{ unknown (code:  7) }");
}

#[test]
fn sorting_removes_repeats() {
    let r = sort_dedup(vec![5u32, 1, 5, 3, 1]);
    assert_eq!(r, vec![1, 3, 5]);
    let s = sort_dedup(vec!["b", "a", "b", "ab"]);
    assert_eq!(s, vec!["a", "ab", "b"]);
    let e: Vec<u32> = sort_dedup(Vec::new());
    assert!(e.is_empty());
}

#[test]
fn data_uri_holds_base64() {
    assert_eq!(to_uri(b"hello"), "data:application/octet-stream;base64,aGVsbG8=");
    assert_eq!(to_uri_mime(b"", "image/png"), "data:image/png;base64,");
    assert_eq!(to_uri_mime(&[0xFF, 0xFE], "x/y"), "data:x/y;base64,//4=");
}

#[test]
fn named_vec_finds_first_of_a_name() {
    let mut v: NamedVec<u32> = NamedVec::new();
    assert!(v.get("a").is_none());
    v.insert("a".to_string(), 1);
    v.insert("b".to_string(), 2);
    v.insert("a".to_string(), 3);
    assert_eq!(v.get("a").unwrap().1, 1);
    assert_eq!(v.get("b").unwrap().1, 2);
    if let Some(entry) = v.get_mut("b") {
        entry.1 = 20;
    }
    assert_eq!(v.get("b").unwrap().1, 20);
    let all = v.iter();
    assert_eq!(all.len(), 3);
    assert_eq!(all[2].0, "a");
    assert_eq!(*all[2].1, 3);
}

#[test]
fn repeated_names_get_a_running_number() {
    let r = mdk_parse::naming::save_names(&["a", "a", "b", "b", "c"]);
    assert_eq!(r, vec!["a (1)", "a (2)", "b (3)", "b (4)", "c"]);
    let r = mdk_parse::naming::save_names(&["x", "y", "y", "z"]);
    assert_eq!(r, vec!["x", "y (1)", "y (2)", "z"]);
    let r = mdk_parse::naming::save_names(&["", "z"]);
    assert_eq!(r, vec![" (1)", "z"]);
    assert!(mdk_parse::naming::save_names(&[]).is_empty());
}

#[test]
fn output_names_replace_the_extension() {
    assert_eq!(output_file_name("FOO", "png"), "FOO.png");
    assert_eq!(output_file_name("Foo.bar", ".txt"), "Foo.txt");
    assert_eq!(output_file_name(".hidden", "txt"), ".hidden.txt");
    assert_eq!(output_file_name("a.b.c", ""), "a.b");
    assert_eq!(output_file_name("a.", "..gltf"), "a.gltf");
}

#[test]
fn base64_groups_of_three_bytes() {
    assert_eq!(to_uri(b"Man"), "data:application/octet-stream;base64,TWFu");
    assert_eq!(to_uri(b"Ma"), "data:application/octet-stream;base64,TWE=");
    assert_eq!(to_uri(&[0xFB, 0xFF, 0x3E, 0x00]), "data:application/octet-stream;base64,+/8+AA==");
}
