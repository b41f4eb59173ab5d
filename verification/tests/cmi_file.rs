use mdk_parse::data_formats::cmi_bytecode::{push_block, CmiScript};
use mdk_parse::file_formats::cmi::{split_once, Cmi};
use mdk_parse::Reader;

fn pascal(out: &mut Vec<u8>, s: &str) {
    out.push(s.len() as u8);
    out.extend_from_slice(s.as_bytes());
}

fn u32le(out: &mut Vec<u8>, v: u32) {
    out.extend_from_slice(&v.to_le_bytes());
}

/// A level with one init script (a single empty block), one mesh entry
/// without a mesh and one arena whose own script is empty.
fn small_level() -> Vec<u8> {
    let mut e = Vec::new();
    e.extend_from_slice(b"LEVEL1.CMI\0\0");
    u32le(&mut e, 0); // second size, filled in below
    u32le(&mut e, 1); // init scripts
    pascal(&mut e, "A$E_7");
    u32le(&mut e, 61);
    u32le(&mut e, 1); // meshes
    pascal(&mut e, "M");
    u32le(&mut e, 0);
    u32le(&mut e, 0); // setup scripts
    u32le(&mut e, 1); // arenas
    pascal(&mut e, "A");
    u32le(&mut e, 54);
    pascal(&mut e, "");
    pascal(&mut e, "S");
    u32le(&mut e, 0);
    assert_eq!(e.len(), 61);
    e.push(0xFF);
    let fs = e.len() as u32;
    e[12..16].copy_from_slice(&(fs - 8).to_le_bytes());
    let mut d = Vec::new();
    u32le(&mut d, fs);
    d.extend_from_slice(&e);
    d
}

#[test]
fn small_level_follows_every_call() {
    let data = small_level();
    let cmi = Cmi::try_parse(Reader::new(&data)).unwrap();
    assert_eq!(cmi.filename, "LEVEL1.CMI");

    assert_eq!(cmi.arenas.len(), 1);
    assert_eq!(cmi.arenas[0].name, "A");
    assert_eq!(cmi.arenas[0].song, "S");
    assert_eq!(cmi.arenas[0].entities, vec!["E"]);

    // the arena's own script is followed first (the last call queued)
    assert_eq!(cmi.scripts.len(), 2);
    assert_eq!(cmi.scripts[0].0, 0);
    assert!(cmi.scripts[0].1.blocks.is_empty());
    let o = &cmi.scripts[0].1.call_origins;
    assert_eq!(o.len(), 1);
    assert_eq!((o[0].arena_name, o[0].source_name, o[0].target_name), ("A", "A", "A"));
    assert_eq!(o[0].reason, "Setup");
    assert_eq!(cmi.scripts[1].0, 61);
    assert_eq!(cmi.scripts[1].1.blocks.len(), 1);
    let o = &cmi.scripts[1].1.call_origins;
    assert_eq!(o.len(), 1);
    assert_eq!((o[0].arena_name, o[0].source_name, o[0].target_name), ("A", "E", "E"));
    assert_eq!(o[0].reason, "Init (id 7)");
    assert_eq!(o[0].source_offset, 0);

    let names: Vec<&str> = cmi.entities.iter().map(|(n, _)| *n).collect();
    assert_eq!(names, vec!["M", "A", "E"]);
    let m = &cmi.entities[0].1;
    assert!(m.mesh.is_none() && m.scripts.is_empty() && m.arenas.is_empty());
    let a = &cmi.entities[1].1;
    assert_eq!(a.scripts, vec![0]);
    assert_eq!(a.arenas, vec!["A"]);
    let e = &cmi.entities[2].1;
    assert_eq!(e.scripts, vec![61]);
    assert_eq!(e.arenas, vec!["A"]);
    assert!(e.animations.is_empty() && e.animation_names.is_empty() && e.splines.is_empty());
}

#[test]
fn size_mismatch_is_refused() {
    let mut data = small_level();
    data[0] ^= 1;
    assert!(Cmi::try_parse(Reader::new(&data)).is_none());
}

#[test]
fn init_script_at_zero_is_refused() {
    let mut data = small_level();
    // the init script's offset, after the size word, header, count and name
    let at = 4 + 16 + 4 + 6;
    data[at..at + 4].copy_from_slice(&0u32.to_le_bytes());
    assert!(Cmi::try_parse(Reader::new(&data)).is_none());
}

#[test]
fn entity_in_unknown_arena_is_refused() {
    let mut data = small_level();
    // rename the init script's arena from "A" to "B"
    let at = 4 + 16 + 4 + 1;
    data[at] = b'B';
    assert!(Cmi::try_parse(Reader::new(&data)).is_none());
}

#[test]
fn split_once_at_first_separator() {
    assert_eq!(split_once("A$E_1", b'$'), Some(("A", "E_1")));
    assert_eq!(split_once("a$b$c", b'$'), Some(("a", "b$c")));
    assert_eq!(split_once("abc", b'$'), None);
}

#[test]
fn blocks_are_numbered_once() {
    let mut blocks = Vec::new();
    assert_eq!(push_block(&mut blocks, 0x40), 0);
    assert_eq!(push_block(&mut blocks, 0x80), 1);
    assert_eq!(push_block(&mut blocks, 0x40), 0);
    assert_eq!(push_block(&mut blocks, 0), 0);
    assert_eq!(blocks, vec![0x40, 0x80]);
}

#[test]
fn single_block_script() {
    let data = [0u8, 0xFF];
    let script = CmiScript::try_parse(Reader::new(&data).clone_at(1)).unwrap();
    assert_eq!(script.blocks.len(), 1);
    assert_eq!(script.block_index(1), Some(0));
    assert_eq!(script.block_index(7), None);
    assert!(script.called_scripts.is_empty());
}

#[test]
fn script_report_sorts_out_the_callers() {
    let data = small_level();
    let cmi = Cmi::try_parse(Reader::new(&data)).unwrap();
    let script = &cmi.scripts[1].1;
    let r = mdk_parse::file_formats::cmi::script_report(script, "E", 61);
    assert_eq!(r.own, vec![0]);
    assert!(r.others.is_empty());
    assert!(!r.shared);
    assert_eq!(r.reasons, vec!["Init (id 7)"]);
    assert_eq!(r.arenas, vec!["A"]);
    let r = mdk_parse::file_formats::cmi::script_report(script, "Z", 61);
    assert!(r.own.is_empty() && r.reasons.is_empty() && r.arenas.is_empty());
    assert_eq!(r.others, vec![0]);
    assert!(r.shared);
    let r = mdk_parse::file_formats::cmi::script_report(script, "Z", 0);
    assert!(!r.shared);
}
