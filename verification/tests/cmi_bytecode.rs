use mdk_parse::data_formats::cmi_bytecode::CmiScript;
use mdk_parse::data_formats::cmi_listing::{parse_cmi, script_listing};
use mdk_parse::data_formats::cmi_parts::ListingPart;
use mdk_parse::Reader;

#[test]
fn test_index() {
    for index in 0..255i32 {
        let i2 = index + ((index >> 4) + ((index < 0 && (index & 0xf) != 0) as i32)) * -0x10;
        assert_eq!(index % 16, i2, "{index} {i2}");
    }
}

#[test]
fn cmi_bytecode_test_index() {
    for index in 0..255i32 {
        let i2 = index + ((index >> 4) + ((index < 0 && (index & 0xf) != 0) as i32)) * -0x10;
        assert_eq!(index % 16, i2, "{index} {i2}");
    }
}

#[test]
fn script_at_position_zero_is_empty() {
    let data = [0xFFu8; 4];
    let script = CmiScript::try_parse(Reader::new(&data)).unwrap();
    assert!(script.blocks.is_empty());
    assert!(script.called_scripts.is_empty());
}

#[test]
fn random_call_script_gathers_sorted_paths() {
    let data = [
        0x00u8, 0xFC, 0x02, 0x0C, 0, 0, 0, 0x0C, 0, 0, 0, 0xFF, 0x1C, 0x20, 0, 0, 0, 0x1C, 0x08, 0, 0, 0, 0x1C, 0x20, 0, 0,
        0, 0xFF,
    ];
    let mut r = Reader::new(&data);
    r.set_position(1);
    let s = CmiScript::try_parse(r).unwrap();
    assert_eq!(s.path_offsets, vec![8, 32]);
    assert_eq!(s.blocks.len(), 2);
    assert_eq!(s.blocks[0].offset, 1);
    assert_eq!(s.blocks[1].offset, 0x0C);
    assert!(s.call_origins.is_empty());
}

fn render(parts: &[ListingPart]) -> String {
    let mut text = String::new();
    for part in parts {
        match part {
            ListingPart::Text(s) => text.push_str(s),
            ListingPart::Name(s) => text.push_str(s),
            ListingPart::Float(f) => text.push_str(&format!("{}", f32::from_bits(f.0))),
            ListingPart::FloatDebug(f) => text.push_str(&format!("{:?}", f32::from_bits(f.0))),
            ListingPart::ThirtyOver(f) => text.push_str(&format!("{}", 30.0 / f32::from_bits(f.0))),
        }
    }
    text
}

fn listing_of(data: &[u8], pos: usize) -> String {
    let mut r = Reader::new(data);
    r.set_position(pos);
    let s = CmiScript::try_parse(r).unwrap();
    render(&script_listing(&s))
}

#[test]
fn listing_of_random_call_script() {
    let data = [
        0x00u8, 0xFC, 0x02, 0x0C, 0, 0, 0, 0x0C, 0, 0, 0, 0xFF, 0x1C, 0x20, 0, 0, 0, 0x1C, 0x08, 0, 0, 0, 0x1C, 0x20, 0, 0,
        0, 0xFF,
    ];
    assert_eq!(
        listing_of(&data, 1),
        "main (offset 000001)\n[000001: FC Random call] targets: block_1 (00000C) block_1 (00000C)\n(end offset 00000C)\n\n\
         block_1 (offset 00000C)\n[00000C: 1C Mortar path] path offset: 000020\n[000011: 1C Mortar path] path offset: 000008\n\
         [000016: 1C Mortar path] path offset: 000020\n(end offset 00001C)\n\n"
    );
}

#[test]
fn listing_of_empty_script_is_empty() {
    let data = [0xFFu8; 4];
    let s = CmiScript::try_parse(Reader::new(&data)).unwrap();
    assert!(script_listing(&s).is_empty());
}

#[test]
fn listing_shows_floats() {
    let mut data = vec![0x00u8, 0x05];
    data.extend_from_slice(&1.5f32.to_le_bytes());
    data.extend_from_slice(&[0xBA, 7]);
    data.extend_from_slice(&2.0f32.to_le_bytes());
    data.push(0xFF);
    assert_eq!(
        listing_of(&data, 1),
        "main (offset 000001)\n[000001: 05 Set camera zoom?] value: 1.5\n\
         [000006: BA Set someCmiField3] 30 * someCmiDataValues[0] * 15 (unused: 7)\n(end offset 00000D)\n\n"
    );
}

#[test]
fn listing_shows_path_point() {
    let mut data = vec![0x00u8, 0x02, 0x10, 0, 0, 0, 1, 2, 3, 0, 0];
    for v in [1.0f32, 2.5, 3.0] {
        data.extend_from_slice(&v.to_le_bytes());
    }
    data.push(0xFF);
    assert_eq!(
        listing_of(&data, 1),
        "main (offset 000001)\n[000001: 02 Set path] v1: 1, v2: 2, v3: 3, vec: Some(Vec3(1.0, 2.5, 3.0)), path offset: 000010\n\
         (end offset 000018)\n\n"
    );
}

#[test]
fn listing_shows_branches_flags_and_names() {
    let mut data = vec![0x00u8, 0x26, 7];
    data.extend_from_slice(&1.0f32.to_le_bytes());
    data.extend_from_slice(&2.0f32.to_le_bytes());
    data.extend_from_slice(&[0xFE, 0x1D, 0, 0, 0, 0, 0, 0, 0]);
    data.extend_from_slice(&[0x44, 5, 3]);
    data.extend_from_slice(&[0x19, 3, b'a', b'b', b'c']);
    data.push(0xFF);
    data.extend_from_slice(&[0x01, 0xFF]);
    assert_eq!(
        listing_of(&data, 1),
        "main (offset 000001)\n\
         [000001: 26 Branch on vertical velocity] if (1 <= value <= 2) { call block_1 (00001D) } else { call (None) }\n\
         [000014: 44 Set flag var] Door_flags[CLOSED (0x8)] = true\n\
         [000017: 19 Set some name] name: abc\n(end offset 00001D)\n\n\
         block_1 (offset 00001D)\n[00001D: 01 Set script resume point]\n(end offset 00001F)\n\n"
    );
}

#[test]
fn parse_cmi_lists_a_script_or_refuses_it() {
    let data = [0x00u8, 0x01, 0xFD, 0xFF];
    let mut r = Reader::new(&data);
    r.set_position(1);
    let parts = parse_cmi(r).unwrap();
    assert_eq!(
        render(&parts),
        "main (offset 000001)\n[000001: 01 Set script resume point]\n[000002: FD Return]\n(end offset 000004)\n\n"
    );
    // a float operand that runs past the data
    let short = [0x00u8, 0x05, 0x00];
    let mut r = Reader::new(&short);
    r.set_position(1);
    assert!(parse_cmi(r).is_none());
}

#[test]
fn summary_is_the_listing() {
    let data = [0x00u8, 0x0D, 0xFC, 0x08, 0, 0, 0, 0xFF, 0xFD, 0xFF];
    let mut r = Reader::new(&data);
    r.set_position(1);
    let s = CmiScript::try_parse(r).unwrap();
    assert_eq!(
        render(&s.summary()),
        "main (offset 000001)\n[000001: 0D Branch on some global3 field] { call block_1 (000008) }\n\
         (end offset 000008)\n\nblock_1 (offset 000008)\n[000008: FD Return]\n(end offset 00000A)\n\n"
    );
    assert_eq!(render(&s.summary()), render(&script_listing(&s)));
}
