use mdk_parse::data_formats::image_formats::{area, try_parse_basic_image};
use mdk_parse::data_formats::texture::{animation_layout, compose_frame, Texture};
use mdk_parse::data_formats::spline::Spline;
use mdk_parse::reader::FloatBits;
use mdk_parse::Reader;

#[test]
fn reads_little_endian_values() {
    let data = [0x01u8, 0x02, 0x03, 0x04, 0xFF, 0xFE];
    let mut r = Reader::new(&data);
    assert_eq!(r.u16(), 0x0201);
    assert_eq!(r.position(), 2);
    assert_eq!(r.i16(), 0x0403);
    assert_eq!(r.try_i16(), Some(-257));
    assert_eq!(r.try_u8(), None);
    assert_eq!(r.position(), 6);
    let mut r = Reader::new(&data);
    assert_eq!(r.u32(), 0x04030201);
    assert_eq!(r.remaining_len(), 2);
    assert!(r.try_u32().is_none());
}

#[test]
fn pascal_strings() {
    let data = [3u8, b'a', b'b', b'c', 9, b'x'];
    let mut r = Reader::new(&data);
    assert_eq!(r.try_pascal_str(), Some("abc"));
    assert_eq!(r.try_pascal_str(), None);
    let bad = [2u8, 0xC3, 0xA9];
    assert_eq!(Reader::new(&bad).try_pascal_str(), None);
}

#[test]
fn fixed_strings_stop_at_nul() {
    let data = *b"NAME\0\0\0\0";
    assert_eq!(Reader::new(&data).try_str(8), Some("NAME"));
    let data = *b"NA\0ME\0\0\0";
    assert_eq!(Reader::new(&data).try_str(8), None);
    assert_eq!(Reader::new(&data).try_str(101), None);
}

#[test]
fn alignment_needs_zero_padding() {
    let data = [1u8, 0, 0, 0, 7];
    let mut r = Reader::new(&data);
    r.skip(1);
    assert_eq!(r.try_align(4), Some(()));
    assert_eq!(r.position(), 4);
    let data = [1u8, 0, 5, 0, 7];
    let mut r = Reader::new(&data);
    r.skip(1);
    assert_eq!(r.try_align(4), None);
    assert_eq!(r.position(), 1);
}

#[test]
fn floats_are_checked_for_range() {
    let one = 1.0f32.to_bits().to_le_bytes();
    assert!(matches!(Reader::new(&one).try_f32_bits(), Some(FloatBits(b)) if b == 1.0f32.to_bits()));
    let inf = f32::INFINITY.to_bits().to_le_bytes();
    assert!(Reader::new(&inf).try_f32_bits().is_none());
    let big = 2.0e7f32.to_bits().to_le_bytes();
    assert!(Reader::new(&big).try_f32_bits().is_none());
}

#[test]
fn rebase_moves_the_origin() {
    let data = [9u8, 8, 7, 6];
    let mut r = Reader::new(&data);
    r.skip(2);
    r.rebase();
    assert_eq!(r.position(), 0);
    assert_eq!(r.len(), 2);
    assert_eq!(r.u8(), 7);
}

#[test]
fn basic_image_fills_the_rest() {
    let data = [2u8, 0, 1, 0, 10, 20];
    let mut r = Reader::new(&data);
    let t = try_parse_basic_image(&mut r).unwrap();
    assert_eq!((t.width, t.height), (2, 1));
    assert_eq!(t.pixels, vec![10, 20]);
    let short = [2u8, 0, 2, 0, 10, 20];
    assert!(try_parse_basic_image(&mut Reader::new(&short)).is_none());
    assert_eq!(area(300, 400), 120000);
}

#[test]
fn animation_canvas_holds_every_frame() {
    let a = Texture::new(2, 2, vec![1, 2, 3, 4]);
    let mut b = Texture::new(1, 1, vec![9]);
    b.position = (1, 0);
    let frames = vec![a, b];
    let l = animation_layout(&frames);
    assert_eq!((l.offset_x, l.offset_y, l.width, l.height), (1, 0, 3, 2));
    assert!(!l.simple);
    assert_eq!(compose_frame(&frames[0], &l), vec![0, 1, 2, 0, 3, 4]);
    assert_eq!(compose_frame(&frames[1], &l), vec![9, 0, 0, 0, 0, 0]);

    let same = vec![Texture::new(1, 1, vec![5]), Texture::new(1, 1, vec![6])];
    let l = animation_layout(&same);
    assert!(l.simple);
    assert_eq!((l.width, l.height), (1, 1));
}

#[test]
fn spline_points() {
    let mut d = Vec::new();
    d.extend_from_slice(&2u32.to_le_bytes());
    for t in [10i32, -20] {
        d.extend_from_slice(&t.to_le_bytes());
        for k in 0..9 {
            d.extend_from_slice(&(k as f32).to_bits().to_le_bytes());
        }
    }
    let mut r = Reader::new(&d);
    let s = Spline::try_parse(&mut r).unwrap();
    assert_eq!(r.position(), d.len());
    assert_eq!(s.points.len(), 2);
    assert_eq!(s.points[1].t, -20);
    assert_eq!(s.points[0].pos3.z.0, 8.0f32.to_bits());
    let one = [1u8, 0, 0, 0];
    assert!(Spline::try_parse(&mut Reader::new(&one)).is_none());
}
