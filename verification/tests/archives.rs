use mdk_parse::data_formats::image_formats::{try_parse_overlay_animation, Outcome};
use mdk_parse::data_formats::wav::Wav;
use mdk_parse::file_formats::bni::{classify_asset_2d, classify_asset_rest, parse_bni, read_entries, BniAsset, Kind3d};
use mdk_parse::data_formats::pen::Pen;
use mdk_parse::file_formats::mti::{Material, Mti};
use mdk_parse::file_formats::mto::Mto;
use mdk_parse::file_formats::sni::Sni;
use mdk_parse::Reader;

fn u16le(out: &mut Vec<u8>, v: u16) {
    out.extend_from_slice(&v.to_le_bytes());
}

fn u32le(out: &mut Vec<u8>, v: u32) {
    out.extend_from_slice(&v.to_le_bytes());
}

fn fixed(out: &mut Vec<u8>, s: &str, n: usize) {
    let mut b = s.as_bytes().to_vec();
    b.resize(n, 0);
    out.extend_from_slice(&b);
}

fn small_mti() -> Vec<u8> {
    let mut e = Vec::new();
    fixed(&mut e, "MAT.MTI", 12);
    u32le(&mut e, 0); // second size, below
    u32le(&mut e, 2);
    fixed(&mut e, "PEN1", 8);
    u32le(&mut e, 0xFFFF_FFFF);
    u32le(&mut e, 5);
    u32le(&mut e, 0);
    u32le(&mut e, 0);
    fixed(&mut e, "TEX", 8);
    u32le(&mut e, 0x0000_0001);
    u32le(&mut e, 1.0f32.to_bits());
    u32le(&mut e, 0.5f32.to_bits());
    u32le(&mut e, 68);
    assert_eq!(e.len(), 68);
    u16le(&mut e, 2);
    u16le(&mut e, 1);
    e.extend_from_slice(&[7, 8]);
    fixed(&mut e, "MAT.MTI", 12);
    let fs = e.len() as u32;
    e[12..16].copy_from_slice(&(fs - 8).to_le_bytes());
    let mut d = Vec::new();
    u32le(&mut d, fs);
    d.extend_from_slice(&e);
    d
}

#[test]
fn mti_pens_and_textures() {
    let data = small_mti();
    let mti = Mti::try_parse(Reader::new(&data)).unwrap();
    assert_eq!(mti.filename, "MAT.MTI");
    assert!(!mti.is_empty());
    assert_eq!(mti.materials.len(), 2);
    assert_eq!(mti.materials[0].0, "PEN1");
    assert!(matches!(mti.materials[0].1, Material::Pen(Pen::Colour(5))));
    assert_eq!(mti.materials[1].0, "TEX");
    match &mti.materials[1].1 {
        Material::Texture(t, f) => {
            assert_eq!((t.width, t.height), (2, 1));
            assert_eq!(t.pixels, vec![7, 8]);
            assert_eq!(f.flags, 1);
            assert_eq!(f.a.0, 1.0f32.to_bits());
            assert_eq!(f.b.0, 0.5f32.to_bits());
        },
        _ => panic!("expected a texture"),
    }
}

#[test]
fn mti_footer_must_repeat_the_name() {
    let mut data = small_mti();
    let n = data.len();
    data[n - 12] = b'X';
    assert!(Mti::try_parse(Reader::new(&data)).is_none());
}

#[test]
fn mti_pen_padding_must_be_zero() {
    let mut data = small_mti();
    data[4 + 20 + 16] = 1;
    assert!(Mti::try_parse(Reader::new(&data)).is_none());
}

fn small_sni() -> Vec<u8> {
    let mut e = Vec::new();
    fixed(&mut e, "S.SNI", 12);
    u32le(&mut e, 0); // second size, below
    u32le(&mut e, 2);
    fixed(&mut e, "BSP1", 12);
    u32le(&mut e, 0);
    u32le(&mut e, 68);
    u32le(&mut e, 4);
    fixed(&mut e, "BSP2", 12);
    u32le(&mut e, 0);
    u32le(&mut e, 72);
    u32le(&mut e, 0xFFFF_FFFF);
    assert_eq!(e.len(), 68);
    e.extend_from_slice(&[1, 2, 3, 4]);
    e.extend_from_slice(&[2, 0, 0, 0, 9, 9]);
    e.extend_from_slice(&[0, 0]);
    fixed(&mut e, "S.SNI", 12);
    let fs = e.len() as u32;
    e[12..16].copy_from_slice(&(fs - 8).to_le_bytes());
    let mut d = Vec::new();
    u32le(&mut d, fs);
    d.extend_from_slice(&e);
    d
}

#[test]
fn sni_entries_by_kind() {
    let data = small_sni();
    let sni = Sni::try_parse(Reader::new(&data)).unwrap();
    assert_eq!(sni.filename, "S.SNI");
    assert!(sni.sounds.is_empty() && sni.anims.is_empty());
    assert_eq!(sni.bsps.len(), 2);
    assert_eq!(sni.bsps[0], ("BSP1", &[1u8, 2, 3, 4][..]));
    assert_eq!(sni.bsps[1], ("BSP2", &[2u8, 0, 0, 0, 9, 9][..]));
}

#[test]
fn sni_footer_follows_the_last_asset_on_a_word() {
    let mut data = small_sni();
    // without the padding the footer is misplaced
    let n = data.len();
    data.remove(n - 13);
    let fs = (data.len() - 4) as u32;
    data[0..4].copy_from_slice(&fs.to_le_bytes());
    data[16..20].copy_from_slice(&(fs - 8).to_le_bytes());
    assert!(Sni::try_parse(Reader::new(&data)).is_none());
}

#[test]
fn mto_without_arenas() {
    let mut d = Vec::new();
    u32le(&mut d, 32);
    fixed(&mut d, "LEVEL.MTO", 12);
    u32le(&mut d, 24);
    u32le(&mut d, 0);
    fixed(&mut d, "LEVEL.MTO", 12);
    assert_eq!(d.len(), 36);
    let mto = Mto::try_parse(Reader::new(&d)).unwrap();
    assert_eq!(mto.filename, "LEVEL.MTO");
    assert!(mto.arenas.is_empty());
    d[0] = 33;
    assert!(Mto::try_parse(Reader::new(&d)).is_none());
}

fn overlay(patches: &[[u8; 4]]) -> Vec<u8> {
    let n = patches.len();
    let mut d = Vec::new();
    u32le(&mut d, n as u32);
    u16le(&mut d, 4);
    u16le(&mut d, 1);
    d.extend_from_slice(&[1, 2, 3, 4]);
    u32le(&mut d, 0);
    // offsets: the patch lists, then the pixels
    let table = 8 * n;
    for k in 0..n {
        u32le(&mut d, (table + 10 * k) as u32);
    }
    for k in 0..n {
        u32le(&mut d, (table + 10 * k + 6) as u32);
    }
    for p in patches {
        u16le(&mut d, 0);
        u16le(&mut d, 1);
        d.extend_from_slice(&[1, 0]);
        d.extend_from_slice(p);
    }
    d
}

#[test]
fn overlay_animation_patches_each_frame() {
    let data = overlay(&[[5, 6, 7, 8]]);
    let mut r = Reader::new(&data);
    let (frames, looped) = try_parse_overlay_animation(&mut r).unwrap();
    assert!(!looped);
    assert_eq!(frames.len(), 2);
    assert_eq!(frames[0].pixels, vec![1, 2, 3, 4]);
    assert_eq!(frames[1].pixels, vec![5, 6, 7, 8]);
    assert_eq!(r.position(), 16);
}

#[test]
fn overlay_animation_that_returns_to_the_base_loops() {
    let data = overlay(&[[5, 6, 7, 8], [1, 2, 3, 4]]);
    let (frames, looped) = try_parse_overlay_animation(&mut Reader::new(&data)).unwrap();
    assert!(looped);
    assert_eq!(frames.len(), 2);
    assert_eq!(frames[1].pixels, vec![5, 6, 7, 8]);
}

#[test]
fn overlay_patch_past_the_frame_is_refused() {
    let mut data = overlay(&[[5, 6, 7, 8]]);
    // first destination word 1: the four-pixel chunk no longer fits
    let at = 16 + 8;
    data[at] = 1;
    assert!(try_parse_overlay_animation(&mut Reader::new(&data)).is_none());
}

fn small_fti() -> Vec<u8> {
    // items: ARROW (one 1x1 frame), SYS_PAL, F8, FONTBIG and FONTSML (no glyphs), and a string
    let mut e = Vec::new();
    u32le(&mut e, 6);
    let names = ["ARROW", "SYS_PAL", "F8", "FONTBIG", "FONTSML", "HELLO"];
    let table_end = 4 + 12 * names.len();
    // item bodies, laid out after the table
    let mut body = Vec::new();
    let mut offsets = Vec::new();
    // arrow: size, frame count, one frame offset, frame header, one row
    offsets.push(table_end + body.len());
    let frame: Vec<u8> = {
        let mut f = Vec::new();
        u16le(&mut f, 1);
        u16le(&mut f, 1);
        u16le(&mut f, 0);
        u16le(&mut f, 0);
        f.extend_from_slice(&[0x00, 7, 0xFF]);
        f
    };
    let mut anim = Vec::new();
    u32le(&mut anim, 1);
    u32le(&mut anim, 8);
    anim.extend_from_slice(&frame);
    u32le(&mut body, anim.len() as u32);
    body.extend_from_slice(&anim);
    offsets.push(table_end + body.len());
    body.extend_from_slice(&[3u8; 192]);
    offsets.push(table_end + body.len());
    body.extend_from_slice(&[0x80u8; 1024]);
    offsets.push(table_end + body.len());
    body.extend_from_slice(&[0u8; 1024]);
    offsets.push(table_end + body.len());
    body.extend_from_slice(&[0u8; 1024]);
    offsets.push(table_end + body.len());
    body.extend_from_slice(b"hi\\n\0");
    for (name, off) in names.iter().zip(&offsets) {
        fixed(&mut e, name, 8);
        u32le(&mut e, *off as u32);
    }
    e.extend_from_slice(&body);
    let mut d = Vec::new();
    u32le(&mut d, e.len() as u32);
    d.extend_from_slice(&e);
    d
}

#[test]
fn fti_items_by_name() {
    let data = small_fti();
    let fti = mdk_parse::file_formats::fti::Fti::try_parse(Reader::new(&data)).unwrap();
    assert_eq!((fti.arrow.width, fti.arrow.height), (1, 1));
    assert_eq!(fti.arrow.pixels, vec![7]);
    assert_eq!(fti.palette, &[3u8; 192][..]);
    assert!(fti.snd_push.is_none());
    assert_eq!(fti.font_8.len(), 128);
    assert_eq!(fti.font_8[0].pixels[0], 1);
    assert_eq!(fti.font_8[0].pixels[1], 0);
    assert!(fti.font_big.is_empty() && fti.font_sml.is_empty());
    assert_eq!(fti.strings.len(), 1);
    assert_eq!(fti.strings[0].0, "HELLO");
    assert_eq!(fti.strings[0].1, "hi\\n");
}

#[test]
fn fti_without_a_palette_is_refused() {
    let mut data = small_fti();
    // rename SYS_PAL: it is read as a string and fails
    let at = 4 + 4 + 12 + 1;
    data[at] = b'Z';
    assert!(mdk_parse::file_formats::fti::Fti::try_parse(Reader::new(&data)).is_none());
}

fn small_wav() -> Vec<u8> {
    let mut w = Vec::new();
    w.extend_from_slice(b"RIFF");
    u32le(&mut w, 0); // length, below
    w.extend_from_slice(b"WAVEfmt ");
    u32le(&mut w, 16);
    u16le(&mut w, 1); // PCM
    u16le(&mut w, 1); // channels
    u32le(&mut w, 8000);
    u32le(&mut w, 16000);
    u16le(&mut w, 2);
    u16le(&mut w, 16);
    w.extend_from_slice(b"data");
    u32le(&mut w, 6);
    w.extend_from_slice(&[1, 0, 2, 0, 3, 0]);
    let n = (w.len() - 8) as u32;
    w[4..8].copy_from_slice(&n.to_le_bytes());
    w
}

#[test]
fn wav_header_and_samples() {
    let data = small_wav();
    let mut r = Reader::new(&data);
    let w = Wav::try_parse(&mut r).unwrap();
    assert_eq!(w.num_channels, 1);
    assert_eq!(w.samples_per_second, 8000);
    assert_eq!(w.bits_per_sample, 16);
    assert_eq!(w.num_samples, 3);
    assert_eq!(w.file_data.len(), data.len());
    assert_eq!(r.position(), data.len());
    let mut bad = small_wav();
    bad[0] = b'X';
    assert!(Wav::try_parse(&mut Reader::new(&bad)).is_none());
}

fn small_bni() -> Vec<u8> {
    let wav = small_wav();
    let mut e = Vec::new();
    u32le(&mut e, 3);
    let table = 4 + 3 * 16;
    fixed(&mut e, "SND", 12);
    u32le(&mut e, table as u32);
    fixed(&mut e, "PAL", 12);
    u32le(&mut e, (table + wav.len()) as u32);
    fixed(&mut e, "BLOB", 12);
    u32le(&mut e, (table + wav.len() + 0x300) as u32);
    e.extend_from_slice(&wav);
    e.extend_from_slice(&[5u8; 0x300]);
    e.extend_from_slice(&[0xFFu8, 0xFE, 0xFD]);
    let mut d = Vec::new();
    u32le(&mut d, e.len() as u32);
    d.extend_from_slice(&e);
    d
}

#[test]
fn bni_lists_take_each_entry_once_in_order() {
    let d = small_bni();
    let lists = parse_bni(Reader::new(&d), &[]).unwrap();
    assert_eq!(lists.sounds.len(), 1);
    assert_eq!(lists.sounds[0].0, "SND");
    assert_eq!(lists.palettes.len(), 1);
    assert_eq!(lists.palettes[0].0, "PAL");
    assert_eq!(lists.palettes[0].1, &[5u8; 0x300][..]);
    assert_eq!(lists.unknowns.len(), 1);
    assert_eq!(lists.unknowns[0], ("BLOB", &[0xFFu8, 0xFE, 0xFD][..]));
    assert!(lists.textures.is_empty() && lists.coloured_textures.is_empty() && lists.animations_2d.is_empty());
    assert!(lists.strings.is_empty() && lists.meshes.is_empty() && lists.animations_3d.is_empty());
}

#[test]
fn bni_lists_follow_the_given_3d_kinds() {
    let d = small_bni();
    let kinds = [Kind3d::Mesh, Kind3d::Animation, Kind3d::Mesh];
    let lists = parse_bni(Reader::new(&d), &kinds).unwrap();
    assert_eq!(lists.sounds.len(), 1);
    assert!(lists.palettes.is_empty());
    assert_eq!(lists.animations_3d.len(), 1);
    assert_eq!(lists.animations_3d[0].0, "PAL");
    assert_eq!(lists.meshes, vec![("BLOB", &[0xFFu8, 0xFE, 0xFD][..])]);
    assert!(lists.unknowns.is_empty());
    assert!(parse_bni(Reader::new(&d[..d.len() - 1]), &kinds).is_none());
}

#[test]
fn bni_entries_are_classified() {
    let wav = small_wav();
    let mut e = Vec::new();
    u32le(&mut e, 3);
    let table = 4 + 3 * 16;
    fixed(&mut e, "SND", 12);
    u32le(&mut e, table as u32);
    fixed(&mut e, "PAL", 12);
    u32le(&mut e, (table + wav.len()) as u32);
    fixed(&mut e, "BLOB", 12);
    u32le(&mut e, (table + wav.len() + 0x300) as u32);
    e.extend_from_slice(&wav);
    e.extend_from_slice(&[5u8; 0x300]);
    e.extend_from_slice(&[0xFFu8, 0xFE, 0xFD]);
    let mut d = Vec::new();
    u32le(&mut d, e.len() as u32);
    d.extend_from_slice(&e);
    let entries = read_entries(Reader::new(&d)).unwrap();
    assert_eq!(entries.len(), 3);
    assert_eq!(entries[0].name, "SND");
    assert!(matches!(classify_asset_2d(&entries[0].data), Outcome::Value(BniAsset::Sound(_))));
    assert!(matches!(classify_asset_2d(&entries[1].data), Outcome::Rejected));
    assert!(matches!(classify_asset_rest(&entries[1].data), BniAsset::Palette(p) if p.len() == 0x300));
    assert!(matches!(classify_asset_rest(&entries[2].data), BniAsset::Unknown(b) if b == [0xFF, 0xFE, 0xFD]));
}
