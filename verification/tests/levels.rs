use mdk_parse::data_formats::cmi_bytecode::CmiScript;
use mdk_parse::data_formats::image_formats::{try_parse_crossfade_image, try_parse_rle_image};
use mdk_parse::data_formats::mesh::{remove_unused_materials, MeshTri};
use mdk_parse::data_formats::pen::Pen;
use mdk_parse::data_formats::texture::{Texture, TextureResult};
use mdk_parse::file_formats::cmi::{Cmi, CmiArena, CmiEntity};
use mdk_parse::file_formats::sni::Sni;
use mdk_parse::registry::register_level;
use mdk_parse::file_formats::dti::{Dti, Vec3Bits};
use mdk_parse::file_formats::mti::{Material, MaterialFlags, Mti};
use mdk_parse::file_formats::mto::{Mto, MtoArena};
use mdk_parse::levels::{
    arena_palette, combine_flare_zoom, plan_traverse_level, texture_arenas, filter_colours, filter_textures, stream_lookup, try_combine_flare_zoom,
    used_colours, zoom_palette,
};
use mdk_parse::reader::FloatBits;
use mdk_parse::Reader;

fn flags() -> MaterialFlags {
    MaterialFlags { a: FloatBits(0), b: FloatBits(0), flags: 0 }
}

fn save_ref(r: TextureResult) -> (u16, u16, String, bool) {
    match r {
        TextureResult::SaveRef { width, height, path, masked } => (width, height, path, masked),
        _ => panic!("not a saved texture"),
    }
}

#[test]
fn arena_palette_takes_system_arena_then_level_colours() {
    let level = vec![1u8; 0x300];
    let sys = vec![2u8; 192];
    let arena = vec![3u8, 4, 5, 6, 7, 8, 9];
    let p = arena_palette(&level, &sys, &arena, 2);
    assert_eq!(p.len(), 0x300);
    assert!(p[..192].iter().all(|&b| b == 2));
    assert_eq!(&p[192..198], &[3, 4, 5, 6, 7, 8]);
    assert!(p[198..].iter().all(|&b| b == 1));
    let none = arena_palette(&level, &sys, &[], 0);
    assert!(none[192..].iter().all(|&b| b == 1));
}

fn materials() -> Vec<(&'static str, Material)> {
    vec![
        ("PEN1", Material::Pen(Pen::Colour(5))),
        ("TEXA", Material::Texture(Texture::new(2, 1, vec![1, 0]), flags())),
        (
            "ANIM",
            Material::AnimatedTexture(vec![Texture::new(1, 1, vec![3]), Texture::new(1, 1, vec![4])], flags()),
        ),
        ("TEXA", Material::Pen(Pen::Colour(9))),
    ]
}

#[test]
fn stream_lookup_finds_materials_first() {
    let mats = materials();
    let texs = vec![("ARCHIVE1", Texture::new(3, 1, vec![1, 2, 3])), ("PEN1", Texture::new(1, 1, vec![0]))];
    match stream_lookup("PEN1", &mats, &texs) {
        TextureResult::Pen(p) => assert_eq!(p, Pen::Colour(5)),
        _ => panic!("expected a pen"),
    }
    assert_eq!(save_ref(stream_lookup("TEXA", &mats, &texs)), (2, 1, "Textures/TEXA.png".to_string(), true));
    assert_eq!(save_ref(stream_lookup("ANIM", &mats, &texs)), (1, 1, "Textures/ANIM.png".to_string(), false));
}

#[test]
fn stream_lookup_cuts_names_and_falls_back_to_archive() {
    let mats = materials();
    let texs = vec![("ARCHIVE1", Texture::new(3, 1, vec![1, 2, 3]))];
    assert_eq!(
        save_ref(stream_lookup("ARCHIVE1XYZ", &mats, &texs)),
        (3, 1, "Textures/ARCHIVE1.png".to_string(), false)
    );
    assert!(matches!(stream_lookup("MISSING", &mats, &texs), TextureResult::NoTexture));
    assert!(matches!(stream_lookup("ARCHIVE", &mats, &texs), TextureResult::NoTexture));
}

fn palette(c1: [u8; 3], c2: [u8; 3]) -> Vec<u8> {
    let mut p = vec![0u8; 0x300];
    p[3..6].copy_from_slice(&c1);
    p[6..9].copy_from_slice(&c2);
    p
}

#[test]
fn used_colours_flags_every_pixel_value() {
    let frames = vec![Texture::new(2, 1, vec![0, 5]), Texture::new(2, 1, vec![5, 255])];
    let u = used_colours(&frames);
    assert_eq!(u.len(), 256);
    for c in 0..256 {
        assert_eq!(u[c], c == 0 || c == 5 || c == 255);
    }
}

#[test]
fn filter_colours_maps_agreeing_arenas_to_the_first() {
    let pal_b = palette([10, 20, 30], [1, 1, 1]);
    let pal_ca = palette([11, 20, 30], [1, 1, 1]);
    let pal_a = palette([10, 20, 30], [2, 2, 2]);
    let palettes: Vec<(&str, &[u8])> = vec![("B", &pal_b), ("CA", &pal_ca), ("A", &pal_a)];
    let mut used = vec![false; 256];
    used[1] = true;
    let mut arenas = vec![(0usize, 0usize), (1, 1), (2, 2), (0, 0)];
    let unique = filter_colours(&used, &palettes, &mut arenas);
    assert_eq!(arenas, vec![(2, 2), (0, 2), (1, 1)]);
    assert_eq!(unique, 2);

    used[2] = true;
    let mut arenas = vec![(0usize, 0usize), (1, 1), (2, 2)];
    let unique = filter_colours(&used, &palettes, &mut arenas);
    assert_eq!(arenas, vec![(2, 2), (0, 0), (1, 1)]);
    assert_eq!(unique, 3);
}

#[test]
fn filter_colours_leaves_a_single_arena() {
    let pal = palette([1, 2, 3], [4, 5, 6]);
    let palettes: Vec<(&str, &[u8])> = vec![("A", &pal)];
    let mut arenas = vec![(7usize, 9usize)];
    assert_eq!(filter_colours(&[true], &palettes, &mut arenas), 1);
    assert_eq!(arenas, vec![(7, 9)]);
}

#[test]
fn filter_textures_uses_the_colours_of_the_frames() {
    let pal_b = palette([10, 20, 30], [1, 1, 1]);
    let pal_ca = palette([11, 20, 30], [1, 1, 1]);
    let pal_a = palette([10, 20, 30], [2, 2, 2]);
    let palettes: Vec<(&str, &[u8])> = vec![("B", &pal_b), ("CA", &pal_ca), ("A", &pal_a)];
    let frames = vec![Texture::new(1, 1, vec![1])];
    let mut arenas = vec![(1usize, 1usize), (0, 0), (2, 2)];
    assert_eq!(filter_textures(&frames, &palettes, &mut arenas), 2);
    assert_eq!(arenas, vec![(2, 2), (0, 2), (1, 1)]);
    let frames = vec![Texture::new(1, 1, vec![0])];
    let mut arenas = vec![(1usize, 1usize), (0, 0), (2, 2)];
    assert_eq!(filter_textures(&frames, &palettes, &mut arenas), 1);
    assert_eq!(arenas, vec![(2, 2), (0, 2), (1, 2)]);
}

#[test]
fn combine_flare_zoom_places_and_centres_frames() {
    let textures = vec![
        ("FLARE1", Texture::new(2, 2, vec![1; 4])),
        ("ROCK", Texture::new(1, 1, vec![7])),
        ("FLARE+2", Texture::new(4, 6, vec![2; 24])),
        ("ZOOM0", Texture::new(1, 1, vec![3])),
        ("ZOOM1", Texture::new(1, 2, vec![4, 4])),
    ];
    let (kept, flare, zoom) = combine_flare_zoom(textures);
    assert_eq!(kept.len(), 1);
    assert_eq!(kept[0].0, "ROCK");
    assert_eq!(kept[0].1.pixels, vec![7]);
    assert_eq!(flare.len(), 2);
    assert_eq!((flare[0].width, flare[0].height, flare[0].position), (2, 2, (-1, -2)));
    assert_eq!((flare[1].width, flare[1].height, flare[1].position), (4, 6, (0, 0)));
    assert_eq!(zoom.len(), 2);
    assert_eq!(zoom[0].pixels, vec![3]);
    assert_eq!(zoom[1].pixels, vec![4, 4]);
    assert_eq!(zoom[0].position, (0, 0));
}

#[test]
fn combine_flare_zoom_replacing_a_frame_cuts_the_list() {
    let textures = vec![
        ("ZOOM0", Texture::new(1, 1, vec![1])),
        ("ZOOM1", Texture::new(1, 1, vec![2])),
        ("ZOOM0", Texture::new(1, 1, vec![3])),
    ];
    let (kept, flare, zoom) = try_combine_flare_zoom(textures).unwrap();
    assert!(kept.is_empty());
    assert!(flare.is_empty());
    assert_eq!(zoom.len(), 1);
    assert_eq!(zoom[0].pixels, vec![3]);
}

#[test]
fn combine_flare_zoom_refuses_bad_names() {
    let t = || Texture::new(1, 1, vec![1]);
    assert!(try_combine_flare_zoom(vec![("FLARE0", t())]).is_none());
    assert!(try_combine_flare_zoom(vec![("FLAREX", t())]).is_none());
    assert!(try_combine_flare_zoom(vec![("FLARE", t())]).is_none());
    assert!(try_combine_flare_zoom(vec![("ZOOM-1", t())]).is_none());
    assert!(try_combine_flare_zoom(vec![("FLARE2", t())]).is_none());
    assert!(try_combine_flare_zoom(vec![("ZOOM0", Texture::new(0, 0, vec![]))]).is_none());
    let (kept, flare, zoom) = try_combine_flare_zoom(vec![("ZOO", t()), ("FLAR1", t())]).unwrap();
    assert_eq!(kept.len(), 2);
    assert!(flare.is_empty() && zoom.is_empty());
}

#[test]
fn rle_image_reads_to_the_end() {
    let data = [
        36u8, 0, 0, 0, 0, 0, 0, 0, 0x10, 0x27, 0, 0, 0, 0, 0, 0, 0, 0, 0, 0, 0x10, 0x27, 0, 0, 0, 0, 0, 0, 0, 0, 0, 0,
        0x58, 0x1B, 0, 0, 0, 0, 0, 0,
    ];
    let mut r = Reader::new(&data);
    let t = try_parse_rle_image(&mut r).unwrap();
    assert_eq!((t.width, t.height, t.position), (600, 180, (0, 0)));
    assert_eq!(t.pixels, vec![0u8; 108000]);
    assert!(r.is_empty());
}

#[test]
fn crossfade_image_leaves_a_short_reader() {
    let data = vec![0u8; 0x5FF];
    let mut r = Reader::new(&data);
    assert!(try_parse_crossfade_image(&mut r).is_none());
    assert_eq!(r.position(), 0);
}

#[test]
fn parsed_script_at_position_zero_has_no_origins() {
    let data = [0x09u8, 0xFF];
    let s = CmiScript::parse(Reader::new(&data));
    assert!(s.blocks.is_empty());
    assert!(s.anim_names.is_empty() && s.anim_offsets.is_empty() && s.path_offsets.is_empty());
    assert!(s.called_scripts.is_empty() && s.call_origins.is_empty());
}

fn tri_record(i: [u16; 3], material: i16, flags: u32) -> Vec<u8> {
    let mut v = Vec::new();
    for x in i {
        v.extend_from_slice(&x.to_le_bytes());
    }
    v.extend_from_slice(&material.to_le_bytes());
    for k in 0..6u32 {
        v.extend_from_slice(&(0x3F80_0000u32 + k).to_le_bytes());
    }
    v.extend_from_slice(&flags.to_le_bytes());
    v
}

#[test]
fn mesh_triangles_tidy_flags_and_drop_degenerate_ones() {
    let mut data = vec![0xAAu8];
    data.extend(tri_record([0, 1, 2], 5, 0x0110_0000));
    data.extend(tri_record([3, 3, 4], 7, 0));
    data.extend(tri_record([1, 1, 2], -3, 0x00F0_0000));
    let mut r = Reader::new(&data);
    r.set_position(1);
    let tris = MeshTri::try_parse_slice(&mut r, 3).unwrap();
    assert_eq!(r.position(), 1 + 3 * 36);
    assert_eq!(tris.len(), 2);
    assert_eq!(tris[0].indices, [0, 1, 2]);
    assert_eq!(tris[0].material, Pen::Texture(5));
    assert_eq!(tris[0].flags, 0x0100_0000);
    assert_eq!(tris[0].id(), 1);
    assert_eq!(tris[0].uvs[1], [FloatBits(0x3F80_0002), FloatBits(0x3F80_0003)]);
    assert_eq!(tris[1].indices, [1, 1, 2]);
    assert_eq!(tris[1].material, Pen::Colour(3));
    assert_eq!(tris[1].flags, 0x00E0_0000);
    assert_eq!(tris[1].id(), 0);
}

#[test]
fn mesh_triangles_refuse_bad_input() {
    let mut data = tri_record([0, 1, 2], 5, 0);
    data.extend(tri_record([0, 1, 2], 300, 0));
    assert!(MeshTri::try_parse_slice(&mut Reader::new(&data), 2).is_none());
    assert!(MeshTri::try_parse_slice(&mut Reader::new(&data), 1).is_some());
    assert!(MeshTri::try_parse_slice(&mut Reader::new(&data[..50]), 2).is_none());
    let mut r = Reader::new(&data);
    r.set_position(5);
    assert!(MeshTri::try_parse_slice(&mut r, 10001).is_none());
    assert_eq!(r.position(), 5);
    let mut r = Reader::new(&data);
    r.set_position(100);
    assert_eq!(MeshTri::try_parse_slice(&mut r, 0).unwrap().len(), 0);
}

#[test]
fn zoom_palette_is_white_with_rising_alpha() {
    let p = zoom_palette();
    assert_eq!(p.len(), 68);
    assert!(p[..51].iter().all(|&b| b == 255));
    assert_eq!(&p[51..], &[0, 3, 6, 0xC, 0x12, 0x18, 0x30, 0x48, 0x60, 0x78, 0x90, 0xA8, 0xC0, 0xD7, 0xE6, 0xF5, 0xFF]);
}

fn tri(material: Pen) -> MeshTri {
    MeshTri { indices: [0, 1, 2], material, uvs: [[FloatBits(0); 2]; 3], flags: 0 }
}

#[test]
fn unused_materials_are_dropped_and_indices_renumbered() {
    let mut materials = vec!["A", "B", "C", "D"];
    let mut parts = vec![
        vec![tri(Pen::Texture(2)), tri(Pen::Colour(3))],
        vec![tri(Pen::Texture(0)), tri(Pen::Texture(2))],
    ];
    remove_unused_materials(&mut materials, &mut parts);
    assert_eq!(materials, vec!["A", "C"]);
    assert_eq!(parts[0][0].material, Pen::Texture(1));
    assert_eq!(parts[0][1].material, Pen::Colour(3));
    assert_eq!(parts[1][0].material, Pen::Texture(0));
    assert_eq!(parts[1][1].material, Pen::Texture(1));
    let mut none: Vec<Vec<MeshTri>> = vec![vec![tri(Pen::Colour(1))]];
    let mut mats = vec!["X"];
    remove_unused_materials(&mut mats, &mut none);
    assert!(mats.is_empty());
    assert_eq!(none[0][0].material, Pen::Colour(1));
}

fn arena<'a>(name: &'a str, palette: &'a [u8], materials: Vec<(&'a str, Material)>) -> MtoArena<'a> {
    MtoArena {
        name,
        animations: vec![],
        meshes: vec![],
        sounds: vec![],
        block: &[],
        bsp_offset: 0,
        palette,
        mti: Mti { filename: "", materials },
    }
}

fn dti_with(pal: &[u8], num_pal_free_pixels: u32) -> Dti<'_> {
    let zero = Vec3Bits { x: FloatBits(0), y: FloatBits(0), z: FloatBits(0) };
    Dti {
        filename: "LEVEL3.DTI",
        player_start_arena_index: 0,
        player_start_pos: zero,
        player_start_angle: FloatBits(0),
        ceiling_colour: 0,
        floor_colour: 0,
        reflected_ceiling_colour: 0,
        reflected_floor_colour: 0,
        skybox: Texture::new(1, 1, vec![0]),
        reflected_skybox: None,
        translucent_colours: [[0; 4]; 4],
        arenas: vec![],
        num_pal_free_pixels,
        pal,
    }
}

fn sni_with<'a>(bsps: Vec<(&'a str, &'a [u8])>) -> Sni<'a> {
    Sni { filename: "", sounds: vec![], bsps, anims: vec![] }
}

fn entity<'a>(arenas: Vec<&'a str>) -> CmiEntity<'a> {
    CmiEntity { mesh: None, animations: vec![], animation_names: vec![], splines: vec![], scripts: vec![], arenas }
}

fn cmi_with<'a>(names: &[&'a str]) -> Cmi<'a> {
    Cmi {
        filename: "LEVEL3.CMI",
        arenas: names.iter().map(|n| CmiArena { name: n, song: "", entities: vec![] }).collect(),
        scripts: vec![],
        entities: vec![],
    }
}

#[test]
fn traverse_plan_builds_arena_palettes() {
    let level = vec![1u8; 0x300];
    let sys = vec![2u8; 192];
    let pal_a = vec![3u8; 336];
    let pal_b = vec![4u8; 336];
    let mto = Mto { filename: "LEVEL3O.MTO", arenas: vec![arena("A", &pal_a, vec![]), arena("B", &pal_b, vec![])] };
    let dti = dti_with(&level, 2);
    let none = sni_with(vec![]);
    let mut cmi = cmi_with(&["B", "A"]);
    cmi.entities = vec![("A", entity(vec!["A"])), ("B", entity(vec!["B"]))];
    let plan = plan_traverse_level(&sys, &cmi, &dti, &mto, &none, &none).unwrap();
    assert!(plan_traverse_level(&sys, &cmi_with(&["B", "A"]), &dti, &mto, &none, &none).is_none());
    assert_eq!(plan.palettes.len(), 2);
    assert_eq!(plan.palettes[0].0, "A");
    assert_eq!(plan.palettes[1].0, "B");
    assert_eq!(plan.palettes[0].1.len(), 0x300);
    assert!(plan.palettes[0].1[..192].iter().all(|&b| b == 2));
    assert!(plan.palettes[0].1[192..198].iter().all(|&b| b == 3));
    assert!(plan.palettes[1].1[192..198].iter().all(|&b| b == 4));
    assert!(plan.palettes[1].1[198..].iter().all(|&b| b == 1));
    assert!(plan_traverse_level(&sys, &cmi_with(&["A"]), &dti, &mto, &none, &none).is_none());
    assert!(plan_traverse_level(&sys[..191], &cmi_with(&["A", "B"]), &dti, &mto, &none, &none).is_none());
    let short = vec![5u8; 3];
    let mto2 = Mto { filename: "X", arenas: vec![arena("A", &short, vec![])] };
    assert!(plan_traverse_level(&sys, &cmi_with(&["A"]), &dti, &mto2, &none, &none).is_none());
}

#[test]
fn texture_arenas_prefer_the_arena_holding_the_texture() {
    let pal_b = palette([10, 20, 30], [1, 1, 1]);
    let pal_ca = palette([11, 20, 30], [1, 1, 1]);
    let pal_a = palette([10, 20, 30], [2, 2, 2]);
    let arenas = vec![
        arena("B", &pal_b, vec![]),
        arena("CA", &pal_ca, vec![("ROCK", Material::Pen(Pen::Colour(1)))]),
        arena("A", &pal_a, vec![]),
    ];
    let palettes: Vec<(&str, &[u8])> = vec![("B", &pal_b), ("CA", &pal_ca), ("A", &pal_a)];
    let frames = vec![Texture::new(1, 1, vec![1])];
    assert_eq!(texture_arenas("ROCK", &frames, &arenas, &palettes), vec![1]);
    assert_eq!(texture_arenas("SKY", &frames, &arenas, &palettes), vec![2, 1]);
    assert_eq!(texture_arenas("SKY", &frames, &arenas, &palettes[..1]), vec![0]);
}

fn mesh_arena<'a>(name: &'a str, meshes: &[&'a str]) -> MtoArena<'a> {
    let mut a = arena(name, &[], vec![]);
    a.meshes = meshes.iter().map(|m| (*m, &[][..], false)).collect();
    a
}

#[test]
fn entities_join_the_arenas_that_hold_their_meshes() {
    let mut cmi = cmi_with(&["A", "B"]);
    cmi.entities = vec![("A", entity(vec!["A"])), ("B", entity(vec!["B"])), ("CA", entity(vec!["CA"]))];
    let mto = Mto { filename: "", arenas: vec![mesh_arena("A", &["M1"]), mesh_arena("B", &["M1", "M2"])] };
    let sni_o = sni_with(vec![("CA", &[]), ("CB", &[])]);
    let none = sni_with(vec![]);
    let r = register_level(&cmi, &mto, &sni_o, &none).unwrap();
    let ents: Vec<(&str, Vec<&str>)> = r.entities.iter().map(|(n, a)| (*n, a.clone())).collect();
    assert_eq!(
        ents,
        vec![
            ("A", vec!["A"]),
            ("B", vec!["B"]),
            ("CA", vec!["CA"]),
            ("M1", vec!["A", "B"]),
            ("M2", vec!["B"]),
            ("CB", vec!["B"]),
        ]
    );
    assert_eq!(r.arena_entities, vec![vec!["M1"], vec!["M1", "M2", "CB"]]);
    assert_eq!(r.corridor_palettes, vec![("CA", "A")]);
    assert!(register_level(&cmi, &mto, &sni_o, &sni_with(vec![("X", &[])])).is_none());
    assert!(register_level(&cmi, &mto, &sni_with(vec![("XA", &[])]), &none).is_none());
    assert!(register_level(&cmi_with(&["A"]), &mto, &none, &none).is_none());
}
