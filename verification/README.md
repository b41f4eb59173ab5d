# mdk_parse

Readers for the data files of MDK (1997), with their behaviour stated in
`requires` / `ensures` contracts and proved with Verus.

## Layout

- `src/reader.rs`: a cursor over a byte buffer; every read states what it
  returns and where it leaves the cursor.
- `src/data_formats/`: the encodings shared by several files: images and
  sprite animations, sounds, paths, mesh triangles, and the script bytecode
  (its operand layout tables, operand decoding, block walking and what a
  script refers to), and the text listing of a script: a header per block
  and a line per instruction naming what it does, with its operands.
- `src/file_formats/`: the files: BNI archives, CMI scripts (following every
  call from the init, setup and arena scripts), DTI levels, FTI fonts, LBB
  images, MTI materials, MTO arena assets and SNI archives. Each has a spec
  function giving what a file holds, or `None` where it is malformed, and a
  `try_parse` proved to return exactly that.
- `src/levels.rs`: work across a level's files: arena palettes, which arenas
  can share a palette for a texture, the FLARE and ZOOM animations of the
  skydiving archive, and looking up stream textures by name.
- `src/registry.rs`: which arenas of a level each entity belongs to, from
  the scripts, the arenas' meshes and the corridor BSP trees.
- `src/sorting.rs`, `src/numfmt.rs`, `src/text.rs`, `src/named_vec.rs`,
  `src/naming.rs`, `src/gltf.rs`: sorting without repeats, number formatting,
  text helpers, a name-keyed list, file names for repeated asset names and
  for an asset with an extension, and the glTF enums, data URIs, node tree
  and buffer combining.
- `app/`: the exporter: walks `assets/`, calls the library and writes PNG,
  WAV, TSV and text files under `output/`; the floats of script listings
  are shown there. It also holds the 3D decoders,
  which compute with floats, as far as telling whether a BNI entry is a
  3D animation or a mesh.
- `tests/`: tests on small hand-built files.

Floating-point values are carried as their bit patterns (`FloatBits`); the
geometry that needs float arithmetic (meshes, 3D animations, BSP trees) is
found by offset and kept as bytes.
