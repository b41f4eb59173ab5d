//! LBB files: the loading images of each level.

use vstd::prelude::*;

use crate::data_formats::image_formats::{spec_palette_image, try_parse_palette_image};
use crate::data_formats::Texture;
use crate::reader::Reader;

verus! {

/// A loading image and its palette.
pub struct Lbb<'a> {
    pub palette: &'a [u8],
    pub texture: Texture,
}

impl<'a> Lbb<'a> {
    /// Parses a loading image: a raw palette image with no other structure.
    pub fn parse(reader: Reader<'a>) -> (l: Self)
        requires
            spec_palette_image(reader.data(), reader.pos()) is Some,
        ensures
            l.palette@ == spec_palette_image(reader.data(), reader.pos())->Some_0.0,
            l.texture@ == spec_palette_image(reader.data(), reader.pos())->Some_0.1,
    {
        let mut reader = reader;
        let parsed = try_parse_palette_image(&mut reader);
        let (palette, texture) = parsed.unwrap();
        Lbb { palette, texture }
    }
}

} // verus!
