//! How a mesh triangle or material is coloured.

use vstd::prelude::*;

verus! {

/// A drawing style, decoded from the signed index stored with a triangle.
#[derive(Debug, PartialEq, Eq, Structural, Clone, Copy)]
pub enum Pen {
    /// Index into the mesh's material array.
    Texture(u8),
    /// Index into the palette.
    Colour(u8),
    /// Index into the level's translucent colours.
    Translucent(u8),
    /// The 'angle' of a shiny material (y-offset of the reflected texture).
    Shiny(u8),
    Unknown(i32),
}

/// The pen that a signed index denotes.
pub open spec fn spec_pen(index: int) -> Pen {
    if 0 <= index <= 255 {
        Pen::Texture(index as u8)
    } else if -255 <= index <= -1 {
        Pen::Colour((-index) as u8)
    } else if -1010 <= index <= -990 {
        Pen::Shiny((-990 - index) as u8)
    } else if -1027 <= index <= -1024 {
        Pen::Translucent((-1024 - index) as u8)
    } else {
        Pen::Unknown(index as i32)
    }
}

/// The stored number of a pen: a texture index as it is, a colour `c` as
/// `-c`, a shiny angle `a` as `-990 - a`, a translucency `k` as `-1024 - k`.
pub open spec fn pen_number(p: Pen) -> int {
    match p {
        Pen::Texture(t) => t as int,
        Pen::Colour(c) => -(c as int),
        Pen::Shiny(a) => -990 - a as int,
        Pen::Translucent(k) => -1024 - k as int,
        Pen::Unknown(v) => v as int,
    }
}

/// Every stored number names the pen it is the number of: 0 to 255 a
/// texture, -1 to -255 a colour, -990 to -1010 a shiny material, -1024 to
/// -1027 a translucent one, and any other number an unknown pen.
pub proof fn lemma_pen_number(i: i32)
    ensures
        pen_number(spec_pen(i as int)) == i,
        (0 <= i <= 255 <==> spec_pen(i as int) is Texture),
        (-255 <= i <= -1 <==> spec_pen(i as int) is Colour),
        (-1010 <= i <= -990 <==> spec_pen(i as int) is Shiny),
        (-1027 <= i <= -1024 <==> spec_pen(i as int) is Translucent),
{
}

impl Pen {
    pub fn new(index: i32) -> (p: Pen)
        ensures
            p == spec_pen(index as int),
    {
        if 0 <= index && index <= 255 {
            Pen::Texture(index as u8)
        } else if -255 <= index && index <= -1 {
            Pen::Colour((-index) as u8)
        } else if -1010 <= index && index <= -990 {
            Pen::Shiny((-990 - index) as u8)
        } else if -1027 <= index && index <= -1024 {
            Pen::Translucent((-1024 - index) as u8)
        } else {
            Pen::Unknown(index)
        }
    }
}

} // verus!
