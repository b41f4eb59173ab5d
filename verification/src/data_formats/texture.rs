//! An 8-bit indexed image.

use vstd::prelude::*;

use crate::buffer::{extend_bytes, extend_fill, fill};

verus! {

/// The mathematical content of a texture.
pub struct TextureView {
    pub width: u16,
    pub height: u16,
    pub pixels: Seq<u8>,
    pub position: (i16, i16),
}

/// A paletted image: one byte per pixel, row by row.
pub struct Texture {
    pub width: u16,
    pub height: u16,
    pub pixels: Vec<u8>,
    /// Offset of the image, used by some animations.
    pub position: (i16, i16),
}

impl View for Texture {
    type V = TextureView;

    open spec fn view(&self) -> TextureView {
        TextureView {
            width: self.width,
            height: self.height,
            pixels: self.pixels@,
            position: self.position,
        }
    }
}

/// A texture of the given size and pixels, at position (0, 0).
pub open spec fn plain_texture(width: int, height: int, pixels: Seq<u8>) -> TextureView {
    TextureView { width: width as u16, height: height as u16, pixels, position: (0, 0) }
}

impl Texture {
    /// A texture at position (0, 0); the pixel count must match the size.
    pub fn new(width: u16, height: u16, pixels: Vec<u8>) -> (t: Texture)
        requires
            width * height == pixels@.len(),
        ensures
            t@ == plain_texture(width as int, height as int, pixels@),
    {
        Texture { width, height, pixels, position: (0, 0) }
    }

    /// A copy of the texture.
    pub fn clone_ref(&self) -> (t: Texture)
        ensures
            t@ == self@,
    {
        let mut pixels: Vec<u8> = Vec::new();
        crate::buffer::extend_bytes(&mut pixels, self.pixels.as_slice());
        Texture { width: self.width, height: self.height, pixels, position: self.position }
    }
}

impl Clone for Texture {
    fn clone(&self) -> (t: Self)
        ensures
            t@ == self@,
    {
        self.clone_ref()
    }
}

// ---------------------------------------------------------------------------
// Laying out the frames of an animation on one canvas

/// Where the frames of an animation are drawn: each frame's position is
/// subtracted from the offsets, and the canvas holds every frame.
#[derive(Clone, Copy, Debug, PartialEq, Eq, Structural)]
pub struct AnimationLayout {
    pub offset_x: i64,
    pub offset_y: i64,
    pub width: usize,
    pub height: usize,
    /// Every frame is at (0, 0) and has the size of the first, so frames can be used as they are.
    pub simple: bool,
}

pub open spec fn max0(a: int, b: int) -> int {
    if a >= b {
        a
    } else {
        b
    }
}

/// The largest x position of the frames, and 0.
pub open spec fn max_x_pos(fs: Seq<TextureView>) -> int
    decreases fs.len(),
{
    if fs.len() == 0 {
        0
    } else {
        max0(max_x_pos(fs.drop_last()), fs.last().position.0 as int)
    }
}

pub open spec fn max_y_pos(fs: Seq<TextureView>) -> int
    decreases fs.len(),
{
    if fs.len() == 0 {
        0
    } else {
        max0(max_y_pos(fs.drop_last()), fs.last().position.1 as int)
    }
}

/// The largest extent of the frames right of their origin, and 0.
pub open spec fn max_x_extent(fs: Seq<TextureView>) -> int
    decreases fs.len(),
{
    if fs.len() == 0 {
        0
    } else {
        max0(max_x_extent(fs.drop_last()), fs.last().width - fs.last().position.0)
    }
}

pub open spec fn max_y_extent(fs: Seq<TextureView>) -> int
    decreases fs.len(),
{
    if fs.len() == 0 {
        0
    } else {
        max0(max_y_extent(fs.drop_last()), fs.last().height - fs.last().position.1)
    }
}

/// Whether every frame is at (0, 0) and has the size of the first.
pub open spec fn frames_simple(fs: Seq<TextureView>) -> bool {
    forall|i: int|
        0 <= i < fs.len() ==> (#[trigger] fs[i]).position == (0i16, 0i16) && fs[i].width == fs[0].width
            && fs[i].height == fs[0].height
}

/// The layout of the frames `fs`.
pub open spec fn spec_layout(fs: Seq<TextureView>) -> AnimationLayout {
    AnimationLayout {
        offset_x: max_x_pos(fs) as i64,
        offset_y: max_y_pos(fs) as i64,
        width: (max_x_extent(fs) + max_x_pos(fs)) as usize,
        height: (max_y_extent(fs) + max_y_pos(fs)) as usize,
        simple: frames_simple(fs),
    }
}

proof fn lemma_layout_bounds(fs: Seq<TextureView>)
    ensures
        0 <= max_x_pos(fs) <= 0x7FFF,
        0 <= max_y_pos(fs) <= 0x7FFF,
        0 <= max_x_extent(fs) <= 0xFFFF + 0x8000,
        0 <= max_y_extent(fs) <= 0xFFFF + 0x8000,
        forall|i: int|
            0 <= i < fs.len() ==> max_x_pos(fs) >= (#[trigger] fs[i]).position.0 && max_y_pos(fs) >= fs[i].position.1
                && max_x_extent(fs) >= fs[i].width - fs[i].position.0 && max_y_extent(fs) >= fs[i].height
                - fs[i].position.1,
    decreases fs.len(),
{
    if fs.len() > 0 {
        let prev = fs.drop_last();
        lemma_layout_bounds(prev);
        assert forall|i: int| 0 <= i < fs.len() implies max_x_pos(fs) >= (#[trigger] fs[i]).position.0 && max_y_pos(fs)
            >= fs[i].position.1 && max_x_extent(fs) >= fs[i].width - fs[i].position.0 && max_y_extent(fs)
            >= fs[i].height - fs[i].position.1 by {
            if i < fs.len() - 1 {
                assert(fs[i] == prev[i]);
            }
        }
    }
}

/// Every frame fits the canvas of the layout: drawn with its position taken
/// from the layout's offset, it starts inside the canvas and ends within its
/// width and height; frames that all sit at (0, 0) with one size are marked
/// simple.
pub proof fn lemma_layout_fits(fs: Seq<TextureView>)
    ensures
        forall|i: int|
            0 <= i < fs.len() ==> {
                let f = #[trigger] fs[i];
                let l = spec_layout(fs);
                &&& l.offset_x - f.position.0 >= 0
                &&& l.offset_y - f.position.1 >= 0
                &&& l.offset_x - f.position.0 + f.width <= l.width
                &&& l.offset_y - f.position.1 + f.height <= l.height
            },
        spec_layout(fs).simple <==> forall|i: int|
            0 <= i < fs.len() ==> (#[trigger] fs[i]).position == (0i16, 0i16) && fs[i].width == fs[0].width
                && fs[i].height == fs[0].height,
{
    lemma_layout_bounds(fs);
}

pub open spec fn textures_view(v: Seq<Texture>) -> Seq<TextureView> {
    v.map_values(|t: Texture| t@)
}

proof fn lemma_max_bounds(fs: Seq<TextureView>)
    ensures
        0 <= max_x_pos(fs) <= 32767,
        0 <= max_y_pos(fs) <= 32767,
        0 <= max_x_extent(fs) <= 65535 + 32768,
        0 <= max_y_extent(fs) <= 65535 + 32768,
    decreases fs.len(),
{
    if fs.len() > 0 {
        lemma_max_bounds(fs.drop_last());
    }
}

/// Lays out the frames of an animation on one canvas; there must be a frame.
pub fn animation_layout(frames: &[Texture]) -> (l: AnimationLayout)
    requires
        frames@.len() > 0,
    ensures
        l == spec_layout(textures_view(frames@)),
{
    let ghost fs = textures_view(frames@);
    let mut offset_x: i64 = 0;
    let mut offset_y: i64 = 0;
    let mut max_x: i64 = 0;
    let mut max_y: i64 = 0;
    let mut simple = true;
    let mut k: usize = 0;
    while k < frames.len()
        invariant
            0 <= k <= frames@.len(),
            fs == textures_view(frames@),
            frames@.len() > 0,
            offset_x == max_x_pos(fs.take(k as int)),
            offset_y == max_y_pos(fs.take(k as int)),
            max_x == max_x_extent(fs.take(k as int)),
            max_y == max_y_extent(fs.take(k as int)),
            simple == frames_simple(fs.take(k as int)) || (k == 0 && simple),
            k > 0 ==> fs.take(k as int)[0] == fs[0],
        decreases frames@.len() - k,
    {
        let frame = &frames[k];
        let x = frame.position.0 as i64;
        let y = frame.position.1 as i64;
        proof {
            lemma_max_bounds(fs.take(k as int));
            assert(fs.take(k + 1).drop_last() =~= fs.take(k as int));
            assert(fs.take(k + 1).last() == frame@);
        }
        if x > offset_x {
            offset_x = x;
        }
        if y > offset_y {
            offset_y = y;
        }
        if frame.width as i64 - x > max_x {
            max_x = frame.width as i64 - x;
        }
        if frame.height as i64 - y > max_y {
            max_y = frame.height as i64 - y;
        }
        if simple && (x != 0 || y != 0 || frame.width != frames[0].width || frame.height
            != frames[0].height) {
            simple = false;
        }
        proof {
            let t = fs.take(k + 1);
            if simple {
                assert forall|i: int| 0 <= i < t.len() implies (#[trigger] t[i]).position == (
                    0i16,
                    0i16,
                ) && t[i].width == t[0].width && t[i].height == t[0].height by {
                    if i < k {
                        assert(t[i] == fs.take(k as int)[i]);
                    }
                }
            } else {
                if k > 0 && frames_simple(fs.take(k as int)) {
                    assert(!(t[k as int].position == (0i16, 0i16) && t[k as int].width == t[0].width
                        && t[k as int].height == t[0].height));
                }
            }
        }
        k = k + 1;
    }
    proof {
        assert(fs.take(k as int) =~= fs);
        lemma_max_bounds(fs);
    }
    AnimationLayout {
        offset_x,
        offset_y,
        width: (max_x + offset_x) as usize,
        height: (max_y + offset_y) as usize,
        simple,
    }
}

/// Row `r` of the canvas with `f` drawn at column `ox`, row `oy`; `rows` rows of the frame are drawn.
pub open spec fn canvas_row(f: TextureView, l: AnimationLayout, ox: int, oy: int, rows: int, r: int) -> Seq<u8> {
    let w = f.width as int;
    if oy <= r < oy + rows {
        fill(0, ox) + f.pixels.subrange((r - oy) * w, (r - oy) * w + w) + fill(0, l.width - ox - w)
    } else {
        fill(0, l.width as int)
    }
}

/// The number of frame rows drawn: those that fit both the canvas and the pixels.
pub open spec fn drawn_rows(f: TextureView, l: AnimationLayout, oy: int) -> int {
    let by_canvas = l.height - oy;
    let by_pixels = (f.pixels.len() as int) / (f.width as int);
    if by_canvas <= by_pixels {
        by_canvas
    } else {
        by_pixels
    }
}

/// The canvas, row by row, with `f` drawn on it.
pub open spec fn spec_compose(f: TextureView, l: AnimationLayout) -> Seq<u8> {
    let ox = l.offset_x - f.position.0;
    let oy = l.offset_y - f.position.1;
    Seq::new(l.height as nat, |r: int| canvas_row(f, l, ox, oy, drawn_rows(f, l, oy), r)).flatten()
}

proof fn lemma_flatten_rows(s: Seq<Seq<u8>>, w: int)
    requires
        w >= 0,
        forall|r: int| 0 <= r < s.len() ==> (#[trigger] s[r]).len() == w,
    ensures
        s.flatten().len() == s.len() * w,
        forall|r: int, c: int| 0 <= r < s.len() && 0 <= c < w ==> s.flatten()[r * w + c] == #[trigger] s[r][c],
    decreases s.len(),
{
    if s.len() > 0 {
        let t = s.drop_first();
        lemma_flatten_rows(t, w);
        assert(s.flatten() == s.first() + t.flatten());
        assert(s.len() * w == w + t.len() * w) by (nonlinear_arith)
            requires
                t.len() == s.len() - 1,
        ;
        assert forall|r: int, c: int| 0 <= r < s.len() && 0 <= c < w implies s.flatten()[r * w + c] == #[trigger] s[r][c] by {
            if r > 0 {
                assert(r * w + c - w == (r - 1) * w + c) by (nonlinear_arith);
                assert(r * w + c >= w) by (nonlinear_arith)
                    requires
                        r >= 1,
                        c >= 0,
                        w >= 0,
                ;
                assert((r - 1) * w + c < t.len() * w) by (nonlinear_arith)
                    requires
                        0 <= r - 1 < t.len(),
                        0 <= c < w,
                ;
                assert(t[r - 1] == s[r]);
            }
        }
    }
}

/// Drawing a frame on the canvas of a layout it fits: the canvas is the
/// layout's width times its height; the frame's pixel in row `r`, column `k`
/// lands at row `offset_y - y + r`, column `offset_x - x + k` (for the rows of
/// the frame that are drawn), and every other pixel of the canvas is 0.
pub proof fn lemma_compose_places(f: TextureView, l: AnimationLayout)
    requires
        f.width > 0,
        l.offset_x >= f.position.0,
        l.offset_y >= f.position.1,
        l.offset_x - f.position.0 + f.width <= l.width,
        l.offset_y - f.position.1 <= l.height,
    ensures
        ({
            let ox = l.offset_x - f.position.0;
            let oy = l.offset_y - f.position.1;
            let w = f.width as int;
            let cw = l.width as int;
            let rows = drawn_rows(f, l, oy);
            let c = spec_compose(f, l);
            &&& c.len() == l.height * cw
            &&& forall|r: int, k: int|
                0 <= r < rows && 0 <= k < w ==> c[(oy + r) * cw + ox + k] == #[trigger] f.pixels[r * w + k]
            &&& forall|rr: int, cc: int|
                0 <= rr < l.height && 0 <= cc < cw && !(oy <= rr < oy + rows && ox <= cc < ox + w) ==> #[trigger] c[rr
                    * cw + cc] == 0
        }),
{
    let ox = l.offset_x - f.position.0;
    let oy = l.offset_y - f.position.1;
    let w = f.width as int;
    let cw = l.width as int;
    let rows = drawn_rows(f, l, oy);
    let s = Seq::new(l.height as nat, |r: int| canvas_row(f, l, ox, oy, rows, r));
    assert(rows * w <= f.pixels.len()) by (nonlinear_arith)
        requires
            rows <= (f.pixels.len() as int) / w,
            w > 0,
    ;
    assert forall|r: int| 0 <= r < s.len() implies (#[trigger] s[r]).len() == cw by {
        if oy <= r < oy + rows {
            assert((r - oy) * w + w <= rows * w) by (nonlinear_arith)
                requires
                    0 <= r - oy < rows,
                    w > 0,
            ;
            assert(0 <= (r - oy) * w) by (nonlinear_arith)
                requires
                    0 <= r - oy,
                    w > 0,
            ;
        }
    }
    lemma_flatten_rows(s, cw);
    assert(spec_compose(f, l) == s.flatten());
    assert forall|r: int, k: int| 0 <= r < rows && 0 <= k < w implies spec_compose(f, l)[(oy + r) * cw + ox + k]
        == #[trigger] f.pixels[r * w + k] by {
        let row = oy + r;
        assert(row < l.height);
        assert(s[row][ox + k] == spec_compose(f, l)[row * cw + (ox + k)]);
        assert(row * cw + (ox + k) == (oy + r) * cw + ox + k);
        assert(r * w + w <= rows * w) by (nonlinear_arith)
            requires
                0 <= r < rows,
                w > 0,
        ;
        assert(0 <= r * w) by (nonlinear_arith)
            requires
                0 <= r,
                w > 0,
        ;
    }
    assert forall|rr: int, cc: int|
        0 <= rr < l.height && 0 <= cc < cw && !(oy <= rr < oy + rows && ox <= cc < ox + w) implies #[trigger] spec_compose(
        f,
        l,
    )[rr * cw + cc] == 0 by {
        assert(s[rr][cc] == spec_compose(f, l)[rr * cw + cc]);
        if oy <= rr < oy + rows {
            assert((rr - oy) * w + w <= rows * w) by (nonlinear_arith)
                requires
                    0 <= rr - oy < rows,
                    w > 0,
            ;
            assert(0 <= (rr - oy) * w) by (nonlinear_arith)
                requires
                    0 <= rr - oy,
                    w > 0,
            ;
        }
    }
}

/// Draws a frame on an empty canvas of the layout; the frame must fit the
/// layout (as every frame of the animation it was made from does) and have a width.
pub fn compose_frame(frame: &Texture, l: &AnimationLayout) -> (buf: Vec<u8>)
    requires
        frame.width > 0,
        l.offset_x >= frame.position.0,
        l.offset_y >= frame.position.1,
        l.offset_x - frame.position.0 + frame.width <= l.width,
        l.offset_y - frame.position.1 <= l.height,
    ensures
        buf@ == spec_compose(frame@, *l),
{
    let ghost f = frame@;
    let ox = (l.offset_x as i128 - frame.position.0 as i128) as usize;
    let oy = (l.offset_y as i128 - frame.position.1 as i128) as usize;
    let w = frame.width as usize;
    let by_canvas = l.height - oy;
    let by_pixels = frame.pixels.len() / w;
    let rows = if by_canvas <= by_pixels {
        by_canvas
    } else {
        by_pixels
    };
    assert(rows * w <= frame.pixels@.len()) by (nonlinear_arith)
        requires
            rows <= by_pixels,
            by_pixels == (frame.pixels@.len() as int) / (w as int),
            w > 0,
    ;
    let plen = frame.pixels.len();
    let ghost rowf = |r: int| canvas_row(f, *l, ox as int, oy as int, rows as int, r);
    let mut buf: Vec<u8> = Vec::new();
    let mut r: usize = 0;
    assert(Seq::new(0, rowf).flatten() =~= Seq::<u8>::empty()) by {
        reveal_with_fuel(Seq::flatten, 1);
    }
    while r < l.height
        invariant
            0 <= r <= l.height,
            f == frame@,
            w == frame.width,
            w > 0,
            ox == l.offset_x - frame.position.0,
            oy == l.offset_y - frame.position.1,
            ox + w <= l.width,
            rows == drawn_rows(f, *l, oy as int),
            rows * w <= frame.pixels@.len(),
            frame.pixels@.len() == plen,
            rowf == (|r: int| canvas_row(f, *l, ox as int, oy as int, rows as int, r)),
            buf@ == Seq::new(r as nat, rowf).flatten(),
        decreases l.height - r,
    {
        let ghost before = buf@;
        if oy <= r && r < oy + rows {
            let j = r - oy;
            assert(j * w + w <= rows * w) by (nonlinear_arith)
                requires
                    j < rows,
            ;
            extend_fill(&mut buf, ox, 0);
            let src = vstd::slice::slice_subrange(frame.pixels.as_slice(), j * w, j * w + w);
            extend_bytes(&mut buf, src);
            extend_fill(&mut buf, l.width - ox - w, 0);
        } else {
            extend_fill(&mut buf, l.width, 0);
        }
        proof {
            assert(Seq::new((r + 1) as nat, rowf) =~= Seq::new(r as nat, rowf).push(rowf(r as int)));
            Seq::new(r as nat, rowf).lemma_flatten_push(rowf(r as int));
            assert(buf@ =~= before + rowf(r as int));
        }
        r = r + 1;
    }
    buf
}

proof fn lemma_max_dominates(fs: Seq<TextureView>, i: int)
    requires
        0 <= i < fs.len(),
    ensures
        max_x_pos(fs) >= fs[i].position.0,
        max_y_pos(fs) >= fs[i].position.1,
        max_x_extent(fs) >= fs[i].width - fs[i].position.0,
        max_y_extent(fs) >= fs[i].height - fs[i].position.1,
    decreases fs.len(),
{
    if i < fs.len() - 1 {
        lemma_max_dominates(fs.drop_last(), i);
        assert(fs.drop_last()[i] == fs[i]);
    }
}

/// Every frame of an animation fits on the canvas laid out from it: its
/// place on the canvas starts at or after the canvas origin and it ends
/// within the canvas, so it can be drawn there.
pub proof fn lemma_frames_fit(fs: Seq<TextureView>, i: int)
    requires
        0 <= i < fs.len(),
    ensures
        ({
            let l = spec_layout(fs);
            let f = fs[i];
            &&& l.offset_x >= f.position.0
            &&& l.offset_y >= f.position.1
            &&& l.offset_x - f.position.0 + f.width <= l.width
            &&& l.offset_y - f.position.1 + f.height <= l.height
        }),
{
    lemma_max_dominates(fs, i);
    lemma_max_bounds(fs);
}

/// How a mesh's material is to be drawn: not at all, with a pen, with a
/// texture saved beside the model, or with a texture embedded in it.
pub enum TextureResult {
    NoTexture,
    Pen(crate::data_formats::pen::Pen),
    SaveRef { width: u16, height: u16, path: String, masked: bool },
    SaveEmbed { texture: Texture, masked: bool },
}

} // verus!
