//! The image encodings of the game: plain images, paletted images,
//! run-length encoded sprite animations and three full-screen encodings.

use vstd::prelude::*;

use crate::buffer::{extend_bytes, extend_fill, fill};
use crate::data_formats::cmi_operands::{read_value, value_at};
use crate::data_formats::texture::{plain_texture, textures_view, Texture, TextureView};
use crate::reader::{le2, le4, twos, Reader};

verus! {

broadcast use crate::reader::lemma_reader_bounds;

/// What decoding an input comes to: a value, a rejection (the parser answers
/// `None`), or an abort (the input is malformed in a way the parser does not
/// survive, so its contract leaves it out).
pub enum Outcome<T> {
    Value(T),
    Rejected,
    Aborted,
}

/// Width and height of the full-screen overlay and cross-fade images.
pub const SCREEN_WIDTH: u16 = 600;
pub const SCREEN_HEIGHT: u16 = 360;
/// Height of the run-length encoded strip images.
pub const STRIP_HEIGHT: u16 = 180;

pub open spec fn screen_pixels() -> int {
    216000int
}

pub open spec fn strip_pixels() -> int {
    108000int
}

/// The smallest multiple of four that is at least `n`.
pub open spec fn round_up4(n: int) -> int {
    n + (4 - n % 4) % 4
}

/// `w * h` for two 16-bit sizes.
pub fn area(w: u16, h: u16) -> (n: usize)
    ensures
        n == w * h,
{
    assert(w * h <= 0xffff * 0xffff) by (nonlinear_arith)
        requires
            w <= 0xffff,
            h <= 0xffff,
    ;
    (w as usize) * (h as usize)
}

// ---------------------------------------------------------------------------
// plain and paletted images

/// A 16-bit width and height followed by exactly `width * height` pixels up to the end.
pub open spec fn spec_basic_image(d: Seq<u8>, p: int) -> Option<TextureView> {
    if p + 4 > d.len() {
        None
    } else {
        let w = le2(d.subrange(p, p + 2));
        let h = le2(d.subrange(p + 2, p + 4));
        if d.len() - (p + 4) == w * h {
            Some(plain_texture(w, h, d.subrange(p + 4, d.len() as int)))
        } else {
            None
        }
    }
}

/// A plain image is its width (two bytes, low first), its height (likewise),
/// then exactly width times height pixels, row by row, at position (0, 0).
pub proof fn lemma_basic_image_fields(d: Seq<u8>, p: int)
    requires
        0 <= p,
        p + 4 <= d.len(),
    ensures
        ({
            let w = d[p] + d[p + 1] * 256;
            let h = d[p + 2] + d[p + 3] * 256;
            &&& (d.len() - (p + 4) == w * h) ==> spec_basic_image(d, p) == Some(
                TextureView { width: w as u16, height: h as u16, pixels: d.subrange(p + 4, d.len() as int), position: (0, 0) },
            )
            &&& (d.len() - (p + 4) != w * h) ==> spec_basic_image(d, p) is None
        }),
{
}

/// Parses an image that fills the rest of the buffer.
pub fn try_parse_basic_image(reader: &mut Reader) -> (res: Option<Texture>)
    ensures
        final(reader).data() == old(reader).data(),
        match spec_basic_image(old(reader).data(), old(reader).pos()) {
            Some(t) => res is Some && res.unwrap()@ == t && final(reader).pos() == old(
                reader,
            ).data().len(),
            None => res is None,
        },
{
    let ghost d = reader.data();
    let ghost p = reader.pos();
    let width = match reader.try_u16() {
        Some(w) => w,
        None => return None,
    };
    let height = match reader.try_u16() {
        Some(h) => h,
        None => return None,
    };
    let num_pixels = area(width, height);
    if reader.remaining_len() != num_pixels {
        return None;
    }
    let pixels = reader.slice(num_pixels);
    let mut v: Vec<u8> = Vec::new();
    extend_bytes(&mut v, pixels);
    assert(v@ =~= pixels@);
    Some(Texture::new(width, height, v))
}

/// Parses an image whose header and pixels must be present.
pub fn parse_basic_image(reader: &mut Reader) -> (t: Texture)
    requires
        old(reader).has(4),
        old(reader).has(
            4 + le2(old(reader).ahead(2)) * le2(old(reader).data().subrange(
                old(reader).pos() + 2,
                old(reader).pos() + 4,
            )),
        ),
    ensures
        final(reader).data() == old(reader).data(),
        ({
            let d = old(reader).data();
            let p = old(reader).pos();
            let w = le2(d.subrange(p, p + 2));
            let h = le2(d.subrange(p + 2, p + 4));
            &&& t@ == plain_texture(w, h, d.subrange(p + 4, p + 4 + w * h))
            &&& final(reader).pos() == p + 4 + w * h
        }),
{
    let width = reader.u16();
    let height = reader.u16();
    let num_pixels = area(width, height);
    let pixels = reader.slice(num_pixels);
    let mut v: Vec<u8> = Vec::new();
    extend_bytes(&mut v, pixels);
    assert(v@ =~= pixels@);
    Texture::new(width, height, v)
}

/// A 0x300-byte palette followed by a basic image.
pub open spec fn spec_palette_image(d: Seq<u8>, p: int) -> Option<(Seq<u8>, TextureView)> {
    if p + 0x300 > d.len() {
        None
    } else {
        match spec_basic_image(d, p + 0x300) {
            Some(t) => Some((d.subrange(p, p + 0x300), t)),
            None => None,
        }
    }
}

/// Parses a palette followed by an image filling the rest of the buffer.
pub fn try_parse_palette_image<'a>(reader: &mut Reader<'a>) -> (res: Option<(&'a [u8], Texture)>)
    ensures
        final(reader).data() == old(reader).data(),
        match spec_palette_image(old(reader).data(), old(reader).pos()) {
            Some((pal, t)) => res is Some && res.unwrap().0@ == pal && res.unwrap().1@ == t
                && final(reader).pos() == old(reader).data().len(),
            None => res is None,
        },
{
    let palette = match reader.try_slice(0x300) {
        Some(s) => s,
        None => return None,
    };
    let image = match try_parse_basic_image(reader) {
        Some(t) => t,
        None => return None,
    };
    Some((palette, image))
}

// ---------------------------------------------------------------------------
// overlay images

/// The runs of an overlay image from position `p`, with `px` decoded so far:
/// the position after the terminating run and the pixels, if the runs are well formed.
pub open spec fn overlay_runs(d: Seq<u8>, p: int, px: Seq<u8>) -> Option<(int, Seq<u8>)>
    decreases d.len() - p,
{
    if p < 0 || p + 2 > d.len() {
        None
    } else {
        let idx = le2(d.subrange(p, p + 2));
        let q = p + 2;
        if idx < 0x8000 {
            // `idx` groups of four literal pixels
            if px.len() + 4 * idx > screen_pixels() || q + 4 * idx > d.len() {
                None
            } else {
                overlay_runs(d, q + 4 * idx, px + d.subrange(q, q + 4 * idx))
            }
        } else if idx < 0xff00 {
            // a gap of transparent pixels
            let n = idx % 0x1000;
            if px.len() + n > screen_pixels() {
                None
            } else {
                overlay_runs(d, q, px + fill(0, n))
            }
        } else {
            // a short literal run, or the end
            let n = idx - 0xff00;
            if n == 0 {
                Some((q, px))
            } else if px.len() + n > screen_pixels() || q + n > d.len() {
                None
            } else {
                overlay_runs(d, q + n, px + d.subrange(q, q + n))
            }
        }
    }
}

/// A gap word `g` (0x8000 to 0xFEFF, stored low byte first) adds as many
/// transparent pixels as its low twelve bits give (0x8258 adds 600), and the
/// runs go on after the word.
pub proof fn lemma_overlay_gap(d: Seq<u8>, p: int, px: Seq<u8>)
    requires
        0 <= p,
        p + 2 <= d.len(),
        0x80 <= d[p + 1] < 0xFF,
        px.len() + d[p] + (d[p + 1] % 16) * 256 <= screen_pixels(),
    ensures
        overlay_runs(d, p, px) == overlay_runs(
            d,
            p + 2,
            px + Seq::new((d[p] + (d[p + 1] % 16) * 256) as nat, |i: int| 0u8),
        ),
{
    let g = le2(d.subrange(p, p + 2));
    assert(g == d[p] + d[p + 1] * 256);
    assert(g % 0x1000 == d[p] + (d[p + 1] % 16) * 256) by (nonlinear_arith)
        requires
            g == d[p] + d[p + 1] * 256,
            0 <= d[p] < 256,
            0 <= d[p + 1] < 256,
    ;
    assert(fill(0, g % 0x1000) =~= Seq::new((d[p] + (d[p + 1] % 16) * 256) as nat, |i: int| 0u8));
}

/// A word below 0x8000 copies four times that many bytes after it; a word
/// 0xFF00 + n with n from 1 copies the n bytes after it; the word 0xFF00 ends
/// the runs just after it.
pub proof fn lemma_overlay_literals(d: Seq<u8>, p: int, px: Seq<u8>)
    requires
        0 <= p,
        p + 2 <= d.len(),
    ensures
        ({
            let w = d[p] + d[p + 1] * 256;
            &&& (d[p + 1] < 0x80 && p + 2 + 4 * w <= d.len() && px.len() + 4 * w <= screen_pixels()) ==> overlay_runs(
                d,
                p,
                px,
            ) == overlay_runs(d, p + 2 + 4 * w, px + d.subrange(p + 2, p + 2 + 4 * w))
            &&& (d[p + 1] == 0xFF && d[p] > 0 && p + 2 + d[p] <= d.len() && px.len() + d[p] <= screen_pixels())
                ==> overlay_runs(d, p, px) == overlay_runs(d, p + 2 + d[p], px + d.subrange(p + 2, p + 2 + d[p]))
            &&& (d[p + 1] == 0xFF && d[p] == 0) ==> overlay_runs(d, p, px) == Some((p + 2, px))
        }),
{
    let g = le2(d.subrange(p, p + 2));
    assert(g == d[p] + d[p + 1] * 256);
}

/// A 600x360 overlay image: its size in bytes, then runs, then zero padding
/// to a multiple of four that ends the buffer.
pub open spec fn spec_overlay_image(d: Seq<u8>, p: int) -> Outcome<TextureView> {
    if p + 4 > d.len() {
        Outcome::Rejected
    } else {
        let fs = le4(d.subrange(p, p + 4));
        let q = p + 4;
        if d.len() - q != round_up4(fs) {
            Outcome::Rejected
        } else {
            match overlay_runs(d, q, Seq::empty()) {
                None => Outcome::Rejected,
                Some((e, px)) => {
                    let next = e + (4 - e % 4) % 4;
                    if next > d.len() || exists|i: int| e <= i < next && d[i] != 0 {
                        Outcome::Aborted
                    } else if next != d.len() || px.len() != screen_pixels() {
                        Outcome::Rejected
                    } else {
                        Outcome::Value(plain_texture(600, 360, px))
                    }
                },
            }
        }
    }
}

/// Decodes a 600x360 overlay image, telling a rejected input from one that a
/// parser does not survive.
pub fn overlay_image_outcome(reader: &mut Reader) -> (res: Outcome<Texture>)
    ensures
        final(reader).data() == old(reader).data(),
        match spec_overlay_image(old(reader).data(), old(reader).pos()) {
            Outcome::Value(t) => res matches Outcome::Value(x) && x@ == t && final(reader).pos() == old(
                reader,
            ).data().len(),
            Outcome::Rejected => res is Rejected,
            Outcome::Aborted => res is Aborted,
        },
{
    let ghost d = reader.data();
    let ghost p = reader.pos();
    proof {
        reader.lemma_bounds();
    }
    let filesize = match reader.try_u32() {
        Some(n) => n,
        None => return Outcome::Rejected,
    };
    let fs = filesize as u64;
    let rounded = fs + (4 - fs % 4) % 4;
    if reader.remaining_len() as u64 != rounded {
        return Outcome::Rejected;
    }
    let ghost q = p + 4;
    let num_pixels: usize = 600 * 360;
    let mut pixels: Vec<u8> = Vec::new();
    loop
        invariant_except_break
            reader.data() == d,
            num_pixels == 216000,
            d == old(reader).data(),
            p == old(reader).pos(),
            q == p + 4,
            q <= reader.pos() <= d.len(),
            pixels@.len() <= num_pixels,
            overlay_runs(d, reader.pos(), pixels@) == overlay_runs(d, q, Seq::empty()),
        ensures
            reader.data() == d,
            overlay_runs(d, q, Seq::empty()) == Some((reader.pos(), pixels@)),
        decreases d.len() - reader.pos(),
    {
        let ghost p0 = reader.pos();
        let index = match reader.try_u16() {
            Some(i) => i as usize,
            None => return Outcome::Rejected,
        };
        if index < 0x8000 {
            if pixels.len() + 4 * index > num_pixels {
                return Outcome::Rejected;
            }
            let run = match reader.try_slice(4 * index) {
                Some(s) => s,
                None => return Outcome::Rejected,
            };
            extend_bytes(&mut pixels, run);
            continue ;
        } else if index < 0xff00 {
            let n = index % 0x1000;
            if pixels.len() + n > num_pixels {
                return Outcome::Rejected;
            }
            extend_fill(&mut pixels, n, 0);
            continue ;
        }
        let n = index - 0xff00;
        if n == 0 {
            break ;
        } else if pixels.len() + n > num_pixels {
            return Outcome::Rejected;
        }
        let run = match reader.try_slice(n) {
            Some(s) => s,
            None => return Outcome::Rejected,
        };
        extend_bytes(&mut pixels, run);
    }
    let ghost e = reader.pos();
    if !reader.try_align(4).is_some() {
        return Outcome::Aborted;
    }
    if !reader.is_empty() || pixels.len() != num_pixels {
        return Outcome::Rejected;
    }
    Outcome::Value(Texture::new(600, 360, pixels))
}

/// Parses a 600x360 overlay image.
pub fn try_parse_overlay_image(reader: &mut Reader) -> (res: Option<Texture>)
    requires
        !(spec_overlay_image(old(reader).data(), old(reader).pos()) is Aborted),
    ensures
        final(reader).data() == old(reader).data(),
        match spec_overlay_image(old(reader).data(), old(reader).pos()) {
            Outcome::Value(t) => res is Some && res.unwrap()@ == t && final(reader).pos() == old(
                reader,
            ).data().len(),
            _ => res is None,
        },
{
    match overlay_image_outcome(reader) {
        Outcome::Value(t) => Some(t),
        _ => None,
    }
}

// ---------------------------------------------------------------------------
// run-length encoded strip images

/// The groups of a strip image from position `p`: each group is a count of
/// literal 4-byte pixel groups, the groups, a count of transparent 4-byte
/// groups, a second count and its literal groups. Counts are at most 10000.
pub open spec fn rle_runs(d: Seq<u8>, p: int, px: Seq<u8>) -> Option<Seq<u8>>
    decreases d.len() - p,
{
    if p < 0 || p >= d.len() {
        Some(px)
    } else if p + 4 > d.len() {
        None
    } else {
        let n1 = le4(d.subrange(p, p + 4));
        let a = p + 4;
        if n1 > 10000 || a + 4 * n1 > d.len() {
            None
        } else {
            let px1 = px + d.subrange(a, a + 4 * n1);
            let b = a + 4 * n1;
            if b + 4 > d.len() {
                None
            } else {
                let nz = le4(d.subrange(b, b + 4));
                let c = b + 4;
                if nz > 10000 || c + 4 > d.len() {
                    None
                } else {
                    let px2 = px1 + fill(0, 4 * nz);
                    let n2 = le4(d.subrange(c, c + 4));
                    let e = c + 4;
                    if n2 > 10000 || e + 4 * n2 > d.len() {
                        None
                    } else {
                        let px3 = px2 + d.subrange(e, e + 4 * n2);
                        if px3.len() > strip_pixels() {
                            None
                        } else {
                            rle_runs(d, e + 4 * n2, px3)
                        }
                    }
                }
            }
        }
    }
}

/// One group of a strip image: a count `a` and `4a` literal bytes, a count
/// `z` of four-pixel transparent groups, a count `b` and `4b` literal bytes;
/// each count is a 32-bit word, low byte first, at most 10000.
pub proof fn lemma_rle_group(d: Seq<u8>, p: int, px: Seq<u8>)
    requires
        0 <= p,
        p + 4 <= d.len(),
    ensures
        ({
            let a = d[p] + d[p + 1] * 0x100 + d[p + 2] * 0x10000 + d[p + 3] * 0x1000000;
            let q = p + 4 + 4 * a;
            let z = d[q] + d[q + 1] * 0x100 + d[q + 2] * 0x10000 + d[q + 3] * 0x1000000;
            let r = q + 4;
            let b = d[r] + d[r + 1] * 0x100 + d[r + 2] * 0x10000 + d[r + 3] * 0x1000000;
            let e = r + 4 + 4 * b;
            let out = px + d.subrange(p + 4, q) + Seq::new(4 * z as nat, |i: int| 0u8) + d.subrange(r + 4, e);
            (a <= 10000 && z <= 10000 && b <= 10000 && r + 4 <= d.len() && e <= d.len() && out.len()
                <= strip_pixels()) ==> rle_runs(d, p, px) == rle_runs(d, e, out)
        }),
{
    let a = d[p] + d[p + 1] * 0x100 + d[p + 2] * 0x10000 + d[p + 3] * 0x1000000;
    let q = p + 4 + 4 * a;
    let z = d[q] + d[q + 1] * 0x100 + d[q + 2] * 0x10000 + d[q + 3] * 0x1000000;
    let r = q + 4;
    if a <= 10000 && z <= 10000 && r + 4 <= d.len() {
        assert(le4(d.subrange(p, p + 4)) == a);
        assert(le4(d.subrange(q, q + 4)) == z);
        assert(fill(0, 4 * z) =~= Seq::new(4 * z as nat, |i: int| 0u8));
    }
}

/// A 600x180 strip image: its size in bytes (exactly the rest of the buffer), then groups.
pub open spec fn spec_rle_image(d: Seq<u8>, p: int) -> Option<TextureView> {
    if p + 4 > d.len() {
        None
    } else {
        let fs = le4(d.subrange(p, p + 4));
        if d.len() - (p + 4) != fs {
            None
        } else {
            match rle_runs(d, p + 4, Seq::empty()) {
                Some(px) => if px.len() == strip_pixels() {
                    Some(plain_texture(600, 180, px))
                } else {
                    None
                },
                None => None,
            }
        }
    }
}

/// Parses a 600x180 run-length encoded strip image.
#[verifier::loop_isolation(false)]
pub fn try_parse_rle_image(reader: &mut Reader) -> (res: Option<Texture>)
    ensures
        final(reader).data() == old(reader).data(),
        match spec_rle_image(old(reader).data(), old(reader).pos()) {
            Some(t) => res is Some && res.unwrap()@ == t && final(reader).pos() == old(reader).data().len(),
            None => res is None,
        },
{
    let ghost d = reader.data();
    let ghost p = reader.pos();
    let filesize = match reader.try_u32() {
        Some(n) => n,
        None => return None,
    };
    if reader.remaining_len() != filesize as usize {
        return None;
    }
    let num_pixels: usize = 600 * 180;
    let mut pixels: Vec<u8> = Vec::new();
    while !reader.is_empty()
        invariant
            reader.data() == d,
            p + 4 <= reader.pos() <= d.len(),
            pixels@.len() <= num_pixels,
            rle_runs(d, reader.pos(), pixels@) == rle_runs(d, p + 4, Seq::empty()),
        decreases d.len() - reader.pos(),
    {
        let ghost pos0 = reader.pos();
        let ghost px0 = pixels@;
        let n1 = match reader.try_u32() {
            Some(n) => n,
            None => return None,
        };
        if n1 > 10000 {
            return None;
        }
        let run1 = match reader.try_slice(n1 as usize * 4) {
            Some(s) => s,
            None => return None,
        };
        extend_bytes(&mut pixels, run1);
        let nz = match reader.try_u32() {
            Some(n) => n,
            None => return None,
        };
        if nz > 10000 {
            return None;
        }
        extend_fill(&mut pixels, nz as usize * 4, 0);
        let n2 = match reader.try_u32() {
            Some(n) => n,
            None => return None,
        };
        if n2 > 10000 {
            return None;
        }
        let run2 = match reader.try_slice(n2 as usize * 4) {
            Some(s) => s,
            None => return None,
        };
        extend_bytes(&mut pixels, run2);
        proof {
            let a = pos0 + 4;
            let b = a + 4 * n1;
            let c = b + 4;
            let e = c + 4;
            assert(le4(d.subrange(pos0, pos0 + 4)) == n1);
            assert(le4(d.subrange(b, b + 4)) == nz);
            assert(le4(d.subrange(c, c + 4)) == n2);
            assert(pixels@ == px0 + d.subrange(a, a + 4 * n1) + fill(0, 4 * nz) + d.subrange(e, e + 4 * n2));
            assert(reader.pos() == e + 4 * n2);
        }
        if pixels.len() > num_pixels {
            return None;
        }
    }
    if pixels.len() != num_pixels {
        return None;
    }
    Some(Texture::new(600, 180, pixels))
}

// ---------------------------------------------------------------------------
// cross-fade images

/// The runs of a cross-fade image from position `p`: a signed count, then
/// either that many literal pixels (negative) or one pixel repeated (positive);
/// zero ends the image.
pub open spec fn xfade_runs(d: Seq<u8>, p: int, px: Seq<u8>) -> Option<(int, Seq<u8>)>
    decreases d.len() - p,
{
    if p < 0 || p >= d.len() {
        None
    } else {
        let c = twos(d[p] as int, 0x80);
        let q = p + 1;
        if c == 0 {
            Some((q, px))
        } else if c < 0 {
            let n = -c;
            if q + n > d.len() || px.len() + n > screen_pixels() {
                None
            } else {
                xfade_runs(d, q + n, px + d.subrange(q, q + n))
            }
        } else {
            if q >= d.len() || px.len() + c > screen_pixels() {
                None
            } else {
                xfade_runs(d, q + 1, px + fill(d[q], c))
            }
        }
    }
}

/// A run of a cross-fade image: a byte `c` from 1 to 0x7F repeats the byte
/// after it `c` times; a byte from 0x80 (a negative count, `c - 256`) copies
/// the `256 - c` bytes after it; 0 ends the runs.
pub proof fn lemma_xfade_run(d: Seq<u8>, p: int, px: Seq<u8>)
    requires
        0 <= p < d.len(),
    ensures
        d[p] == 0 ==> xfade_runs(d, p, px) == Some((p + 1, px)),
        (1 <= d[p] <= 0x7F && p + 1 < d.len() && px.len() + d[p] <= screen_pixels()) ==> xfade_runs(d, p, px)
            == xfade_runs(d, p + 2, px + Seq::new(d[p] as nat, |i: int| d[p + 1])),
        (d[p] >= 0x80 && p + 1 + (256 - d[p]) <= d.len() && px.len() + (256 - d[p]) <= screen_pixels())
            ==> xfade_runs(d, p, px) == xfade_runs(d, p + 1 + (256 - d[p]), px + d.subrange(p + 1, p + 1 + (256 - d[p]))),
{
    assert(fill(d[p + 1], d[p] as int) =~= Seq::new(d[p] as nat, |i: int| d[p + 1])) by {
        if p + 1 < d.len() {
        }
    }
}

/// A 600x360 cross-fade image: two 0x300-byte colour tables, then runs
/// that end exactly at the end of the buffer.
pub open spec fn spec_crossfade_image(d: Seq<u8>, p: int) -> Option<(Seq<u8>, Seq<u8>, TextureView)> {
    if d.len() < 0x600 {
        None
    } else {
        match xfade_runs(d, p + 0x600, Seq::empty()) {
            Some((e, px)) => if px.len() == screen_pixels() && e == d.len() {
                Some(
                    (
                        d.subrange(p, p + 0x300),
                        d.subrange(p + 0x300, p + 0x600),
                        plain_texture(600, 360, px),
                    ),
                )
            } else {
                None
            },
            None => None,
        }
    }
}

/// Parses a 600x360 cross-fade image and its two colour tables.
pub fn try_parse_crossfade_image<'a>(reader: &mut Reader<'a>) -> (res: Option<([&'a [u8]; 2], Texture)>)
    requires
        old(reader).data().len() >= 0x600 ==> old(reader).has(0x600),
    ensures
        final(reader).data() == old(reader).data(),
        match spec_crossfade_image(old(reader).data(), old(reader).pos()) {
            Some((l1, l2, t)) => res is Some && res.unwrap().0[0]@ == l1 && res.unwrap().0[1]@
                == l2 && res.unwrap().1@ == t && final(reader).pos() == old(reader).data().len(),
            None => res is None,
        },
        old(reader).data().len() < 0x600 ==> final(reader).pos() == old(reader).pos(),
{
    let ghost d = reader.data();
    let ghost p = reader.pos();
    if reader.len() < 0x600 {
        return None;
    }
    let lut1 = reader.slice(0x300);
    let lut2 = reader.slice(0x300);
    let num_pixels: usize = 600 * 360;
    let mut pixels: Vec<u8> = Vec::new();
    loop
        invariant_except_break
            reader.data() == d,
            num_pixels == 216000,
            d == old(reader).data(),
            p == old(reader).pos(),
            d.len() >= 0x600,
            p + 0x600 <= reader.pos() <= d.len(),
            pixels@.len() <= num_pixels,
            xfade_runs(d, reader.pos(), pixels@) == xfade_runs(d, p + 0x600, Seq::empty()),
        ensures
            reader.data() == d,
            reader.pos() <= d.len(),
            xfade_runs(d, p + 0x600, Seq::empty()) == Some((reader.pos(), pixels@)),
        decreases d.len() - reader.pos(),
    {
        let count = match reader.try_i8() {
            Some(c) => c,
            None => return None,
        };
        if count == 0 {
            break ;
        }
        if count < 0 {
            let n: usize = if count == -128 {
                128
            } else {
                (-count) as usize
            };
            let span = match reader.try_slice(n) {
                Some(s) => s,
                None => return None,
            };
            extend_bytes(&mut pixels, span);
        } else {
            let pixel = match reader.try_u8() {
                Some(v) => v,
                None => return None,
            };
            extend_fill(&mut pixels, count as usize, pixel);
        }
        if pixels.len() > num_pixels {
            return None;
        }
    }
    if pixels.len() != num_pixels || !reader.is_empty() {
        return None;
    }
    Some(([lut1, lut2], Texture::new(600, 360, pixels)))
}


// ---------------------------------------------------------------------------
// sprite animations

/// How a row of an animation frame ends: malformed, at a next-row marker, or
/// at the end-of-frame marker, with the position after the marker and the
/// pixels written so far (the rest of the row stays zero).
pub enum RowEnd {
    Fail,
    Next(int, Seq<u8>),
    Stop(int, Seq<u8>),
}

/// The commands of one row of width `w` from position `p`, with `pre` written so far:
/// 0..=0x7F copies that many plus one literal pixels, 0x80..=0xFD repeats the
/// next pixel that many minus 0x7C times, 0xFE ends the row and 0xFF the frame.
pub open spec fn decode_row(d: Seq<u8>, p: int, w: int, pre: Seq<u8>) -> RowEnd
    decreases d.len() - p,
{
    if p < 0 || p >= d.len() {
        RowEnd::Fail
    } else {
        let c = d[p] as int;
        let q = p + 1;
        if c <= 0x7f {
            let n = c + 1;
            if pre.len() + n > w || q + n > d.len() {
                RowEnd::Fail
            } else {
                decode_row(d, q + n, w, pre + d.subrange(q, q + n))
            }
        } else if c <= 0xfd {
            let n = c - 0x7c;
            if pre.len() + n > w || q >= d.len() {
                RowEnd::Fail
            } else {
                decode_row(d, q + 1, w, pre + fill(d[q], n))
            }
        } else if c == 0xfe {
            RowEnd::Next(q, pre)
        } else {
            RowEnd::Stop(q, pre)
        }
    }
}

/// Rows `r..h` of a frame of width `w` from position `p`, appended to `acc`.
pub open spec fn decode_rows(d: Seq<u8>, p: int, w: int, h: int, r: int, acc: Seq<u8>) -> Option<
    Seq<u8>,
>
    decreases h - r,
{
    if r >= h {
        Some(acc)
    } else {
        match decode_row(d, p, w, Seq::empty()) {
            RowEnd::Fail => None,
            RowEnd::Next(q, pre) => decode_rows(
                d,
                q,
                w,
                h,
                r + 1,
                acc + pre + fill(0, w - pre.len()),
            ),
            RowEnd::Stop(q, pre) => Some(
                acc + pre + fill(0, w - pre.len()) + fill(0, (h - r - 1) * w),
            ),
        }
    }
}

/// A frame at `off`: width and height (at most 5000), x and y, then rows.
/// A zero width is not survived.
pub open spec fn decode_frame(d: Seq<u8>, off: int) -> Outcome<TextureView> {
    if off < 0 || off + 4 > d.len() {
        Outcome::Rejected
    } else {
        let w = le2(d.subrange(off, off + 2));
        let h = le2(d.subrange(off + 2, off + 4));
        if w > 5000 || h > 5000 || off + 8 > d.len() {
            Outcome::Rejected
        } else {
            let x = twos(le2(d.subrange(off + 4, off + 6)), 0x8000);
            let y = twos(le2(d.subrange(off + 6, off + 8)), 0x8000);
            if w == 0 {
                Outcome::Aborted
            } else {
                match decode_rows(d, off + 8, w, h, 0, Seq::empty()) {
                    None => Outcome::Rejected,
                    Some(px) => Outcome::Value(
                        TextureView {
                            width: w as u16,
                            height: h as u16,
                            pixels: px,
                            position: (x as i16, y as i16),
                        },
                    ),
                }
            }
        }
    }
}

/// Frames `i..nf` of an animation body `d`, whose frame offsets follow the frame count.
/// Each offset must lie before the end of what follows it.
pub open spec fn frames_from(d: Seq<u8>, nf: int, i: int, acc: Seq<TextureView>) -> Outcome<
    Seq<TextureView>,
>
    decreases nf - i,
{
    if i >= nf {
        Outcome::Value(acc)
    } else {
        let t = 4 + 4 * i;
        if t + 4 > d.len() {
            Outcome::Rejected
        } else {
            let off = le4(d.subrange(t, t + 4));
            if off >= d.len() - (t + 4) {
                Outcome::Rejected
            } else {
                match decode_frame(d, off) {
                    Outcome::Value(f) => frames_from(d, nf, i + 1, acc.push(f)),
                    Outcome::Rejected => Outcome::Rejected,
                    Outcome::Aborted => Outcome::Aborted,
                }
            }
        }
    }
}

/// The size of an animation in bytes at position `p` (not counting the size field).
pub open spec fn animation_size(d: Seq<u8>, p: int) -> int {
    le4(d.subrange(p, p + 4))
}

/// An animation: its size, then (within that size) a frame count from 1 to 1000,
/// the frame offsets and the frames.
pub open spec fn spec_animation(d: Seq<u8>, p: int) -> Outcome<Seq<TextureView>> {
    if p < 0 || p + 4 > d.len() {
        Outcome::Rejected
    } else {
        let fs = animation_size(d, p);
        if fs > d.len() - (p + 4) || fs < 4 {
            Outcome::Rejected
        } else {
            let body = d.subrange(p + 4, p + 4 + fs);
            let nf = le4(body.subrange(0, 4));
            if nf == 0 || nf > 1000 {
                Outcome::Rejected
            } else {
                frames_from(body, nf, 0, Seq::empty())
            }
        }
    }
}

/// A repeat command `c` (0x80 to 0xFD) writes the byte after it `c - 0x7C`
/// times (0x80 writes four copies), and the row goes on after that byte.
pub proof fn lemma_row_repeat(d: Seq<u8>, p: int, w: int, pre: Seq<u8>)
    requires
        0 <= p,
        p + 1 < d.len(),
        0x80 <= d[p] <= 0xFD,
        pre.len() + (d[p] - 0x7C) <= w,
    ensures
        decode_row(d, p, w, pre) == decode_row(
            d,
            p + 2,
            w,
            pre + Seq::new((d[p] - 0x7C) as nat, |i: int| d[p + 1]),
        ),
{
    assert(fill(d[p + 1], d[p] - 0x7C) =~= Seq::new((d[p] - 0x7C) as nat, |i: int| d[p + 1]));
}

/// A row made of one repeat command `c` and its byte `v`, then the end of the
/// frame, holds `c - 0x7C` copies of `v` and ends just after the marker; with
/// the end-of-row marker instead, the same pixels and the next row follows.
pub proof fn lemma_row_single_repeat(d: Seq<u8>, p: int, w: int)
    requires
        0 <= p,
        p + 2 < d.len(),
        0x80 <= d[p] <= 0xFD,
        d[p] - 0x7C <= w,
        d[p + 2] == 0xFF || d[p + 2] == 0xFE,
    ensures
        d[p + 2] == 0xFF ==> decode_row(d, p, w, Seq::empty()) == RowEnd::Stop(
            p + 3,
            Seq::new((d[p] - 0x7C) as nat, |i: int| d[p + 1]),
        ),
        d[p + 2] == 0xFE ==> decode_row(d, p, w, Seq::empty()) == RowEnd::Next(
            p + 3,
            Seq::new((d[p] - 0x7C) as nat, |i: int| d[p + 1]),
        ),
{
    lemma_row_repeat(d, p, w, Seq::empty());
    assert(Seq::<u8>::empty() + Seq::new((d[p] - 0x7C) as nat, |i: int| d[p + 1]) =~= Seq::new(
        (d[p] - 0x7C) as nat,
        |i: int| d[p + 1],
    ));
}

/// A literal command `c` (0 to 0x7F) copies the `c + 1` bytes after it.
pub proof fn lemma_row_literal(d: Seq<u8>, p: int, w: int, pre: Seq<u8>)
    requires
        0 <= p,
        p + 1 + d[p] + 1 <= d.len(),
        d[p] <= 0x7F,
        pre.len() + d[p] + 1 <= w,
    ensures
        decode_row(d, p, w, pre) == decode_row(d, p + 2 + d[p], w, pre + d.subrange(p + 1, p + 2 + d[p])),
{
}

/// A row never holds more pixels than the frame is wide.
proof fn lemma_decode_row_len(d: Seq<u8>, p: int, w: int, pre: Seq<u8>)
    requires
        pre.len() <= w,
    ensures
        match decode_row(d, p, w, pre) {
            RowEnd::Next(_, r) => r.len() <= w,
            RowEnd::Stop(_, r) => r.len() <= w,
            RowEnd::Fail => true,
        },
    decreases d.len() - p,
{
    if 0 <= p < d.len() {
        let c = d[p] as int;
        let q = p + 1;
        if c <= 0x7f {
            let n = c + 1;
            if !(pre.len() + n > w || q + n > d.len()) {
                lemma_decode_row_len(d, q + n, w, pre + d.subrange(q, q + n));
            }
        } else if c <= 0xfd {
            let n = c - 0x7c;
            if !(pre.len() + n > w || q >= d.len()) {
                lemma_decode_row_len(d, q + 1, w, pre + fill(d[q], n));
            }
        }
    }
}

/// Decoded rows fill the frame: `h` rows of `w` pixels.
proof fn lemma_decode_rows_len(d: Seq<u8>, p: int, w: int, h: int, r: int, acc: Seq<u8>)
    requires
        0 <= r <= h,
        0 <= w,
        acc.len() == r * w,
    ensures
        decode_rows(d, p, w, h, r, acc) matches Some(px) ==> px.len() == h * w,
    decreases h - r,
{
    if r < h {
        lemma_decode_row_len(d, p, w, Seq::empty());
        assert((r + 1) * w == r * w + w) by (nonlinear_arith);
        assert(r * w + w + (h - r - 1) * w == h * w) by (nonlinear_arith);
        assert((h - r - 1) * w >= 0) by (nonlinear_arith)
            requires
                h - r - 1 >= 0,
                w >= 0,
        ;
        match decode_row(d, p, w, Seq::empty()) {
            RowEnd::Next(q, pre) => {
                lemma_decode_rows_len(d, q, w, h, r + 1, acc + pre + fill(0, w - pre.len()));
            },
            _ => {},
        }
    }
}

/// Whether a frame has the bounds an animation frame has: a width from 1 and
/// a height up to 5000, and one pixel per place.
pub open spec fn frame_ok(f: TextureView) -> bool {
    &&& 1 <= f.width <= 5000
    &&& f.height <= 5000
    &&& f.pixels.len() == f.width * f.height
}

proof fn lemma_frames_from_ok(d: Seq<u8>, nf: int, i: int, acc: Seq<TextureView>)
    requires
        0 <= i <= nf,
        acc.len() == i,
        forall|k: int| 0 <= k < acc.len() ==> frame_ok(#[trigger] acc[k]),
    ensures
        frames_from(d, nf, i, acc) matches Outcome::Value(fs) ==> fs.len() == nf && forall|k: int|
            0 <= k < fs.len() ==> frame_ok(#[trigger] fs[k]),
    decreases nf - i,
{
    if i < nf {
        let t = 4 + 4 * i;
        if t + 4 <= d.len() {
            let off = le4(d.subrange(t, t + 4));
            if off < d.len() - (t + 4) {
                if let Outcome::Value(f) = decode_frame(d, off) {
                    let w = le2(d.subrange(off, off + 2));
                    let h = le2(d.subrange(off + 2, off + 4));
                    lemma_decode_rows_len(d, off + 8, w, h, 0, Seq::empty());
                    assert(0 * w == 0) by (nonlinear_arith);
                    assert(h * w == w * h) by (nonlinear_arith);
                    let acc2 = acc.push(f);
                    assert forall|k: int| 0 <= k < acc2.len() implies frame_ok(#[trigger] acc2[k]) by {
                        if k < acc.len() {
                            assert(acc2[k] == acc[k]);
                        }
                    }
                    lemma_frames_from_ok(d, nf, i + 1, acc2);
                }
            }
        }
    }
}

/// A decoded animation has from 1 to 1000 frames, each with a width from 1
/// and a height up to 5000 and exactly width times height pixels.
pub proof fn lemma_animation_bounds(d: Seq<u8>, p: int)
    ensures
        spec_animation(d, p) matches Outcome::Value(fs) ==> 1 <= fs.len() <= 1000 && forall|k: int|
            0 <= k < fs.len() ==> frame_ok(#[trigger] fs[k]),
{
    if 0 <= p && p + 4 <= d.len() {
        let fs = animation_size(d, p);
        if fs <= d.len() - (p + 4) && fs >= 4 {
            let body = d.subrange(p + 4, p + 4 + fs);
            let nf = le4(body.subrange(0, 4));
            if nf != 0 && nf <= 1000 {
                lemma_frames_from_ok(body, nf, 0, Seq::empty());
            }
        }
    }
}

/// Whether the textures of `v` are `s`.
pub open spec fn textures_are(v: Seq<Texture>, s: Seq<TextureView>) -> bool {
    v.len() == s.len() && forall|i: int| 0 <= i < v.len() ==> #[trigger] v[i]@ == s[i]
}

/// Reads the commands of one row; `true` in the result marks the end of the frame.
fn read_row(fr: &mut Reader, w: usize) -> (res: Option<(Vec<u8>, bool)>)
    requires
        w <= 5000,
    ensures
        final(fr).data() == old(fr).data(),
        res matches Some((v, _)) ==> v@.len() <= w,
        match decode_row(old(fr).data(), old(fr).pos(), w as int, Seq::empty()) {
            RowEnd::Fail => res is None,
            RowEnd::Next(q, pre) => res is Some && res.unwrap().0@ == pre && !res.unwrap().1
                && final(fr).pos() == q,
            RowEnd::Stop(q, pre) => res is Some && res.unwrap().0@ == pre && res.unwrap().1
                && final(fr).pos() == q,
        },
{
    let ghost d = fr.data();
    let ghost p0 = fr.pos();
    let mut pre: Vec<u8> = Vec::new();
    let stop;
    loop
        invariant_except_break
            fr.data() == d,
            d == old(fr).data(),
            p0 == old(fr).pos(),
            w <= 5000,
            pre@.len() <= w,
            decode_row(d, fr.pos(), w as int, pre@) == decode_row(d, p0, w as int, Seq::empty()),
        ensures
            fr.data() == d,
            pre@.len() <= w,
            decode_row(d, p0, w as int, Seq::empty()) == (if stop {
                RowEnd::Stop(fr.pos(), pre@)
            } else {
                RowEnd::Next(fr.pos(), pre@)
            }),
        decreases d.len() - fr.pos(),
    {
        let count = match fr.try_u8() {
            Some(c) => c,
            None => return None,
        };
        if count <= 0x7f {
            let n = count as usize + 1;
            if pre.len() + n > w {
                return None;
            }
            let run = match fr.try_slice(n) {
                Some(s) => s,
                None => return None,
            };
            extend_bytes(&mut pre, run);
        } else if count <= 0xfd {
            let n = count as usize - 0x7c;
            if pre.len() + n > w {
                return None;
            }
            let value = match fr.try_u8() {
                Some(v) => v,
                None => return None,
            };
            extend_fill(&mut pre, n, value);
        } else if count == 0xfe {
            stop = false;
            break ;
        } else {
            stop = true;
            break ;
        }
    }
    Some((pre, stop))
}

/// Reads one frame at the reader's position.
fn read_frame(fr: &mut Reader) -> (res: Outcome<Texture>)
    ensures
        final(fr).data() == old(fr).data(),
        match decode_frame(old(fr).data(), old(fr).pos()) {
            Outcome::Value(t) => res matches Outcome::Value(x) && x@ == t,
            Outcome::Rejected => res is Rejected,
            Outcome::Aborted => res is Aborted,
        },
{
    let ghost d = fr.data();
    let ghost off = fr.pos();
    let width = match fr.try_u16() {
        Some(v) => v,
        None => return Outcome::Rejected,
    };
    let height = match fr.try_u16() {
        Some(v) => v,
        None => return Outcome::Rejected,
    };
    if width > 5000 || height > 5000 {
        return Outcome::Rejected;
    }
    let x = match fr.try_i16() {
        Some(v) => v,
        None => return Outcome::Rejected,
    };
    let y = match fr.try_i16() {
        Some(v) => v,
        None => return Outcome::Rejected,
    };
    if width == 0 {
        return Outcome::Aborted;
    }
    let w = width as usize;
    let h = height as usize;
    let mut pixels: Vec<u8> = Vec::new();
    let mut r: usize = 0;
    while r < h
        invariant_except_break
            fr.data() == d,
            d == old(fr).data(),
            off == old(fr).pos(),
            0 <= off,
            off + 8 <= d.len(),
            w == le2(d.subrange(off, off + 2)),
            h == le2(d.subrange(off + 2, off + 4)),
            x == twos(le2(d.subrange(off + 4, off + 6)), 0x8000),
            y == twos(le2(d.subrange(off + 6, off + 8)), 0x8000),
            0 <= r <= h <= 5000,
            0 < w <= 5000,
            pixels@.len() == r * w,
            decode_rows(d, fr.pos(), w as int, h as int, r as int, pixels@) == decode_rows(
                d,
                off + 8,
                w as int,
                h as int,
                0,
                Seq::empty(),
            ),
        ensures
            fr.data() == d,
            decode_rows(d, off + 8, w as int, h as int, 0, Seq::empty()) == Some(pixels@),
            pixels@.len() == h * w,
        decreases h - r,
    {
        let row = read_row(fr, w);
        let (pre, stop) = match row {
            Some(v) => v,
            None => return Outcome::Rejected,
        };
        let ghost old_pixels = pixels@;
        extend_bytes(&mut pixels, pre.as_slice());
        extend_fill(&mut pixels, w - pre.len(), 0);
        assert(r * w + w == (r + 1) * w) by (nonlinear_arith);
        r = r + 1;
        if stop {
            assert((h - r) * w <= 5000 * 5000) by (nonlinear_arith)
                requires
                    r <= h <= 5000,
                    w <= 5000,
            ;
            assert(r * w + (h - r) * w == h * w) by (nonlinear_arith);
            extend_fill(&mut pixels, (h - r) * w, 0);
            break ;
        }
    }
    assert(w * h == pixels@.len()) by (nonlinear_arith)
        requires
            pixels@.len() == h * w,
    ;
    let mut t = Texture::new(width, height, pixels);
    t.position = (x, y);
    Outcome::Value(t)
}

/// Decodes a run-length encoded sprite animation, telling a rejected input
/// from one that a parser does not survive; on success the reader moves past it.
pub fn animation_outcome(reader: &mut Reader) -> (res: Outcome<Vec<Texture>>)
    ensures
        final(reader).data() == old(reader).data(),
        match spec_animation(old(reader).data(), old(reader).pos()) {
            Outcome::Value(frames) => res matches Outcome::Value(v) && textures_are(v@, frames)
                && final(reader).pos() == old(reader).pos() + 4 + animation_size(
                old(reader).data(),
                old(reader).pos(),
            ),
            Outcome::Rejected => res is Rejected && final(reader).pos() == old(reader).pos(),
            Outcome::Aborted => res is Aborted && final(reader).pos() == old(reader).pos(),
        },
{
    let ghost d = reader.data();
    let ghost p = reader.pos();
    let mut data = *reader;
    let filesize = match data.try_u32() {
        Some(n) => n as usize,
        None => return Outcome::Rejected,
    };
    if filesize > data.remaining_len() {
        return Outcome::Rejected;
    }
    data.rebase_length(filesize);
    let ghost body = data.data();
    assert(body == d.subrange(p + 4, p + 4 + filesize));
    let num_frames = match data.try_u32() {
        Some(n) => n as usize,
        None => return Outcome::Rejected,
    };
    if num_frames == 0 || num_frames > 1000 {
        return Outcome::Rejected;
    }
    let mut results: Vec<Texture> = Vec::new();
    let mut i: usize = 0;
    proof {
        assert(Seq::new(0, |j: int| results@[j]@) =~= Seq::<TextureView>::empty());
    }
    while i < num_frames
        invariant
            data.data() == body,
            body == d.subrange(p + 4, p + 4 + filesize),
            d == old(reader).data(),
            p == old(reader).pos(),
            *reader == *old(reader),
            filesize == animation_size(d, p),
            p + 4 + filesize <= d.len(),
            0 <= i <= num_frames <= 1000,
            num_frames == le4(body.subrange(0, 4)),
            data.pos() == 4 + 4 * i,
            results@.len() == i,
            forall|j: int| 0 <= j < i ==> (#[trigger] results@[j])@ == results@[j]@,
            ({
                let acc = Seq::new(i as nat, |j: int| results@[j]@);
                frames_from(body, num_frames as int, i as int, acc) == frames_from(
                    body,
                    num_frames as int,
                    0,
                    Seq::empty(),
                )
            }),
        decreases num_frames - i,
    {
        let ghost acc = Seq::new(i as nat, |j: int| results@[j]@);
        let offset = match data.try_u32() {
            Some(n) => n as usize,
            None => return Outcome::Rejected,
        };
        if offset >= data.remaining_len() {
            return Outcome::Rejected;
        }
        let mut fr = data.clone_at(offset);
        let frame = match read_frame(&mut fr) {
            Outcome::Value(f) => f,
            Outcome::Rejected => return Outcome::Rejected,
            Outcome::Aborted => return Outcome::Aborted,
        };
        let ghost fv = frame@;
        results.push(frame);
        i = i + 1;
        proof {
            assert(Seq::new(i as nat, |j: int| results@[j]@) =~= acc.push(fv));
        }
    }
    proof {
        assert(Seq::new(i as nat, |j: int| results@[j]@) =~= Seq::new(
            num_frames as nat,
            |j: int| results@[j]@,
        ));
    }
    reader.skip(filesize + 4);
    Outcome::Value(results)
}

/// Parses a run-length encoded sprite animation; the reader moves past it.
pub fn try_parse_animation(reader: &mut Reader) -> (res: Option<Vec<Texture>>)
    requires
        !(spec_animation(old(reader).data(), old(reader).pos()) is Aborted),
    ensures
        final(reader).data() == old(reader).data(),
        match spec_animation(old(reader).data(), old(reader).pos()) {
            Outcome::Value(frames) => res is Some && textures_are(res.unwrap()@, frames)
                && final(reader).pos() == old(reader).pos() + 4 + animation_size(
                old(reader).data(),
                old(reader).pos(),
            ),
            _ => res is None && final(reader).pos() == old(reader).pos(),
        },
        res matches Some(fs) ==> 1 <= fs@.len() <= 1000 && forall|k: int|
            0 <= k < fs@.len() ==> frame_ok(#[trigger] fs@[k]@),
{
    proof {
        lemma_animation_bounds(old(reader).data(), old(reader).pos());
    }
    match animation_outcome(reader) {
        Outcome::Value(v) => Some(v),
        _ => None,
    }
}

/// Parses a sprite animation that must be well formed.
pub fn parse_animation(reader: &mut Reader) -> (res: Vec<Texture>)
    requires
        spec_animation(old(reader).data(), old(reader).pos()) is Value,
    ensures
        final(reader).data() == old(reader).data(),
        textures_are(res@, spec_animation(old(reader).data(), old(reader).pos())->Value_0),
        final(reader).pos() == old(reader).pos() + 4 + animation_size(
            old(reader).data(),
            old(reader).pos(),
        ),
        1 <= res@.len() <= 1000,
        forall|k: int| 0 <= k < res@.len() ==> frame_ok(#[trigger] res@[k]@),
{
    let r = try_parse_animation(reader);
    r.unwrap()
}

// ---------------------------------------------------------------------------
// overlay animations: a base image and per-frame patches

/// Applies `n` chunks to `pix`: the chunk list is at `m` in `d` (a size and a
/// gap, in words of four pixels, one byte each), the chunks' pixels are read
/// in turn from `s`, and the first chunk goes to pixel `dest`.
pub open spec fn apply_chunks(d: Seq<u8>, m: int, s: int, dest: int, n: int, pix: Seq<u8>) -> Option<Seq<u8>>
    decreases n,
{
    if n <= 0 {
        Some(pix)
    } else if m < 0 || m + 2 > d.len() {
        None
    } else {
        let size = d[m] * 4;
        let gap = d[m + 1] * 4;
        if dest + size > pix.len() || s < 0 || s + size > d.len() {
            None
        } else {
            apply_chunks(
                d,
                m + 2,
                s + size,
                dest + size + gap,
                n - 1,
                pix.subrange(0, dest) + d.subrange(s, s + size) + pix.subrange(dest + size, pix.len() as int),
            )
        }
    }
}

/// A chunk of a patch: its size byte and gap byte count words of four
/// pixels; its pixels replace those at the destination, the other pixels stay,
/// and the next chunk goes to the pixel after the gap.
pub proof fn lemma_chunk(d: Seq<u8>, m: int, s: int, dest: int, n: int, pix: Seq<u8>)
    requires
        n > 0,
        0 <= m,
        m + 2 <= d.len(),
        0 <= dest,
        dest + 4 * d[m] <= pix.len(),
        0 <= s,
        s + 4 * d[m] <= d.len(),
    ensures
        ({
            let size = 4 * d[m];
            let patched = Seq::new(
                pix.len(),
                |i: int| if dest <= i < dest + size { d[s + (i - dest)] } else { pix[i] },
            );
            apply_chunks(d, m, s, dest, n, pix) == apply_chunks(d, m + 2, s + size, dest + size + 4 * d[m + 1], n - 1, patched)
        }),
{
    let size = 4 * d[m];
    let patched = Seq::new(
        pix.len(),
        |i: int| if dest <= i < dest + size { d[s + (i - dest)] } else { pix[i] },
    );
    assert(pix.subrange(0, dest) + d.subrange(s, s + size) + pix.subrange(dest + size, pix.len() as int) =~= patched);
}

/// The next frame: the patch list at `meta` starts with the first destination
/// (in words) and the number of chunks; the pixels are at `pixels`.
pub open spec fn next_frame(d: Seq<u8>, meta: int, pixels: int, prev: Seq<u8>) -> Option<Seq<u8>> {
    match (value_at::<u16>(d, meta), value_at::<u16>(d, meta + 2)) {
        (Some((dest, _)), Some((n, _))) => apply_chunks(d, meta + 4, pixels, dest * 4, n as int, prev),
        _ => None,
    }
}

/// Entry `i` of a table of words at 0 (0 past the end).
pub open spec fn word_at(d: Seq<u8>, i: int) -> int {
    match value_at::<u32>(d, 4 * i) {
        Some((v, _)) => v as int,
        None => 0,
    }
}

/// Frames `k+1..=n`, each patching the one before, starting from `prev`
/// (frame `k`); the table at 0 holds the `n` patch-list offsets, then the `n`
/// pixel offsets.
pub open spec fn overlay_frames_from(d: Seq<u8>, n: int, k: int, prev: Seq<u8>) -> Option<Seq<Seq<u8>>>
    decreases n - k,
{
    if k >= n {
        Some(Seq::empty())
    } else {
        match next_frame(d, word_at(d, k), word_at(d, n + k), prev) {
            Some(f) => match overlay_frames_from(d, n, k + 1, f) {
                Some(rest) => Some(seq![f] + rest),
                None => None,
            },
            None => None,
        }
    }
}

/// An overlay animation at `p`: a frame count, a width and height, the base
/// image, a word that the game changes at run time, then (with offsets from
/// there) the patch table and the patches. Gives the pixels of each frame,
/// the base first, and where the header ends.
pub open spec fn spec_overlay_frames(d: Seq<u8>, p: int) -> Option<(u16, u16, Seq<Seq<u8>>, int)> {
    match (value_at::<u32>(d, p), value_at::<u16>(d, p + 4), value_at::<u16>(d, p + 6)) {
        (Some((n, _)), Some((w, _)), Some((h, _))) => {
            let b = p + 8 + w * h;
            let r = b + 4;
            if r > d.len() || r + 8 * n > d.len() {
                None
            } else {
                let base = d.subrange(p + 8, b);
                match overlay_frames_from(d.subrange(r, d.len() as int), n as int, 0, base) {
                    Some(rest) => Some((w, h, seq![base] + rest, r)),
                    None => None,
                }
            }
        },
        _ => None,
    }
}

/// The frames of an overlay animation as textures; where the last frame is
/// the base image again, it is dropped and the animation loops (`true`).
pub open spec fn spec_overlay_animation(d: Seq<u8>, p: int) -> Option<(Seq<TextureView>, bool, int)> {
    match spec_overlay_frames(d, p) {
        Some((w, h, fs, r)) => {
            let ts = fs.map_values(|f: Seq<u8>| plain_texture(w as int, h as int, f));
            if fs[0] == fs.last() {
                Some((ts.drop_last(), true, r))
            } else {
                Some((ts, false, r))
            }
        },
        None => None,
    }
}

/// Applies the chunks of one patch to `pix`.
fn apply_chunks_exec(d: &Reader, m: usize, s: usize, dest: usize, n: u16, pix: &mut Vec<u8>) -> (ok: bool)
    ensures
        match apply_chunks(d.data(), m as int, s as int, dest as int, n as int, old(pix)@) {
            Some(r) => ok && final(pix)@ == r,
            None => !ok,
        },
{
    let ghost dd = d.data();
    let ghost goal = apply_chunks(dd, m as int, s as int, dest as int, n as int, pix@);
    let mut meta = d.clone_at(m);
    let mut src = d.clone_at(s);
    let mut at = dest;
    let mut i: u16 = 0;
    while i < n
        invariant
            i <= n,
            meta.data() == dd,
            src.data() == dd,
            d.data() == dd,
            goal == apply_chunks(dd, m as int, s as int, dest as int, n as int, old(pix)@),
            goal == apply_chunks(dd, meta.pos(), src.pos(), at as int, n - i, pix@),
        decreases n - i,
    {
        let ghost (m0, s0) = (meta.pos(), src.pos());
        let ghost pix0 = pix@;
        proof {
            meta.lemma_bounds();
            src.lemma_bounds();
        }
        let size_words = match meta.try_u8() {
            Some(v) => v,
            None => return false,
        };
        let gap_words = match meta.try_u8() {
            Some(v) => v,
            None => return false,
        };
        let size = size_words as usize * 4;
        let gap = gap_words as usize * 4;
        if size > pix.len() || at > pix.len() - size {
            return false;
        }
        let chunk = match src.try_slice(size) {
            Some(c) => c,
            None => return false,
        };
        let mut j: usize = 0;
        while j < size
            invariant
                0 <= j <= size,
                at + size <= pix.len(),
                chunk@.len() == size,
                pix@.len() == pix0.len(),
                forall|q: int| 0 <= q < at || at + size <= q < pix0.len() ==> pix@[q] == pix0[q],
                forall|q: int| at <= q < at + j ==> pix@[q] == chunk@[q - at],
            decreases size - j,
        {
            pix.set(at + j, chunk[j]);
            j = j + 1;
        }
        proof {
            assert(pix@ =~= pix0.subrange(0, at as int) + dd.subrange(s0, s0 + size) + pix0.subrange(
                at + size,
                pix0.len() as int,
            ));
        }
        if usize::MAX - at - size < gap {
            proof {
                lemma_apply_chunks_past_end(dd, meta.pos(), src.pos(), at + size + gap, n - i - 1, pix@);
            }
            return i + 1 == n;
        }
        at = at + size + gap;
        i = i + 1;
    }
    true
}

/// Patching keeps the size of the frame.
proof fn lemma_apply_chunks_len(d: Seq<u8>, m: int, s: int, dest: int, n: int, pix: Seq<u8>)
    requires
        0 <= dest,
    ensures
        apply_chunks(d, m, s, dest, n, pix) matches Some(r) ==> r.len() == pix.len(),
    decreases n,
{
    if n > 0 && 0 <= m && m + 2 <= d.len() {
        let size = d[m] * 4;
        let gap = d[m + 1] * 4;
        if !(dest + size > pix.len() || s < 0 || s + size > d.len()) {
            lemma_apply_chunks_len(
                d,
                m + 2,
                s + size,
                dest + size + gap,
                n - 1,
                pix.subrange(0, dest) + d.subrange(s, s + size) + pix.subrange(dest + size, pix.len() as int),
            );
        }
    }
}

/// A patch that starts past the end of the frame fails unless it is empty.
proof fn lemma_apply_chunks_past_end(d: Seq<u8>, m: int, s: int, dest: int, n: int, pix: Seq<u8>)
    requires
        dest > pix.len(),
    ensures
        n > 0 ==> apply_chunks(d, m, s, dest, n, pix) is None,
{
}

/// Decodes an overlay animation; `None` where it is not laid out as described.
#[verifier::rlimit(40)]
pub fn try_parse_overlay_animation(reader: &mut Reader) -> (res: Option<(Vec<Texture>, bool)>)
    ensures
        final(reader).data() == old(reader).data(),
        match spec_overlay_animation(old(reader).data(), old(reader).pos()) {
            Some((ts, looped, r)) => res matches Some((v, l)) && textures_view(v@) == ts && l == looped
                && final(reader).pos() == r,
            None => res is None,
        },
{
    let ghost d = reader.data();
    let ghost p = reader.pos();
    let mut r = reader.clone_at(reader.position());
    let n = read_value::<u32>(&mut r)?;
    let width = read_value::<u16>(&mut r)?;
    let height = read_value::<u16>(&mut r)?;
    let num_pixels = area(width, height);
    let base = r.try_slice(num_pixels)?;
    let _current_frame = read_value::<u32>(&mut r)?;
    let data = r.rebased();
    if (n as u64) * 8 > data.len() as u64 {
        return None;
    }
    let ghost d2 = data.data();
    let ghost w = width as int;
    let ghost h = height as int;
    let ghost tail = overlay_frames_from(d2, n as int, 0, base@);
    let ghost rp = r.pos();
    proof {
        data.lemma_bounds();
        assert(d2 == d.subrange(rp, d.len() as int));
        assert(base@ == d.subrange(p + 8, p + 8 + width * height));
        assert(spec_overlay_frames(d, p) == match tail {
            Some(rest) => Some((width, height, seq![base@] + rest, rp)),
            None => None,
        });
    }
    let mut prev: Vec<u8> = Vec::new();
    extend_bytes(&mut prev, base);
    assert(prev@ =~= base@);
    let mut frames: Vec<Texture> = Vec::new();
    let mut first: Vec<u8> = Vec::new();
    extend_bytes(&mut first, base);
    frames.push(Texture::new(width, height, first));
    let ghost mut done: Seq<Seq<u8>> = Seq::empty();
    let mut k: u32 = 0;
    while k < n
        invariant
            k <= n,
            n * 8 <= d2.len(),
            data.data() == d2,
            prev@.len() == w * h,
            w == width,
            h == height,
            done.len() == k,
            prev@ == (seq![base@] + done).last(),
            textures_view(frames@) == (seq![base@] + done).map_values(|f: Seq<u8>| plain_texture(w, h, f)),
            match overlay_frames_from(d2, n as int, k as int, prev@) {
                Some(rest) => tail == Some(done + rest),
                None => tail is None,
            },
            spec_overlay_frames(d, p) == match tail {
                Some(rest) => Some((width, height, seq![base@] + rest, rp)),
                None => None,
            },
            d2.len() <= usize::MAX,
            d == old(reader).data(),
            p == old(reader).pos(),
        decreases n - k,
    {
        let meta = read_value::<u32>(&mut data.clone_at(4 * (k as usize))).unwrap();
        let pixels = read_value::<u32>(&mut data.clone_at(4 * (n as usize + k as usize))).unwrap();
        proof {
            assert(word_at(d2, k as int) == meta);
            assert(word_at(d2, n + k) == pixels);
        }
        let mut head = data.clone_at(meta as usize);
        let ghost f = next_frame(d2, meta as int, pixels as int, prev@);
        let dest = match read_value::<u16>(&mut head) {
            Some(v) => v,
            None => {
                assert(next_frame(d2, meta as int, pixels as int, prev@) is None);
                assert(overlay_frames_from(d2, n as int, k as int, prev@) is None);
                assert(tail is None);
                return None;
            },
        };
        let count = match read_value::<u16>(&mut head) {
            Some(v) => v,
            None => {
                assert(next_frame(d2, meta as int, pixels as int, prev@) is None);
                assert(overlay_frames_from(d2, n as int, k as int, prev@) is None);
                assert(tail is None);
                return None;
            },
        };
        let mut next: Vec<u8> = Vec::new();
        extend_bytes(&mut next, prev.as_slice());
        assert(next@ =~= prev@);
        if !apply_chunks_exec(&data, head.position(), pixels as usize, dest as usize * 4, count, &mut next) {
            assert(overlay_frames_from(d2, n as int, k as int, prev@) is None);
            return None;
        }
        proof {
            lemma_apply_chunks_len(d2, meta + 4, pixels as int, dest * 4, count as int, prev@);
        }
        let mut copy: Vec<u8> = Vec::new();
        extend_bytes(&mut copy, next.as_slice());
        assert(copy@ =~= next@);
        proof {
            assert(f == Some(next@));
            assert(overlay_frames_from(d2, n as int, k as int, prev@) == match overlay_frames_from(
                d2,
                n as int,
                k + 1,
                next@,
            ) {
                Some(rest) => Some(seq![next@] + rest),
                None => None,
            });
            if let Some(rest) = overlay_frames_from(d2, n as int, k + 1, next@) {
                assert(done + (seq![next@] + rest) =~= done.push(next@) + rest);
            }
            assert(seq![base@] + done.push(next@) =~= (seq![base@] + done).push(next@));
            done = done.push(next@);
        }
        let ghost tv0 = textures_view(frames@);
        frames.push(Texture::new(width, height, copy));
        proof {
            assert(textures_view(frames@) =~= tv0.push(plain_texture(w, h, next@)));
            assert((seq![base@] + done).map_values(|f: Seq<u8>| plain_texture(w, h, f)) =~= (seq![base@]
                + done.drop_last()).map_values(|f: Seq<u8>| plain_texture(w, h, f)).push(plain_texture(w, h, next@)));
        }
        prev = next;
        k = k + 1;
    }
    let ghost fs = seq![base@] + done;
    proof {
        assert(done + Seq::<Seq<u8>>::empty() =~= done);
        assert(textures_view(frames@)[0] == plain_texture(w, h, fs[0]));
        assert(frames@[0]@ == textures_view(frames@)[0]);
    }
    let last_same = crate::text::bytes_eq(frames[0].pixels.as_slice(), prev.as_slice());
    let ghost all = frames@;
    let mut frames = frames;
    if last_same {
        frames.pop();
        assert(textures_view(frames@) =~= textures_view(all).drop_last());
    }
    reader.set_position(r.position());
    Some((frames, last_same))
}

/// Decodes an overlay animation that is laid out as described.
pub fn parse_overlay_animation(reader: &mut Reader) -> (res: (Vec<Texture>, bool))
    requires
        spec_overlay_animation(old(reader).data(), old(reader).pos()) is Some,
    ensures
        final(reader).data() == old(reader).data(),
        ({
            let (ts, looped, r) = spec_overlay_animation(old(reader).data(), old(reader).pos()).unwrap();
            textures_view(res.0@) == ts && res.1 == looped && final(reader).pos() == r
        }),
{
    try_parse_overlay_animation(reader).unwrap()
}

} // verus!
