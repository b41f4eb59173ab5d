//! FTI files: fonts, the system palette, a cursor, a sound and UI strings.
//! This module holds the decoders of the item types found in them.

use vstd::prelude::*;
use vstd::string::StringSliceAdditionalSpecFns;

use crate::data_formats::cmi_operands::{fixed_text_at, read_fixed_text, read_value, value_at};
use crate::data_formats::image_formats::{animation_outcome, animation_size, spec_animation, Outcome};
use crate::data_formats::texture::{Texture, TextureView};
use crate::data_formats::wav::{spec_wav, Wav, WavView};

use crate::reader::{twos, le4, Reader};
use crate::text::{lemma_nul_from_bounds, nul_from, nul_index, push_char};

verus! {

broadcast use crate::reader::lemma_reader_bounds;

/// One glyph of a font.
pub struct FontLetter<Pixels> {
    pub code: u8,
    pub width: u8,
    pub height: u8,
    pub pixels: Pixels,
}

pub struct LetterView {
    pub code: u8,
    pub width: u8,
    pub height: u8,
    pub pixels: Seq<u8>,
}

/// The view of a glyph whose pixels are borrowed.
pub open spec fn glyph_view(l: FontLetter<&[u8]>) -> LetterView {
    LetterView { code: l.code, width: l.width, height: l.height, pixels: l.pixels@ }
}

/// The view of a glyph whose pixels are owned.
pub open spec fn owned_glyph_view(l: FontLetter<Vec<u8>>) -> LetterView {
    LetterView { code: l.code, width: l.width, height: l.height, pixels: l.pixels@ }
}

// ---------------------------------------------------------------------------
// strings

/// Bytes a string item may contain before its NUL terminator.
pub open spec fn esc_ok(c: u8) -> bool {
    c == 10 || c == 9 || c == 13 || (0x20 <= c && c <= 0x7e) || c == 149 || c == 150 || c == 230
}

/// How a byte of a string item reads: line breaks and tabs escaped, three
/// code-page letters mapped to their Unicode characters.
pub open spec fn esc_chars(c: u8) -> Seq<char> {
    if c == 10 {
        seq!['\\', 'n']
    } else if c == 9 {
        seq!['\\', 't']
    } else if c == 13 {
        seq!['\\', 'r']
    } else if c == 149 {
        seq!['\u{119}']
    } else if c == 150 {
        seq!['\u{144}']
    } else if c == 230 {
        seq!['\u{107}']
    } else {
        seq![c as char]
    }
}

/// The text of a sequence of string bytes.
pub open spec fn esc_text(b: Seq<u8>) -> Seq<char>
    decreases b.len(),
{
    if b.len() == 0 {
        Seq::empty()
    } else {
        esc_text(b.drop_last()) + esc_chars(b.last())
    }
}

/// Whether the first `k` bytes are plain: printable, with every backslash
/// followed by `n`, `t` or `c`.
pub open spec fn simple_text(b: Seq<u8>, k: int) -> bool {
    forall|i: int|
        0 <= i < k ==> 0x20 <= #[trigger] b[i] <= 0x7e && (b[i] == 0x5c ==> (b[i + 1] == 0x6e
            || b[i + 1] == 0x74 || b[i + 1] == 0x63))
}

/// The bytes from position `p` to the end.
pub open spec fn rest(d: Seq<u8>, p: int) -> Seq<u8> {
    d.subrange(p, d.len() as int)
}

/// A string item at `p` can be read: it has a NUL terminator and only known bytes before it.
pub open spec fn string_ok(d: Seq<u8>, p: int) -> bool {
    0 <= p <= d.len() && nul_index(rest(d, p)) < rest(d, p).len() && forall|i: int|
        0 <= i < nul_index(rest(d, p)) ==> esc_ok(#[trigger] rest(d, p)[i])
}

/// The text of the string item at `p`.
pub open spec fn string_value(d: Seq<u8>, p: int) -> Seq<char> {
    esc_text(rest(d, p).subrange(0, nul_index(rest(d, p))))
}

/// Where reading the string item at `p` stops: at the NUL for plain text,
/// after it otherwise.
pub open spec fn string_end(d: Seq<u8>, p: int) -> int {
    let k = nul_index(rest(d, p));
    if simple_text(rest(d, p), k) {
        p + k
    } else {
        p + k + 1
    }
}

/// Reads a NUL-terminated string item.
pub fn parse_string(reader: &mut Reader) -> (s: String)
    requires
        string_ok(old(reader).data(), old(reader).pos()),
    ensures
        final(reader).data() == old(reader).data(),
        s@ == string_value(old(reader).data(), old(reader).pos()),
        final(reader).pos() == string_end(old(reader).data(), old(reader).pos()),
{
    let ghost d = reader.data();
    let ghost p = reader.pos();
    let buf = reader.remaining_buf();
    let ghost b = buf@;
    proof {
        lemma_nul_from_bounds(b, 0);
    }
    let mut k: usize = 0;
    while buf[k] != 0
        invariant
            0 <= k <= nul_index(b) < b.len(),
            buf@ == b,
            nul_from(b, k as int) == nul_index(b),
        decreases nul_index(b) - k,
    {
        proof {
            lemma_nul_from_bounds(b, k + 1);
        }
        k = k + 1;
    }
    let mut s = String::new();
    let mut simple = true;
    let mut i: usize = 0;
    while i < k
        invariant
            0 <= i <= k == nul_index(b) < b.len(),
            buf@ == b,
            b == rest(d, p),
            string_ok(d, p),
            s@ == esc_text(b.subrange(0, i as int)),
            simple == simple_text(b, i as int),
        decreases k - i,
    {
        let c = buf[i];
        assert(esc_ok(b[i as int]));
        if c == 10 {
            push_char(&mut s, '\\');
            push_char(&mut s, 'n');
        } else if c == 9 {
            push_char(&mut s, '\\');
            push_char(&mut s, 't');
        } else if c == 13 {
            push_char(&mut s, '\\');
            push_char(&mut s, 'r');
        } else if c == 149 {
            push_char(&mut s, '\u{119}');
        } else if c == 150 {
            push_char(&mut s, '\u{144}');
        } else if c == 230 {
            push_char(&mut s, '\u{107}');
        } else {
            push_char(&mut s, c as char);
        }
        let plain = 0x20 <= c && c <= 0x7e && (c != 0x5c || buf[i + 1] == 0x6e || buf[i + 1]
            == 0x74 || buf[i + 1] == 0x63);
        proof {
            let bi = b.subrange(0, i + 1);
            assert(bi.drop_last() =~= b.subrange(0, i as int));
            assert(bi.last() == c);
            if !plain {
                assert(!simple_text(b, i + 1));
            }
        }
        simple = simple && plain;
        i = i + 1;
    }
    if simple {
        let _ = reader.slice(k);
    } else {
        let _ = reader.slice(k + 1);
    }
    s
}

// ---------------------------------------------------------------------------
// proportional fonts

/// The offset of the glyph for code `c`, from a table of 256 offsets at `start`.
pub open spec fn letter_offset(d: Seq<u8>, start: int, c: int) -> int {
    le4(d.subrange(start + 4 * c, start + 4 * c + 4))
}

/// The height of the glyph at `a`: the sum of two signed bytes plus one, as a byte.
pub open spec fn glyph_height(d: Seq<u8>, a: int) -> int {
    let v = twos(d[a] as int, 0x80) + twos(d[a + 1] as int, 0x80) + 1;
    if v < 0 {
        v + 256
    } else {
        v
    }
}

/// Where the pixels of the glyph at `a` end.
pub open spec fn glyph_end(d: Seq<u8>, a: int) -> int {
    a + 3 + d[a + 2] * glyph_height(d, a)
}

/// The glyph for code `c` can be read: no offset, or a header whose height
/// sum fits a signed byte and pixels within the buffer.
pub open spec fn letter_ok(d: Seq<u8>, start: int, c: int) -> bool {
    let off = letter_offset(d, start, c);
    off == 0 || ({
        let a = start + off;
        &&& a + 3 <= d.len()
        &&& -128 <= twos(d[a] as int, 0x80) + twos(d[a + 1] as int, 0x80) <= 126
        &&& glyph_end(d, a) <= d.len()
    })
}

/// The glyph at `a` for code `c`.
pub open spec fn glyph_at(d: Seq<u8>, a: int, c: int) -> LetterView {
    LetterView {
        code: c as u8,
        width: d[a + 2],
        height: glyph_height(d, a) as u8,
        pixels: d.subrange(a + 3, glyph_end(d, a)),
    }
}

/// The glyphs for the codes below `n` that have an offset, in code order.
pub open spec fn font_letters_upto(d: Seq<u8>, start: int, n: int) -> Seq<LetterView>
    decreases n,
{
    if n <= 0 {
        Seq::empty()
    } else {
        let prev = font_letters_upto(d, start, n - 1);
        let off = letter_offset(d, start, n - 1);
        if off == 0 {
            prev
        } else {
            prev.push(glyph_at(d, start + off, n - 1))
        }
    }
}

/// The furthest glyph end among the codes below `n` (zero when none has an offset).
pub open spec fn font_end_upto(d: Seq<u8>, start: int, n: int) -> int
    decreases n,
{
    if n <= 0 {
        0
    } else {
        let prev = font_end_upto(d, start, n - 1);
        let off = letter_offset(d, start, n - 1);
        if off == 0 || glyph_end(d, start + off) <= prev {
            prev
        } else {
            glyph_end(d, start + off)
        }
    }
}

/// A font at `start` can be read.
pub open spec fn font_ok(d: Seq<u8>, start: int) -> bool {
    0 <= start && start + 1024 <= d.len() && forall|c: int|
        0 <= c < 256 ==> #[trigger] letter_ok(d, start, c)
}

/// Each glyph of a font is that of its code: the code has an offset, the
/// glyph's width is the byte two after that offset, its height is the sum of
/// the two bytes before plus one, modulo 256 (the two bytes being signed, as a
/// byte), and its pixels are the width times height bytes after the header.
/// The codes come in increasing order.
pub proof fn lemma_font_letter_fields(d: Seq<u8>, start: int, n: int)
    requires
        0 <= n <= 256,
        font_ok(d, start),
    ensures
        forall|i: int|
            0 <= i < font_letters_upto(d, start, n).len() ==> {
                let l = #[trigger] font_letters_upto(d, start, n)[i];
                let a = start + letter_offset(d, start, l.code as int);
                &&& l.code < n
                &&& letter_offset(d, start, l.code as int) != 0
                &&& l.width == d[a + 2]
                &&& l.height as int == (d[a] + d[a + 1] + 1) % 256
                &&& l.pixels == d.subrange(a + 3, a + 3 + (l.width as int) * (l.height as int))
            },
        forall|i: int, j: int|
            0 <= i < j < font_letters_upto(d, start, n).len() ==> font_letters_upto(d, start, n)[i].code
                < font_letters_upto(d, start, n)[j].code,
    decreases n,
{
    if n > 0 {
        lemma_font_letter_fields(d, start, n - 1);
        let prev = font_letters_upto(d, start, n - 1);
        let off = letter_offset(d, start, n - 1);
        if off != 0 {
            let a = start + off;
            assert(letter_ok(d, start, n - 1));
            let g = glyph_at(d, a, n - 1);
            let x = d[a] as int;
            let y = d[a + 1] as int;
            let v = twos(x, 0x80) + twos(y, 0x80) + 1;
            assert(-127 <= v <= 127);
            assert(glyph_height(d, a) == (x + y + 1) % 256) by {
                assert(0 <= x < 256 && 0 <= y < 256);
                if x < 0x80 && y < 0x80 {
                } else if x < 0x80 || y < 0x80 {
                    assert(v == x + y + 1 - 256);
                } else {
                    assert(v == x + y + 1 - 512);
                }
            }
            assert(0 <= glyph_height(d, a) < 256);
            assert(g.height as int == glyph_height(d, a));
            assert(g.code as int == n - 1);
            assert(font_letters_upto(d, start, n) == prev.push(g));
            assert forall|i: int| 0 <= i < prev.len() + 1 implies {
                let l = #[trigger] prev.push(g)[i];
                let b = start + letter_offset(d, start, l.code as int);
                &&& l.code < n
                &&& letter_offset(d, start, l.code as int) != 0
                &&& l.width == d[b + 2]
                &&& l.height as int == (d[b] + d[b + 1] + 1) % 256
                &&& l.pixels == d.subrange(b + 3, b + 3 + (l.width as int) * (l.height as int))
            } by {
                if i < prev.len() {
                    assert(prev.push(g)[i] == prev[i]);
                }
            }
            assert forall|i: int, j: int| 0 <= i < j < prev.len() + 1 implies prev.push(g)[i].code < prev.push(
                g,
            )[j].code by {
                if j < prev.len() {
                    assert(prev.push(g)[i] == prev[i]);
                    assert(prev.push(g)[j] == prev[j]);
                } else {
                    assert(prev.push(g)[i] == prev[i]);
                    assert(prev[i].code < n - 1);
                }
            }
        }
    }
}

/// Whether `v` holds the glyphs `s`.
pub open spec fn glyphs_are(v: Seq<FontLetter<&[u8]>>, s: Seq<LetterView>) -> bool {
    v.len() == s.len() && forall|i: int| 0 <= i < v.len() ==> glyph_view(#[trigger] v[i]) == s[i]
}

/// Reads a proportional font: 256 glyph offsets, then glyphs. The reader ends
/// at the furthest glyph end.
pub fn parse_font_letters<'a>(data: &mut Reader<'a>) -> (res: Vec<FontLetter<&'a [u8]>>)
    requires
        font_ok(old(data).data(), old(data).pos()),
    ensures
        final(data).data() == old(data).data(),
        glyphs_are(res@, font_letters_upto(old(data).data(), old(data).pos(), 256)),
        final(data).pos() == font_end_upto(old(data).data(), old(data).pos(), 256),
{
    let ghost d = data.data();
    let start = data.position();
    let mut result: Vec<FontLetter<&'a [u8]>> = Vec::new();
    let mut last_pos: usize = 0;
    let mut c: usize = 0;
    while c < 256
        invariant
            0 <= c <= 256,
            data.data() == d,
            font_ok(d, start as int),
            data.pos() == start + 4 * c,
            glyphs_are(result@, font_letters_upto(d, start as int, c as int)),
            last_pos == font_end_upto(d, start as int, c as int),
        decreases 256 - c,
    {
        let offset = data.u32() as usize;
        assert(letter_ok(d, start as int, c as int));
        if offset != 0 {
            let mut g = data.clone_at(start + offset);
            let hb = g.i8();
            let ho = g.i8();
            let v: i16 = hb as i16 + ho as i16 + 1;
            let height: u8 = if v < 0 {
                (v + 256) as u8
            } else {
                v as u8
            };
            let width = g.u8();
            let pixels = g.slice(width as usize * height as usize);
            if g.position() > last_pos {
                last_pos = g.position();
            }
            let ghost old_result = result@;
            result.push(FontLetter { code: c as u8, width, height, pixels });
            proof {
                assert(result@ == old_result.push(FontLetter { code: c as u8, width, height, pixels }));
            }
        }
        c = c + 1;
    }
    data.set_position(last_pos);
    result
}

// ---------------------------------------------------------------------------
// the 8x8 bitmap font

/// Pixel `k` (from the left) of a row byte: its bit `7 - k`.
pub open spec fn row_pixel(b: u8, k: int) -> u8 {
    if (b >> ((7 - k) as u8)) & 1u8 == 1u8 {
        1
    } else {
        0
    }
}

/// The eight pixels of a row byte.
pub open spec fn row_pixels(b: u8) -> Seq<u8> {
    Seq::new(8, |k: int| row_pixel(b, k))
}

/// The pixels of the first `r` rows of the bitmap glyph at `q`.
pub open spec fn bitmap_rows(d: Seq<u8>, q: int, r: int) -> Seq<u8>
    decreases r,
{
    if r <= 0 {
        Seq::empty()
    } else {
        bitmap_rows(d, q, r - 1) + row_pixels(d[q + r - 1])
    }
}

proof fn lemma_bitmap_rows_index(d: Seq<u8>, q: int, n: int)
    requires
        0 <= n,
    ensures
        bitmap_rows(d, q, n).len() == 8 * n,
        forall|r: int, k: int|
            0 <= r < n && 0 <= k < 8 ==> #[trigger] bitmap_rows(d, q, n)[8 * r + k] == row_pixel(d[q + r], k),
    decreases n,
{
    if n > 0 {
        lemma_bitmap_rows_index(d, q, n - 1);
        let prev = bitmap_rows(d, q, n - 1);
        assert forall|r: int, k: int| 0 <= r < n && 0 <= k < 8 implies #[trigger] bitmap_rows(d, q, n)[8 * r + k]
            == row_pixel(d[q + r], k) by {
            if r < n - 1 {
                assert(bitmap_rows(d, q, n)[8 * r + k] == prev[8 * r + k]);
            } else {
                assert(bitmap_rows(d, q, n)[8 * r + k] == row_pixels(d[q + n - 1])[k]);
            }
        }
    }
}

/// The pixel in row `r`, column `k` of a bitmap glyph is 1 where the row's
/// byte has the bit for that column set, the leftmost column being the top
/// bit (0x80), and 0 elsewhere; a glyph is 8 by 8, stored 8 bytes per code.
pub proof fn lemma_bitmap_pixels(d: Seq<u8>, p: int, c: int)
    ensures
        bitmap_letter(d, p, c).width == 8,
        bitmap_letter(d, p, c).height == 8,
        bitmap_letter(d, p, c).pixels.len() == 64,
        forall|r: int, k: int|
            0 <= r < 8 && 0 <= k < 8 ==> #[trigger] bitmap_letter(d, p, c).pixels[8 * r + k] as int == (d[p + 8 * c
                + r] as int / seq![128int, 64, 32, 16, 8, 4, 2, 1][k]) % 2,
{
    lemma_bitmap_rows_index(d, p + 8 * c, 8);
    assert forall|b: u8| #[trigger] row_pixel(b, 0) as int == (b as int / 128) % 2 by {
        assert((b >> 7u8) & 1u8 == 1u8 <==> (b / 128) % 2 == 1) by (bit_vector);
        assert((b / 128) % 2 == 0 || (b / 128) % 2 == 1) by (bit_vector);
    }
    assert forall|b: u8| #[trigger] row_pixel(b, 1) as int == (b as int / 64) % 2 by {
        assert((b >> 6u8) & 1u8 == 1u8 <==> (b / 64) % 2 == 1) by (bit_vector);
        assert((b / 64) % 2 == 0 || (b / 64) % 2 == 1) by (bit_vector);
    }
    assert forall|b: u8| #[trigger] row_pixel(b, 2) as int == (b as int / 32) % 2 by {
        assert((b >> 5u8) & 1u8 == 1u8 <==> (b / 32) % 2 == 1) by (bit_vector);
        assert((b / 32) % 2 == 0 || (b / 32) % 2 == 1) by (bit_vector);
    }
    assert forall|b: u8| #[trigger] row_pixel(b, 3) as int == (b as int / 16) % 2 by {
        assert((b >> 4u8) & 1u8 == 1u8 <==> (b / 16) % 2 == 1) by (bit_vector);
        assert((b / 16) % 2 == 0 || (b / 16) % 2 == 1) by (bit_vector);
    }
    assert forall|b: u8| #[trigger] row_pixel(b, 4) as int == (b as int / 8) % 2 by {
        assert((b >> 3u8) & 1u8 == 1u8 <==> (b / 8) % 2 == 1) by (bit_vector);
        assert((b / 8) % 2 == 0 || (b / 8) % 2 == 1) by (bit_vector);
    }
    assert forall|b: u8| #[trigger] row_pixel(b, 5) as int == (b as int / 4) % 2 by {
        assert((b >> 2u8) & 1u8 == 1u8 <==> (b / 4) % 2 == 1) by (bit_vector);
        assert((b / 4) % 2 == 0 || (b / 4) % 2 == 1) by (bit_vector);
    }
    assert forall|b: u8| #[trigger] row_pixel(b, 6) as int == (b as int / 2) % 2 by {
        assert((b >> 1u8) & 1u8 == 1u8 <==> (b / 2) % 2 == 1) by (bit_vector);
        assert((b / 2) % 2 == 0 || (b / 2) % 2 == 1) by (bit_vector);
    }
    assert forall|b: u8| #[trigger] row_pixel(b, 7) as int == (b as int / 1) % 2 by {
        assert((b >> 0u8) & 1u8 == 1u8 <==> (b / 1) % 2 == 1) by (bit_vector);
        assert((b / 1) % 2 == 0 || (b / 1) % 2 == 1) by (bit_vector);
    }
    assert forall|r: int, k: int| 0 <= r < 8 && 0 <= k < 8 implies #[trigger] bitmap_letter(d, p, c).pixels[8 * r
        + k] as int == (d[p + 8 * c + r] as int / seq![128int, 64, 32, 16, 8, 4, 2, 1][k]) % 2 by {
        let b = d[p + 8 * c + r];
        assert(bitmap_letter(d, p, c).pixels[8 * r + k] == row_pixel(b, k));
        if k == 0 {
            assert(row_pixel(b, 0) as int == (b as int / 128) % 2);
        } else if k == 1 {
            assert(row_pixel(b, 1) as int == (b as int / 64) % 2);
        } else if k == 2 {
            assert(row_pixel(b, 2) as int == (b as int / 32) % 2);
        } else if k == 3 {
            assert(row_pixel(b, 3) as int == (b as int / 16) % 2);
        } else if k == 4 {
            assert(row_pixel(b, 4) as int == (b as int / 8) % 2);
        } else if k == 5 {
            assert(row_pixel(b, 5) as int == (b as int / 4) % 2);
        } else if k == 6 {
            assert(row_pixel(b, 6) as int == (b as int / 2) % 2);
        } else {
            assert(row_pixel(b, 7) as int == (b as int / 1) % 2);
        }
    }
}

/// Glyph `c` of a bitmap font at `p`: eight rows of one byte each.
pub open spec fn bitmap_letter(d: Seq<u8>, p: int, c: int) -> LetterView {
    LetterView { code: c as u8, width: 8, height: 8, pixels: bitmap_rows(d, p + 8 * c, 8) }
}

/// Whether `v` holds the first glyphs of the bitmap font at `p`.
pub open spec fn bitmap_glyphs_are(v: Seq<FontLetter<Vec<u8>>>, d: Seq<u8>, p: int) -> bool {
    forall|i: int| 0 <= i < v.len() ==> owned_glyph_view(#[trigger] v[i]) == bitmap_letter(d, p, i)
}

/// Reads the 8x8 bitmap font: 128 glyphs of eight row bytes, most significant bit leftmost.
pub fn parse_small_font(reader: &mut Reader) -> (res: Vec<FontLetter<Vec<u8>>>)
    requires
        old(reader).has(1024),
    ensures
        final(reader).data() == old(reader).data(),
        final(reader).pos() == old(reader).pos() + 1024,
        res@.len() == 128,
        bitmap_glyphs_are(res@, old(reader).data(), old(reader).pos()),
{
    let ghost d = reader.data();
    let ghost p = reader.pos();
    let mut result: Vec<FontLetter<Vec<u8>>> = Vec::new();
    let mut c: usize = 0;
    while c < 128
        invariant
            0 <= c <= 128,
            reader.data() == d,
            reader.pos() == p + 8 * c,
            p + 1024 <= d.len(),
            result@.len() == c,
            bitmap_glyphs_are(result@, d, p),
        decreases 128 - c,
    {
        let mut pixels: Vec<u8> = Vec::new();
        let mut r: usize = 0;
        while r < 8
            invariant
                0 <= r <= 8,
                c < 128,
                reader.data() == d,
                reader.pos() == p + 8 * c + r,
                p + 1024 <= d.len(),
                pixels@ == bitmap_rows(d, p + 8 * c, r as int),
            decreases 8 - r,
        {
            let b = reader.u8();
            let ghost before = pixels@;
            let mut k: u8 = 0;
            while k < 8
                invariant
                    0 <= k <= 8,
                    pixels@ == before + row_pixels(b).subrange(0, k as int),
                decreases 8 - k,
            {
                let px: u8 = if (b >> (7 - k)) & 1 == 1 {
                    1
                } else {
                    0
                };
                pixels.push(px);
                k = k + 1;
                assert(row_pixels(b).subrange(0, k as int) =~= row_pixels(b).subrange(0, k - 1)
                    + seq![px]);
            }
            assert(row_pixels(b).subrange(0, 8) =~= row_pixels(b));
            r = r + 1;
        }
        result.push(FontLetter { code: c as u8, width: 8, height: 8, pixels });
        c = c + 1;
    }
    result
}

// ---------------------------------------------------------------------------
// checks

/// Whether the string item at the reader's position can be read.
pub fn string_is_ok(r: &Reader) -> (ok: bool)
    ensures
        ok == string_ok(r.data(), r.pos()),
{
    if r.position() > r.len() {
        return false;
    }
    let ghost b = rest(r.data(), r.pos());
    let buf = r.remaining_buf();
    assert(buf@ =~= b);
    proof {
        crate::text::lemma_nul_from_bounds(b, 0);
    }
    let mut i: usize = 0;
    while i < buf.len()
        invariant
            0 <= i <= b.len(),
            buf@ == b,
            b == rest(r.data(), r.pos()),
            0 <= r.pos() <= r.data().len(),
            forall|j: int| 0 <= j < i ==> b[j] != 0 && esc_ok(b[j]),
            i <= crate::text::nul_index(b) <= b.len(),
            crate::text::nul_index(b) < b.len() ==> b[crate::text::nul_index(b)] == 0,
        decreases b.len() - i,
    {
        let c = buf[i];
        if c == 0 {
            proof {
                if crate::text::nul_index(b) > i {
                    crate::text::lemma_nul_from_bounds(b, 0);
                }
            }
            return true;
        }
        if !(c == 10 || c == 9 || c == 13 || (0x20 <= c && c <= 0x7e) || c == 149 || c == 150 || c == 230) {
            proof {
                crate::text::lemma_nul_from_bounds(b, 0);
            }
            return false;
        }
        i = i + 1;
    }
    proof {
        crate::text::lemma_no_nul(b, 0);
    }
    false
}

/// Whether the glyph for code `c` of the font at `start` can be read.
fn letter_is_ok(r: &Reader, start: usize, c: usize) -> (ok: bool)
    requires
        start + 1024 <= r.data().len(),
        c < 256,
    ensures
        ok == letter_ok(r.data(), start as int, c as int),
{
    let ghost d = r.data();
    proof {
        r.lemma_bounds();
    }
    let buf = r.buf();
    let o0 = buf[start + 4 * c] as u32;
    let o1 = buf[start + 4 * c + 1] as u32;
    let o2 = buf[start + 4 * c + 2] as u32;
    let o3 = buf[start + 4 * c + 3] as u32;
    let off = o0 + o1 * 0x100 + o2 * 0x10000 + o3 * 0x1000000;
    assert(off == letter_offset(d, start as int, c as int));
    if off == 0 {
        return true;
    }
    if off as usize > buf.len() - start || buf.len() - start - (off as usize) < 3 {
        return false;
    }
    let a = start + off as usize;
    let h0 = buf[a] as i32;
    let h1 = buf[a + 1] as i32;
    let s0: i32 = if h0 >= 128 { h0 - 256 } else { h0 };
    let s1: i32 = if h1 >= 128 { h1 - 256 } else { h1 };
    assert(s0 == crate::reader::twos(d[a as int] as int, 0x80));
    assert(s1 == crate::reader::twos(d[a + 1] as int, 0x80));
    if s0 + s1 < -128 || s0 + s1 > 126 {
        return false;
    }
    let v = s0 + s1 + 1;
    let height: u64 = if v < 0 { (v + 256) as u64 } else { v as u64 };
    assert(height == glyph_height(d, a as int));
    let width = buf[a + 2] as u64;
    assert(width * height <= 255 * 255) by (nonlinear_arith)
        requires
            width <= 255,
            height <= 255,
    ;
    let size = width * height;
    size <= (buf.len() - a - 3) as u64
}

/// Whether the font at the reader's position can be read.
pub fn font_is_ok(r: &Reader) -> (ok: bool)
    ensures
        ok == font_ok(r.data(), r.pos()),
{
    let start = r.position();
    if start > r.len() || r.len() - start < 1024 {
        return false;
    }
    let mut c: usize = 0;
    while c < 256
        invariant
            0 <= c <= 256,
            start == r.pos(),
            start + 1024 <= r.data().len(),
            forall|k: int| 0 <= k < c ==> #[trigger] letter_ok(r.data(), start as int, k),
        decreases 256 - c,
    {
        if !letter_is_ok(r, start, c) {
            return false;
        }
        c = c + 1;
    }
    true
}

// ---------------------------------------------------------------------------
// the file

/// An item of an FTI file.
pub enum FtiItemV {
    Arrow(TextureView),
    Sound(WavView),
    Palette(Seq<u8>),
    Font8(Seq<LetterView>),
    FontBig(Seq<LetterView>),
    FontSml(Seq<LetterView>),
    Text(Seq<char>),
}

/// The item named `name` at `off`, and where reading it stops. The name
/// decides the kind; any name not listed is a string.
pub open spec fn fti_item(d: Seq<u8>, name: Seq<u8>, off: int) -> Option<(FtiItemV, int)> {
    if name == "ARROW".spec_bytes() {
        match spec_animation(d, off) {
            Outcome::Value(fs) => if fs.len() == 1 {
                Some((FtiItemV::Arrow(fs[0]), off + 4 + animation_size(d, off)))
            } else {
                None
            },
            _ => None,
        }
    } else if name == "SND_PUSH".spec_bytes() {
        match spec_wav(d, off) {
            Outcome::Value(w) => Some((FtiItemV::Sound(w), off + w.file_data.len())),
            _ => None,
        }
    } else if name == "SYS_PAL".spec_bytes() {
        if off + 192 <= d.len() {
            Some((FtiItemV::Palette(d.subrange(off, off + 192)), off + 192))
        } else {
            None
        }
    } else if name == "F8".spec_bytes() {
        if off + 1024 <= d.len() {
            Some((FtiItemV::Font8(Seq::new(128, |c: int| bitmap_letter(d, off, c))), off + 1024))
        } else {
            None
        }
    } else if name == "FONTBIG".spec_bytes() || name == "FONTSML".spec_bytes() {
        if font_ok(d, off) {
            let letters = font_letters_upto(d, off, 256);
            let end = font_end_upto(d, off, 256);
            if name == "FONTBIG".spec_bytes() {
                Some((FtiItemV::FontBig(letters), end))
            } else {
                Some((FtiItemV::FontSml(letters), end))
            }
        } else {
            None
        }
    } else if string_ok(d, off) {
        Some((FtiItemV::Text(string_value(d, off)), string_end(d, off)))
    } else {
        None
    }
}

/// What an FTI file holds; an item met twice keeps the later one.
pub struct FtiV {
    pub arrow: Option<TextureView>,
    pub palette: Option<Seq<u8>>,
    pub snd_push: Option<WavView>,
    pub font_big: Option<Seq<LetterView>>,
    pub font_sml: Option<Seq<LetterView>>,
    pub font_8: Option<Seq<LetterView>>,
    pub strings: Seq<(Seq<u8>, Seq<char>)>,
}

pub open spec fn fti_apply(acc: FtiV, name: Seq<u8>, item: FtiItemV) -> FtiV {
    match item {
        FtiItemV::Arrow(t) => FtiV { arrow: Some(t), ..acc },
        FtiItemV::Sound(w) => FtiV { snd_push: Some(w), ..acc },
        FtiItemV::Palette(p) => FtiV { palette: Some(p), ..acc },
        FtiItemV::Font8(f) => FtiV { font_8: Some(f), ..acc },
        FtiItemV::FontBig(f) => FtiV { font_big: Some(f), ..acc },
        FtiItemV::FontSml(f) => FtiV { font_sml: Some(f), ..acc },
        FtiItemV::Text(t) => FtiV { strings: acc.strings.push((name, t)), ..acc },
    }
}

/// Entries `i..n` from `q`: an 8-byte name and an offset, which may not
/// come before where the previous item stopped (`prev`).
pub open spec fn fti_items_from(e: Seq<u8>, q: int, n: int, i: int, prev: int, acc: FtiV) -> Option<FtiV>
    decreases n - i,
{
    if i >= n {
        Some(acc)
    } else {
        match (fixed_text_at(e, q, 8), value_at::<u32>(e, q + 8)) {
            (Some((name, _)), Some((off, _))) => if off < prev {
                None
            } else {
                match fti_item(e, name, off as int) {
                    Some((item, end)) => fti_items_from(e, q + 12, n, i + 1, end, fti_apply(acc, name, item)),
                    None => None,
                }
            },
            _ => None,
        }
    }
}

pub open spec fn empty_fti() -> FtiV {
    FtiV {
        arrow: None,
        palette: None,
        snd_push: None,
        font_big: None,
        font_sml: None,
        font_8: None,
        strings: Seq::empty(),
    }
}

/// The FTI file read by a reader at `p` over `d`: a size (of the whole
/// buffer, less 4), then, with offsets from the fifth byte of the buffer, a
/// count and the entries. The cursor, the palette and the three fonts must be there.
pub open spec fn spec_fti(d: Seq<u8>, p: int) -> Option<FtiV> {
    match value_at::<u32>(d, p) {
        Some((fs, _)) => if fs + 4 > u32::MAX || d.len() != fs + 4 {
            None
        } else {
            let e = d.subrange(4, d.len() as int);
            match value_at::<u32>(e, 0) {
                Some((n, _)) => match fti_items_from(e, 4, n as int, 0, 4, empty_fti()) {
                    Some(v) => if v.arrow is Some && v.palette is Some && v.font_big is Some && v.font_sml is Some
                        && v.font_8 is Some {
                        Some(v)
                    } else {
                        None
                    },
                    None => None,
                },
                None => None,
            }
        },
        None => None,
    }
}

/// The items of an FTI file.
pub struct Fti<'a> {
    pub arrow: Texture,
    pub palette: &'a [u8],
    pub snd_push: Option<Wav<'a>>,
    pub font_big: Vec<FontLetter<&'a [u8]>>,
    pub font_sml: Vec<FontLetter<&'a [u8]>>,
    pub font_8: Vec<FontLetter<Vec<u8>>>,
    pub strings: Vec<(&'a str, String)>,
}

/// An item as read.
pub enum FtiItem<'a> {
    Arrow(Texture),
    Sound(Wav<'a>),
    Palette(&'a [u8]),
    Font8(Vec<FontLetter<Vec<u8>>>),
    FontBig(Vec<FontLetter<&'a [u8]>>),
    FontSml(Vec<FontLetter<&'a [u8]>>),
    Text(String),
}

pub open spec fn small_glyphs_view(v: Seq<FontLetter<Vec<u8>>>) -> Seq<LetterView> {
    v.map_values(|l: FontLetter<Vec<u8>>| owned_glyph_view(l))
}

pub open spec fn glyphs_view(v: Seq<FontLetter<&[u8]>>) -> Seq<LetterView> {
    v.map_values(|l: FontLetter<&[u8]>| glyph_view(l))
}

pub open spec fn item_matches(v: FtiItemV, x: FtiItem) -> bool {
    match (v, x) {
        (FtiItemV::Arrow(t), FtiItem::Arrow(a)) => a@ == t,
        (FtiItemV::Sound(w), FtiItem::Sound(s)) => s@ == w,
        (FtiItemV::Palette(p), FtiItem::Palette(q)) => q@ == p,
        (FtiItemV::Font8(f), FtiItem::Font8(g)) => small_glyphs_view(g@) == f,
        (FtiItemV::FontBig(f), FtiItem::FontBig(g)) => glyphs_view(g@) == f,
        (FtiItemV::FontSml(f), FtiItem::FontSml(g)) => glyphs_view(g@) == f,
        (FtiItemV::Text(t), FtiItem::Text(s)) => s@ == t,
        _ => false,
    }
}

/// Reads the item named `name` at `off`.
#[verifier::rlimit(40)]
fn read_fti_item<'a>(e: &Reader<'a>, name: &str, off: usize) -> (res: Option<(FtiItem<'a>, usize)>)
    ensures
        match fti_item(e.data(), name.spec_bytes(), off as int) {
            Some((v, end)) => res matches Some((x, en)) && item_matches(v, x) && en == end,
            None => res is None,
        },
{
    let ghost d = e.data();
    let mut r = e.clone_at(off);
    let nb = name.as_bytes();
    if crate::text::bytes_eq(nb, "ARROW".as_bytes()) {
        match animation_outcome(&mut r) {
            Outcome::Value(mut frames) => {
                if frames.len() != 1 {
                    return None;
                }
                let t = frames.pop().unwrap();
                Some((FtiItem::Arrow(t), r.position()))
            },
            _ => None,
        }
    } else if crate::text::bytes_eq(nb, "SND_PUSH".as_bytes()) {
        match Wav::try_parse_outcome(&mut r) {
            Outcome::Value(w) => Some((FtiItem::Sound(w), r.position())),
            _ => None,
        }
    } else if crate::text::bytes_eq(nb, "SYS_PAL".as_bytes()) {
        let pal = r.try_slice(192)?;
        Some((FtiItem::Palette(pal), r.position()))
    } else if crate::text::bytes_eq(nb, "F8".as_bytes()) {
        if off > r.len() || r.len() - off < 1024 {
            return None;
        }
        let f = parse_small_font(&mut r);
        assert(small_glyphs_view(f@) =~= Seq::new(128, |c: int| bitmap_letter(d, off as int, c)));
        Some((FtiItem::Font8(f), r.position()))
    } else if crate::text::bytes_eq(nb, "FONTBIG".as_bytes()) || crate::text::bytes_eq(nb, "FONTSML".as_bytes()) {
        if !font_is_ok(&r) {
            return None;
        }
        let big = crate::text::bytes_eq(nb, "FONTBIG".as_bytes());
        let f = parse_font_letters(&mut r);
        assert(glyphs_view(f@) =~= font_letters_upto(d, off as int, 256));
        if big {
            Some((FtiItem::FontBig(f), r.position()))
        } else {
            Some((FtiItem::FontSml(f), r.position()))
        }
    } else {
        if !string_is_ok(&r) {
            return None;
        }
        let s = parse_string(&mut r);
        Some((FtiItem::Text(s), r.position()))
    }
}

/// The items read so far.
struct FtiAcc<'a> {
    arrow: Option<Texture>,
    palette: Option<&'a [u8]>,
    snd_push: Option<Wav<'a>>,
    font_big: Option<Vec<FontLetter<&'a [u8]>>>,
    font_sml: Option<Vec<FontLetter<&'a [u8]>>>,
    font_8: Option<Vec<FontLetter<Vec<u8>>>>,
    strings: Vec<(&'a str, String)>,
}

pub open spec fn strings_view(v: Seq<(&str, String)>) -> Seq<(Seq<u8>, Seq<char>)> {
    v.map_values(|x: (&str, String)| (x.0.spec_bytes(), x.1@))
}

impl<'a> FtiAcc<'a> {
    spec fn is(&self, v: FtiV) -> bool {
        &&& match (self.arrow, v.arrow) {
            (Some(a), Some(b)) => a@ == b,
            (None, None) => true,
            _ => false,
        }
        &&& match (self.palette, v.palette) {
            (Some(a), Some(b)) => a@ == b,
            (None, None) => true,
            _ => false,
        }
        &&& match (self.snd_push, v.snd_push) {
            (Some(a), Some(b)) => a@ == b,
            (None, None) => true,
            _ => false,
        }
        &&& match (self.font_big, v.font_big) {
            (Some(a), Some(b)) => glyphs_view(a@) == b,
            (None, None) => true,
            _ => false,
        }
        &&& match (self.font_sml, v.font_sml) {
            (Some(a), Some(b)) => glyphs_view(a@) == b,
            (None, None) => true,
            _ => false,
        }
        &&& match (self.font_8, v.font_8) {
            (Some(a), Some(b)) => small_glyphs_view(a@) == b,
            (None, None) => true,
            _ => false,
        }
        &&& strings_view(self.strings@) == v.strings
    }

    fn apply(&mut self, name: &'a str, x: FtiItem<'a>, Ghost(v): Ghost<FtiV>, Ghost(item): Ghost<FtiItemV>)
        requires
            old(self).is(v),
            item_matches(item, x),
        ensures
            final(self).is(fti_apply(v, name.spec_bytes(), item)),
    {
        match x {
            FtiItem::Arrow(t) => self.arrow = Some(t),
            FtiItem::Sound(w) => self.snd_push = Some(w),
            FtiItem::Palette(p) => self.palette = Some(p),
            FtiItem::Font8(f) => self.font_8 = Some(f),
            FtiItem::FontBig(f) => self.font_big = Some(f),
            FtiItem::FontSml(f) => self.font_sml = Some(f),
            FtiItem::Text(s) => {
                let ghost before = strings_view(self.strings@);
                let ghost sv = s@;
                self.strings.push((name, s));
                assert(strings_view(self.strings@) =~= before.push((name.spec_bytes(), sv)));
            },
        }
    }
}

impl<'a> Fti<'a> {
    pub open spec fn is(&self, v: FtiV) -> bool {
        &&& v.arrow matches Some(a) && self.arrow@ == a
        &&& v.palette matches Some(p) && self.palette@ == p
        &&& match (self.snd_push, v.snd_push) {
            (Some(a), Some(b)) => a@ == b,
            (None, None) => true,
            _ => false,
        }
        &&& v.font_big matches Some(f) && glyphs_view(self.font_big@) == f
        &&& v.font_sml matches Some(f) && glyphs_view(self.font_sml@) == f
        &&& v.font_8 matches Some(f) && small_glyphs_view(self.font_8@) == f
        &&& strings_view(self.strings@) == v.strings
    }

    /// Parses an FTI file read by `data`; `None` where it is not laid out as described.
    #[verifier::rlimit(40)]
    pub fn try_parse(data: Reader<'a>) -> (res: Option<Fti<'a>>)
        ensures
            match spec_fti(data.data(), data.pos()) {
                Some(v) => res matches Some(f) && f.is(v),
                None => res is None,
            },
    {
        let ghost d = data.data();
        let mut r = data;
        let fs = read_value::<u32>(&mut r)?;
        if fs > 0xFFFF_FFFBu32 || r.len() as u64 != fs as u64 + 4 {
            return None;
        }
        let e = r.resized(4..r.len());
        let ghost ed = e.data();
        let mut h = e.clone_at(0);
        let n = read_value::<u32>(&mut h)?;
        let ghost goal = fti_items_from(ed, 4, n as int, 0, 4, empty_fti());
        let mut acc = FtiAcc {
            arrow: None,
            palette: None,
            snd_push: None,
            font_big: None,
            font_sml: None,
            font_8: None,
            strings: Vec::new(),
        };
        assert(strings_view(acc.strings@) =~= Seq::<(Seq<u8>, Seq<char>)>::empty());
        let ghost mut v = empty_fti();
        let mut prev: usize = 4;
        let mut i: u32 = 0;
        while i < n
            invariant
                i <= n,
                h.data() == ed,
                e.data() == ed,
                h.pos() == 4 + 12 * i,
                acc.is(v),
                goal == fti_items_from(ed, h.pos(), n as int, i as int, prev as int, v),
                goal is None ==> spec_fti(data.data(), data.pos()) is None,
                goal matches Some(g) ==> spec_fti(data.data(), data.pos()) == if g.arrow is Some && g.palette is Some
                    && g.font_big is Some && g.font_sml is Some && g.font_8 is Some {
                    Some(g)
                } else {
                    None
                },
            decreases n - i,
        {
            let name = match read_fixed_text(&mut h, 8) {
                Some(x) => x,
                None => return None,
            };
            let off = match read_value::<u32>(&mut h) {
                Some(x) => x,
                None => return None,
            };
            if (off as usize) < prev {
                return None;
            }
            let (item, end) = match read_fti_item(&e, name, off as usize) {
                Some(x) => x,
                None => return None,
            };
            let ghost iv = fti_item(ed, name.spec_bytes(), off as int).unwrap().0;
            acc.apply(name, item, Ghost(v), Ghost(iv));
            proof {
                v = fti_apply(v, name.spec_bytes(), iv);
            }
            prev = end;
            i = i + 1;
        }
        let FtiAcc { arrow, palette, snd_push, font_big, font_sml, font_8, strings } = acc;
        let arrow = arrow?;
        let palette = palette?;
        let font_big = font_big?;
        let font_sml = font_sml?;
        let font_8 = font_8?;
        Some(Fti { arrow, palette, snd_push, font_big, font_sml, font_8, strings })
    }

    /// Parses an FTI file that is laid out as described.
    pub fn parse(data: Reader<'a>) -> (f: Fti<'a>)
        requires
            spec_fti(data.data(), data.pos()) is Some,
        ensures
            f.is(spec_fti(data.data(), data.pos()).unwrap()),
    {
        Self::try_parse(data).unwrap()
    }
}

} // verus!
