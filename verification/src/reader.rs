//! A cursor over a borrowed byte buffer, reading little-endian integers,
//! byte spans and fixed-size strings.

use vstd::prelude::*;
use vstd::slice::*;
use vstd::arithmetic::div_mod::{lemma_mod_self_0, lemma_small_mod};
use vstd::string::*;

use crate::text::{is_text_byte, lemma_nul_from_bounds, nul_from, nul_index, spec_fixed_str, utf8_str};

verus! {

/// Little-endian value of two bytes.
pub open spec fn le2(b: Seq<u8>) -> int {
    b[0] + b[1] * 0x100
}

/// Little-endian value of four bytes.
pub open spec fn le4(b: Seq<u8>) -> int {
    b[0] + b[1] * 0x100 + b[2] * 0x10000 + b[3] * 0x1000000
}

/// Little-endian value of eight bytes.
pub open spec fn le8(b: Seq<u8>) -> int {
    le4(b) + le4(b.subrange(4, 8)) * 0x1_0000_0000
}

/// The two's complement reading of an unsigned value `u` of `bits` bits.
pub open spec fn twos(u: int, half: int) -> int {
    if u < half {
        u
    } else {
        u - 2 * half
    }
}

/// A value that can be read from a fixed number of little-endian bytes.
pub trait Readable: Sized {
    /// The number of bytes a value occupies.
    spec fn spec_size() -> nat;

    /// The value that `bytes` (exactly `spec_size()` of them) encode.
    spec fn spec_decode(bytes: Seq<u8>) -> Self;

    /// Whether a decoded value is acceptable.
    spec fn spec_valid(&self) -> bool;

    fn size() -> (n: usize)
        ensures
            n == Self::spec_size(),
            n >= 1,
    ;

    fn decode(bytes: &[u8]) -> (v: Self)
        requires
            bytes@.len() == Self::spec_size(),
        ensures
            v == Self::spec_decode(bytes@),
    ;

    fn validate(&self) -> (b: bool)
        ensures
            b == self.spec_valid(),
    ;
}

impl Readable for u8 {
    open spec fn spec_size() -> nat {
        1
    }

    open spec fn spec_decode(bytes: Seq<u8>) -> u8 {
        bytes[0]
    }

    open spec fn spec_valid(&self) -> bool {
        true
    }

    fn size() -> (n: usize) {
        1
    }

    fn decode(bytes: &[u8]) -> (v: u8) {
        bytes[0]
    }

    fn validate(&self) -> (b: bool) {
        true
    }
}

impl Readable for i8 {
    open spec fn spec_size() -> nat {
        1
    }

    open spec fn spec_decode(bytes: Seq<u8>) -> i8 {
        twos(bytes[0] as int, 0x80) as i8
    }

    open spec fn spec_valid(&self) -> bool {
        true
    }

    fn size() -> (n: usize) {
        1
    }

    fn decode(bytes: &[u8]) -> (v: i8) {
        let b = bytes[0];
        if b < 0x80 {
            b as i8
        } else {
            ((b as i16) - 0x100) as i8
        }
    }

    fn validate(&self) -> (b: bool) {
        true
    }
}

fn decode_u16(bytes: &[u8]) -> (v: u16)
    requires
        bytes@.len() == 2,
    ensures
        v == le2(bytes@),
{
    (bytes[0] as u16) + (bytes[1] as u16) * 0x100
}

fn decode_u32(bytes: &[u8]) -> (v: u32)
    requires
        bytes@.len() == 4,
    ensures
        v == le4(bytes@),
{
    (bytes[0] as u32) + (bytes[1] as u32) * 0x100 + (bytes[2] as u32) * 0x10000 + (bytes[3] as u32)
        * 0x1000000
}

fn decode_u64(bytes: &[u8]) -> (v: u64)
    requires
        bytes@.len() == 8,
    ensures
        v == le8(bytes@),
{
    let lo = (bytes[0] as u64) + (bytes[1] as u64) * 0x100 + (bytes[2] as u64) * 0x10000 + (
    bytes[3] as u64) * 0x1000000;
    let hi = (bytes[4] as u64) + (bytes[5] as u64) * 0x100 + (bytes[6] as u64) * 0x10000 + (
    bytes[7] as u64) * 0x1000000;
    assert(hi == le4(bytes@.subrange(4, 8)));
    lo + hi * 0x1_0000_0000
}

impl Readable for u16 {
    open spec fn spec_size() -> nat {
        2
    }

    open spec fn spec_decode(bytes: Seq<u8>) -> u16 {
        le2(bytes) as u16
    }

    open spec fn spec_valid(&self) -> bool {
        true
    }

    fn size() -> (n: usize) {
        2
    }

    fn decode(bytes: &[u8]) -> (v: u16) {
        decode_u16(bytes)
    }

    fn validate(&self) -> (b: bool) {
        true
    }
}

impl Readable for i16 {
    open spec fn spec_size() -> nat {
        2
    }

    open spec fn spec_decode(bytes: Seq<u8>) -> i16 {
        twos(le2(bytes), 0x8000) as i16
    }

    open spec fn spec_valid(&self) -> bool {
        true
    }

    fn size() -> (n: usize) {
        2
    }

    fn decode(bytes: &[u8]) -> (v: i16) {
        let u = decode_u16(bytes);
        if u < 0x8000 {
            u as i16
        } else {
            ((u as i32) - 0x10000) as i16
        }
    }

    fn validate(&self) -> (b: bool) {
        true
    }
}

impl Readable for u32 {
    open spec fn spec_size() -> nat {
        4
    }

    open spec fn spec_decode(bytes: Seq<u8>) -> u32 {
        le4(bytes) as u32
    }

    open spec fn spec_valid(&self) -> bool {
        true
    }

    fn size() -> (n: usize) {
        4
    }

    fn decode(bytes: &[u8]) -> (v: u32) {
        decode_u32(bytes)
    }

    fn validate(&self) -> (b: bool) {
        true
    }
}

impl Readable for i32 {
    open spec fn spec_size() -> nat {
        4
    }

    open spec fn spec_decode(bytes: Seq<u8>) -> i32 {
        twos(le4(bytes), 0x8000_0000) as i32
    }

    open spec fn spec_valid(&self) -> bool {
        true
    }

    fn size() -> (n: usize) {
        4
    }

    fn decode(bytes: &[u8]) -> (v: i32) {
        let u = decode_u32(bytes);
        if u < 0x8000_0000 {
            u as i32
        } else {
            ((u as i64) - 0x1_0000_0000) as i32
        }
    }

    fn validate(&self) -> (b: bool) {
        true
    }
}

impl Readable for u64 {
    open spec fn spec_size() -> nat {
        8
    }

    open spec fn spec_decode(bytes: Seq<u8>) -> u64 {
        le8(bytes) as u64
    }

    open spec fn spec_valid(&self) -> bool {
        true
    }

    fn size() -> (n: usize) {
        8
    }

    fn decode(bytes: &[u8]) -> (v: u64) {
        decode_u64(bytes)
    }

    fn validate(&self) -> (b: bool) {
        true
    }
}

impl Readable for i64 {
    open spec fn spec_size() -> nat {
        8
    }

    open spec fn spec_decode(bytes: Seq<u8>) -> i64 {
        twos(le8(bytes), 0x8000_0000_0000_0000) as i64
    }

    open spec fn spec_valid(&self) -> bool {
        true
    }

    fn size() -> (n: usize) {
        8
    }

    fn decode(bytes: &[u8]) -> (v: i64) {
        let u = decode_u64(bytes);
        if u < 0x8000_0000_0000_0000 {
            u as i64
        } else {
            ((u - 0x8000_0000_0000_0000) as i64) + i64::MIN
        }
    }

    fn validate(&self) -> (b: bool) {
        true
    }
}

/// The bit pattern of a 32-bit float.
#[derive(Clone, Copy, PartialEq, Eq, Structural, Debug)]
pub struct FloatBits(pub u32);

/// A float is accepted when it is finite and within -10,000,000..=10,000,000.
/// With the sign bit cleared, the bits of such a float are at most those of
/// 10,000,000 (0x4B189680); infinities and NaNs lie above.
pub open spec fn float_ok(bits: u32) -> bool {
    (bits & 0x7fff_ffffu32) <= 0x4b18_9680u32
}

impl Readable for FloatBits {
    open spec fn spec_size() -> nat {
        4
    }

    open spec fn spec_decode(bytes: Seq<u8>) -> FloatBits {
        FloatBits(le4(bytes) as u32)
    }

    open spec fn spec_valid(&self) -> bool {
        float_ok(self.0)
    }

    fn size() -> (n: usize) {
        4
    }

    fn decode(bytes: &[u8]) -> (v: FloatBits) {
        FloatBits(decode_u32(bytes))
    }

    fn validate(&self) -> (b: bool) {
        (self.0 & 0x7fff_ffff) <= 0x4b18_9680
    }
}

/// `count` consecutive values decoded from the front of `bytes`.
pub open spec fn decode_seq<T: Readable>(bytes: Seq<u8>, count: nat) -> Seq<T>
    decreases count,
{
    if count == 0 {
        Seq::empty()
    } else {
        seq![T::spec_decode(bytes.subrange(0, T::spec_size() as int))] + decode_seq::<T>(
            bytes.subrange(T::spec_size() as int, bytes.len() as int),
            (count - 1) as nat,
        )
    }
}

/// The position of a reader is never negative, and its buffer fits in memory.
pub broadcast proof fn lemma_reader_bounds(r: Reader)
    ensures
        0 <= #[trigger] r.pos() <= usize::MAX,
        r.data().len() <= usize::MAX,
{
    r.lemma_bounds();
}

/// A cursor over a borrowed byte buffer.
///
/// The position may be set past the end; reads then fail.
#[derive(Clone, Copy)]
pub struct Reader<'buf> {
    buf: &'buf [u8],
    pos: usize,
}

impl<'buf> Reader<'buf> {
    /// The bytes the reader looks at.
    pub closed spec fn data(&self) -> Seq<u8> {
        self.buf@
    }

    /// The current position, relative to the start of `data()`.
    pub closed spec fn pos(&self) -> int {
        self.pos as int
    }

    /// The `n` bytes at the current position.
    pub open spec fn ahead(&self, n: int) -> Seq<u8> {
        self.data().subrange(self.pos(), self.pos() + n)
    }

    /// Whether `n` bytes remain at the current position.
    pub open spec fn has(&self, n: int) -> bool {
        self.pos() + n <= self.data().len()
    }

    pub proof fn lemma_bounds(&self)
        ensures
            0 <= self.pos() <= usize::MAX,
            self.data().len() <= usize::MAX,
    {
        axiom_spec_len(self.buf);
    }

    pub fn new(buf: &'buf [u8]) -> (r: Reader<'buf>)
        ensures
            r.data() == buf@,
            r.pos() == 0,
    {
        Reader { buf, pos: 0 }
    }

    /// Narrows the buffer to `range`, with the position at its start.
    pub fn resize(&mut self, range: core::ops::Range<usize>)
        requires
            range.start <= range.end <= old(self).data().len(),
        ensures
            final(self).data() == old(self).data().subrange(range.start as int, range.end as int),
            final(self).pos() == 0,
    {
        *self = self.resized(range);
    }

    /// Narrows the buffer to `range`, with the position at `new_pos`.
    pub fn resize_pos(&mut self, range: core::ops::Range<usize>, new_pos: usize)
        requires
            range.start <= range.end <= old(self).data().len(),
        ensures
            final(self).data() == old(self).data().subrange(range.start as int, range.end as int),
            final(self).pos() == new_pos,
    {
        *self = self.resized_pos(range, new_pos);
    }

    /// A reader over `range` of this buffer, positioned at its start.
    #[must_use]
    pub fn resized(&self, range: core::ops::Range<usize>) -> (r: Self)
        requires
            range.start <= range.end <= self.data().len(),
        ensures
            r.data() == self.data().subrange(range.start as int, range.end as int),
            r.pos() == 0,
    {
        Reader::new(slice_subrange(self.buf, range.start, range.end))
    }

    /// A reader over `range` of this buffer, positioned at `new_pos`.
    #[must_use]
    pub fn resized_pos(&self, range: core::ops::Range<usize>, new_pos: usize) -> (r: Self)
        requires
            range.start <= range.end <= self.data().len(),
        ensures
            r.data() == self.data().subrange(range.start as int, range.end as int),
            r.pos() == new_pos,
    {
        let mut result = self.resized(range);
        result.set_position(new_pos);
        result
    }

    /// A copy of the reader with the position set to `new_pos`.
    #[must_use]
    pub fn clone_at(&self, new_pos: usize) -> (r: Self)
        ensures
            r.data() == self.data(),
            r.pos() == new_pos,
    {
        let mut result = *self;
        result.set_position(new_pos);
        result
    }

    /// Truncates the buffer to `length` bytes, keeping the position.
    pub fn set_end(&mut self, length: usize)
        requires
            length <= old(self).data().len(),
        ensures
            final(self).data() == old(self).data().subrange(0, length as int),
            final(self).pos() == old(self).pos(),
    {
        let p = self.position();
        self.resize_pos(0..length, p);
    }

    /// Makes the current position the new origin.
    pub fn rebase(&mut self)
        requires
            old(self).pos() <= old(self).data().len(),
        ensures
            final(self).data() == old(self).data().subrange(
                old(self).pos(),
                old(self).data().len() as int,
            ),
            final(self).pos() == 0,
    {
        let p = self.position();
        let l = self.len();
        self.resize(p..l);
    }

    /// Makes the current position the new origin, keeping `length` bytes.
    pub fn rebase_length(&mut self, length: usize)
        requires
            old(self).has(length as int),
        ensures
            final(self).data() == old(self).ahead(length as int),
            final(self).pos() == 0,
    {
        proof {
            self.lemma_bounds();
        }
        let pos = self.position();
        self.resize(pos..pos + length);
    }

    #[must_use]
    pub fn rebased(&self) -> (r: Self)
        requires
            self.pos() <= self.data().len(),
        ensures
            r.data() == self.data().subrange(self.pos(), self.data().len() as int),
            r.pos() == 0,
    {
        self.resized(self.position()..self.len())
    }

    #[must_use]
    pub fn rebased_length(&self, length: usize) -> (r: Self)
        requires
            self.has(length as int),
        ensures
            r.data() == self.ahead(length as int),
            r.pos() == 0,
    {
        proof {
            self.lemma_bounds();
        }
        let pos = self.position();
        self.resized(pos..pos + length)
    }

    pub fn buf(&self) -> (b: &'buf [u8])
        ensures
            b@ == self.data(),
    {
        self.buf
    }

    pub fn remaining_buf(&self) -> (b: &'buf [u8])
        requires
            self.pos() <= self.data().len(),
        ensures
            b@ == self.data().subrange(self.pos(), self.data().len() as int),
    {
        slice_subrange(self.buf, self.pos, self.buf.len())
    }

    pub fn len(&self) -> (n: usize)
        ensures
            n == self.data().len(),
    {
        self.buf.len()
    }

    pub fn remaining_len(&self) -> (n: usize)
        requires
            self.pos() <= self.data().len(),
        ensures
            n == self.data().len() - self.pos(),
    {
        self.len() - self.position()
    }

    pub fn is_empty(&self) -> (b: bool)
        requires
            self.pos() <= self.data().len(),
        ensures
            b == (self.pos() == self.data().len()),
    {
        self.remaining_len() == 0
    }

    pub fn position(&self) -> (p: usize)
        ensures
            p == self.pos(),
    {
        self.pos
    }

    pub fn set_position(&mut self, pos: usize)
        ensures
            final(self).data() == old(self).data(),
            final(self).pos() == pos,
    {
        self.pos = pos;
    }

    /// Reads a value and checks it; on a short buffer the position moves to the end.
    pub fn try_get<T: Readable>(&mut self) -> (res: Option<T>)
        ensures
            final(self).data() == old(self).data(),
            old(self).has(T::spec_size() as int) ==> {
                &&& final(self).pos() == old(self).pos() + T::spec_size()
                &&& res == (if T::spec_decode(old(self).ahead(T::spec_size() as int)).spec_valid() {
                    Some(T::spec_decode(old(self).ahead(T::spec_size() as int)))
                } else {
                    None
                })
            },
            !old(self).has(T::spec_size() as int) ==> res is None && final(self).pos()
                == old(self).data().len(),
    {
        match self.try_get_unvalidated::<T>() {
            Some(v) => {
                if v.validate() {
                    Some(v)
                } else {
                    None
                }
            },
            None => None,
        }
    }

    /// Reads a value without checking it; on a short buffer the position moves to the end.
    pub fn try_get_unvalidated<T: Readable>(&mut self) -> (res: Option<T>)
        ensures
            final(self).data() == old(self).data(),
            old(self).has(T::spec_size() as int) ==> {
                &&& final(self).pos() == old(self).pos() + T::spec_size()
                &&& res == Some(T::spec_decode(old(self).ahead(T::spec_size() as int)))
            },
            !old(self).has(T::spec_size() as int) ==> res is None && final(self).pos()
                == old(self).data().len(),
    {
        let size = T::size();
        let len = self.buf.len();
        if self.pos <= len && size <= len - self.pos {
            let bytes = slice_subrange(self.buf, self.pos, self.pos + size);
            let v = T::decode(bytes);
            self.pos = self.pos + size;
            Some(v)
        } else {
            self.pos = len;
            None
        }
    }

    /// Reads a value that must be present and acceptable.
    pub fn get<T: Readable>(&mut self) -> (v: T)
        requires
            old(self).has(T::spec_size() as int),
            T::spec_decode(old(self).ahead(T::spec_size() as int)).spec_valid(),
        ensures
            final(self).data() == old(self).data(),
            final(self).pos() == old(self).pos() + T::spec_size(),
            v == T::spec_decode(old(self).ahead(T::spec_size() as int)),
    {
        let r = self.try_get_unvalidated::<T>();
        r.unwrap()
    }

    /// Reads a value that must be present, without checking it.
    pub fn get_unvalidated<T: Readable>(&mut self) -> (v: T)
        requires
            old(self).has(T::spec_size() as int),
        ensures
            final(self).data() == old(self).data(),
            final(self).pos() == old(self).pos() + T::spec_size(),
            v == T::spec_decode(old(self).ahead(T::spec_size() as int)),
    {
        let r = self.try_get_unvalidated::<T>();
        r.unwrap()
    }

    /// Moves forward `len` bytes if that stays within the buffer.
    #[must_use]
    pub fn try_skip(&mut self, len: usize) -> (res: Option<()>)
        ensures
            final(self).data() == old(self).data(),
            old(self).has(len as int) ==> res is Some && final(self).pos() == old(self).pos()
                + len,
            !old(self).has(len as int) ==> res is None && final(self).pos() == old(self).pos(),
    {
        proof {
            self.lemma_bounds();
        }
        match self.pos.checked_add(len) {
            Some(end_pos) => {
                if end_pos <= self.buf.len() {
                    self.pos = end_pos;
                    Some(())
                } else {
                    None
                }
            },
            None => None,
        }
    }

    pub fn skip(&mut self, len: usize)
        requires
            old(self).has(len as int),
        ensures
            final(self).data() == old(self).data(),
            final(self).pos() == old(self).pos() + len,
    {
        let r = self.try_skip(len);
    }

    /// Moves forward to the next multiple of `alignment`, provided the skipped bytes are zero.
    #[verifier::loop_isolation(false)]
    pub fn try_align(&mut self, alignment: usize) -> (res: Option<()>)
        requires
            alignment > 0,
        ensures
            final(self).data() == old(self).data(),
            ({
                let p = old(self).pos();
                let next = p + (alignment - p % (alignment as int)) % (alignment as int);
                if next <= old(self).data().len() && forall|i: int|
                    p <= i < next ==> old(self).data()[i] == 0 {
                    res is Some && final(self).pos() == next
                } else {
                    res is None && final(self).pos() == p
                }
            }),
    {
        let pos = self.pos;
        let len = self.buf.len();
        if pos > len {
            return None;
        }
        let rem = pos % alignment;
        let pad = if rem == 0 {
            0
        } else {
            alignment - rem
        };
        assert(pad == (alignment - (pos as int) % (alignment as int)) % (alignment as int)) by {
            if rem != 0 {
                lemma_small_mod((alignment - rem) as nat, alignment as nat);
            } else {
                lemma_mod_self_0(alignment as int);
            }
        }
        if pad > len - pos {
            return None;
        }
        let next = pos + pad;
        let mut i = pos;
        while i < next
            invariant
                pos <= i <= next <= len,
                len == self.buf@.len(),
                self.buf@ == old(self).data(),
                self.pos == pos,
                forall|j: int| pos <= j < i ==> self.buf@[j] == 0,
            decreases next - i,
        {
            if self.buf[i] != 0 {
                return None;
            }
            i = i + 1;
        }
        self.pos = next;
        Some(())
    }

    pub fn align(&mut self, alignment: usize)
        requires
            alignment > 0,
            ({
                let p = old(self).pos();
                let next = p + (alignment - p % (alignment as int)) % (alignment as int);
                next <= old(self).data().len() && forall|i: int|
                    p <= i < next ==> old(self).data()[i] == 0
            }),
        ensures
            final(self).data() == old(self).data(),
            final(self).pos() == old(self).pos() + (alignment - old(self).pos() % (
            alignment as int)) % (alignment as int),
    {
        let r = self.try_align(alignment);
    }

    /// Takes the next `size` bytes.
    pub fn slice(&mut self, size: usize) -> (s: &'buf [u8])
        requires
            old(self).has(size as int),
        ensures
            final(self).data() == old(self).data(),
            final(self).pos() == old(self).pos() + size,
            s@ == old(self).ahead(size as int),
    {
        let r = self.try_slice(size);
        r.unwrap()
    }

    /// Takes the next `size` bytes if they are there; otherwise leaves the position alone.
    pub fn try_slice(&mut self, size: usize) -> (res: Option<&'buf [u8]>)
        ensures
            final(self).data() == old(self).data(),
            old(self).has(size as int) ==> res is Some && res.unwrap()@ == old(self).ahead(
                size as int,
            ) && final(self).pos() == old(self).pos() + size,
            !old(self).has(size as int) ==> res is None && final(self).pos() == old(self).pos(),
    {
        let pos = self.pos;
        match self.try_skip(size) {
            Some(()) => Some(slice_subrange(self.buf, pos, pos + size)),
            None => None,
        }
    }

    /// Takes everything from the position to the end.
    pub fn remaining_slice(&mut self) -> (s: &'buf [u8])
        requires
            old(self).pos() <= old(self).data().len(),
        ensures
            final(self).data() == old(self).data(),
            final(self).pos() == old(self).data().len(),
            s@ == old(self).data().subrange(old(self).pos(), old(self).data().len() as int),
    {
        let n = self.remaining_len();
        self.slice(n)
    }

    /// Reads a string prefixed by its length in one byte.
    pub fn pascal_str(&mut self) -> (s: &'buf str)
        requires
            old(self).has(1),
            old(self).pos() + 1 + old(self).data()[old(self).pos()] <= old(self).data().len(),
            old(self).data()[old(self).pos()] <= 100,
            spec_fixed_str(old(self).data().subrange(old(self).pos() + 1, old(self).pos() + 1
                + old(self).data()[old(self).pos()])) is Some,
        ensures
            final(self).data() == old(self).data(),
            final(self).pos() == old(self).pos() + 1 + old(self).data()[old(self).pos()],
            s.spec_bytes() == spec_fixed_str(
                old(self).data().subrange(
                    old(self).pos() + 1,
                    old(self).pos() + 1 + old(self).data()[old(self).pos()],
                ),
            ).unwrap(),
    {
        let r = self.try_pascal_str();
        r.unwrap()
    }

    /// Reads a string prefixed by its length in one byte.
    pub fn try_pascal_str(&mut self) -> (res: Option<&'buf str>)
        ensures
            final(self).data() == old(self).data(),
            ({
                let d = old(self).data();
                let p = old(self).pos();
                if !old(self).has(1) {
                    res is None && final(self).pos() == d.len()
                } else {
                    let n = d[p] as int;
                    if n > 100 || p + 1 + n > d.len() {
                        res is None && final(self).pos() == p + 1
                    } else {
                        final(self).pos() == p + 1 + n && match spec_fixed_str(
                            d.subrange(p + 1, p + 1 + n),
                        ) {
                            Some(t) => res is Some && res.unwrap().spec_bytes() == t,
                            None => res is None,
                        }
                    }
                }
            }),
    {
        let length = match self.try_u8() {
            Some(n) => n,
            None => return None,
        };
        self.try_str(length as usize)
    }

    /// Reads a string from a fixed-size field.
    pub fn str(&mut self, size: usize) -> (s: &'buf str)
        requires
            size <= 100,
            old(self).has(size as int),
            spec_fixed_str(old(self).ahead(size as int)) is Some,
        ensures
            final(self).data() == old(self).data(),
            final(self).pos() == old(self).pos() + size,
            s.spec_bytes() == spec_fixed_str(old(self).ahead(size as int)).unwrap(),
    {
        let r = self.try_str(size);
        r.unwrap()
    }

    /// Reads a string from a fixed-size field of at most 100 bytes: the text
    /// before the first NUL, which must be followed only by NULs and consist
    /// of printable ASCII, newlines, carriage returns and tabs.
    #[verifier::loop_isolation(false)]
    pub fn try_str(&mut self, size: usize) -> (res: Option<&'buf str>)
        ensures
            final(self).data() == old(self).data(),
            size > 100 ==> res is None && final(self).pos() == old(self).pos(),
            size <= 100 && !old(self).has(size as int) ==> res is None && final(self).pos()
                == old(self).pos(),
            size <= 100 && old(self).has(size as int) ==> {
                &&& final(self).pos() == old(self).pos() + size
                &&& match spec_fixed_str(old(self).ahead(size as int)) {
                    Some(t) => res is Some && res.unwrap().spec_bytes() == t,
                    None => res is None,
                }
            },
    {
        if size > 100 {
            return None;
        }
        let buf = match self.try_slice(size) {
            Some(b) => b,
            None => return None,
        };
        let n = buf.len();
        let ghost b = buf@;
        // find the first NUL
        let mut k: usize = 0;
        while k < n && buf[k] != 0
            invariant
                0 <= k <= n,
                n == b.len(),
                buf@ == b,
                nul_from(b, k as int) == nul_index(b),
            decreases n - k,
        {
            k = k + 1;
        }
        proof {
            lemma_nul_from_bounds(b, 0);
        }
        assert(k == nul_index(b));
        // everything after it must be NUL
        let mut j = k;
        while j < n
            invariant
                k <= j <= n,
                n == b.len(),
                buf@ == b,
                forall|i: int| k <= i < j ==> b[i] == 0,
            decreases n - j,
        {
            if buf[j] != 0 {
                return None;
            }
            j = j + 1;
        }
        let text = slice_subrange(buf, 0, k);
        let mut i: usize = 0;
        while i < k
            invariant
                0 <= i <= k <= n,
                n == b.len(),
                buf@ == b,
                text@ == b.subrange(0, k as int),
                forall|m: int| 0 <= m < i ==> is_text_byte(b[m]),
            decreases k - i,
        {
            let c = text[i];
            if !((0x20 <= c && c <= 0x7e) || c == 0x0a || c == 0x0d || c == 0x09) {
                return None;
            }
            i = i + 1;
        }
        utf8_str(text)
    }

    pub fn u8(&mut self) -> (v: u8)
        requires
            old(self).has(1),
        ensures
            final(self).data() == old(self).data(),
            final(self).pos() == old(self).pos() + 1,
            v == old(self).data()[old(self).pos()],
    {
        self.get::<u8>()
    }

    pub fn i8(&mut self) -> (v: i8)
        requires
            old(self).has(1),
        ensures
            final(self).data() == old(self).data(),
            final(self).pos() == old(self).pos() + 1,
            v == twos(old(self).data()[old(self).pos()] as int, 0x80),
    {
        self.get::<i8>()
    }

    pub fn u16(&mut self) -> (v: u16)
        requires
            old(self).has(2),
        ensures
            final(self).data() == old(self).data(),
            final(self).pos() == old(self).pos() + 2,
            v == le2(old(self).ahead(2)),
    {
        self.get::<u16>()
    }

    pub fn i16(&mut self) -> (v: i16)
        requires
            old(self).has(2),
        ensures
            final(self).data() == old(self).data(),
            final(self).pos() == old(self).pos() + 2,
            v == twos(le2(old(self).ahead(2)), 0x8000),
    {
        self.get::<i16>()
    }

    pub fn u32(&mut self) -> (v: u32)
        requires
            old(self).has(4),
        ensures
            final(self).data() == old(self).data(),
            final(self).pos() == old(self).pos() + 4,
            v == le4(old(self).ahead(4)),
    {
        self.get::<u32>()
    }

    pub fn i32(&mut self) -> (v: i32)
        requires
            old(self).has(4),
        ensures
            final(self).data() == old(self).data(),
            final(self).pos() == old(self).pos() + 4,
            v == twos(le4(old(self).ahead(4)), 0x8000_0000),
    {
        self.get::<i32>()
    }

    pub fn u64(&mut self) -> (v: u64)
        requires
            old(self).has(8),
        ensures
            final(self).data() == old(self).data(),
            final(self).pos() == old(self).pos() + 8,
            v == le8(old(self).ahead(8)),
    {
        self.get::<u64>()
    }

    pub fn i64(&mut self) -> (v: i64)
        requires
            old(self).has(8),
        ensures
            final(self).data() == old(self).data(),
            final(self).pos() == old(self).pos() + 8,
            v == twos(le8(old(self).ahead(8)), 0x8000_0000_0000_0000),
    {
        self.get::<i64>()
    }

    pub fn try_u8(&mut self) -> (res: Option<u8>)
        ensures
            final(self).data() == old(self).data(),
            old(self).has(1) ==> final(self).pos() == old(self).pos() + 1 && res == Some((old(self).data()[old(self).pos()]) as u8),
            !old(self).has(1) ==> res is None && final(self).pos() == old(self).data().len(),
    {
        self.try_get::<u8>()
    }

    pub fn try_i8(&mut self) -> (res: Option<i8>)
        ensures
            final(self).data() == old(self).data(),
            old(self).has(1) ==> final(self).pos() == old(self).pos() + 1 && res == Some((twos(old(self).data()[old(self).pos()] as int, 0x80)) as i8),
            !old(self).has(1) ==> res is None && final(self).pos() == old(self).data().len(),
    {
        self.try_get::<i8>()
    }

    pub fn try_u16(&mut self) -> (res: Option<u16>)
        ensures
            final(self).data() == old(self).data(),
            old(self).has(2) ==> final(self).pos() == old(self).pos() + 2 && res == Some((le2(old(self).ahead(2))) as u16),
            !old(self).has(2) ==> res is None && final(self).pos() == old(self).data().len(),
    {
        self.try_get::<u16>()
    }

    pub fn try_i16(&mut self) -> (res: Option<i16>)
        ensures
            final(self).data() == old(self).data(),
            old(self).has(2) ==> final(self).pos() == old(self).pos() + 2 && res == Some((twos(le2(old(self).ahead(2)), 0x8000)) as i16),
            !old(self).has(2) ==> res is None && final(self).pos() == old(self).data().len(),
    {
        self.try_get::<i16>()
    }

    pub fn try_u32(&mut self) -> (res: Option<u32>)
        ensures
            final(self).data() == old(self).data(),
            old(self).has(4) ==> final(self).pos() == old(self).pos() + 4 && res == Some((le4(old(self).ahead(4))) as u32),
            !old(self).has(4) ==> res is None && final(self).pos() == old(self).data().len(),
    {
        self.try_get::<u32>()
    }

    pub fn try_i32(&mut self) -> (res: Option<i32>)
        ensures
            final(self).data() == old(self).data(),
            old(self).has(4) ==> final(self).pos() == old(self).pos() + 4 && res == Some((twos(le4(old(self).ahead(4)), 0x8000_0000)) as i32),
            !old(self).has(4) ==> res is None && final(self).pos() == old(self).data().len(),
    {
        self.try_get::<i32>()
    }

    pub fn try_u64(&mut self) -> (res: Option<u64>)
        ensures
            final(self).data() == old(self).data(),
            old(self).has(8) ==> final(self).pos() == old(self).pos() + 8 && res == Some((le8(old(self).ahead(8))) as u64),
            !old(self).has(8) ==> res is None && final(self).pos() == old(self).data().len(),
    {
        self.try_get::<u64>()
    }

    pub fn try_i64(&mut self) -> (res: Option<i64>)
        ensures
            final(self).data() == old(self).data(),
            old(self).has(8) ==> final(self).pos() == old(self).pos() + 8 && res == Some((twos(le8(old(self).ahead(8)), 0x8000_0000_0000_0000)) as i64),
            !old(self).has(8) ==> res is None && final(self).pos() == old(self).data().len(),
    {
        self.try_get::<i64>()
    }

    /// Decoded values at the position, `count` of them.
    pub open spec fn values_ahead<T: Readable>(&self, count: nat) -> Seq<T> {
        decode_seq::<T>(self.data().subrange(self.pos(), self.data().len() as int), count)
    }

    /// Reads `count` values that are known to fit; with `check`, stops at the first rejected one.
    #[verifier::loop_isolation(false)]
    fn read_values<T: Readable>(&mut self, count: usize, check: bool) -> (res: Option<Vec<T>>)
        requires
            old(self).has(count * T::spec_size()),
        ensures
            final(self).data() == old(self).data(),
            ({
                let vals = old(self).values_ahead::<T>(count as nat);
                if !check || forall|i: int| 0 <= i < count ==> #[trigger] vals[i].spec_valid() {
                    res is Some && res.unwrap()@ == vals && final(self).pos() == old(self).pos()
                        + count * T::spec_size()
                } else {
                    res is None
                }
            }),
    {
        let ghost d = self.data();
        let ghost start = self.pos();
        let ghost size = T::spec_size() as int;
        let ghost vals = self.values_ahead::<T>(count as nat);
        let mut result: Vec<T> = Vec::new();
        let mut i: usize = 0;
        proof {
            assert(result@ + vals == vals);
        }
        while i < count
            invariant
                0 <= i <= count,
                self.data() == d,
                self.pos() == start + i * size,
                self.pos() + (count - i) * size <= d.len(),
                result@.len() == i,
                result@ + decode_seq::<T>(
                    d.subrange(self.pos(), d.len() as int),
                    (count - i) as nat,
                ) == vals,
                check ==> forall|j: int| 0 <= j < i ==> #[trigger] result@[j].spec_valid(),
            decreases count - i,
        {
            let ghost p = self.pos();
            let ghost rest = d.subrange(p, d.len() as int);
            proof {
                assert((count - i) * size == (count - i - 1) * size + size) by (nonlinear_arith);
                assert(0 <= (count - i - 1) * size) by (nonlinear_arith)
                    requires count - i - 1 >= 0, size >= 0;
                assert(rest.subrange(0, size) == d.subrange(p, p + size));
                assert(rest.subrange(size, rest.len() as int) == d.subrange(p + size, d.len() as int));
                assert(start + (i + 1) * size == start + i * size + size) by (nonlinear_arith);
            }
            let v = self.get_unvalidated::<T>();
            if check && !v.validate() {
                proof {
                    assert(vals[i as int] == v);
                }
                return None;
            }
            let ghost old_result = result@;
            result.push(v);
            proof {
                assert(result@ == old_result + seq![v]);
                assert(result@ + decode_seq::<T>(d.subrange(self.pos(), d.len() as int), (count - i - 1) as nat)
                    == old_result + decode_seq::<T>(rest, (count - i) as nat));
            }
            i = i + 1;
        }
        proof {
            assert(result@ + Seq::<T>::empty() == result@);
        }
        Some(result)
    }

    /// Reads `count` values that must be present and acceptable.
    pub fn get_vec<T: Readable>(&mut self, count: usize) -> (v: Vec<T>)
        requires
            old(self).has(count * T::spec_size()),
            forall|i: int| 0 <= i < count ==> #[trigger] old(self).values_ahead::<T>(count as nat)[i].spec_valid(),
        ensures
            final(self).data() == old(self).data(),
            final(self).pos() == old(self).pos() + count * T::spec_size(),
            v@ == old(self).values_ahead::<T>(count as nat),
    {
        let r = self.read_values::<T>(count, true);
        r.unwrap()
    }

    /// Reads `count` values, or nothing when they do not all fit or one is rejected.
    pub fn try_get_vec<T: Readable>(&mut self, count: usize) -> (res: Option<Vec<T>>)
        requires
            count * T::spec_size() <= usize::MAX,
            old(self).pos() <= old(self).data().len(),
        ensures
            final(self).data() == old(self).data(),
            !old(self).has(count * T::spec_size()) ==> res is None && final(self).pos() == old(self).pos(),
            old(self).has(count * T::spec_size()) ==> ({
                let vals = old(self).values_ahead::<T>(count as nat);
                if forall|i: int| 0 <= i < count ==> #[trigger] vals[i].spec_valid() {
                    res is Some && res.unwrap()@ == vals && final(self).pos() == old(self).pos()
                        + count * T::spec_size()
                } else {
                    res is None
                }
            }),
    {
        let total = count * T::size();
        if total > self.remaining_len() {
            return None;
        }
        self.read_values::<T>(count, true)
    }

    /// Reads `count` values without checking them, or nothing when they do not all fit.
    pub fn try_get_vec_unvalidated<T: Readable>(&mut self, count: usize) -> (res: Option<Vec<T>>)
        requires
            count * T::spec_size() <= usize::MAX,
            old(self).pos() <= old(self).data().len(),
        ensures
            final(self).data() == old(self).data(),
            !old(self).has(count * T::spec_size()) ==> res is None && final(self).pos() == old(self).pos(),
            old(self).has(count * T::spec_size()) ==> res is Some && res.unwrap()@
                == old(self).values_ahead::<T>(count as nat) && final(self).pos() == old(self).pos()
                + count * T::spec_size(),
    {
        let total = count * T::size();
        if total > self.remaining_len() {
            return None;
        }
        self.read_values::<T>(count, false)
    }

    /// Reads the bits of an accepted float.
    pub fn try_f32_bits(&mut self) -> (res: Option<FloatBits>)
        ensures
            final(self).data() == old(self).data(),
            old(self).has(4) ==> final(self).pos() == old(self).pos() + 4 && res == (if float_ok(
                le4(old(self).ahead(4)) as u32,
            ) {
                Some(FloatBits(le4(old(self).ahead(4)) as u32))
            } else {
                None
            }),
            !old(self).has(4) ==> res is None && final(self).pos() == old(self).data().len(),
    {
        self.try_get::<FloatBits>()
    }
}

} // verus!
