//! RIFF/WAVE sound files embedded in the game's archives.

use vstd::prelude::*;
use vstd::string::*;

use crate::data_formats::image_formats::Outcome;
use crate::reader::{le2, le4, Reader};
use crate::text::{lemma_no_nul, lemma_nul_from_bounds, spec_fixed_str};

verus! {

broadcast use crate::reader::lemma_reader_bounds;

/// A PCM sound file, kept as the bytes of the whole file.
pub struct Wav<'a> {
    pub file_data: &'a [u8],
    pub num_channels: u16,
    pub samples_per_second: u32,
    pub bits_per_sample: u16,
    /// The number of sample frames; the duration is this over `samples_per_second`.
    pub num_samples: usize,
}

pub struct WavView {
    pub file_data: Seq<u8>,
    pub num_channels: u16,
    pub samples_per_second: u32,
    pub bits_per_sample: u16,
    pub num_samples: int,
}

impl<'a> View for Wav<'a> {
    type V = WavView;

    open spec fn view(&self) -> WavView {
        WavView {
            file_data: self.file_data@,
            num_channels: self.num_channels,
            samples_per_second: self.samples_per_second,
            bits_per_sample: self.bits_per_sample,
            num_samples: self.num_samples as int,
        }
    }
}

pub open spec fn riff_tag() -> Seq<u8> {
    seq![0x52u8, 0x49, 0x46, 0x46]
}

pub open spec fn wave_fmt_tag() -> Seq<u8> {
    seq![0x57u8, 0x41, 0x56, 0x45, 0x66, 0x6d, 0x74, 0x20]
}

pub open spec fn data_tag() -> Seq<u8> {
    seq![0x64u8, 0x61, 0x74, 0x61]
}

/// The chunks of a WAVE file from position `q`: a 4-byte text id, a size and
/// that many bytes; the contents of the first chunk named "data".
pub open spec fn wav_chunks(f: Seq<u8>, q: int) -> Option<Seq<u8>>
    decreases f.len() - q,
{
    if q < 0 || q + 4 > f.len() || spec_fixed_str(f.subrange(q, q + 4)) is None || q + 8 > f.len() {
        None
    } else {
        let size = le4(f.subrange(q + 4, q + 8));
        let r = q + 8;
        if r + size > f.len() {
            None
        } else if f.subrange(q, q + 4) == data_tag() {
            Some(f.subrange(r, r + size))
        } else {
            wav_chunks(f, r + size)
        }
    }
}

/// What a decoded sound holds, by byte place from `p`: it starts with
/// "RIFF", its file is the 8 bytes of header and the length stored at 4..8,
/// "WAVEfmt " follows at 8, the format is 1 (PCM) at 20, the channels are at
/// 22, the sample rate at 24, the bits per sample at 34 (whole bytes); the
/// block size at 32 is not zero, and the sample count is not negative.
pub proof fn lemma_wav_fields(d: Seq<u8>, p: int)
    requires
        0 <= p,
    ensures
        spec_wav(d, p) matches Outcome::Value(w) ==> {
            let e = d.subrange(p, d.len() as int);
            let fl = e[4] + e[5] * 0x100 + e[6] * 0x10000 + e[7] * 0x1000000;
            &&& e.len() >= 36
            &&& e[0] == 0x52 && e[1] == 0x49 && e[2] == 0x46 && e[3] == 0x46
            &&& e[8] == 0x57 && e[9] == 0x41 && e[10] == 0x56 && e[11] == 0x45
            &&& e[12] == 0x66 && e[13] == 0x6d && e[14] == 0x74 && e[15] == 0x20
            &&& w.file_data == d.subrange(p, p + 8 + fl)
            &&& e[20] == 1 && e[21] == 0
            &&& w.num_channels as int == e[22] + e[23] * 0x100
            &&& w.samples_per_second as int == e[24] + e[25] * 0x100 + e[26] * 0x10000 + e[27] * 0x1000000
            &&& w.bits_per_sample as int == e[34] + e[35] * 0x100
            &&& w.bits_per_sample % 8 == 0
            &&& e[32] + e[33] * 0x100 > 0
            &&& w.num_samples >= 0
        },
{
    if let Outcome::Value(w) = spec_wav(d, p) {
        let e = d.subrange(p, d.len() as int);
        let fl = le4(e.subrange(4, 8));
        let f = e.subrange(0, fl + 8);
        assert(e.subrange(0, 4) == riff_tag());
        assert(e.subrange(0, 4)[0] == e[0] && e.subrange(0, 4)[1] == e[1] && e.subrange(0, 4)[2] == e[2]
            && e.subrange(0, 4)[3] == e[3]);
        assert(f.subrange(8, 16) == wave_fmt_tag());
        assert(forall|i: int| 0 <= i < 8 ==> #[trigger] f.subrange(8, 16)[i] == e[8 + i]);
        assert(f.subrange(8, 16)[0] == e[8]);
        assert(f.subrange(8, 16)[1] == e[9]);
        assert(f.subrange(8, 16)[2] == e[10]);
        assert(f.subrange(8, 16)[3] == e[11]);
        assert(f.subrange(8, 16)[4] == e[12]);
        assert(f.subrange(8, 16)[5] == e[13]);
        assert(f.subrange(8, 16)[6] == e[14]);
        assert(f.subrange(8, 16)[7] == e[15]);
        let hs = le4(f.subrange(16, 20));
        assert(hs >= 16 && f.len() - 20 >= hs);
        assert(le2(f.subrange(20, 22)) == 1);
        assert(f[20] + f[21] * 256 == 1);
        let bps = le2(f.subrange(32, 34));
        assert(bps > 0);
        match wav_chunks(f, 20 + hs) {
            Some(samples) => {
                assert((samples.len() as int) / bps >= 0) by (nonlinear_arith)
                    requires
                        bps > 0,
                ;
            },
            None => {},
        }
    }
}

/// A WAVE file at position `p` of `d`: "RIFF", the length, "WAVEfmt ", a format
/// header of at least 16 bytes for uncompressed whole-byte samples, then chunks.
/// A zero sample size is not survived.
pub open spec fn spec_wav(d: Seq<u8>, p: int) -> Outcome<WavView> {
    if p > d.len() {
        Outcome::Aborted
    } else {
        let e = d.subrange(p, d.len() as int);
        if e.len() < 8 || e.subrange(0, 4) != riff_tag() {
            Outcome::Rejected
        } else {
            let fl = le4(e.subrange(4, 8));
            if fl > e.len() - 8 {
                Outcome::Rejected
            } else {
                let f = e.subrange(0, fl + 8);
                if f.len() < 20 || f.subrange(8, 16) != wave_fmt_tag() {
                    Outcome::Rejected
                } else {
                    let hs = le4(f.subrange(16, 20));
                    if hs < 16 || f.len() - 20 < hs || le2(f.subrange(20, 22)) != 1 || le2(
                        f.subrange(34, 36),
                    ) % 8 != 0 {
                        Outcome::Rejected
                    } else {
                        match wav_chunks(f, 20 + hs) {
                            None => Outcome::Rejected,
                            Some(samples) => {
                                let bps = le2(f.subrange(32, 34));
                                if bps == 0 {
                                    Outcome::Aborted
                                } else {
                                    Outcome::Value(
                                        WavView {
                                            file_data: d.subrange(p, p + fl + 8),
                                            num_channels: le2(f.subrange(22, 24)) as u16,
                                            samples_per_second: le4(f.subrange(24, 28)) as u32,
                                            bits_per_sample: le2(f.subrange(34, 36)) as u16,
                                            num_samples: (samples.len() as int) / bps,
                                        },
                                    )
                                }
                            },
                        }
                    }
                }
            }
        }
    }
}

/// Whether a 4-byte span holds "RIFF".
fn is_riff(s: &[u8]) -> (b: bool)
    requires
        s@.len() == 4,
    ensures
        b == (s@ == riff_tag()),
{
    let r = s[0] == 0x52 && s[1] == 0x49 && s[2] == 0x46 && s[3] == 0x46;
    assert(r ==> s@ =~= riff_tag());
    r
}

/// Whether an 8-byte span holds "WAVEfmt ".
fn is_wave_fmt(s: &[u8]) -> (b: bool)
    requires
        s@.len() == 8,
    ensures
        b == (s@ == wave_fmt_tag()),
{
    let r = s[0] == 0x57 && s[1] == 0x41 && s[2] == 0x56 && s[3] == 0x45 && s[4] == 0x66 && s[5]
        == 0x6d && s[6] == 0x74 && s[7] == 0x20;
    assert(r ==> s@ =~= wave_fmt_tag());
    r
}


/// Walks the chunks from the reader's position to the first one named "data".
fn find_data_chunk<'a>(reader: &mut Reader<'a>) -> (res: Option<&'a [u8]>)
    ensures
        match wav_chunks(old(reader).data(), old(reader).pos()) {
            Some(s) => res is Some && res.unwrap()@ == s,
            None => res is None,
        },
{
    let ghost f = reader.data();
    let ghost start = reader.pos();
    let samples: &'a [u8];
    loop
        invariant_except_break
            reader.data() == f,
            f == old(reader).data(),
            start == old(reader).pos(),
            wav_chunks(f, reader.pos()) == wav_chunks(f, start),
        ensures
            wav_chunks(f, start) == Some(samples@),
        decreases f.len() - reader.pos(),
    {
        let chunk_id = match reader.try_str(4) {
            Some(s) => s,
            None => return None,
        };
        let chunk_size = match reader.try_u32() {
            Some(n) => n as usize,
            None => return None,
        };
        let chunk_data = match reader.try_slice(chunk_size) {
            Some(s) => s,
            None => return None,
        };
        let id = chunk_id.as_bytes();
        let ghost q = reader.pos() - chunk_size - 8;
        let ghost raw = f.subrange(q, q + 4);
        proof {
            lemma_nul_from_bounds(raw, 0);
            if raw == data_tag() {
                lemma_no_nul(raw, 0);
                assert(raw.subrange(0, 4) =~= raw);
            }
        }
        if id.len() == 4 && id[0] == 0x64 && id[1] == 0x61 && id[2] == 0x74 && id[3] == 0x61 {
            assert(raw =~= data_tag());
            samples = chunk_data;
            break ;
        }
    }
    Some(samples)
}

impl<'a> Wav<'a> {
    /// Decodes a WAVE file at the reader's position, telling a rejected input
    /// from one that a parser does not survive; on success the reader moves past it.
    pub fn try_parse_outcome(base_reader: &mut Reader<'a>) -> (res: Outcome<Wav<'a>>)
        ensures
            final(base_reader).data() == old(base_reader).data(),
            match spec_wav(old(base_reader).data(), old(base_reader).pos()) {
                Outcome::Value(w) => res matches Outcome::Value(x) && x@ == w && final(base_reader).pos()
                    == old(base_reader).pos() + w.file_data.len(),
                Outcome::Rejected => res is Rejected && final(base_reader).pos() == old(base_reader).pos(),
                Outcome::Aborted => res is Aborted && final(base_reader).pos() == old(base_reader).pos(),
            },
    {
        let ghost d = base_reader.data();
        let ghost p = base_reader.pos();
        if base_reader.position() > base_reader.len() {
            return Outcome::Aborted;
        }
        let mut reader = base_reader.rebased();
        let ghost e = reader.data();
        let riff = match reader.try_slice(4) {
            Some(s) => s,
            None => return Outcome::Rejected,
        };
        if !is_riff(riff) {
            return Outcome::Rejected;
        }
        let file_length = match reader.try_u32() {
            Some(n) => n as usize,
            None => return Outcome::Rejected,
        };
        if file_length > reader.remaining_len() {
            return Outcome::Rejected;
        }
        reader.set_end(file_length + 8);
        let ghost f = reader.data();
        assert(f == e.subrange(0, file_length + 8));
        let wave = match reader.try_slice(8) {
            Some(s) => s,
            None => return Outcome::Rejected,
        };
        if !is_wave_fmt(wave) {
            return Outcome::Rejected;
        }
        let header_size = match reader.try_u32() {
            Some(n) => n as usize,
            None => return Outcome::Rejected,
        };
        if header_size < 16 || reader.remaining_len() < header_size {
            return Outcome::Rejected;
        }
        let audio_format = reader.u16();
        if audio_format != 1 {
            return Outcome::Rejected;
        }
        let num_channels = reader.u16();
        let samples_per_second = reader.u32();
        let _bytes_per_sec = reader.u32();
        let bytes_per_sample = reader.u16() as usize;
        let bits_per_sample = reader.u16();
        if bits_per_sample % 8 != 0 {
            return Outcome::Rejected;
        }
        reader.skip(header_size - 16);
        let samples = match find_data_chunk(&mut reader) {
            Some(s) => s,
            None => return Outcome::Rejected,
        };
        if bytes_per_sample == 0 {
            return Outcome::Aborted;
        }
        let num_samples = samples.len() / bytes_per_sample;
        let file_data = base_reader.slice(file_length + 8);
        Outcome::Value(Wav { file_data, num_channels, samples_per_second, bits_per_sample, num_samples })
    }

    /// Parses a WAVE file at the reader's position; on success the reader moves past it.
    pub fn try_parse(base_reader: &mut Reader<'a>) -> (res: Option<Wav<'a>>)
        requires
            !(spec_wav(old(base_reader).data(), old(base_reader).pos()) is Aborted),
        ensures
            final(base_reader).data() == old(base_reader).data(),
            match spec_wav(old(base_reader).data(), old(base_reader).pos()) {
                Outcome::Value(w) => res is Some && res.unwrap()@ == w && final(base_reader).pos()
                    == old(base_reader).pos() + w.file_data.len(),
                _ => res is None && final(base_reader).pos() == old(base_reader).pos(),
            },
    {
        match Self::try_parse_outcome(base_reader) {
            Outcome::Value(w) => Some(w),
            _ => None,
        }
    }

    /// Parses a WAVE file that must be well formed.
    pub fn parse(reader: &mut Reader<'a>) -> (w: Wav<'a>)
        requires
            spec_wav(old(reader).data(), old(reader).pos()) is Value,
        ensures
            final(reader).data() == old(reader).data(),
            w@ == spec_wav(old(reader).data(), old(reader).pos())->Value_0,
            final(reader).pos() == old(reader).pos() + w@.file_data.len(),
    {
        let r = Self::try_parse(reader);
        r.unwrap()
    }
}

/// A sound with the flags stored beside it in its archive.
pub struct SoundInfo<'a> {
    pub wav: Wav<'a>,
    pub flags: u32,
}

} // verus!
