//! The 44-byte header of a mono, 48 kHz, 24-bit PCM WAV file: how it is
//! written, how it is read back, and which formats can carry packed video.
//!
//! Layout (little-endian fields):
//!   0..4 "RIFF", 4..8 file size - 8, 8..12 "WAVE", 12..16 "fmt ",
//!   16..20 fmt chunk size 16, 20..22 format 1 (PCM), 22..24 channels,
//!   24..28 sample rate, 28..32 byte rate, 32..34 block align,
//!   34..36 bits per sample, 36..40 "data", 40..44 data size, then the data.

use vstd::prelude::*;
use vstd::string::*;

use crate::endian::{
    get_le16, get_le32, le16, le32, lemma_le16_roundtrip, lemma_le32_roundtrip, push_le16, push_le32,
    read_le16, read_le32,
};
use crate::text::{decimal, numbered, push_decimal};

verus! {

/// Size of the header; the PCM data starts right after it.
pub const WAV_HEADER_SIZE: u64 = 44;

/// Samples per second of a track that carries video.
pub const SAMPLE_RATE: u32 = 48_000;

/// Bits per sample of a track that carries video.
pub const BITS_PER_SAMPLE: u16 = 24;

/// Channels of a track that carries video.
pub const CHANNELS: u16 = 1;

/// Bytes per second: sample rate times channels times bytes per sample.
pub const BYTE_RATE: u32 = 144_000;

/// Bytes per sample frame: channels times bytes per sample.
pub const BLOCK_ALIGN: u16 = 3;

/// "RIFF"
pub open spec fn riff_tag() -> Seq<u8> {
    seq![0x52u8, 0x49u8, 0x46u8, 0x46u8]
}

/// "WAVE"
pub open spec fn wave_tag() -> Seq<u8> {
    seq![0x57u8, 0x41u8, 0x56u8, 0x45u8]
}

/// "fmt "
pub open spec fn fmt_tag() -> Seq<u8> {
    seq![0x66u8, 0x6du8, 0x74u8, 0x20u8]
}

/// "data"
pub open spec fn data_tag() -> Seq<u8> {
    seq![0x64u8, 0x61u8, 0x74u8, 0x61u8]
}

/// The header of a mono 48 kHz 24-bit PCM file whose size fields hold
/// `file_size` (bytes after the first 8) and `data_size` (bytes of PCM data).
pub open spec fn wav_header_bytes(file_size: u32, data_size: u32) -> Seq<u8> {
    riff_tag() + le32(file_size) + wave_tag() + fmt_tag() + le32(16) + le16(1) + le16(CHANNELS)
        + le32(SAMPLE_RATE) + le32(BYTE_RATE) + le16(BLOCK_ALIGN) + le16(BITS_PER_SAMPLE)
        + data_tag() + le32(data_size)
}

/// What the header of a WAV file says of its data.
pub struct WavData {
    pub sample_rate: u32,
    pub bits_per_sample: u16,
    pub channels: u16,
    pub data_offset: u64,
    pub data_size: u64,
}

/// Why a header is not that of a linear PCM WAV file.
#[derive(Debug, Clone, Copy, PartialEq, Eq)]
pub enum WavHeaderError {
    MissingRiff,
    MissingWave,
    MissingFmt,
    MissingData,
    Compressed { audio_format: u16 },
}

/// The four bytes of `s` at `off` are `tag`.
pub open spec fn tag_at(s: Seq<u8>, off: int, tag: Seq<u8>) -> bool {
    s.subrange(off, off + 4) == tag
}

/// What the 44 bytes `h` of a header say: the first tag out of place, a
/// compressed format, or the fields of a linear PCM file.
pub open spec fn parsed_wav_header(h: Seq<u8>) -> Result<WavData, WavHeaderError> {
    if !tag_at(h, 0, riff_tag()) {
        Err(WavHeaderError::MissingRiff)
    } else if !tag_at(h, 8, wave_tag()) {
        Err(WavHeaderError::MissingWave)
    } else if !tag_at(h, 12, fmt_tag()) {
        Err(WavHeaderError::MissingFmt)
    } else if !tag_at(h, 36, data_tag()) {
        Err(WavHeaderError::MissingData)
    } else if read_le16(h, 20) != 1 {
        Err(WavHeaderError::Compressed { audio_format: read_le16(h, 20) as u16 })
    } else {
        Ok(
            WavData {
                sample_rate: read_le32(h, 24) as u32,
                bits_per_sample: read_le16(h, 34) as u16,
                channels: read_le16(h, 22) as u16,
                data_offset: WAV_HEADER_SIZE,
                data_size: read_le32(h, 40) as u64,
            },
        )
    }
}

/// The text that explains a header error to the user.
pub open spec fn wav_header_error_text(e: WavHeaderError) -> Seq<char> {
    match e {
        WavHeaderError::MissingRiff => "Este arquivo não é um WAV válido (marcador RIFF ausente)."@,
        WavHeaderError::MissingWave => "Este arquivo não é um WAV válido (marcador WAVE ausente)."@,
        WavHeaderError::MissingFmt => "Este WAV não tem o sub-chunk 'fmt ' no local esperado."@,
        WavHeaderError::MissingData => "Este WAV não tem o sub-chunk 'data' no local esperado."@,
        WavHeaderError::Compressed { audio_format } => "Este WAV está comprimido (formato "@
            + decimal(audio_format as nat)
            + "). É necessário WAV PCM linear (formato 1)."@,
    }
}

impl WavHeaderError {
    /// The text that explains the error to the user.
    pub fn message(&self) -> (s: String)
        ensures
            s@ == wav_header_error_text(*self),
    {
        match self {
            WavHeaderError::MissingRiff => String::from_str(
                "Este arquivo não é um WAV válido (marcador RIFF ausente).",
            ),
            WavHeaderError::MissingWave => String::from_str(
                "Este arquivo não é um WAV válido (marcador WAVE ausente).",
            ),
            WavHeaderError::MissingFmt => String::from_str(
                "Este WAV não tem o sub-chunk 'fmt ' no local esperado.",
            ),
            WavHeaderError::MissingData => String::from_str(
                "Este WAV não tem o sub-chunk 'data' no local esperado.",
            ),
            WavHeaderError::Compressed { audio_format } => numbered(
                "Este WAV está comprimido (formato ",
                *audio_format as u128,
                "). É necessário WAV PCM linear (formato 1).",
            ),
        }
    }
}

fn push4(buf: &mut Vec<u8>, b0: u8, b1: u8, b2: u8, b3: u8)
    ensures
        final(buf)@ == old(buf)@ + seq![b0, b1, b2, b3],
{
    buf.push(b0);
    buf.push(b1);
    buf.push(b2);
    buf.push(b3);
}

fn header_with_sizes(file_size: u32, data_size: u32) -> (h: Vec<u8>)
    ensures
        h@ == wav_header_bytes(file_size, data_size),
{
    let mut h: Vec<u8> = Vec::with_capacity(44);
    push4(&mut h, 0x52, 0x49, 0x46, 0x46);
    push_le32(&mut h, file_size);
    push4(&mut h, 0x57, 0x41, 0x56, 0x45);
    push4(&mut h, 0x66, 0x6d, 0x74, 0x20);
    push_le32(&mut h, 16);
    push_le16(&mut h, 1);
    push_le16(&mut h, CHANNELS);
    push_le32(&mut h, SAMPLE_RATE);
    push_le32(&mut h, BYTE_RATE);
    push_le16(&mut h, BLOCK_ALIGN);
    push_le16(&mut h, BITS_PER_SAMPLE);
    push4(&mut h, 0x64, 0x61, 0x74, 0x61);
    push_le32(&mut h, data_size);
    h
}

/// The header written before the data, with both size fields still 0.
pub fn placeholder_header() -> (h: Vec<u8>)
    ensures
        h@ == wav_header_bytes(0, 0),
{
    header_with_sizes(0, 0)
}

/// The header of a file holding `data_size` bytes of PCM data; each size
/// field keeps the low 32 bits of its value.
pub fn wav_header(data_size: u64) -> (h: Vec<u8>)
    requires
        data_size + 36 <= u64::MAX,
    ensures
        h@ == wav_header_bytes((data_size + 36) as u32, data_size as u32),
{
    let file_size: u64 = (WAV_HEADER_SIZE - 8) + data_size;
    header_with_sizes(file_size as u32, data_size as u32)
}

fn has_tag(s: &[u8], off: usize, t0: u8, t1: u8, t2: u8, t3: u8) -> (b: bool)
    requires
        off + 4 <= s@.len(),
    ensures
        b == tag_at(s@, off as int, seq![t0, t1, t2, t3]),
{
    let b = s[off] == t0 && s[off + 1] == t1 && s[off + 2] == t2 && s[off + 3] == t3;
    proof {
        if b {
            assert(s@.subrange(off as int, off + 4) =~= seq![t0, t1, t2, t3]);
        } else {
            if s@.subrange(off as int, off + 4) == seq![t0, t1, t2, t3] {
                assert(s@.subrange(off as int, off + 4)[0] == t0);
                assert(s@.subrange(off as int, off + 4)[1] == t1);
                assert(s@.subrange(off as int, off + 4)[2] == t2);
                assert(s@.subrange(off as int, off + 4)[3] == t3);
            }
        }
    }
    b
}

/// Reads the 44 header bytes of a WAV file: the tags "RIFF", "WAVE",
/// "fmt " and "data" must stand in their places and the format must be 1
/// (linear PCM).
pub fn parse_wav_header(header: &[u8]) -> (r: Result<WavData, WavHeaderError>)
    requires
        header@.len() == WAV_HEADER_SIZE,
    ensures
        r == parsed_wav_header(header@),
        r is Ok <==> (header@.subrange(0, 4) == seq![0x52u8, 0x49u8, 0x46u8, 0x46u8]
            && header@.subrange(8, 12) == seq![0x57u8, 0x41u8, 0x56u8, 0x45u8] && header@.subrange(
            12,
            16,
        ) == seq![0x66u8, 0x6du8, 0x74u8, 0x20u8] && header@.subrange(36, 40) == seq![
            0x64u8,
            0x61u8,
            0x74u8,
            0x61u8,
        ] && header@[20] + 256 * header@[21] == 1),
        header@.subrange(0, 4) != seq![0x52u8, 0x49u8, 0x46u8, 0x46u8] ==> r
            == Err::<WavData, WavHeaderError>(WavHeaderError::MissingRiff),
        header@.subrange(0, 4) == seq![0x52u8, 0x49u8, 0x46u8, 0x46u8] && header@.subrange(8, 12)
            != seq![0x57u8, 0x41u8, 0x56u8, 0x45u8] ==> r == Err::<WavData, WavHeaderError>(
            WavHeaderError::MissingWave,
        ),
        r matches Err(WavHeaderError::Compressed { audio_format }) ==> audio_format == header@[20]
            + 256 * header@[21] && audio_format != 1,
        r matches Ok(m) ==> {
            &&& m.channels == header@[22] + 256 * header@[23]
            &&& m.sample_rate == header@[24] + 256 * header@[25] + 65536 * header@[26] + 16777216
                * header@[27]
            &&& m.bits_per_sample == header@[34] + 256 * header@[35]
            &&& m.data_offset == 44
            &&& m.data_size == header@[40] + 256 * header@[41] + 65536 * header@[42] + 16777216
                * header@[43]
        },
{
    if !has_tag(header, 0, 0x52, 0x49, 0x46, 0x46) {
        return Err(WavHeaderError::MissingRiff);
    }
    if !has_tag(header, 8, 0x57, 0x41, 0x56, 0x45) {
        return Err(WavHeaderError::MissingWave);
    }
    if !has_tag(header, 12, 0x66, 0x6d, 0x74, 0x20) {
        return Err(WavHeaderError::MissingFmt);
    }
    if !has_tag(header, 36, 0x64, 0x61, 0x74, 0x61) {
        return Err(WavHeaderError::MissingData);
    }
    let audio_format = get_le16(header, 20);
    if audio_format != 1 {
        return Err(WavHeaderError::Compressed { audio_format });
    }
    let channels = get_le16(header, 22);
    let sample_rate = get_le32(header, 24);
    let bits_per_sample = get_le16(header, 34);
    let data_size = get_le32(header, 40) as u64;
    Ok(WavData { sample_rate, bits_per_sample, channels, data_offset: WAV_HEADER_SIZE, data_size })
}

/// A track can carry packed video: 48 kHz, 24-bit, mono.
pub open spec fn carries_video_format(meta: WavData) -> bool {
    meta.sample_rate == SAMPLE_RATE && meta.bits_per_sample == BITS_PER_SAMPLE && meta.channels
        == CHANNELS
}

/// The text that explains why a track cannot carry packed video.
pub open spec fn wav_format_text(meta: WavData) -> Seq<char> {
    "Este WAV está no formato "@ + decimal(meta.sample_rate as nat) + " Hz, "@ + decimal(
        meta.bits_per_sample as nat,
    ) + "-bit, "@ + decimal(meta.channels as nat)
        + " canal(is). Para conter vídeo ISDCF Doc 13, ele precisa ser 48.000 Hz, 24-bit, mono."@
}

/// `None` when the track is 48 kHz, 24-bit, mono; otherwise the text that
/// says which format it has and which one it needs.
pub fn validate_wav_format(meta: &WavData) -> (r: Option<String>)
    ensures
        r is None <==> carries_video_format(*meta),
        r is None <==> (meta.sample_rate == 48000 && meta.bits_per_sample == 24 && meta.channels
            == 1),
        r matches Some(m) ==> m@ == wav_format_text(*meta),
{
    if meta.sample_rate == SAMPLE_RATE && meta.bits_per_sample == BITS_PER_SAMPLE && meta.channels
        == CHANNELS {
        None
    } else {
        let mut s = numbered("Este WAV está no formato ", meta.sample_rate as u128, " Hz, ");
        push_decimal(&mut s, meta.bits_per_sample as u128);
        s.append("-bit, ");
        push_decimal(&mut s, meta.channels as u128);
        s.append(
            " canal(is). Para conter vídeo ISDCF Doc 13, ele precisa ser 48.000 Hz, 24-bit, mono.",
        );
        Some(s)
    }
}

/// A header written by `wav_header` reads back as a 48 kHz, 24-bit, mono
/// linear PCM file whose data size is the one written, and so passes
/// `validate_wav_format`.
pub proof fn lemma_written_header_reads_back(file_size: u32, data_size: u32)
    ensures
        parsed_wav_header(wav_header_bytes(file_size, data_size)) == Ok::<WavData, WavHeaderError>(
            WavData {
                sample_rate: SAMPLE_RATE,
                bits_per_sample: BITS_PER_SAMPLE,
                channels: CHANNELS,
                data_offset: WAV_HEADER_SIZE,
                data_size: data_size as u64,
            },
        ),
        carries_video_format(parsed_wav_header(wav_header_bytes(file_size, data_size))->Ok_0),
{
    let h = wav_header_bytes(file_size, data_size);
    assert(h.len() == 44);
    lemma_le16_roundtrip(1);
    lemma_le16_roundtrip(CHANNELS);
    lemma_le16_roundtrip(BITS_PER_SAMPLE);
    lemma_le32_roundtrip(SAMPLE_RATE);
    lemma_le32_roundtrip(data_size);
    assert(h.subrange(0, 4) =~= riff_tag());
    assert(h.subrange(8, 12) =~= wave_tag());
    assert(h.subrange(12, 16) =~= fmt_tag());
    assert(h.subrange(36, 40) =~= data_tag());
    assert(read_le16(h, 20) == read_le16(le16(1), 0));
    assert(read_le16(h, 22) == read_le16(le16(CHANNELS), 0));
    assert(read_le32(h, 24) == read_le32(le32(SAMPLE_RATE), 0));
    assert(read_le16(h, 34) == read_le16(le16(BITS_PER_SAMPLE), 0));
    assert(read_le32(h, 40) == read_le32(le32(data_size), 0));
}

} // verus!
