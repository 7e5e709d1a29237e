use vstd::prelude::*;

verus! {

/// The little-endian 16-bit number at `i`.
pub open spec fn le16(b: Seq<u8>, i: int) -> int {
    b[i] + 256 * b[i + 1]
}

/// The little-endian 32-bit number at `i`.
pub open spec fn le32(b: Seq<u8>, i: int) -> int {
    b[i] + 256 * b[i + 1] + 65536 * b[i + 2] + 16777216 * b[i + 3]
}

/// Whether the four bytes at `i` are `tag`.
pub open spec fn tag_at(b: Seq<u8>, i: int, tag: Seq<u8>) -> bool {
    0 <= i && i + 4 <= b.len() && b.subrange(i, i + 4) == tag
}

/// `RIFF`
pub open spec fn riff_tag() -> Seq<u8> {
    seq![0x52u8, 0x49u8, 0x46u8, 0x46u8]
}

/// `WAVE`
pub open spec fn wave_tag() -> Seq<u8> {
    seq![0x57u8, 0x41u8, 0x56u8, 0x45u8]
}

/// `fmt `
pub open spec fn fmt_tag() -> Seq<u8> {
    seq![0x66u8, 0x6du8, 0x74u8, 0x20u8]
}

/// `data`
pub open spec fn data_tag() -> Seq<u8> {
    seq![0x64u8, 0x61u8, 0x74u8, 0x61u8]
}

/// The first chunk tagged `tag` among the chunks from `p` on: where its body starts and
/// the size its header gives. A chunk is a tag, a little-endian 32-bit size and a body,
/// padded to an even size; the walk stops where no full header is left.
pub open spec fn find_chunk(b: Seq<u8>, p: int, tag: Seq<u8>) -> Option<(int, int)>
    decreases
            if 0 <= p < b.len() {
                b.len() - p
            } else {
                0
            },
{
    if p < 0 || p + 8 > b.len() {
        None
    } else if b.subrange(p, p + 4) == tag {
        Some((p + 8, le32(b, p + 4)))
    } else {
        find_chunk(b, p + 8 + le32(b, p + 4) + le32(b, p + 4) % 2, tag)
    }
}

/// How the samples of a WAV file are stored.
#[derive(Debug, Clone, Copy, PartialEq, Eq, Structural)]
pub enum WavSampleFormat {
    /// Signed 16-bit integers.
    Pcm16,
    /// 32-bit floats.
    Float32,
}

/// Why bytes cannot be read as a WAV file.
#[derive(Debug, Clone, Copy, PartialEq, Eq, Structural)]
pub enum WavError {
    /// No `RIFF` header of kind `WAVE`.
    NotWave,
    /// No complete `fmt ` chunk.
    NoFormat,
    /// A sample format other than 16-bit integers or 32-bit floats, or no channel.
    Unsupported,
    /// No `data` chunk.
    NoData,
}

/// What a WAV file holds: its sample format, channel count and rate, and where its
/// interleaved samples lie.
#[derive(Debug, Clone, Copy, PartialEq, Eq, Structural)]
pub struct WavInfo {
    pub format: WavSampleFormat,
    pub channels: u16,
    pub sample_rate: u32,
    pub data_start: usize,
    pub data_len: usize,
}

/// The sample format of the format code and bit depth of a `fmt ` chunk, if supported.
pub open spec fn sample_format_of(code: int, bits: int) -> Option<WavSampleFormat> {
    if code == 1 && bits == 16 {
        Some(WavSampleFormat::Pcm16)
    } else if code == 3 && bits == 32 {
        Some(WavSampleFormat::Float32)
    } else {
        None
    }
}

/// What the bytes `b` hold as a WAV file: the `fmt ` chunk gives the format code (at 0),
/// channels (at 2), sample rate (at 4) and bits per sample (at 14); the samples are the
/// body of the `data` chunk, cut where the bytes end.
pub open spec fn wav_info(b: Seq<u8>) -> Result<WavInfo, WavError> {
    if !(tag_at(b, 0, riff_tag()) && tag_at(b, 8, wave_tag())) {
        Err(WavError::NotWave)
    } else {
        match find_chunk(b, 12, fmt_tag()) {
            None => Err(WavError::NoFormat),
            Some((s, size)) => if size < 16 || s + 16 > b.len() {
                Err(WavError::NoFormat)
            } else {
                match sample_format_of(le16(b, s), le16(b, s + 14)) {
                    None => Err(WavError::Unsupported),
                    Some(format) => if le16(b, s + 2) == 0 {
                        Err(WavError::Unsupported)
                    } else {
                        match find_chunk(b, 12, data_tag()) {
                            None => Err(WavError::NoData),
                            Some((d, dsize)) => Ok(
                                WavInfo {
                                    format,
                                    channels: le16(b, s + 2) as u16,
                                    sample_rate: le32(b, s + 4) as u32,
                                    data_start: d as usize,
                                    data_len: (if d + dsize <= b.len() {
                                        dsize
                                    } else {
                                        b.len() - d
                                    }) as usize,
                                },
                            ),
                        }
                    },
                }
            },
        }
    }
}

/// The little-endian 16-bit number at `i`.
fn read_le16(b: &[u8], i: usize) -> (n: u16)
    requires
        i + 2 <= b@.len(),
    ensures
        n == le16(b@, i as int),
{
    let lo = b[i] as u16;
    let hi = b[i + 1] as u16;
    lo + 256 * hi
}

/// The little-endian 32-bit number at `i`.
fn read_le32(b: &[u8], i: usize) -> (n: u32)
    requires
        i + 4 <= b@.len(),
    ensures
        n == le32(b@, i as int),
{
    let b0 = b[i] as u32;
    let b1 = b[i + 1] as u32;
    let b2 = b[i + 2] as u32;
    let b3 = b[i + 3] as u32;
    b0 + 256 * b1 + 65536 * b2 + 16777216 * b3
}

/// Whether the four bytes at `i` are `t0 t1 t2 t3`.
fn has_tag(b: &[u8], i: usize, t0: u8, t1: u8, t2: u8, t3: u8) -> (r: bool)
    requires
        i + 4 <= b@.len(),
    ensures
        r == (b@.subrange(i as int, i + 4) == seq![t0, t1, t2, t3]),
{
    let r = b[i] == t0 && b[i + 1] == t1 && b[i + 2] == t2 && b[i + 3] == t3;
    proof {
        if r {
            assert(b@.subrange(i as int, i + 4) =~= seq![t0, t1, t2, t3]);
        } else {
            if b@.subrange(i as int, i + 4) == seq![t0, t1, t2, t3] {
                assert(b@.subrange(i as int, i + 4)[0] == t0);
                assert(b@.subrange(i as int, i + 4)[1] == t1);
                assert(b@.subrange(i as int, i + 4)[2] == t2);
                assert(b@.subrange(i as int, i + 4)[3] == t3);
            }
        }
    }
    r
}

/// Walks the chunks from `start` to the first tagged `t0 t1 t2 t3` (see `find_chunk`).
fn find_chunk_at(b: &[u8], start: usize, t0: u8, t1: u8, t2: u8, t3: u8) -> (r: Option<
    (usize, u32),
>)
    ensures
        match find_chunk(b@, start as int, seq![t0, t1, t2, t3]) {
            None => r is None,
            Some((s, size)) => r matches Some(x) && x.0 == s && x.1 == size,
        },
{
    let ghost tag = seq![t0, t1, t2, t3];
    let len = b.len();
    let mut pos = start;
    while pos <= len && len - pos >= 8
        invariant
            len == b@.len(),
            tag == seq![t0, t1, t2, t3],
            find_chunk(b@, pos as int, tag) == find_chunk(b@, start as int, tag),
        decreases len - pos,
    {
        let size = read_le32(b, pos + 4);
        if has_tag(b, pos, t0, t1, t2, t3) {
            return Some((pos + 8, size));
        }
        let pad: u32 = size % 2;
        let room = len - (pos + 8);
        if size as usize > room || pad as usize > room - size as usize {
            proof {
                let next = pos + 8 + size + pad;
                assert(next + 8 > b@.len());
                assert(find_chunk(b@, next, tag) is None);
            }
            return None;
        }
        pos = pos + 8 + size as usize + pad as usize;
    }
    None
}

/// Reads the header of a WAV file: its sample format, channels, sample rate and where its
/// samples lie (see `wav_info`), or why it cannot be read.
pub fn read_wav_info(bytes: &[u8]) -> (r: Result<WavInfo, WavError>)
    ensures
        r == wav_info(bytes@),
{
    let len = bytes.len();
    if len < 12 || !has_tag(bytes, 0, 0x52, 0x49, 0x46, 0x46) || !has_tag(
        bytes,
        8,
        0x57,
        0x41,
        0x56,
        0x45,
    ) {
        return Err(WavError::NotWave);
    }
    let (s, size) = match find_chunk_at(bytes, 12, 0x66, 0x6d, 0x74, 0x20) {
        None => {
            return Err(WavError::NoFormat);
        },
        Some(found) => found,
    };
    if size < 16 || s > len || len - s < 16 {
        return Err(WavError::NoFormat);
    }
    let code = read_le16(bytes, s);
    let channels = read_le16(bytes, s + 2);
    let sample_rate = read_le32(bytes, s + 4);
    let bits = read_le16(bytes, s + 14);
    let format = if code == 1 && bits == 16 {
        WavSampleFormat::Pcm16
    } else if code == 3 && bits == 32 {
        WavSampleFormat::Float32
    } else {
        return Err(WavError::Unsupported);
    };
    if channels == 0 {
        return Err(WavError::Unsupported);
    }
    let (d, dsize) = match find_chunk_at(bytes, 12, 0x64, 0x61, 0x74, 0x61) {
        None => {
            return Err(WavError::NoData);
        },
        Some(found) => found,
    };
    proof {
        lemma_chunk_body_in_bounds(bytes@, 12, data_tag());
    }
    let data_len = if dsize as usize <= len - d {
        dsize as usize
    } else {
        len - d
    };
    Ok(WavInfo { format, channels, sample_rate, data_start: d, data_len })
}

/// A chunk that is found has its header within the bytes.
proof fn lemma_chunk_body_in_bounds(b: Seq<u8>, p: int, tag: Seq<u8>)
    ensures
        find_chunk(b, p, tag) matches Some((s, size)) ==> 8 <= s <= b.len() && 0 <= size,
    decreases
            if 0 <= p < b.len() {
                b.len() - p
            } else {
                0
            },
{
    if 0 <= p && p + 8 <= b.len() && b.subrange(p, p + 4) != tag {
        lemma_chunk_body_in_bounds(b, p + 8 + le32(b, p + 4) + le32(b, p + 4) % 2, tag);
    }
}

impl WavInfo {
    /// The bytes that one sample of one channel takes.
    pub open spec fn sample_bytes(self) -> int {
        match self.format {
            WavSampleFormat::Pcm16 => 2,
            WavSampleFormat::Float32 => 4,
        }
    }

    /// The number of whole frames (one sample of each channel) in the data.
    pub fn frames_count(&self) -> (n: usize)
        requires
            self.channels > 0,
        ensures
            n == self.data_len as int / (self.channels * self.sample_bytes()),
    {
        let sample_bytes: usize = match self.format {
            WavSampleFormat::Pcm16 => 2,
            WavSampleFormat::Float32 => 4,
        };
        let frame_bytes = self.channels as usize * sample_bytes;
        self.data_len / frame_bytes
    }
}

} // verus!
