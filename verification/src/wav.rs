//! Reading the length of the audio in a WAV file from its RIFF header.
//!
//! A WAV file is a `RIFF` container of type `WAVE`: after the 12-byte
//! container header come chunks, each an ASCII tag of four bytes, a
//! little-endian 32-bit size, and that many bytes of payload (padded to an
//! even length). The `fmt ` chunk gives the byte rate at offset 8 of its
//! payload; the `data` chunk holds the samples. Durations are the data size
//! over the byte rate; the division, being floating point, is left to the
//! caller.

use vstd::prelude::*;

verus! {

/// The value of the little-endian 32-bit integer at `at`.
pub open spec fn le_value(b: Seq<u8>, at: int) -> int {
    b[at] + 256 * b[at + 1] + 65536 * b[at + 2] + 16777216 * b[at + 3]
}

/// A little-endian 32-bit integer lies in `0..2^32`.
pub proof fn lemma_le_value_range(b: Seq<u8>, at: int)
    requires
        0 <= at,
        at + 4 <= b.len(),
    ensures
        0 <= le_value(b, at) < 0x1_0000_0000,
{
    let x0 = b[at];
    let x1 = b[at + 1];
    let x2 = b[at + 2];
    let x3 = b[at + 3];
    assert(0 <= x0 < 256 && 0 <= x1 < 256 && 0 <= x2 < 256 && 0 <= x3 < 256);
}

/// The little-endian 32-bit integer at `at`.
pub open spec fn le_u32(b: Seq<u8>, at: int) -> u32 {
    le_value(b, at) as u32
}

/// The four bytes at `at` are `tag`.
pub open spec fn tag_at(b: Seq<u8>, at: int, tag: Seq<u8>) -> bool {
    0 <= at && at + 4 <= b.len() && b.subrange(at, at + 4) == tag
}

/// `RIFF`
pub open spec fn riff_tag() -> Seq<u8> {
    seq![0x52u8, 0x49u8, 0x46u8, 0x46u8]
}

/// `WAVE`
pub open spec fn wave_tag() -> Seq<u8> {
    seq![0x57u8, 0x41u8, 0x56u8, 0x45u8]
}

/// `fmt `
pub open spec fn fmt_tag() -> Seq<u8> {
    seq![0x66u8, 0x6du8, 0x74u8, 0x20u8]
}

/// `data`
pub open spec fn data_tag() -> Seq<u8> {
    seq![0x64u8, 0x61u8, 0x74u8, 0x61u8]
}

/// The file is long enough for a canonical header and starts as a RIFF
/// container of type WAVE.
pub open spec fn wav_container(b: Seq<u8>) -> bool {
    b.len() >= 44 && tag_at(b, 0, riff_tag()) && tag_at(b, 8, wave_tag())
}

/// Where the chunk after the one at `pos` starts: past its header, its
/// payload and the pad byte of an odd payload.
pub open spec fn next_chunk(b: Seq<u8>, pos: int) -> int {
    pos + 8 + le_value(b, pos + 4) + le_value(b, pos + 4) % 2
}

/// The size of the first `data` chunk at or after `pos`, walking the chunks.
pub open spec fn data_size_from(b: Seq<u8>, pos: int) -> Option<u32>
    decreases if pos <= b.len() { b.len() - pos } else { 0 },
{
    if pos < 0 || pos + 8 > b.len() {
        None
    } else if tag_at(b, pos, data_tag()) {
        Some(le_u32(b, pos + 4))
    } else {
        proof {
            lemma_le_value_range(b, pos + 4);
        }
        data_size_from(b, next_chunk(b, pos))
    }
}

/// The data size and byte rate of a WAV file, the byte rate being read at
/// its canonical place (offset 28) and required to be non-zero.
pub open spec fn data_and_rate(b: Seq<u8>) -> Option<(u32, u32)> {
    if !wav_container(b) || le_u32(b, 28) == 0 {
        None
    } else {
        match data_size_from(b, 12) {
            Some(size) => Some((size, le_u32(b, 28))),
            None => None,
        }
    }
}

/// Walks the chunks from `pos`, taking the byte rate from each complete
/// `fmt ` chunk met, and gives the size of the first `data` chunk met once a
/// non-zero byte rate is known, with that rate.
pub open spec fn sample_walk(b: Seq<u8>, pos: int, rate: u32) -> Option<(u32, u32)>
    decreases if pos <= b.len() { b.len() - pos } else { 0 },
{
    if pos < 0 || pos + 8 > b.len() {
        None
    } else if tag_at(b, pos, fmt_tag()) && 24 <= b.len() - pos {
        sample_walk(b, next_chunk(b, pos), le_u32(b, pos + 16))
    } else if tag_at(b, pos, data_tag()) && rate > 0 {
        Some((le_u32(b, pos + 4), rate))
    } else {
        proof {
            lemma_le_value_range(b, pos + 4);
        }
        sample_walk(b, next_chunk(b, pos), rate)
    }
}

/// The data size and byte rate of a WAV file, the byte rate being taken
/// from its `fmt ` chunk.
pub open spec fn sample_size_and_rate(b: Seq<u8>) -> Option<(u32, u32)> {
    if !wav_container(b) {
        None
    } else {
        sample_walk(b, 12, 0)
    }
}

fn read_le_u32(b: &[u8], at: usize) -> (v: u32)
    requires
        at + 4 <= b@.len(),
    ensures
        v == le_u32(b@, at as int),
        v == le_value(b@, at as int),
{
    let x0 = b[at] as u32;
    let x1 = b[at + 1] as u32;
    let x2 = b[at + 2] as u32;
    let x3 = b[at + 3] as u32;
    x0 + 256 * x1 + 65536 * x2 + 16777216 * x3
}

fn has_tag(b: &[u8], at: usize, t0: u8, t1: u8, t2: u8, t3: u8) -> (r: bool)
    requires
        at + 4 <= b@.len(),
    ensures
        r == (b@.subrange(at as int, at + 4) == seq![t0, t1, t2, t3]),
{
    let r = b[at] == t0 && b[at + 1] == t1 && b[at + 2] == t2 && b[at + 3] == t3;
    if r {
        assert(b@.subrange(at as int, at + 4) =~= seq![t0, t1, t2, t3]);
    } else {
        proof {
            if b@.subrange(at as int, at + 4) == seq![t0, t1, t2, t3] {
                assert(b@.subrange(at as int, at + 4)[0] == t0);
                assert(b@.subrange(at as int, at + 4)[1] == t1);
                assert(b@.subrange(at as int, at + 4)[2] == t2);
                assert(b@.subrange(at as int, at + 4)[3] == t3);
            }
        }
    }
    r
}

fn is_wav_container(b: &[u8]) -> (r: bool)
    ensures
        r == wav_container(b@),
{
    if b.len() < 44 {
        return false;
    }
    has_tag(b, 0, 0x52, 0x49, 0x46, 0x46) && has_tag(b, 8, 0x57, 0x41, 0x56, 0x45)
}

/// The start of the chunk after the one at `pos`, when a chunk header could
/// still fit there.
fn step_chunk(b: &[u8], pos: usize) -> (next: Option<usize>)
    requires
        pos <= b.len(),
        8 <= b.len() - pos,
    ensures
        match next {
            Some(n) => n == next_chunk(b@, pos as int) && n <= b.len() && 8 <= b.len() - n,
            None => next_chunk(b@, pos as int) + 8 > b@.len(),
        },
{
    let size = read_le_u32(b, pos + 4) as u64;
    let step = 8 + size + size % 2;
    let room = (b.len() - pos) as u64;
    if step + 8 > room {
        None
    } else {
        Some(pos + step as usize)
    }
}

/// The data size and byte rate of a WAV file, byte rate at offset 28:
/// `None` when the header is not a RIFF/WAVE one, the byte rate is zero, or
/// no `data` chunk is found. The duration in seconds is the size over the
/// rate.
pub fn wav_data_and_rate(b: &[u8]) -> (r: Option<(u32, u32)>)
    ensures
        r == data_and_rate(b@),
{
    if !is_wav_container(b) {
        return None;
    }
    let rate = read_le_u32(b, 28);
    if rate == 0 {
        return None;
    }
    let mut pos: usize = 12;
    while pos <= b.len() && 8 <= b.len() - pos
        invariant
            pos <= b@.len(),
            data_size_from(b@, 12) == data_size_from(b@, pos as int),
            wav_container(b@),
            rate == le_u32(b@, 28),
            rate != 0,
        decreases b@.len() - pos,
    {
        if has_tag(b, pos, 0x64, 0x61, 0x74, 0x61) {
            return Some((read_le_u32(b, pos + 4), rate));
        }
        match step_chunk(b, pos) {
            Some(n) => {
                pos = n;
            },
            None => {
                assert(data_size_from(b@, next_chunk(b@, pos as int)) is None);
                return None;
            },
        }
    }
    None
}

/// The data size and byte rate of a WAV file, byte rate from the `fmt `
/// chunk: `None` when the header is not a RIFF/WAVE one or no `data` chunk
/// comes after a non-zero byte rate. The duration in seconds is the size
/// over the rate.
pub fn wav_sample_size_and_rate(b: &[u8]) -> (r: Option<(u32, u32)>)
    ensures
        r == sample_size_and_rate(b@),
{
    if !is_wav_container(b) {
        return None;
    }
    let mut rate: u32 = 0;
    let mut pos: usize = 12;
    while pos <= b.len() && 8 <= b.len() - pos
        invariant
            pos <= b@.len(),
            sample_size_and_rate(b@) == sample_walk(b@, pos as int, rate),
        decreases b@.len() - pos,
    {
        if has_tag(b, pos, 0x66, 0x6d, 0x74, 0x20) && 24 <= b.len() - pos {
            rate = read_le_u32(b, pos + 16);
        } else if has_tag(b, pos, 0x64, 0x61, 0x74, 0x61) && rate > 0 {
            return Some((read_le_u32(b, pos + 4), rate));
        }
        match step_chunk(b, pos) {
            Some(n) => {
                pos = n;
            },
            None => {
                assert(sample_walk(b@, next_chunk(b@, pos as int), rate) is None);
                return None;
            },
        }
    }
    None
}


/// The canonical 44-byte header: a RIFF/WAVE container whose first chunk is
/// a 16-byte `fmt ` chunk with byte rate `rate`, followed by a `data` chunk
/// of `size` bytes.
pub open spec fn canonical_header(b: Seq<u8>, rate: u32, size: u32) -> bool {
    &&& wav_container(b)
    &&& tag_at(b, 12, fmt_tag())
    &&& le_value(b, 16) == 16
    &&& le_u32(b, 28) == rate
    &&& tag_at(b, 36, data_tag())
    &&& le_u32(b, 40) == size
}

/// Both readings of a canonical header with a non-zero byte rate give the
/// size of its `data` chunk and its byte rate, whatever follows the header.
pub proof fn law_canonical_header_duration(b: Seq<u8>, rate: u32, size: u32)
    requires
        canonical_header(b, rate, size),
        rate > 0,
    ensures
        data_and_rate(b) == Some((size, rate)),
        sample_size_and_rate(b) == Some((size, rate)),
{
    assert(b.subrange(12, 16)[0] == 0x66u8);
    assert(!tag_at(b, 12, data_tag()));
    assert(b.subrange(36, 40)[0] == 0x64u8);
    assert(!tag_at(b, 36, fmt_tag()));
    assert(next_chunk(b, 12) == 36);
    assert(data_size_from(b, 36) == Some(size));
    assert(data_size_from(b, 12) == Some(size));
    assert(sample_walk(b, 36, rate) == Some((size, rate)));
    assert(sample_walk(b, 12, 0) == Some((size, rate)));
}

} // verus!
