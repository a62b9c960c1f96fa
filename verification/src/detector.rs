//! Shared types and contracts of the format validators, plus the
//! little-endian field readers they decode headers with.

pub mod aac;
pub mod bitmap;
pub mod mp3;
pub mod ogg;
pub mod riff_wave;

use vstd::prelude::*;

verus! {

/// Bounds on the number of consecutive valid frames an MPEG frame-chain
/// validator (AAC, MP3) requires and allows; a value of 0 disables the
/// corresponding bound.
#[derive(Debug, Clone, Copy)]
pub struct DetectOptions {
    pub mpeg_min_frames: u8,
    pub mpeg_max_frames: u16,
}

impl Default for DetectOptions {
    /// The default frame-chain bounds: at least 20 and at most 10000
    /// consecutive frames.
    fn default() -> (r: Self)
        ensures
            r.mpeg_min_frames == 20,
            r.mpeg_max_frames == 10000,
    {
        DetectOptions { mpeg_min_frames: 20, mpeg_max_frames: 10000 }
    }
}

/// A confirmed stream: its absolute start `offset` in the host buffer, its
/// exact byte length `size`, and the canonical file extension for its format.
#[derive(Debug, Clone, Copy)]
pub struct StreamMatch<'a> {
    pub offset: usize,
    pub size: usize,
    pub ext: &'a str,
}

/// The closed set of stream formats the validators recognize.
#[derive(Debug, Clone, Copy, PartialEq, Eq, Structural)]
pub enum StreamType {
    RiffWave,
    Bitmap,
    Ogg,
    Aac,
    Mp3,
}

/// Common contract of the five validators: a confirmed match starts at the
/// candidate offset, is never empty, and never extends past the buffer.
pub trait Detector {
    fn detect(&self, buffer: &[u8], offset: usize, opts: &DetectOptions) -> (r: Option<
        StreamMatch,
    >)
        ensures
            r matches Some(m) ==> m.offset == offset && 0 < m.size && offset + m.size
                <= buffer@.len(),
    ;
}

pub struct RiffWaveDetector;

pub struct BitmapDetector;

pub struct OggDetector;

pub struct AacDetector;

pub struct Mp3Detector;

/// The number of frames an MPEG frame-chain walk may still consume: `max`
/// when the frame bound is enabled, otherwise more frames than any chain in
/// a buffer of length `len` can have (every frame is at least one byte).
pub open spec fn chain_budget(len: nat, max: nat) -> nat {
    if max == 0 {
        len + 1
    } else {
        max
    }
}

/// The 16-bit little-endian value stored at byte positions `i` and `i + 1`.
pub open spec fn le16(b: Seq<u8>, i: int) -> int {
    b[i] + 0x100 * b[i + 1]
}

/// The 32-bit little-endian value stored at byte positions `i` .. `i + 4`.
pub open spec fn le32(b: Seq<u8>, i: int) -> int {
    b[i] + 0x100 * b[i + 1] + 0x10000 * b[i + 2] + 0x1000000 * b[i + 3]
}

/// Reads the little-endian `u16` field at offset `i`.
pub fn read_u16_le(buffer: &[u8], i: usize) -> (r: u16)
    requires
        i + 2 <= buffer@.len(),
    ensures
        r == le16(buffer@, i as int),
{
    (buffer[i] as u16) + 0x100 * (buffer[i + 1] as u16)
}

/// Reads the little-endian `u32` field at offset `i`.
pub fn read_u32_le(buffer: &[u8], i: usize) -> (r: u32)
    requires
        i + 4 <= buffer@.len(),
    ensures
        r == le32(buffer@, i as int),
{
    (buffer[i] as u32) + 0x100 * (buffer[i + 1] as u32) + 0x10000 * (buffer[i + 2] as u32)
        + 0x1000000 * (buffer[i + 3] as u32)
}

} // verus!
