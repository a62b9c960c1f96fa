//! RIFF/WAVE PCM validator: overlays the fixed 44-byte
//! `RIFF / fmt / data` header layout at the candidate offset, checks the
//! chunk ids and the PCM consistency equations, and reports the header plus
//! the `data` sub-chunk.
//!
//! Size policy (tolerant): the reported size is the 44-byte header plus the
//! `data` sub-chunk size, clamped to the end of the buffer if the sub-chunk
//! claims more bytes than the buffer holds; a candidate whose RIFF chunk
//! size is smaller than its `data` sub-chunk size is rejected outright.

use super::{le16, le32, DetectOptions, Detector, RiffWaveDetector, StreamMatch};
use vstd::prelude::*;

verus! {

/// The structural conditions on a RIFF/WAVE PCM header at `off`: the
/// "RIFF" / "WAVE" / "fmt " / "data" tags, linear PCM format, a 16-byte
/// `fmt ` sub-chunk, and the byte-rate / block-align consistency equations.
pub open spec fn wav_header_ok(b: Seq<u8>, off: int) -> bool {
    &&& off + 44 <= b.len()
    &&& b[off] == 0x52 && b[off + 1] == 0x49 && b[off + 2] == 0x46 && b[off + 3]
        == 0x46  // "RIFF"
    &&& b[off + 8] == 0x57 && b[off + 9] == 0x41 && b[off + 10] == 0x56 && b[off + 11]
        == 0x45  // "WAVE"
    &&& b[off + 12] == 0x66 && b[off + 13] == 0x6d && b[off + 14] == 0x74 && b[off + 15]
        == 0x20  // "fmt "
    &&& b[off + 36] == 0x64 && b[off + 37] == 0x61 && b[off + 38] == 0x74 && b[off + 39]
        == 0x61  // "data"
    &&& le16(b, off + 20) == 1  // audio_format: linear PCM
    &&& le32(b, off + 16) == 16  // fmt sub-chunk size
    &&& le32(b, off + 28) == le32(b, off + 24) * le16(b, off + 22) * le16(b, off + 34)
        / 8  // byte_rate
    &&& le16(b, off + 32) == le16(b, off + 22) * le16(b, off + 34) / 8  // block_align
}

/// The validator's verdict on a candidate at `off`: `None` for a rejected
/// candidate, otherwise the reported stream size.
pub open spec fn wav_result(b: Seq<u8>, off: int) -> Option<int> {
    if !wav_header_ok(b, off) {
        None
    } else if le32(b, off + 4) < le32(b, off + 40) {
        // RIFF chunk size smaller than the data sub-chunk size
        None
    } else if off + 44 + le32(b, off + 40) > b.len() {
        Some(b.len() - off)
    } else {
        Some(44 + le32(b, off + 40))
    }
}

/// Validates a RIFF/WAVE PCM candidate at `offset`, returning its exact
/// region and the `wav` extension, or `None` for anything that is not a
/// consistent PCM header.
pub fn detect_riff_wave(buffer: &[u8], offset: usize) -> (r: Option<StreamMatch<'static>>)
    ensures
        r matches Some(m) ==> {
            &&& m.offset == offset
            &&& 0 < m.size
            &&& offset + m.size <= buffer@.len()
            &&& wav_result(buffer@, offset as int) == Some(m.size as int)
            &&& m.ext@ == "wav"@
        },
        r is None ==> wav_result(buffer@, offset as int) is None,
{
    let n = buffer.len();
    if offset > n || n - offset < 44 {
        return None;
    }
    if buffer[offset] != 0x52 || buffer[offset + 1] != 0x49 || buffer[offset + 2] != 0x46
        || buffer[offset + 3] != 0x46 {
        return None;
    }
    if buffer[offset + 8] != 0x57 || buffer[offset + 9] != 0x41 || buffer[offset + 10] != 0x56
        || buffer[offset + 11] != 0x45 {
        return None;
    }
    if buffer[offset + 12] != 0x66 || buffer[offset + 13] != 0x6d || buffer[offset + 14] != 0x74
        || buffer[offset + 15] != 0x20 {
        return None;
    }
    if buffer[offset + 36] != 0x64 || buffer[offset + 37] != 0x61 || buffer[offset + 38] != 0x74
        || buffer[offset + 39] != 0x61 {
        return None;
    }
    if super::read_u16_le(buffer, offset + 20) != 1 {
        return None;
    }
    if super::read_u32_le(buffer, offset + 16) != 16 {
        return None;
    }
    let channels = super::read_u16_le(buffer, offset + 22) as u64;
    let sample_rate = super::read_u32_le(buffer, offset + 24) as u64;
    let byte_rate = super::read_u32_le(buffer, offset + 28) as u64;
    let block_align = super::read_u16_le(buffer, offset + 32) as u64;
    let bits_per_sample = super::read_u16_le(buffer, offset + 34) as u64;
    proof {
        assert(sample_rate * channels < 0x1000000000000) by (nonlinear_arith)
            requires
                sample_rate < 0x100000000,
                channels < 0x10000,
        ;
        assert((sample_rate * channels) * bits_per_sample < 0x10000000000000000)
            by (nonlinear_arith)
            requires
                sample_rate * channels < 0x1000000000000,
                bits_per_sample < 0x10000,
        ;
        assert(channels * bits_per_sample < 0x100000000) by (nonlinear_arith)
            requires
                channels < 0x10000,
                bits_per_sample < 0x10000,
        ;
    }
    if byte_rate != sample_rate * channels * bits_per_sample / 8 {
        return None;
    }
    if block_align != channels * bits_per_sample / 8 {
        return None;
    }
    let data_size = super::read_u32_le(buffer, offset + 40) as usize;
    let chunk_size = super::read_u32_le(buffer, offset + 4) as usize;
    if chunk_size < data_size {
        return None;
    }
    let avail = n - offset;
    let size = if data_size > avail - 44 {
        avail
    } else {
        44 + data_size
    };
    Some(StreamMatch { offset, size, ext: "wav" })
}

impl Detector for RiffWaveDetector {
    fn detect(&self, buffer: &[u8], offset: usize, opts: &DetectOptions) -> (r: Option<
        StreamMatch,
    >)
        ensures
            r matches Some(m) ==> wav_result(buffer@, offset as int) == Some(m.size as int)
                && m.ext@ == "wav"@,
            r is None ==> wav_result(buffer@, offset as int) is None,
    {
        detect_riff_wave(buffer, offset)
    }
}

} // verus!
