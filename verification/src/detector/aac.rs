//! ADTS AAC validator: walks a chain of 7-byte ADTS frame headers starting
//! at the candidate offset. Each header is checked bit-field by bit-field
//! and its 13-bit frame-length field gives the distance to the next frame.
//! The walk stops on an invalid header, an exhausted buffer, or after
//! `mpeg_max_frames` frames (when nonzero); the chain is rejected when it
//! has at most `mpeg_min_frames` frames (when nonzero), when it is empty,
//! or when its accumulated size would extend past the buffer.

use super::{chain_budget, AacDetector, DetectOptions, Detector, StreamMatch};
use vstd::prelude::*;

verus! {

/// The fixed ADTS bit pattern of a frame header at `p`: sync byte, MPEG-4
/// sync extension, layer and protection bits, zero reserved bits, and an
/// all-ones buffer-fullness field.
pub open spec fn aac_header_ok(b: Seq<u8>, p: int) -> bool {
    &&& b[p] == 0xff
    &&& b[p + 1] & 0xf0 == 0xf0
    &&& b[p + 1] & 0x06 == 0x00
    &&& b[p + 2] & 0x02 == 0x00
    &&& b[p + 3] & 0x3c == 0x00
    &&& b[p + 5] & 0x1f == 0x1f
    &&& b[p + 6] & 0xfc == 0xfc
    &&& b[p + 6] & 0x03 == 0x00
}

/// The 13-bit ADTS frame length at `p`: the low two bits of byte 3, all of
/// byte 4, and the high three bits of byte 5.
pub open spec fn aac_frame_len(b: Seq<u8>, p: int) -> int {
    (b[p + 3] % 4) * 0x800 + b[p + 4] * 8 + b[p + 5] / 0x20
}

/// The frame length parsed at `p`, or 0 when the header is invalid.
pub open spec fn aac_step(b: Seq<u8>, p: int) -> int {
    if aac_header_ok(b, p) {
        aac_frame_len(b, p)
    } else {
        0
    }
}

/// Frames and bytes of the ADTS frame chain starting at `p`, consuming at
/// most `budget` frames: a frame is consumed whenever seven header bytes
/// fit in the buffer and parse to a nonzero frame length.
pub open spec fn aac_chain(b: Seq<u8>, p: int, budget: nat) -> (nat, nat)
    decreases budget,
{
    if budget == 0 || p + 7 > b.len() {
        (0nat, 0nat)
    } else {
        let fl = aac_step(b, p);
        if fl <= 0 {
            (0nat, 0nat)
        } else {
            let rest = aac_chain(b, p + fl, (budget - 1) as nat);
            ((rest.0 + 1) as nat, (rest.1 + fl) as nat)
        }
    }
}

/// The validator's verdict on a candidate at `off`: the chain's byte size,
/// or `None` when the chain is empty, has at most `min` frames (for
/// nonzero `min`), or extends past the buffer.
pub open spec fn aac_result(b: Seq<u8>, off: int, min: nat, max: nat) -> Option<int> {
    let c = aac_chain(b, off, chain_budget(b.len(), max));
    if min != 0 && c.0 <= min {
        None
    } else if c.1 == 0 {
        None
    } else if off + c.1 > b.len() {
        None
    } else {
        Some(c.1 as int)
    }
}

/// A chain of at most `min` frames is rejected when the minimum-frame
/// bound is enabled, however well formed its frames are.
pub proof fn lemma_aac_min_frames_reject(b: Seq<u8>, off: int, min: nat, max: nat)
    requires
        min != 0,
        aac_chain(b, off, chain_budget(b.len(), max)).0 <= min,
    ensures
        aac_result(b, off, min, max) is None,
{
}

/// A smaller frame budget truncates a chain at a frame boundary: a chain
/// that was already short enough is unchanged, and a longer one is cut
/// to exactly the budgeted number of frames.
pub proof fn lemma_aac_budget_truncates(b: Seq<u8>, p: int, m1: nat, m2: nat)
    requires
        m1 <= m2,
    ensures
        aac_chain(b, p, m2).0 <= m1 ==> aac_chain(b, p, m1) == aac_chain(b, p, m2),
        aac_chain(b, p, m2).0 > m1 ==> aac_chain(b, p, m1).0 == m1,
    decreases m1,
{
    if m1 > 0 && p + 7 <= b.len() {
        let fl = aac_step(b, p);
        if fl > 0 {
            lemma_aac_budget_truncates(b, p + fl, (m1 - 1) as nat, (m2 - 1) as nat);
        }
    }
}

/// Checks the fixed ADTS bit pattern in the seven header bytes at `p`.
fn is_valid_header_at(buffer: &[u8], p: usize) -> (r: bool)
    requires
        p + 7 <= buffer@.len(),
    ensures
        r == aac_header_ok(buffer@, p as int),
{
    buffer[p] == 0xff && (buffer[p + 1] & 0xf0) == 0xf0 && (buffer[p + 1] & 0x06) == 0x00 && (
    buffer[p + 2] & 0x02) == 0x00 && (buffer[p + 3] & 0x3c) == 0x00 && (buffer[p + 5] & 0x1f)
        == 0x1f && (buffer[p + 6] & 0xfc) == 0xfc && (buffer[p + 6] & 0x03) == 0x00
}

/// Parses the 13-bit frame length at `p`, or 0 when the header is invalid.
fn parse_frame_length_at(buffer: &[u8], p: usize) -> (r: u16)
    requires
        p + 7 <= buffer@.len(),
    ensures
        r as int == aac_step(buffer@, p as int),
        r <= 0x1fff,
{
    proof {
        vstd::slice::axiom_spec_len(buffer);
    }
    if !is_valid_header_at(buffer, p) {
        return 0;
    }
    ((buffer[p + 3] % 4) as u16) * 0x800 + (buffer[p + 4] as u16) * 8 + ((buffer[p + 5] / 0x20)
        as u16)
}

/// Whether the seven leading bytes of `bytes` form a valid ADTS header.
pub fn is_valid_frame_header(bytes: &[u8]) -> (r: bool)
    requires
        bytes@.len() >= 7,
    ensures
        r == aac_header_ok(bytes@, 0),
{
    is_valid_header_at(bytes, 0)
}

/// The frame length encoded in the seven leading bytes of `bytes`, or 0
/// when they do not form a valid ADTS header.
pub fn parse_frame_length(bytes: &[u8]) -> (r: u16)
    requires
        bytes@.len() >= 7,
    ensures
        r as int == aac_step(bytes@, 0),
{
    parse_frame_length_at(bytes, 0)
}

/// Validates an ADTS AAC candidate at `offset`, returning the region of
/// the frame chain and the `aac` extension, or `None` when the chain is
/// rejected.
pub fn detect_aac(buffer: &[u8], offset: usize, opts: &DetectOptions) -> (r: Option<
    StreamMatch<'static>,
>)
    ensures
        r matches Some(m) ==> {
            &&& m.offset == offset
            &&& 0 < m.size
            &&& offset + m.size <= buffer@.len()
            &&& aac_result(
                buffer@,
                offset as int,
                opts.mpeg_min_frames as nat,
                opts.mpeg_max_frames as nat,
            ) == Some(m.size as int)
            &&& m.ext@ == "aac"@
        },
        r is None ==> aac_result(
            buffer@,
            offset as int,
            opts.mpeg_min_frames as nat,
            opts.mpeg_max_frames as nat,
        ) is None,
{
    let ghost budget: nat = chain_budget(buffer@.len(), opts.mpeg_max_frames as nat);
    let n = buffer.len();
    if offset > n {
        return None;
    }
    let mut pos = offset;
    let mut size: usize = 0;
    let mut frames: usize = 0;

    loop
        invariant
            n == buffer@.len(),
            budget == chain_budget(buffer@.len(), opts.mpeg_max_frames as nat),
            offset <= pos <= n,
            pos == offset + size,
            frames <= size,
            frames as nat <= budget,
            aac_chain(buffer@, offset as int, budget).0 == frames + aac_chain(
                buffer@,
                pos as int,
                (budget - frames) as nat,
            ).0,
            aac_chain(buffer@, offset as int, budget).1 == size + aac_chain(
                buffer@,
                pos as int,
                (budget - frames) as nat,
            ).1,
        ensures
            aac_chain(buffer@, offset as int, budget).0 == frames,
            aac_chain(buffer@, offset as int, budget).1 == size,
            pos == offset + size <= n,
        decreases n - pos,
    {
        if n - pos < 7 {
            break;
        }
        if opts.mpeg_max_frames != 0 && frames >= opts.mpeg_max_frames as usize {
            proof {
                assert(budget - frames == 0);
            }
            break;
        }
        let fl16 = parse_frame_length_at(buffer, pos);
        if fl16 == 0 {
            break;
        }
        let fl = fl16 as usize;
        if fl > n - pos {
            // The final frame claims bytes past the end of the buffer, so
            // the accumulated size overflows the buffer and the candidate
            // is rejected.
            proof {
                let rem = (budget - frames) as nat;
                assert(aac_chain(buffer@, pos as int, rem).1 >= fl);
            }
            return None;
        }
        frames = frames + 1;
        size = size + fl;
        pos = pos + fl;
    }
    if opts.mpeg_min_frames != 0 && frames <= opts.mpeg_min_frames as usize {
        return None;
    }
    if size > 0 {
        return Some(StreamMatch { offset, size, ext: "aac" });
    }
    None
}

impl Detector for AacDetector {
    fn detect(&self, buffer: &[u8], offset: usize, opts: &DetectOptions) -> (r: Option<
        StreamMatch,
    >)
        ensures
            r matches Some(m) ==> aac_result(
                buffer@,
                offset as int,
                opts.mpeg_min_frames as nat,
                opts.mpeg_max_frames as nat,
            ) == Some(m.size as int) && m.ext@ == "aac"@,
            r is None ==> aac_result(
                buffer@,
                offset as int,
                opts.mpeg_min_frames as nat,
                opts.mpeg_max_frames as nat,
            ) is None,
    {
        detect_aac(buffer, offset, opts)
    }
}

} // verus!
