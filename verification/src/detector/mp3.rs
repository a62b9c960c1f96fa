//! MPEG-1/2 audio validator: walks a chain of frame headers decoded via
//! the classic MPEG audio tables (version and layer bits, a bitrate table
//! keyed by version class, a sample-rate table keyed by version). The
//! frame size is `slots * bitrate / sample_rate + padding`, where `slots`
//! is 144 for MPEG1 and 72 for MPEG2/2.5; the CRC word of a protected
//! frame lives inside the frame, so the protection bit does not change
//! the frame length. All frames of one chain share the layer of its
//! first frame; a layer change ends the chain at the previous frame
//! boundary. The chain is rejected when it has at most `mpeg_min_frames`
//! frames (when nonzero), when it is empty, or when its accumulated size
//! would extend past the buffer.

use super::{chain_budget, DetectOptions, Detector, Mp3Detector, StreamMatch};
use vstd::prelude::*;

verus! {

#[derive(Copy, Clone, PartialEq, Eq, Structural, Debug)]
pub enum MpegVersion {
    Mpeg1,
    Mpeg2,
    Mpeg2_5,
}

#[derive(Copy, Clone, PartialEq, Eq, Structural, Debug)]
pub enum MpegLayer {
    Layer1,
    Layer2,
    Layer3,
}

#[derive(Copy, Clone, PartialEq, Eq, Structural, Debug)]
pub enum BitRate {
    Kbps8,
    Kbps16,
    Kbps24,
    Kbps32,
    Kbps40,
    Kbps48,
    Kbps56,
    Kbps64,
    Kbps80,
    Kbps96,
    Kbps112,
    Kbps128,
    Kbps144,
    Kbps160,
    Kbps192,
    Kbps224,
    Kbps256,
    Kbps320,
}

#[derive(Copy, Clone, PartialEq, Eq, Structural, Debug)]
pub enum SampleRate {
    Hz8000,
    Hz11025,
    Hz12000,
    Hz16000,
    Hz22050,
    Hz24000,
    Hz32000,
    Hz44100,
    Hz48000,
}

/// The sample rate in hertz.
pub open spec fn spec_hz(s: SampleRate) -> int {
    match s {
        SampleRate::Hz8000 => 8000,
        SampleRate::Hz11025 => 11025,
        SampleRate::Hz12000 => 12000,
        SampleRate::Hz16000 => 16000,
        SampleRate::Hz22050 => 22050,
        SampleRate::Hz24000 => 24000,
        SampleRate::Hz32000 => 32000,
        SampleRate::Hz44100 => 44100,
        SampleRate::Hz48000 => 48000,
    }
}

/// The bit rate in bits per second.
pub open spec fn spec_bps(b: BitRate) -> int {
    match b {
        BitRate::Kbps8 => 8000,
        BitRate::Kbps16 => 16000,
        BitRate::Kbps24 => 24000,
        BitRate::Kbps32 => 32000,
        BitRate::Kbps40 => 40000,
        BitRate::Kbps48 => 48000,
        BitRate::Kbps56 => 56000,
        BitRate::Kbps64 => 64000,
        BitRate::Kbps80 => 80000,
        BitRate::Kbps96 => 96000,
        BitRate::Kbps112 => 112000,
        BitRate::Kbps128 => 128000,
        BitRate::Kbps144 => 144000,
        BitRate::Kbps160 => 160000,
        BitRate::Kbps192 => 192000,
        BitRate::Kbps224 => 224000,
        BitRate::Kbps256 => 256000,
        BitRate::Kbps320 => 320000,
    }
}

impl SampleRate {
    /// The sample rate in hertz.
    pub fn hz(self) -> (r: u32)
        ensures
            r == spec_hz(self),
    {
        match self {
            SampleRate::Hz8000 => 8_000,
            SampleRate::Hz11025 => 11_025,
            SampleRate::Hz12000 => 12_000,
            SampleRate::Hz16000 => 16_000,
            SampleRate::Hz22050 => 22_050,
            SampleRate::Hz24000 => 24_000,
            SampleRate::Hz32000 => 32_000,
            SampleRate::Hz44100 => 44_100,
            SampleRate::Hz48000 => 48_000,
        }
    }
}

impl BitRate {
    /// The bit rate in bits per second.
    pub fn bps(self) -> (r: u32)
        ensures
            r == spec_bps(self),
    {
        match self {
            BitRate::Kbps8 => 8_000,
            BitRate::Kbps16 => 16_000,
            BitRate::Kbps24 => 24_000,
            BitRate::Kbps32 => 32_000,
            BitRate::Kbps40 => 40_000,
            BitRate::Kbps48 => 48_000,
            BitRate::Kbps56 => 56_000,
            BitRate::Kbps64 => 64_000,
            BitRate::Kbps80 => 80_000,
            BitRate::Kbps96 => 96_000,
            BitRate::Kbps112 => 112_000,
            BitRate::Kbps128 => 128_000,
            BitRate::Kbps144 => 144_000,
            BitRate::Kbps160 => 160_000,
            BitRate::Kbps192 => 192_000,
            BitRate::Kbps224 => 224_000,
            BitRate::Kbps256 => 256_000,
            BitRate::Kbps320 => 320_000,
        }
    }
}

/// A decoded MPEG audio frame header: its layer and the byte length of the
/// whole frame.
#[derive(Debug, Clone)]
pub struct FrameHeader {
    pub layer: MpegLayer,
    pub data_size: usize,
}

/// The MPEG version encoded in header byte 1, `None` for the reserved
/// value.
pub open spec fn spec_version(b1: u8) -> Option<MpegVersion> {
    if b1 & 0x18 == 0x00 {
        Some(MpegVersion::Mpeg2_5)
    } else if b1 & 0x18 == 0x10 {
        Some(MpegVersion::Mpeg2)
    } else if b1 & 0x18 == 0x18 {
        Some(MpegVersion::Mpeg1)
    } else {
        None
    }
}

/// The MPEG layer encoded in header byte 1, `None` for the reserved value.
pub open spec fn spec_layer(b1: u8) -> Option<MpegLayer> {
    if b1 & 0x06 == 0x02 {
        Some(MpegLayer::Layer3)
    } else if b1 & 0x06 == 0x04 {
        Some(MpegLayer::Layer2)
    } else if b1 & 0x06 == 0x06 {
        Some(MpegLayer::Layer1)
    } else {
        None
    }
}

/// The bitrate table, keyed by the high four bits of header byte 2 and the
/// version class (`v2` for MPEG2/2.5).
pub open spec fn spec_bitrate(i: u8, v2: bool) -> Option<BitRate> {
    if !v2 {
        if i == 0x10 {
            Some(BitRate::Kbps32)
        } else if i == 0x20 {
            Some(BitRate::Kbps40)
        } else if i == 0x30 {
            Some(BitRate::Kbps48)
        } else if i == 0x40 {
            Some(BitRate::Kbps56)
        } else if i == 0x50 {
            Some(BitRate::Kbps64)
        } else if i == 0x60 {
            Some(BitRate::Kbps80)
        } else if i == 0x70 {
            Some(BitRate::Kbps96)
        } else if i == 0x80 {
            Some(BitRate::Kbps112)
        } else if i == 0x90 {
            Some(BitRate::Kbps128)
        } else if i == 0xa0 {
            Some(BitRate::Kbps160)
        } else if i == 0xb0 {
            Some(BitRate::Kbps192)
        } else if i == 0xc0 {
            Some(BitRate::Kbps224)
        } else if i == 0xd0 {
            Some(BitRate::Kbps256)
        } else if i == 0xe0 {
            Some(BitRate::Kbps320)
        } else {
            None
        }
    } else {
        if i == 0x10 {
            Some(BitRate::Kbps8)
        } else if i == 0x20 {
            Some(BitRate::Kbps16)
        } else if i == 0x30 {
            Some(BitRate::Kbps24)
        } else if i == 0x40 {
            Some(BitRate::Kbps32)
        } else if i == 0x50 {
            Some(BitRate::Kbps40)
        } else if i == 0x60 {
            Some(BitRate::Kbps48)
        } else if i == 0x70 {
            Some(BitRate::Kbps56)
        } else if i == 0x80 {
            Some(BitRate::Kbps64)
        } else if i == 0x90 {
            Some(BitRate::Kbps80)
        } else if i == 0xa0 {
            Some(BitRate::Kbps96)
        } else if i == 0xb0 {
            Some(BitRate::Kbps112)
        } else if i == 0xc0 {
            Some(BitRate::Kbps128)
        } else if i == 0xd0 {
            Some(BitRate::Kbps144)
        } else if i == 0xe0 {
            Some(BitRate::Kbps160)
        } else {
            None
        }
    }
}

/// The sample-rate table, keyed by bits 2-3 of header byte 2 and the MPEG
/// version.
pub open spec fn spec_sample_rate(j: u8, v: MpegVersion) -> Option<SampleRate> {
    match v {
        MpegVersion::Mpeg1 => if j == 0x00 {
            Some(SampleRate::Hz44100)
        } else if j == 0x04 {
            Some(SampleRate::Hz48000)
        } else if j == 0x08 {
            Some(SampleRate::Hz32000)
        } else {
            None
        },
        MpegVersion::Mpeg2 => if j == 0x00 {
            Some(SampleRate::Hz22050)
        } else if j == 0x04 {
            Some(SampleRate::Hz24000)
        } else if j == 0x08 {
            Some(SampleRate::Hz16000)
        } else {
            None
        },
        MpegVersion::Mpeg2_5 => if j == 0x00 {
            Some(SampleRate::Hz11025)
        } else if j == 0x04 {
            Some(SampleRate::Hz12000)
        } else if j == 0x08 {
            Some(SampleRate::Hz8000)
        } else {
            None
        },
    }
}

/// The frame decoded from the three header bytes at `p`: its layer and
/// byte length, or `None` when the frame sync is absent or any field is
/// reserved or inconsistent.
pub open spec fn mp3_frame(b: Seq<u8>, p: int) -> Option<(MpegLayer, int)> {
    if !(b[p] == 0xff && b[p + 1] & 0xe0 == 0xe0) {
        None
    } else {
        match (spec_version(b[p + 1]), spec_layer(b[p + 1])) {
            (Some(version), Some(layer)) => {
                let is_v2 = version == MpegVersion::Mpeg2 || version == MpegVersion::Mpeg2_5;
                match (spec_bitrate(b[p + 2] & 0xf0, is_v2), spec_sample_rate(
                    b[p + 2] & 0x0c,
                    version,
                )) {
                    (Some(bitrate), Some(rate)) => {
                        let slots: int = if version == MpegVersion::Mpeg1 {
                            144
                        } else {
                            72
                        };
                        let padding: int = if b[p + 2] & 0x02 != 0 {
                            1
                        } else {
                            0
                        };
                        Some((layer, slots * spec_bps(bitrate) / spec_hz(rate) + padding))
                    },
                    _ => None,
                }
            },
            _ => None,
        }
    }
}

/// The whole-frame quotient `slots * bitrate / sample_rate` lies between
/// 24 and 1440 for every consistent table entry.
proof fn lemma_quotient_bounds(
    version: MpegVersion,
    bitrate: BitRate,
    rate: SampleRate,
    i: u8,
    is_v2: bool,
    j: u8,
)
    requires
        spec_bitrate(i, is_v2) == Some(bitrate),
        spec_sample_rate(j, version) == Some(rate),
        is_v2 == (version == MpegVersion::Mpeg2 || version == MpegVersion::Mpeg2_5),
    ensures
        24 <= (if version == MpegVersion::Mpeg1 {
            144int
        } else {
            72int
        }) * spec_bps(bitrate) / spec_hz(rate) <= 1440,
{
}

/// Every frame the header decoder accepts is between 24 and 1441 bytes
/// long.
pub proof fn lemma_mp3_frame_bounds(b: Seq<u8>, p: int)
    ensures
        mp3_frame(b, p) matches Some(f) ==> 24 <= f.1 <= 1441,
{
    if mp3_frame(b, p) is Some {
        let v = spec_version(b[p + 1]);
        let l = spec_layer(b[p + 1]);
        if v is Some && l is Some {
            let version = v->Some_0;
            let is_v2 = version == MpegVersion::Mpeg2 || version == MpegVersion::Mpeg2_5;
            let br = spec_bitrate(b[p + 2] & 0xf0, is_v2);
            let sr = spec_sample_rate(b[p + 2] & 0x0c, version);
            if br is Some && sr is Some {
                lemma_quotient_bounds(
                    version,
                    br->Some_0,
                    sr->Some_0,
                    b[p + 2] & 0xf0,
                    is_v2,
                    b[p + 2] & 0x0c,
                );
            }
        }
    }
}

/// Decodes the version field of header byte 1.
fn decode_version(b1: u8) -> (r: Option<MpegVersion>)
    ensures
        r == spec_version(b1),
{
    if b1 & 0x18 == 0x00 {
        Some(MpegVersion::Mpeg2_5)
    } else if b1 & 0x18 == 0x10 {
        Some(MpegVersion::Mpeg2)
    } else if b1 & 0x18 == 0x18 {
        Some(MpegVersion::Mpeg1)
    } else {
        None
    }
}

/// Decodes the layer field of header byte 1.
fn decode_layer(b1: u8) -> (r: Option<MpegLayer>)
    ensures
        r == spec_layer(b1),
{
    if b1 & 0x06 == 0x02 {
        Some(MpegLayer::Layer3)
    } else if b1 & 0x06 == 0x04 {
        Some(MpegLayer::Layer2)
    } else if b1 & 0x06 == 0x06 {
        Some(MpegLayer::Layer1)
    } else {
        None
    }
}

/// Looks up the bitrate table.
fn decode_bitrate(i: u8, v2: bool) -> (r: Option<BitRate>)
    ensures
        r == spec_bitrate(i, v2),
{
    if !v2 {
        if i == 0x10 {
            Some(BitRate::Kbps32)
        } else if i == 0x20 {
            Some(BitRate::Kbps40)
        } else if i == 0x30 {
            Some(BitRate::Kbps48)
        } else if i == 0x40 {
            Some(BitRate::Kbps56)
        } else if i == 0x50 {
            Some(BitRate::Kbps64)
        } else if i == 0x60 {
            Some(BitRate::Kbps80)
        } else if i == 0x70 {
            Some(BitRate::Kbps96)
        } else if i == 0x80 {
            Some(BitRate::Kbps112)
        } else if i == 0x90 {
            Some(BitRate::Kbps128)
        } else if i == 0xa0 {
            Some(BitRate::Kbps160)
        } else if i == 0xb0 {
            Some(BitRate::Kbps192)
        } else if i == 0xc0 {
            Some(BitRate::Kbps224)
        } else if i == 0xd0 {
            Some(BitRate::Kbps256)
        } else if i == 0xe0 {
            Some(BitRate::Kbps320)
        } else {
            None
        }
    } else {
        if i == 0x10 {
            Some(BitRate::Kbps8)
        } else if i == 0x20 {
            Some(BitRate::Kbps16)
        } else if i == 0x30 {
            Some(BitRate::Kbps24)
        } else if i == 0x40 {
            Some(BitRate::Kbps32)
        } else if i == 0x50 {
            Some(BitRate::Kbps40)
        } else if i == 0x60 {
            Some(BitRate::Kbps48)
        } else if i == 0x70 {
            Some(BitRate::Kbps56)
        } else if i == 0x80 {
            Some(BitRate::Kbps64)
        } else if i == 0x90 {
            Some(BitRate::Kbps80)
        } else if i == 0xa0 {
            Some(BitRate::Kbps96)
        } else if i == 0xb0 {
            Some(BitRate::Kbps112)
        } else if i == 0xc0 {
            Some(BitRate::Kbps128)
        } else if i == 0xd0 {
            Some(BitRate::Kbps144)
        } else if i == 0xe0 {
            Some(BitRate::Kbps160)
        } else {
            None
        }
    }
}

/// Looks up the sample-rate table.
fn decode_sample_rate(j: u8, v: MpegVersion) -> (r: Option<SampleRate>)
    ensures
        r == spec_sample_rate(j, v),
{
    match v {
        MpegVersion::Mpeg1 => if j == 0x00 {
            Some(SampleRate::Hz44100)
        } else if j == 0x04 {
            Some(SampleRate::Hz48000)
        } else if j == 0x08 {
            Some(SampleRate::Hz32000)
        } else {
            None
        },
        MpegVersion::Mpeg2 => if j == 0x00 {
            Some(SampleRate::Hz22050)
        } else if j == 0x04 {
            Some(SampleRate::Hz24000)
        } else if j == 0x08 {
            Some(SampleRate::Hz16000)
        } else {
            None
        },
        MpegVersion::Mpeg2_5 => if j == 0x00 {
            Some(SampleRate::Hz11025)
        } else if j == 0x04 {
            Some(SampleRate::Hz12000)
        } else if j == 0x08 {
            Some(SampleRate::Hz8000)
        } else {
            None
        },
    }
}

/// Decodes the MPEG audio frame header in the three bytes at `p`.
#[verifier::rlimit(100)]
fn parse_frame_header_at(buffer: &[u8], p: usize) -> (r: Option<FrameHeader>)
    requires
        p + 3 <= buffer@.len(),
    ensures
        r matches Some(h) ==> mp3_frame(buffer@, p as int) == Some((h.layer, h.data_size as int))
            && 24 <= h.data_size <= 1441,
        r is None ==> mp3_frame(buffer@, p as int) is None,
{
    proof {
        vstd::slice::axiom_spec_len(buffer);
    }
    let b0 = buffer[p];
    let b1 = buffer[p + 1];
    let b2 = buffer[p + 2];

    if b0 != 0xff || b1 & 0xe0 != 0xe0 {
        return None;
    }

    let version = match decode_version(b1) {
        Some(v) => v,
        None => { return None },
    };
    let layer = match decode_layer(b1) {
        Some(l) => l,
        None => { return None },
    };

    let is_v2 = match version {
        MpegVersion::Mpeg1 => false,
        MpegVersion::Mpeg2 => true,
        MpegVersion::Mpeg2_5 => true,
    };

    let i = b2 & 0xf0;
    let bitrate = match decode_bitrate(i, is_v2) {
        Some(b) => b,
        None => { return None },
    };

    let padding = b2 & 0x02 != 0;

    let j = b2 & 0x0c;
    let rate = match decode_sample_rate(j, version) {
        Some(s) => s,
        None => { return None },
    };

    let slots: u32 = if let MpegVersion::Mpeg1 = version {
        144
    } else {
        72
    };

    let bps_v = bitrate.bps();
    let hz_v = rate.hz();
    proof {
        lemma_quotient_bounds(version, bitrate, rate, i, is_v2, j);
        assert(slots * bps_v <= 46080000) by (nonlinear_arith)
            requires
                slots <= 144,
                bps_v <= 320000,
        ;
    }
    let q = slots * bps_v / hz_v;
    let data_size = q + (if padding {
        1u32
    } else {
        0u32
    });

    Some(FrameHeader { layer, data_size: data_size as usize })
}

/// Decodes the MPEG audio frame header in the three leading bytes of
/// `bytes`.
pub fn parse_frame_header(bytes: &[u8]) -> (r: Option<FrameHeader>)
    requires
        bytes@.len() >= 3,
    ensures
        r matches Some(h) ==> mp3_frame(bytes@, 0) == Some((h.layer, h.data_size as int)),
        r is None ==> mp3_frame(bytes@, 0) is None,
{
    parse_frame_header_at(bytes, 0)
}

/// Frames and bytes of the MPEG audio frame chain starting at `p` whose
/// frames all carry the layer `lay`, consuming at most `budget` frames.
pub open spec fn mp3_chain(b: Seq<u8>, p: int, lay: MpegLayer, budget: nat) -> (nat, nat)
    decreases budget,
{
    if budget == 0 || p + 3 > b.len() {
        (0nat, 0nat)
    } else {
        match mp3_frame(b, p) {
            None => (0nat, 0nat),
            Some(f) => {
                if f.0 != lay {
                    (0nat, 0nat)
                } else {
                    let rest = mp3_chain(b, p + f.1, lay, (budget - 1) as nat);
                    ((rest.0 + 1) as nat, (rest.1 + f.1) as nat)
                }
            },
        }
    }
}

/// The validator's verdict on a candidate at `off`: the chain's byte size
/// and shared layer, or `None` when the chain is empty, has at most `min`
/// frames (for nonzero `min`), or extends past the buffer.
pub open spec fn mp3_result(b: Seq<u8>, off: int, min: nat, max: nat) -> Option<
    (int, MpegLayer),
> {
    if off + 3 > b.len() {
        None
    } else {
        match mp3_frame(b, off) {
            None => None,
            Some(f) => {
                let c = mp3_chain(b, off, f.0, chain_budget(b.len(), max));
                if min != 0 && c.0 <= min {
                    None
                } else if c.1 == 0 {
                    None
                } else if off + c.1 > b.len() {
                    None
                } else {
                    Some((c.1 as int, f.0))
                }
            },
        }
    }
}

/// A frame whose layer differs from the chain's layer contributes
/// nothing: a layer change terminates the chain at the previous frame
/// boundary.
pub proof fn lemma_mp3_layer_change_ends_chain(
    b: Seq<u8>,
    p: int,
    lay: MpegLayer,
    budget: nat,
)
    requires
        mp3_frame(b, p) matches Some(f) && f.0 != lay,
    ensures
        mp3_chain(b, p, lay, budget) == (0nat, 0nat),
{
}

/// The canonical extension of an MPEG audio layer.
pub open spec fn mp3_ext(l: MpegLayer) -> Seq<char> {
    match l {
        MpegLayer::Layer1 => "mp1"@,
        MpegLayer::Layer2 => "mp2"@,
        MpegLayer::Layer3 => "mp3"@,
    }
}

/// Validates an MPEG audio candidate at `offset`, returning the region of
/// the frame chain and the extension of its layer, or `None` when the
/// chain is rejected.
pub fn detect_mp3(buffer: &[u8], offset: usize, opts: &DetectOptions) -> (r: Option<
    StreamMatch<'static>,
>)
    ensures
        r matches Some(m) ==> {
            &&& m.offset == offset
            &&& 0 < m.size
            &&& offset + m.size <= buffer@.len()
            &&& mp3_result(
                buffer@,
                offset as int,
                opts.mpeg_min_frames as nat,
                opts.mpeg_max_frames as nat,
            ) matches Some(p) && p.0 == m.size as int && m.ext@ == mp3_ext(p.1)
        },
        r is None ==> mp3_result(
            buffer@,
            offset as int,
            opts.mpeg_min_frames as nat,
            opts.mpeg_max_frames as nat,
        ) is None,
{
    let ghost budget: nat = chain_budget(buffer@.len(), opts.mpeg_max_frames as nat);
    let n = buffer.len();
    if offset > n {
        return None;
    }
    let mut pos = offset;
    let mut size: usize = 0;
    let mut frames: usize = 0;
    let mut layer = MpegLayer::Layer3;

    loop
        invariant
            n == buffer@.len(),
            budget == chain_budget(buffer@.len(), opts.mpeg_max_frames as nat),
            offset <= pos <= n,
            pos == offset + size,
            frames <= size,
            frames as nat <= budget,
            frames == 0 ==> size == 0 && layer == MpegLayer::Layer3,
            frames > 0 ==> {
                &&& offset + 3 <= n
                &&& mp3_frame(buffer@, offset as int) matches Some(f0) && f0.0 == layer
                &&& mp3_chain(buffer@, offset as int, layer, budget).0 == frames + mp3_chain(
                    buffer@,
                    pos as int,
                    layer,
                    (budget - frames) as nat,
                ).0
                &&& mp3_chain(buffer@, offset as int, layer, budget).1 == size + mp3_chain(
                    buffer@,
                    pos as int,
                    layer,
                    (budget - frames) as nat,
                ).1
            },
        ensures
            pos == offset + size <= n,
            frames == 0 ==> size == 0 && (offset + 3 > n || mp3_frame(buffer@, offset as int)
                is None),
            frames > 0 ==> {
                &&& mp3_frame(buffer@, offset as int) matches Some(f0) && f0.0 == layer
                &&& mp3_chain(buffer@, offset as int, layer, budget).0 == frames
                &&& mp3_chain(buffer@, offset as int, layer, budget).1 == size
            },
        decreases n - pos,
    {
        if n - pos < 3 {
            break;
        }
        if opts.mpeg_max_frames != 0 && frames >= opts.mpeg_max_frames as usize {
            proof {
                assert(budget - frames == 0);
            }
            break;
        }
        let h = match parse_frame_header_at(buffer, pos) {
            None => { break; },
            Some(h) => h,
        };
        if frames > 0 && h.layer != layer {
            break;
        }
        if h.data_size > n - pos {
            // The final frame claims bytes past the end of the buffer, so
            // the accumulated size overflows the buffer and the candidate
            // is rejected.
            proof {
                if frames == 0 {
                    assert(mp3_chain(buffer@, offset as int, h.layer, budget).1
                        >= h.data_size);
                } else {
                    assert(mp3_chain(buffer@, pos as int, layer, (budget - frames) as nat).1
                        >= h.data_size);
                }
            }
            return None;
        }
        layer = h.layer;
        frames = frames + 1;
        size = size + h.data_size;
        pos = pos + h.data_size;
    }
    if opts.mpeg_min_frames != 0 && frames <= opts.mpeg_min_frames as usize {
        return None;
    }
    let ext = match layer {
        MpegLayer::Layer1 => "mp1",
        MpegLayer::Layer2 => "mp2",
        MpegLayer::Layer3 => "mp3",
    };
    if size > 0 {
        return Some(StreamMatch { offset, size, ext });
    }
    None
}

impl Detector for Mp3Detector {
    fn detect(&self, buffer: &[u8], offset: usize, opts: &DetectOptions) -> (r: Option<
        StreamMatch,
    >)
        ensures
            r matches Some(m) ==> (mp3_result(
                buffer@,
                offset as int,
                opts.mpeg_min_frames as nat,
                opts.mpeg_max_frames as nat,
            ) matches Some(p) && p.0 == m.size as int && m.ext@ == mp3_ext(p.1)),
            r is None ==> mp3_result(
                buffer@,
                offset as int,
                opts.mpeg_min_frames as nat,
                opts.mpeg_max_frames as nat,
            ) is None,
    {
        detect_mp3(buffer, offset, opts)
    }
}

} // verus!
