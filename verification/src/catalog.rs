//! Signature catalog: the short byte signatures that introduce candidate
//! streams, each mapped to the stream kinds it may begin, in the fixed
//! order the validators are tried. The one-byte MPEG signature is
//! ambiguous by construction and maps to both AAC and MP3; the validators
//! disambiguate it.

use crate::detector::StreamType;
use vstd::prelude::*;

verus! {

/// One catalog entry: a byte signature and the candidate stream kinds it
/// may introduce, in the order their validators are tried.
pub struct SignatureEntry {
    pub signature: Vec<u8>,
    pub kinds: Vec<StreamType>,
}

/// The mathematical content of a catalog entry.
pub open spec fn entry_model(e: SignatureEntry) -> (Seq<u8>, Seq<StreamType>) {
    (e.signature@, e.kinds@)
}

/// The "OggS" capture pattern.
pub open spec fn ogg_signature() -> Seq<u8> {
    seq![0x4fu8, 0x67u8, 0x67u8, 0x53u8]
}

/// The "BM" bitmap signature.
pub open spec fn bmp_signature() -> Seq<u8> {
    seq![0x42u8, 0x4du8]
}

/// The "RIFF" chunk signature.
pub open spec fn riff_signature() -> Seq<u8> {
    seq![0x52u8, 0x49u8, 0x46u8, 0x46u8]
}

/// The one-byte MPEG sync signature, shared by ADTS AAC and MPEG audio.
pub open spec fn mpeg_signature() -> Seq<u8> {
    seq![0xffu8]
}

/// Per-format enable flags, resolved once before a scan starts.
#[derive(Debug, Clone, Copy)]
pub struct FormatToggles {
    pub wav: bool,
    pub ogg: bool,
    pub bmp: bool,
    pub aac: bool,
    pub mp3: bool,
}

/// The tier of signatures longer than one byte, in the fixed order OGG,
/// BMP, WAV.
pub open spec fn long_catalog_spec(t: FormatToggles) -> Seq<(Seq<u8>, Seq<StreamType>)> {
    (if t.ogg {
        seq![(ogg_signature(), seq![StreamType::Ogg])]
    } else {
        Seq::<(Seq<u8>, Seq<StreamType>)>::empty()
    }) + (if t.bmp {
        seq![(bmp_signature(), seq![StreamType::Bitmap])]
    } else {
        Seq::<(Seq<u8>, Seq<StreamType>)>::empty()
    }) + (if t.wav {
        seq![(riff_signature(), seq![StreamType::RiffWave])]
    } else {
        Seq::<(Seq<u8>, Seq<StreamType>)>::empty()
    })
}

/// The tier of one-byte signatures: the ambiguous MPEG sync byte, whose
/// entry tries AAC before MP3 when both are enabled.
pub open spec fn mpeg_catalog_spec(t: FormatToggles) -> Seq<(Seq<u8>, Seq<StreamType>)> {
    if t.aac && t.mp3 {
        seq![(mpeg_signature(), seq![StreamType::Aac, StreamType::Mp3])]
    } else if t.aac {
        seq![(mpeg_signature(), seq![StreamType::Aac])]
    } else if t.mp3 {
        seq![(mpeg_signature(), seq![StreamType::Mp3])]
    } else {
        Seq::<(Seq<u8>, Seq<StreamType>)>::empty()
    }
}

/// The whole catalog: one entry per enabled signature, the long tier
/// followed by the one-byte tier.
pub open spec fn catalog_spec(t: FormatToggles) -> Seq<(Seq<u8>, Seq<StreamType>)> {
    long_catalog_spec(t) + mpeg_catalog_spec(t)
}

/// Builds the tier of signatures longer than one byte.
pub fn build_long_catalog(t: FormatToggles) -> (r: Vec<SignatureEntry>)
    ensures
        r@.map_values(|e: SignatureEntry| entry_model(e)) == long_catalog_spec(t),
{
    let mut r: Vec<SignatureEntry> = Vec::new();
    if t.ogg {
        r.push(
            SignatureEntry { signature: vec![0x4f, 0x67, 0x67, 0x53], kinds: vec![StreamType::Ogg] },
        );
    }
    if t.bmp {
        r.push(SignatureEntry { signature: vec![0x42, 0x4d], kinds: vec![StreamType::Bitmap] });
    }
    if t.wav {
        r.push(
            SignatureEntry {
                signature: vec![0x52, 0x49, 0x46, 0x46],
                kinds: vec![StreamType::RiffWave],
            },
        );
    }
    proof {
        assert(r@.map_values(|e: SignatureEntry| entry_model(e)) =~~= long_catalog_spec(t));
    }
    r
}

/// Builds the tier of one-byte signatures.
pub fn build_mpeg_catalog(t: FormatToggles) -> (r: Vec<SignatureEntry>)
    ensures
        r@.map_values(|e: SignatureEntry| entry_model(e)) == mpeg_catalog_spec(t),
{
    let mut r: Vec<SignatureEntry> = Vec::new();
    if t.aac && t.mp3 {
        r.push(
            SignatureEntry {
                signature: vec![0xff],
                kinds: vec![StreamType::Aac, StreamType::Mp3],
            },
        );
    } else if t.aac {
        r.push(SignatureEntry { signature: vec![0xff], kinds: vec![StreamType::Aac] });
    } else if t.mp3 {
        r.push(SignatureEntry { signature: vec![0xff], kinds: vec![StreamType::Mp3] });
    }
    proof {
        assert(r@.map_values(|e: SignatureEntry| entry_model(e)) =~~= mpeg_catalog_spec(t));
    }
    r
}

/// Builds the whole signature catalog for the enabled formats.
pub fn build_catalog(t: FormatToggles) -> (r: Vec<SignatureEntry>)
    ensures
        r@.map_values(|e: SignatureEntry| entry_model(e)) == catalog_spec(t),
{
    let mut r = build_long_catalog(t);
    let mut mpeg = build_mpeg_catalog(t);
    let ghost r0 = r@;
    let ghost m0 = mpeg@;
    r.append(&mut mpeg);
    proof {
        assert(r@ == r0 + m0);
        assert(r@.map_values(|e: SignatureEntry| entry_model(e)) =~~= catalog_spec(t));
    }
    r
}

} // verus!
