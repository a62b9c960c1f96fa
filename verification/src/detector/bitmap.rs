//! BMP validator: overlays the legacy 54-byte
//! `BITMAPFILEHEADER + BITMAPINFOHEADER` layout at the candidate offset.
//! Only the classic 40-byte INFOHEADER variant is recognized; the reported
//! size is the header's file-size field, clamped to not extend past the
//! end of the buffer.

use super::{le32, DetectOptions, Detector, BitmapDetector, StreamMatch};
use vstd::prelude::*;

verus! {

/// The validator's verdict on a candidate at `off`: the file-size field of
/// a well-formed classic BMP header, clamped to the end of the buffer, or
/// `None`. A header is well formed when it starts with "BM", its
/// info-header size field is 40, and its file-size field is at least 14.
pub open spec fn bmp_result(b: Seq<u8>, off: int) -> Option<int> {
    if off + 54 > b.len() {
        None
    } else if !(b[off] == 0x42 && b[off + 1] == 0x4d) {
        // "BM"
        None
    } else if le32(b, off + 14) != 40 {
        // info-header size: only the classic INFOHEADER variant
        None
    } else if le32(b, off + 2) < 14 {
        None
    } else if off + le32(b, off + 2) > b.len() {
        Some(b.len() - off)
    } else {
        Some(le32(b, off + 2))
    }
}

/// Validates a BMP candidate at `offset`, returning its exact region and
/// the `bmp` extension, or `None` for anything that is not a classic BMP
/// header.
pub fn detect_bitmap(buffer: &[u8], offset: usize) -> (r: Option<StreamMatch<'static>>)
    ensures
        r matches Some(m) ==> {
            &&& m.offset == offset
            &&& 0 < m.size
            &&& offset + m.size <= buffer@.len()
            &&& bmp_result(buffer@, offset as int) == Some(m.size as int)
            &&& m.ext@ == "bmp"@
        },
        r is None ==> bmp_result(buffer@, offset as int) is None,
{
    let n = buffer.len();
    if offset > n || n - offset < 54 {
        return None;
    }
    if buffer[offset] != 0x42 || buffer[offset + 1] != 0x4d {
        return None;
    }
    if super::read_u32_le(buffer, offset + 14) != 40 {
        return None;
    }
    let size_field = super::read_u32_le(buffer, offset + 2);
    if size_field < 14 {
        return None;
    }
    let size = if size_field as usize > n - offset {
        n - offset
    } else {
        size_field as usize
    };
    Some(StreamMatch { offset, size, ext: "bmp" })
}

impl Detector for BitmapDetector {
    fn detect(&self, buffer: &[u8], offset: usize, opts: &DetectOptions) -> (r: Option<
        StreamMatch,
    >)
        ensures
            r matches Some(m) ==> bmp_result(buffer@, offset as int) == Some(m.size as int)
                && m.ext@ == "bmp"@,
            r is None ==> bmp_result(buffer@, offset as int) is None,
    {
        detect_bitmap(buffer, offset)
    }
}

} // verus!
