//! OGG validator: walks a chain of 27-byte OGG page headers starting at
//! the candidate offset. Each page is the fixed header, a segment table of
//! `page_segments` bytes, and a payload whose length is the sum of the
//! segment-table bytes. The first page of a chain must carry the
//! beginning-of-stream flag and later pages must not; the chain ends at a
//! page carrying the end-of-stream flag, at a header that fails to parse,
//! or at the end of the buffer, and is rejected when it is empty or
//! extends past the buffer.

use super::{DetectOptions, Detector, OggDetector, StreamMatch};
use vstd::prelude::*;

verus! {

/// The "OggS" capture pattern at `p`.
pub open spec fn ogg_capture(b: Seq<u8>, p: int) -> bool {
    b[p] == 0x4f && b[p + 1] == 0x67 && b[p + 2] == 0x67 && b[p + 3] == 0x53
}

/// The sum of the `n` segment-table bytes starting at `s`.
pub open spec fn seg_sum(b: Seq<u8>, s: int, n: int) -> nat
    decreases n,
{
    if n <= 0 {
        0nat
    } else {
        (seg_sum(b, s, n - 1) + b[s + n - 1]) as nat
    }
}

/// Whether the page header at `p` is accepted as part of a chain: its 27
/// bytes fit in the buffer, it carries the "OggS" capture pattern and a
/// zero stream-structure revision, its beginning-of-stream flag is set
/// exactly on the first page, and its segment table fits in the buffer.
pub open spec fn ogg_page_ok(b: Seq<u8>, p: int, first: bool) -> bool {
    &&& p + 27 <= b.len()
    &&& ogg_capture(b, p) && b[p + 4] == 0
    &&& b[p + 5] & 2 == (if first {
        2u8
    } else {
        0u8
    })
    &&& p + 27 + b[p + 26] <= b.len()
}

/// The whole length of the page at `p`: header, segment table, payload.
pub open spec fn ogg_page_len(b: Seq<u8>, p: int) -> int {
    27 + b[p + 26] + seg_sum(b, p + 27, b[p + 26] as int)
}

/// Whether the page at `p` carries the end-of-stream flag.
pub open spec fn ogg_eos(b: Seq<u8>, p: int) -> bool {
    b[p + 5] & 4 == 4
}

/// The total byte length of the page chain starting at `p`.
pub open spec fn ogg_chain_size(b: Seq<u8>, p: int, first: bool) -> int
    decreases b.len() - p,
{
    if !ogg_page_ok(b, p, first) {
        0
    } else {
        let page = ogg_page_len(b, p);
        if ogg_eos(b, p) {
            page
        } else if p + page + 27 > b.len() {
            page
        } else {
            page + ogg_chain_size(b, p + page, false)
        }
    }
}

/// A page chain never has a negative byte length.
pub proof fn lemma_ogg_chain_nonneg(b: Seq<u8>, p: int, first: bool)
    ensures
        ogg_chain_size(b, p, first) >= 0,
    decreases b.len() - p,
{
    if ogg_page_ok(b, p, first) {
        let page = ogg_page_len(b, p);
        if !ogg_eos(b, p) && p + page + 27 <= b.len() {
            lemma_ogg_chain_nonneg(b, p + page, false);
        }
    }
}

/// The validator's verdict on a candidate at `off`: the chain's byte
/// length, or `None` when the chain is empty or extends past the buffer.
pub open spec fn ogg_result(b: Seq<u8>, off: int) -> Option<int> {
    let size = ogg_chain_size(b, off, true);
    if size == 0 {
        None
    } else if off + size > b.len() {
        None
    } else {
        Some(size)
    }
}

/// A single complete page carrying both the beginning-of-stream and the
/// end-of-stream flag validates, and the reported size is exactly the
/// 27-byte header plus the segment table plus the summed payload.
pub proof fn lemma_ogg_single_page(b: Seq<u8>, off: int)
    requires
        ogg_page_ok(b, off, true),
        ogg_eos(b, off),
        off + ogg_page_len(b, off) <= b.len(),
    ensures
        ogg_result(b, off) == Some(
            27 + b[off + 26] + seg_sum(b, off + 27, b[off + 26] as int),
        ),
{
}

/// A chain whose first page does not carry the beginning-of-stream flag
/// is rejected.
pub proof fn lemma_ogg_missing_bos_rejected(b: Seq<u8>, off: int)
    requires
        b[off + 5] & 2 != 2,
    ensures
        ogg_result(b, off) is None,
{
}

/// Validates an OGG candidate at `offset`, returning the region of the
/// page chain and the `ogg` extension, or `None` when the chain is
/// rejected.
pub fn detect_ogg(buffer: &[u8], offset: usize) -> (r: Option<StreamMatch<'static>>)
    ensures
        r matches Some(m) ==> {
            &&& m.offset == offset
            &&& 0 < m.size
            &&& offset + m.size <= buffer@.len()
            &&& ogg_result(buffer@, offset as int) == Some(m.size as int)
            &&& m.ext@ == "ogg"@
        },
        r is None ==> ogg_result(buffer@, offset as int) is None,
{
    let n = buffer.len();
    if offset > n {
        return None;
    }
    let mut pos = offset;
    let mut size: usize = 0;
    let mut first = true;

    loop
        invariant_except_break
            first == (size == 0),
            ogg_chain_size(buffer@, offset as int, true) == size + ogg_chain_size(
                buffer@,
                pos as int,
                first,
            ),
        invariant
            n == buffer@.len(),
            offset <= pos <= n,
            pos == offset + size,
        ensures
            offset + size <= n,
            ogg_chain_size(buffer@, offset as int, true) == size,
        decreases n - pos,
    {
        if n - pos < 27 {
            break;
        }
        let cap = buffer[pos] == 0x4f && buffer[pos + 1] == 0x67 && buffer[pos + 2] == 0x67
            && buffer[pos + 3] == 0x53;
        if !cap || buffer[pos + 4] != 0 {
            break;
        }
        let flags = buffer[pos + 5];
        let expected: u8 = if first {
            2
        } else {
            0
        };
        if flags & 2 != expected {
            break;
        }
        let nsegs = buffer[pos + 26] as usize;
        if nsegs > n - (pos + 27) {
            break;
        }
        let mut payload: usize = 0;
        let mut k: usize = 0;
        while k < nsegs
            invariant
                n == buffer@.len(),
                pos + 27 + nsegs <= n,
                k <= nsegs,
                nsegs <= 255,
                payload == seg_sum(buffer@, pos + 27, k as int),
                payload <= k * 255,
            decreases nsegs - k,
        {
            payload = payload + buffer[pos + 27 + k] as usize;
            k = k + 1;
        }
        let page = 27 + nsegs + payload;
        if page > n - pos {
            // The payload claims bytes past the end of the buffer, so the
            // accumulated size overflows the buffer and the candidate is
            // rejected.
            proof {
                assert(ogg_chain_size(buffer@, pos as int, first) >= page);
            }
            return None;
        }
        let ghost pos0 = pos as int;
        let ghost first0 = first;
        size = size + page;
        let eos = flags & 4 == 4;
        pos = pos + page;
        if eos {
            proof {
                assert(ogg_page_ok(buffer@, pos0, first0));
                assert(ogg_chain_size(buffer@, pos0, first0) == page);
            }
            break;
        }
        first = false;
        proof {
            assert(ogg_page_ok(buffer@, pos0, first0));
            if pos0 + page + 27 > n {
                assert(ogg_chain_size(buffer@, pos as int, false) == 0);
            }
            assert(ogg_chain_size(buffer@, pos0, first0) == page + ogg_chain_size(
                buffer@,
                pos as int,
                false,
            ));
        }
    }
    if size == 0 {
        return None;
    }
    Some(StreamMatch { offset, size, ext: "ogg" })
}

impl Detector for OggDetector {
    fn detect(&self, buffer: &[u8], offset: usize, opts: &DetectOptions) -> (r: Option<
        StreamMatch,
    >)
        ensures
            r matches Some(m) ==> ogg_result(buffer@, offset as int) == Some(m.size as int)
                && m.ext@ == "ogg"@,
            r is None ==> ogg_result(buffer@, offset as int) is None,
    {
        detect_ogg(buffer, offset)
    }
}

} // verus!
