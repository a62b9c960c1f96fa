//! Scan orchestration: feeds every candidate offset reported by the
//! signature scanner through the region-tracker gate and the format
//! validators, accumulating confirmed matches, the claimed byte regions,
//! and the aggregate counters.
//!
//! The candidate kinds of one offset are tried in catalog order and the
//! first validator that confirms wins; a candidate whose offset already
//! lies inside a claimed region is skipped, so at most one stream is
//! confirmed per offset.

use crate::catalog::{
    build_long_catalog, build_mpeg_catalog, catalog_spec, entry_model, long_catalog_spec,
    mpeg_catalog_spec, FormatToggles, SignatureEntry,
};
use crate::scanner::occurs_at;
use crate::detector::aac::{aac_result, detect_aac};
use crate::detector::bitmap::{bmp_result, detect_bitmap};
use crate::detector::mp3::{detect_mp3, mp3_ext, mp3_result};
use crate::detector::ogg::{detect_ogg, lemma_ogg_chain_nonneg, ogg_result};
use crate::detector::riff_wave::{detect_riff_wave, wav_result};
use crate::detector::{DetectOptions, StreamMatch, StreamType};
use crate::tracker::{region, RegionTracker};
use vstd::prelude::*;

verus! {

/// The mathematical content of a confirmed match.
#[verifier::ext_equal]
pub struct MatchModel {
    pub offset: int,
    pub size: int,
    pub ext: Seq<char>,
}

/// The mathematical content of the orchestrator's state: the confirmed
/// matches in confirmation order, the claimed byte positions, and the
/// saturating total of confirmed stream bytes.
#[verifier::ext_equal]
pub struct StateModel {
    pub found: Seq<MatchModel>,
    pub claimed: Set<int>,
    pub total: int,
}

/// The verdict of the validator for `kind` on the candidate at `off`:
/// the stream's size and extension, or `None`.
pub open spec fn detect_spec(kind: StreamType, b: Seq<u8>, off: int, min: nat, max: nat) -> Option<
    (int, Seq<char>),
> {
    match kind {
        StreamType::RiffWave => match wav_result(b, off) {
            Some(s) => Some((s, "wav"@)),
            None => None,
        },
        StreamType::Bitmap => match bmp_result(b, off) {
            Some(s) => Some((s, "bmp"@)),
            None => None,
        },
        StreamType::Ogg => match ogg_result(b, off) {
            Some(s) => Some((s, "ogg"@)),
            None => None,
        },
        StreamType::Aac => match aac_result(b, off, min, max) {
            Some(s) => Some((s, "aac"@)),
            None => None,
        },
        StreamType::Mp3 => match mp3_result(b, off, min, max) {
            Some(p) => Some((p.0, mp3_ext(p.1))),
            None => None,
        },
    }
}

/// Every confirmed verdict is a nonempty region inside the buffer.
pub proof fn lemma_detect_spec_valid(kind: StreamType, b: Seq<u8>, off: int, min: nat, max: nat)
    ensures
        detect_spec(kind, b, off, min, max) matches Some(p) ==> 0 < p.0 && off + p.0 <= b.len(),
{
    if kind is Ogg {
        lemma_ogg_chain_nonneg(b, off, true);
    }
}

/// The verdict of the first candidate kind whose validator confirms, in
/// catalog order.
pub open spec fn first_hit(
    b: Seq<u8>,
    off: int,
    kinds: Seq<StreamType>,
    min: nat,
    max: nat,
) -> Option<(int, Seq<char>)>
    decreases kinds.len(),
{
    if kinds.len() == 0 {
        None
    } else {
        match detect_spec(kinds[0], b, off, min, max) {
            Some(p) => Some(p),
            None => first_hit(b, off, kinds.skip(1), min, max),
        }
    }
}

/// A confirmed first hit is a nonempty region inside the buffer and is
/// the verdict of one of the candidate kinds.
pub proof fn lemma_first_hit(b: Seq<u8>, off: int, kinds: Seq<StreamType>, min: nat, max: nat)
    ensures
        first_hit(b, off, kinds, min, max) matches Some(p) ==> {
            &&& 0 < p.0
            &&& off + p.0 <= b.len()
            &&& exists|i: int|
                0 <= i < kinds.len() && detect_spec(#[trigger] kinds[i], b, off, min, max)
                    == Some(p)
        },
    decreases kinds.len(),
{
    if kinds.len() > 0 {
        lemma_detect_spec_valid(kinds[0], b, off, min, max);
        if detect_spec(kinds[0], b, off, min, max) is None {
            lemma_first_hit(b, off, kinds.skip(1), min, max);
            match first_hit(b, off, kinds.skip(1), min, max) {
                Some(p) => {
                    let i = choose|i: int|
                        0 <= i < kinds.skip(1).len() && detect_spec(
                            #[trigger] kinds.skip(1)[i],
                            b,
                            off,
                            min,
                            max,
                        ) == Some(p);
                    assert(kinds[i + 1] == kinds.skip(1)[i]);
                },
                None => {},
            }
        }
    }
}

/// Addition clamped at the largest machine word, the arithmetic of the
/// aggregate byte counter.
pub open spec fn sat_add(a: int, b: int) -> int {
    if a + b > usize::MAX {
        usize::MAX as int
    } else {
        a + b
    }
}

/// The effect of one candidate offset on the orchestrator's state: a
/// candidate inside a claimed region is skipped; otherwise the first
/// confirming kind appends its match, claims its region, and adds its
/// size to the byte total.
pub open spec fn handle_spec(
    b: Seq<u8>,
    off: int,
    kinds: Seq<StreamType>,
    min: nat,
    max: nat,
    st: StateModel,
) -> StateModel {
    if st.claimed.contains(off) {
        st
    } else {
        match first_hit(b, off, kinds, min, max) {
            None => st,
            Some(p) => StateModel {
                found: st.found.push(MatchModel { offset: off, size: p.0, ext: p.1 }),
                claimed: st.claimed.union(region(off, p.0)),
                total: sat_add(st.total, p.0),
            },
        }
    }
}

/// The orchestrator's state: confirmed matches, the region tracker, and
/// the saturating total of confirmed stream bytes.
pub struct ScanState {
    pub found: Vec<StreamMatch<'static>>,
    pub claimed: RegionTracker,
    pub total_size: usize,
}

/// The mathematical content of a confirmed match.
pub open spec fn match_model(m: StreamMatch<'static>) -> MatchModel {
    MatchModel { offset: m.offset as int, size: m.size as int, ext: m.ext@ }
}

/// The mathematical content of the orchestrator's state.
pub open spec fn state_model(s: ScanState) -> StateModel {
    StateModel {
        found: s.found@.map_values(|m: StreamMatch<'static>| match_model(m)),
        claimed: s.claimed@,
        total: s.total_size as int,
    }
}

impl ScanState {
    /// The state at pipeline start: nothing found, nothing claimed.
    pub fn new() -> (r: Self)
        ensures
            state_model(r) == (StateModel {
                found: Seq::<MatchModel>::empty(),
                claimed: Set::<int>::empty(),
                total: 0int,
            }),
    {
        let r = ScanState { found: Vec::new(), claimed: RegionTracker::new(), total_size: 0 };
        proof {
            assert(state_model(r) =~~= StateModel {
                found: Seq::<MatchModel>::empty(),
                claimed: Set::<int>::empty(),
                total: 0int,
            });
        }
        r
    }
}

/// Runs the validator for one candidate kind.
fn detect_one(buffer: &[u8], offset: usize, kind: StreamType, opts: &DetectOptions) -> (r: Option<
    StreamMatch<'static>,
>)
    ensures
        r matches Some(m) ==> {
            &&& m.offset == offset
            &&& 0 < m.size
            &&& offset + m.size <= buffer@.len()
            &&& detect_spec(
                kind,
                buffer@,
                offset as int,
                opts.mpeg_min_frames as nat,
                opts.mpeg_max_frames as nat,
            ) == Some((m.size as int, m.ext@))
        },
        r is None ==> detect_spec(
            kind,
            buffer@,
            offset as int,
            opts.mpeg_min_frames as nat,
            opts.mpeg_max_frames as nat,
        ) is None,
{
    match kind {
        StreamType::RiffWave => detect_riff_wave(buffer, offset),
        StreamType::Bitmap => detect_bitmap(buffer, offset),
        StreamType::Ogg => detect_ogg(buffer, offset),
        StreamType::Aac => detect_aac(buffer, offset, opts),
        StreamType::Mp3 => detect_mp3(buffer, offset, opts),
    }
}

/// Gates one candidate offset through the region tracker and tries its
/// candidate kinds in catalog order, recording the first confirmed match.
pub fn handle_offset(
    buffer: &[u8],
    offset: usize,
    kinds: &Vec<StreamType>,
    opts: &DetectOptions,
    state: &mut ScanState,
)
    ensures
        state_model(*final(state)) == handle_spec(
            buffer@,
            offset as int,
            kinds@,
            opts.mpeg_min_frames as nat,
            opts.mpeg_max_frames as nat,
            state_model(*old(state)),
        ),
{
    proof {
        vstd::slice::axiom_spec_len(buffer);
    }
    let ghost b = buffer@;
    let ghost min = opts.mpeg_min_frames as nat;
    let ghost max = opts.mpeg_max_frames as nat;
    let ghost st0 = state_model(*old(state));
    proof {
        assert(kinds@.skip(0) =~= kinds@);
    }
    let mut i: usize = 0;
    while i < kinds.len()
        invariant
            i <= kinds@.len(),
            b == buffer@,
            buffer@.len() <= usize::MAX,
            min == opts.mpeg_min_frames as nat,
            max == opts.mpeg_max_frames as nat,
            st0 == state_model(*state),
            st0 == state_model(*old(state)),
            first_hit(b, offset as int, kinds@, min, max) == first_hit(
                b,
                offset as int,
                kinds@.skip(i as int),
                min,
                max,
            ),
        decreases kinds@.len() - i,
    {
        if state.claimed.contains(offset) {
            return ;
        }
        match detect_one(buffer, offset, kinds[i], opts) {
            Some(m) => {
                proof {
                    assert(kinds@.skip(i as int)[0] == kinds@[i as int]);
                    assert(first_hit(b, offset as int, kinds@.skip(i as int), min, max) == Some(
                        (m.size as int, m.ext@),
                    ));
                }
                let ghost pre = *state;
                state.found.push(m);
                state.claimed.insert(m.offset, m.size);
                if m.size > usize::MAX - state.total_size {
                    state.total_size = usize::MAX;
                } else {
                    state.total_size = state.total_size + m.size;
                }
                proof {
                    assert(state_model(*state) =~~= handle_spec(
                        b,
                        offset as int,
                        kinds@,
                        min,
                        max,
                        st0,
                    ));
                }
                return ;
            },
            None => {
                proof {
                    assert(kinds@.skip(i as int)[0] == kinds@[i as int]);
                    assert(kinds@.skip(i as int).skip(1) =~= kinds@.skip(i as int + 1));
                }
                i = i + 1;
            },
        }
    }
    proof {
        assert(kinds@.skip(kinds@.len() as int).len() == 0);
    }
}

/// A candidate list as offsets and kind lists: what the scanner's matches
/// mean against a catalog tier.
pub open spec fn cands_model(cs: Seq<(usize, usize)>, es: Seq<SignatureEntry>) -> Seq<
    (int, Seq<StreamType>),
> {
    cs.map_values(|c: (usize, usize)| (c.0 as int, es[c.1 as int].kinds@))
}

/// The orchestrator's state after handling a list of candidates in order.
pub open spec fn pipeline_fold(
    b: Seq<u8>,
    cands: Seq<(int, Seq<StreamType>)>,
    min: nat,
    max: nat,
    st: StateModel,
) -> StateModel
    decreases cands.len(),
{
    if cands.len() == 0 {
        st
    } else {
        pipeline_fold(
            b,
            cands.skip(1),
            min,
            max,
            handle_spec(b, cands[0].0, cands[0].1, min, max, st),
        )
    }
}

/// Handles every candidate of one scanner tier in arrival order,
/// accumulating into `state` exactly as `pipeline_fold` describes.
pub fn process_candidates(
    buffer: &[u8],
    entries: &Vec<SignatureEntry>,
    cands: &Vec<(usize, usize)>,
    opts: &DetectOptions,
    state: &mut ScanState,
)
    requires
        forall|k: int| 0 <= k < cands@.len() ==> (#[trigger] cands@[k]).1 < entries@.len(),
    ensures
        state_model(*final(state)) == pipeline_fold(
            buffer@,
            cands_model(cands@, entries@),
            opts.mpeg_min_frames as nat,
            opts.mpeg_max_frames as nat,
            state_model(*old(state)),
        ),
{
    let ghost b = buffer@;
    let ghost min = opts.mpeg_min_frames as nat;
    let ghost max = opts.mpeg_max_frames as nat;
    let ghost all = cands_model(cands@, entries@);
    let ghost st0 = state_model(*old(state));
    proof {
        assert(all.skip(0) =~= all);
    }
    let mut i: usize = 0;
    while i < cands.len()
        invariant
            i <= cands@.len(),
            b == buffer@,
            min == opts.mpeg_min_frames as nat,
            max == opts.mpeg_max_frames as nat,
            all == cands_model(cands@, entries@),
            forall|k: int| 0 <= k < cands@.len() ==> (#[trigger] cands@[k]).1 < entries@.len(),
            pipeline_fold(b, all, min, max, st0) == pipeline_fold(
                b,
                all.skip(i as int),
                min,
                max,
                state_model(*state),
            ),
        decreases cands@.len() - i,
    {
        let c = cands[i];
        proof {
            assert(all.skip(i as int)[0] == all[i as int]);
            assert(all.skip(i as int).skip(1) =~= all.skip(i as int + 1));
        }
        handle_offset(buffer, c.0, &entries[c.1].kinds, opts, state);
        i = i + 1;
    }
    proof {
        assert(all.skip(cands@.len() as int).len() == 0);
    }
}

/// A match model that one of the validators confirms at its offset: a
/// nonempty region inside the buffer whose size and extension are the
/// verdict of some stream kind.
pub open spec fn valid_model(b: Seq<u8>, min: nat, max: nat, m: MatchModel) -> bool {
    &&& 0 <= m.offset
    &&& 0 < m.size
    &&& m.offset + m.size <= b.len()
    &&& exists|kind: StreamType| detect_spec(kind, b, m.offset, min, max) == Some((m.size, m.ext))
}

/// The byte positions covered by a list of matches.
pub open spec fn regions_of(ms: Seq<MatchModel>) -> Set<int>
    decreases ms.len(),
{
    if ms.len() == 0 {
        Set::<int>::empty()
    } else {
        regions_of(ms.drop_last()).union(region(ms.last().offset, ms.last().size))
    }
}

/// The saturating sum of the match sizes.
pub open spec fn sat_total(ms: Seq<MatchModel>) -> int
    decreases ms.len(),
{
    if ms.len() == 0 {
        0
    } else {
        sat_add(sat_total(ms.drop_last()), ms.last().size)
    }
}

/// No later match starts inside an earlier match's region: the tracker
/// gate admits each offset at most once.
pub open spec fn gated(ms: Seq<MatchModel>) -> bool {
    forall|j: int, k: int|
        #![trigger ms[j], ms[k]]
        0 <= j < k < ms.len() ==> !region(ms[j].offset, ms[j].size).contains(ms[k].offset)
}

/// The orchestrator's state invariant: every recorded match is confirmed
/// and in bounds, the claimed set is exactly the union of the recorded
/// regions, no match starts inside an earlier one, and the byte total is
/// the saturating sum of the match sizes.
pub open spec fn wf_state(b: Seq<u8>, min: nat, max: nat, st: StateModel) -> bool {
    &&& forall|k: int| 0 <= k < st.found.len() ==> valid_model(b, min, max, #[trigger] st.found[k])
    &&& st.claimed == regions_of(st.found)
    &&& gated(st.found)
    &&& st.total == sat_total(st.found)
}

/// A byte position is covered by a match list exactly when it lies in
/// some match's region.
pub proof fn lemma_regions_of_membership(ms: Seq<MatchModel>, x: int)
    ensures
        regions_of(ms).contains(x) <==> exists|j: int|
            0 <= j < ms.len() && region((#[trigger] ms[j]).offset, ms[j].size).contains(x),
    decreases ms.len(),
{
    if ms.len() > 0 {
        lemma_regions_of_membership(ms.drop_last(), x);
        assert(forall|j: int|
            0 <= j < ms.len() - 1 ==> #[trigger] ms.drop_last()[j] == ms[j]);
        if regions_of(ms).contains(x) {
            if regions_of(ms.drop_last()).contains(x) {
                let j = choose|j: int|
                    0 <= j < ms.drop_last().len() && region(
                        (#[trigger] ms.drop_last()[j]).offset,
                        ms.drop_last()[j].size,
                    ).contains(x);
                assert(region(ms[j].offset, ms[j].size).contains(x));
            } else {
                assert(region(ms[ms.len() - 1].offset, ms[ms.len() - 1].size).contains(x));
            }
        }
        if exists|j: int|
            0 <= j < ms.len() && region((#[trigger] ms[j]).offset, ms[j].size).contains(x) {
            let j = choose|j: int|
                0 <= j < ms.len() && region((#[trigger] ms[j]).offset, ms[j].size).contains(x);
            if j < ms.len() - 1 {
                assert(region((ms.drop_last()[j]).offset, ms.drop_last()[j].size).contains(x));
                assert(regions_of(ms.drop_last()).contains(x));
            }
            assert(regions_of(ms).contains(x));
        }
    }
}

/// Handling one candidate preserves the orchestrator's state invariant.
pub proof fn lemma_handle_wf(
    b: Seq<u8>,
    off: int,
    kinds: Seq<StreamType>,
    min: nat,
    max: nat,
    st: StateModel,
)
    requires
        wf_state(b, min, max, st),
        0 <= off,
    ensures
        wf_state(b, min, max, handle_spec(b, off, kinds, min, max, st)),
{
    if !st.claimed.contains(off) {
        lemma_first_hit(b, off, kinds, min, max);
        match first_hit(b, off, kinds, min, max) {
            Some(p) => {
                let i = choose|i: int|
                    0 <= i < kinds.len() && detect_spec(#[trigger] kinds[i], b, off, min, max)
                        == Some(p);
                let m = MatchModel { offset: off, size: p.0, ext: p.1 };
                assert(detect_spec(kinds[i], b, m.offset, min, max) == Some((m.size, m.ext)));
                assert(valid_model(b, min, max, m));
                let nf = st.found.push(m);
                assert(nf.drop_last() =~= st.found);
                assert(nf.last() == m);
                assert(forall|k: int|
                    0 <= k < st.found.len() ==> #[trigger] nf[k] == st.found[k]);
                lemma_regions_of_membership(st.found, off);
                assert(gated(nf));
            },
            None => {},
        }
    }
}

/// Folding a candidate list preserves the orchestrator's state invariant.
pub proof fn lemma_fold_wf(
    b: Seq<u8>,
    cands: Seq<(int, Seq<StreamType>)>,
    min: nat,
    max: nat,
    st: StateModel,
)
    requires
        wf_state(b, min, max, st),
        forall|k: int| 0 <= k < cands.len() ==> 0 <= (#[trigger] cands[k]).0,
    ensures
        wf_state(b, min, max, pipeline_fold(b, cands, min, max, st)),
    decreases cands.len(),
{
    if cands.len() > 0 {
        lemma_handle_wf(b, cands[0].0, cands[0].1, min, max, st);
        assert(forall|k: int|
            0 <= k < cands.skip(1).len() ==> #[trigger] cands.skip(1)[k] == cands[k + 1]);
        lemma_fold_wf(
            b,
            cands.skip(1),
            min,
            max,
            handle_spec(b, cands[0].0, cands[0].1, min, max, st),
        );
    }
}

/// Every match the fold adds comes from one of its candidates: the new
/// match starts at that candidate's offset and carries the verdict of
/// the first confirming kind among the candidate's kinds; matches
/// already recorded stay exactly as they are.
pub proof fn lemma_fold_matches_from_candidates(
    b: Seq<u8>,
    cands: Seq<(int, Seq<StreamType>)>,
    min: nat,
    max: nat,
    st: StateModel,
)
    ensures
        ({
            let stf = pipeline_fold(b, cands, min, max, st);
            &&& stf.found.len() >= st.found.len()
            &&& forall|k: int| 0 <= k < st.found.len() ==> #[trigger] stf.found[k] == st.found[k]
            &&& forall|k: int|
                #![trigger stf.found[k]]
                st.found.len() <= k < stf.found.len() ==> exists|j: int|
                    0 <= j < cands.len() && (#[trigger] cands[j]).0 == stf.found[k].offset
                        && first_hit(b, cands[j].0, cands[j].1, min, max) == Some(
                        (stf.found[k].size, stf.found[k].ext),
                    )
        }),
    decreases cands.len(),
{
    if cands.len() > 0 {
        let c0 = cands[0];
        let st1 = handle_spec(b, c0.0, c0.1, min, max, st);
        lemma_fold_matches_from_candidates(b, cands.skip(1), min, max, st1);
        let stf = pipeline_fold(b, cands, min, max, st);
        assert forall|k: int|
            #![trigger stf.found[k]]
            st.found.len() <= k < stf.found.len() implies exists|j: int|
            0 <= j < cands.len() && (#[trigger] cands[j]).0 == stf.found[k].offset && first_hit(
                b,
                cands[j].0,
                cands[j].1,
                min,
                max,
            ) == Some((stf.found[k].size, stf.found[k].ext)) by {
            if k < st1.found.len() {
                assert(stf.found[k] == st1.found[k]);
                assert(cands[0].0 == stf.found[k].offset && first_hit(
                    b,
                    cands[0].0,
                    cands[0].1,
                    min,
                    max,
                ) == Some((stf.found[k].size, stf.found[k].ext)));
            } else {
                let j = choose|j: int|
                    0 <= j < cands.skip(1).len() && (#[trigger] cands.skip(1)[j]).0
                        == stf.found[k].offset && first_hit(
                        b,
                        cands.skip(1)[j].0,
                        cands.skip(1)[j].1,
                        min,
                        max,
                    ) == Some((stf.found[k].size, stf.found[k].ext));
                assert(cands[j + 1] == cands.skip(1)[j]);
            }
        }
    }
}

/// The scanner facts for one tier: each reported candidate is an
/// occurrence of its pattern, and every occurrence of a nonempty pattern
/// is reported.
pub open spec fn tier_reported(b: Seq<u8>, pats: Seq<Seq<u8>>, cands: Seq<(usize, usize)>) -> bool {
    &&& forall|k: int|
        0 <= k < cands.len() ==> {
            &&& (#[trigger] cands[k]).1 < pats.len()
            &&& occurs_at(b, pats[cands[k].1 as int], cands[k].0 as int)
        }
    &&& forall|pi: int, i: int|
        0 <= pi < pats.len() && pats[pi].len() > 0 && #[trigger] occurs_at(b, pats[pi], i)
            ==> exists|k: int| 0 <= k < cands.len() && (#[trigger] cands[k]).0 == i && cands[k].1
            == pi
}

/// Whether a tier's patterns and entries spell out the given catalog
/// slice, entry by entry.
pub open spec fn tier_matches_catalog(
    pats: Seq<Seq<u8>>,
    es: Seq<SignatureEntry>,
    tcat: Seq<(Seq<u8>, Seq<StreamType>)>,
) -> bool {
    &&& pats.len() == tcat.len()
    &&& es.len() == tcat.len()
    &&& forall|j: int|
        0 <= j < tcat.len() ==> pats[j] == (#[trigger] tcat[j]).0 && es[j].kinds@ == tcat[j].1
}

/// After one tier's candidates are folded in, every occurrence of one of
/// its nonempty signatures is resolved: claimed, or rejected by all its
/// kinds.
proof fn lemma_tier_complete(
    b: Seq<u8>,
    pats: Seq<Seq<u8>>,
    es: Seq<SignatureEntry>,
    tcat: Seq<(Seq<u8>, Seq<StreamType>)>,
    cands: Seq<(usize, usize)>,
    min: nat,
    max: nat,
    st: StateModel,
)
    requires
        tier_reported(b, pats, cands),
        tier_matches_catalog(pats, es, tcat),
    ensures
        forall|e: int, i: int|
            0 <= e < tcat.len() && tcat[e].0.len() > 0 && #[trigger] occurs_at(b, tcat[e].0, i)
                ==> pipeline_fold(b, cands_model(cands, es), min, max, st).claimed.contains(i)
                || first_hit(b, i, tcat[e].1, min, max) is None,
{
    let cm = cands_model(cands, es);
    lemma_fold_resolves(b, cm, min, max, st);
    assert forall|e: int, i: int|
        0 <= e < tcat.len() && tcat[e].0.len() > 0 && #[trigger] occurs_at(b, tcat[e].0, i)
        implies pipeline_fold(b, cm, min, max, st).claimed.contains(i) || first_hit(
        b,
        i,
        tcat[e].1,
        min,
        max,
    ) is None by {
        assert(occurs_at(b, pats[e], i));
        let k = choose|k: int|
            0 <= k < cands.len() && (#[trigger] cands[k]).0 == i && cands[k].1 == e;
        assert(cm[k] == (i, es[e].kinds@));
    }
}

/// Every match one tier's fold adds starts at an occurrence of one of
/// the tier's signatures, with the verdict of that signature's kinds;
/// earlier matches stay as they are.
proof fn lemma_tier_matches(
    b: Seq<u8>,
    pats: Seq<Seq<u8>>,
    es: Seq<SignatureEntry>,
    tcat: Seq<(Seq<u8>, Seq<StreamType>)>,
    cands: Seq<(usize, usize)>,
    min: nat,
    max: nat,
    st: StateModel,
)
    requires
        tier_reported(b, pats, cands),
        tier_matches_catalog(pats, es, tcat),
    ensures
        ({
            let stf = pipeline_fold(b, cands_model(cands, es), min, max, st);
            &&& stf.found.len() >= st.found.len()
            &&& forall|k: int| 0 <= k < st.found.len() ==> #[trigger] stf.found[k] == st.found[k]
            &&& forall|k: int|
                #![trigger stf.found[k]]
                st.found.len() <= k < stf.found.len() ==> exists|e: int|
                    0 <= e < tcat.len() && occurs_at(b, (#[trigger] tcat[e]).0, stf.found[k].offset)
                        && first_hit(b, stf.found[k].offset, tcat[e].1, min, max) == Some(
                        (stf.found[k].size, stf.found[k].ext),
                    )
        }),
{
    let cm = cands_model(cands, es);
    lemma_fold_matches_from_candidates(b, cm, min, max, st);
    let stf = pipeline_fold(b, cm, min, max, st);
    assert forall|k: int|
        #![trigger stf.found[k]]
        st.found.len() <= k < stf.found.len() implies exists|e: int|
        0 <= e < tcat.len() && occurs_at(b, (#[trigger] tcat[e]).0, stf.found[k].offset)
            && first_hit(b, stf.found[k].offset, tcat[e].1, min, max) == Some(
            (stf.found[k].size, stf.found[k].ext),
        ) by {
        let j = choose|j: int|
            0 <= j < cm.len() && (#[trigger] cm[j]).0 == stf.found[k].offset && first_hit(
                b,
                cm[j].0,
                cm[j].1,
                min,
                max,
            ) == Some((stf.found[k].size, stf.found[k].ext));
        let pi = cands[j].1 as int;
        assert(cm[j] == (cands[j].0 as int, es[pi].kinds@));
        assert(occurs_at(b, pats[pi], cands[j].0 as int));
        assert(occurs_at(b, tcat[pi].0, stf.found[k].offset));
        assert(first_hit(b, stf.found[k].offset, tcat[pi].1, min, max) == Some(
            (stf.found[k].size, stf.found[k].ext),
        ));
    }
}

/// The region-tracker gate makes re-processing a candidate a no-op: the
/// state after handling the same candidate twice is the state after
/// handling it once, so a duplicate candidate is neither validated again
/// nor double-counted in the match list, the claimed regions, or the
/// byte total.
pub proof fn lemma_duplicate_candidate_no_op(
    b: Seq<u8>,
    off: int,
    kinds: Seq<StreamType>,
    min: nat,
    max: nat,
    st: StateModel,
)
    ensures
        handle_spec(b, off, kinds, min, max, handle_spec(b, off, kinds, min, max, st))
            == handle_spec(b, off, kinds, min, max, st),
{
    let st1 = handle_spec(b, off, kinds, min, max, st);
    if !st.claimed.contains(off) {
        match first_hit(b, off, kinds, min, max) {
            Some(p) => {
                lemma_first_hit(b, off, kinds, min, max);
                assert(st1.claimed.contains(off));
            },
            None => {},
        }
    }
}

/// Once claimed, always claimed: handling further candidates never
/// un-claims a byte position.
pub proof fn lemma_fold_claim_monotone(
    b: Seq<u8>,
    cands: Seq<(int, Seq<StreamType>)>,
    min: nat,
    max: nat,
    st: StateModel,
)
    ensures
        forall|x: int|
            st.claimed.contains(x) ==> pipeline_fold(b, cands, min, max, st).claimed.contains(x),
    decreases cands.len(),
{
    if cands.len() > 0 {
        let st1 = handle_spec(b, cands[0].0, cands[0].1, min, max, st);
        lemma_fold_claim_monotone(b, cands.skip(1), min, max, st1);
        assert forall|x: int| st.claimed.contains(x) implies pipeline_fold(
            b,
            cands,
            min,
            max,
            st,
        ).claimed.contains(x) by {
            assert(st1.claimed.contains(x));
        }
    }
}

/// Every handled candidate ends resolved: afterwards its offset is
/// claimed by some confirmed stream, or every one of its candidate kinds
/// rejects it.
pub proof fn lemma_fold_resolves(
    b: Seq<u8>,
    cands: Seq<(int, Seq<StreamType>)>,
    min: nat,
    max: nat,
    st: StateModel,
)
    ensures
        forall|k: int|
            0 <= k < cands.len() ==> pipeline_fold(b, cands, min, max, st).claimed.contains(
                (#[trigger] cands[k]).0,
            ) || first_hit(b, cands[k].0, cands[k].1, min, max) is None,
    decreases cands.len(),
{
    if cands.len() > 0 {
        let c0 = cands[0];
        let st1 = handle_spec(b, c0.0, c0.1, min, max, st);
        if first_hit(b, c0.0, c0.1, min, max) is Some {
            lemma_first_hit(b, c0.0, c0.1, min, max);
            assert(st1.claimed.contains(c0.0));
            lemma_fold_claim_monotone(b, cands.skip(1), min, max, st1);
        }
        lemma_fold_resolves(b, cands.skip(1), min, max, st1);
        assert forall|k: int|
            1 <= k < cands.len() implies (pipeline_fold(b, cands, min, max, st).claimed.contains(
            (cands[k]).0,
        ) || first_hit(b, cands[k].0, cands[k].1, min, max) is None) by {
            assert(cands.skip(1)[k - 1] == cands[k]);
        }
    }
}

/// The byte patterns of a catalog tier, in entry order.
fn tier_patterns(entries: &Vec<SignatureEntry>) -> (r: Vec<Vec<u8>>)
    ensures
        r@.map_values(|p: Vec<u8>| p@) == entries@.map_values(|e: SignatureEntry| e.signature@),
{
    let mut r: Vec<Vec<u8>> = Vec::new();
    let mut i: usize = 0;
    while i < entries.len()
        invariant
            i <= entries@.len(),
            r@.len() == i,
            forall|k: int| 0 <= k < i ==> (#[trigger] r@[k])@ == entries@[k].signature@,
        decreases entries@.len() - i,
    {
        let p = entries[i].signature.clone();
        proof {
            assert(p@ =~= entries@[i as int].signature@);
        }
        r.push(p);
        i = i + 1;
    }
    proof {
        assert(r@.map_values(|p: Vec<u8>| p@) =~~= entries@.map_values(
            |e: SignatureEntry| e.signature@,
        ));
    }
    r
}

/// What a scan reports: the confirmed matches in confirmation order, the
/// claimed regions, and the aggregate counters.
pub struct ScanOutcome {
    pub matches: Vec<StreamMatch<'static>>,
    pub claimed: RegionTracker,
    pub total_streams_count: usize,
    pub total_streams_size: usize,
}

/// A fatal scanner failure: the pattern automaton could not be built, or
/// refused to search.
#[derive(Debug, Clone, Copy, PartialEq, Eq, Structural)]
pub enum ScanError {
    Automaton,
    Search,
}

/// Scans a whole buffer: builds the catalog of enabled signatures, runs
/// the two scanner passes, longer signatures first and the single-byte
/// signatures second, and hands every candidate to the region tracker
/// and the validators.
///
/// A scan always succeeds: the catalog holds at most four signatures of
/// at most four bytes each, which the scanner is promised to accept.
/// Every reported match is confirmed by a validator at its offset, lies
/// inside the buffer, starts at an occurrence of one of the enabled
/// signatures, and does not start inside an earlier match's region; the
/// claimed regions are exactly the reported matches' regions; the
/// counters aggregate the reported matches; and no candidate is dropped:
/// wherever an enabled signature occurs in the buffer, that offset
/// either ends up inside a claimed region or is rejected by every
/// candidate kind of its signature.
#[verifier::rlimit(100)]
pub fn scan_buffer(buffer: &[u8], toggles: FormatToggles, opts: &DetectOptions) -> (r: Result<
    ScanOutcome,
    ScanError,
>)
    ensures
        r is Ok,
        r matches Ok(out) ==> ({
            let ms = out.matches@.map_values(|m: StreamMatch<'static>| match_model(m));
            &&& forall|k: int|
                0 <= k < ms.len() ==> valid_model(
                    buffer@,
                    opts.mpeg_min_frames as nat,
                    opts.mpeg_max_frames as nat,
                    #[trigger] ms[k],
                )
            &&& gated(ms)
            &&& out.claimed@ == regions_of(ms)
            &&& out.total_streams_count == out.matches@.len()
            &&& out.total_streams_size as int == sat_total(ms)
            &&& forall|e: int, i: int|
                0 <= e < catalog_spec(toggles).len() && #[trigger] occurs_at(
                    buffer@,
                    catalog_spec(toggles)[e].0,
                    i,
                ) ==> out.claimed@.contains(i) || first_hit(
                    buffer@,
                    i,
                    catalog_spec(toggles)[e].1,
                    opts.mpeg_min_frames as nat,
                    opts.mpeg_max_frames as nat,
                ) is None
            &&& forall|k: int|
                #![trigger ms[k]]
                0 <= k < ms.len() ==> exists|e: int|
                    0 <= e < catalog_spec(toggles).len() && occurs_at(
                        buffer@,
                        (#[trigger] catalog_spec(toggles)[e]).0,
                        ms[k].offset,
                    ) && first_hit(
                        buffer@,
                        ms[k].offset,
                        catalog_spec(toggles)[e].1,
                        opts.mpeg_min_frames as nat,
                        opts.mpeg_max_frames as nat,
                    ) == Some((ms[k].size, ms[k].ext))
        }),
{
    let ghost b = buffer@;
    let ghost min = opts.mpeg_min_frames as nat;
    let ghost max = opts.mpeg_max_frames as nat;

    let long_entries = build_long_catalog(toggles);
    let mpeg_entries = build_mpeg_catalog(toggles);

    let long_patterns = tier_patterns(&long_entries);
    let mpeg_patterns = tier_patterns(&mpeg_entries);

    proof {
        assert(long_patterns@.map_values(|p: Vec<u8>| p@).len() == long_patterns@.len());
        assert(long_entries@.map_values(|en: SignatureEntry| en.signature@).len()
            == long_entries@.len());
        assert(mpeg_patterns@.map_values(|p: Vec<u8>| p@).len() == mpeg_patterns@.len());
        assert(mpeg_entries@.map_values(|en: SignatureEntry| en.signature@).len()
            == mpeg_entries@.len());
        assert(long_patterns@.len() == long_entries@.len());
        assert(mpeg_patterns@.len() == mpeg_entries@.len());
        assert(long_patterns@.len() <= 4);
        assert forall|j: int| 0 <= j < long_patterns@.len() implies (
        #[trigger] long_patterns@[j])@.len() <= 4 by {
            assert(long_patterns@.map_values(|p: Vec<u8>| p@)[j] == long_patterns@[j]@);
            assert(long_entries@.map_values(|en: SignatureEntry| en.signature@)[j]
                == long_entries@[j].signature@);
            assert(long_entries@.map_values(|en: SignatureEntry| entry_model(en))[j]
                == long_catalog_spec(toggles)[j]);
        }
        assert(mpeg_patterns@.len() <= 4);
        assert forall|j: int| 0 <= j < mpeg_patterns@.len() implies (
        #[trigger] mpeg_patterns@[j])@.len() <= 4 by {
            assert(mpeg_patterns@.map_values(|p: Vec<u8>| p@)[j] == mpeg_patterns@[j]@);
            assert(mpeg_entries@.map_values(|en: SignatureEntry| en.signature@)[j]
                == mpeg_entries@[j].signature@);
            assert(mpeg_entries@.map_values(|en: SignatureEntry| entry_model(en))[j]
                == mpeg_catalog_spec(toggles)[j]);
        }
    }

    let long_ac = match crate::scanner::build_automaton(&long_patterns) {
        Some(ac) => ac,
        None => { return Err(ScanError::Automaton) },
    };
    let mpeg_ac = match crate::scanner::build_automaton(&mpeg_patterns) {
        Some(ac) => ac,
        None => { return Err(ScanError::Automaton) },
    };

    let long_cands = match crate::scanner::find_signatures(&long_ac, buffer) {
        Some(v) => v,
        None => { return Err(ScanError::Search) },
    };
    let mpeg_cands = match crate::scanner::find_signatures(&mpeg_ac, buffer) {
        Some(v) => v,
        None => { return Err(ScanError::Search) },
    };

    let mut state = ScanState::new();
    let ghost st0 = state_model(state);
    proof {
        assert(st0.claimed =~= regions_of(st0.found));
        assert(wf_state(b, min, max, st0));
    }

    proof {
        assert(forall|k: int|
            0 <= k < long_cands@.len() ==> (#[trigger] long_cands@[k]).1
                < long_entries@.len());
    }
    process_candidates(buffer, &long_entries, &long_cands, opts, &mut state);
    let ghost c1 = cands_model(long_cands@, long_entries@);
    proof {
        assert(forall|k: int| 0 <= k < c1.len() ==> 0 <= (#[trigger] c1[k]).0);
        lemma_fold_wf(b, c1, min, max, st0);
    }

    let ghost st1 = state_model(state);
    proof {
        assert(forall|k: int|
            0 <= k < mpeg_cands@.len() ==> (#[trigger] mpeg_cands@[k]).1
                < mpeg_entries@.len());
    }
    process_candidates(buffer, &mpeg_entries, &mpeg_cands, opts, &mut state);
    let ghost c2 = cands_model(mpeg_cands@, mpeg_entries@);
    proof {
        assert(forall|k: int| 0 <= k < c2.len() ==> 0 <= (#[trigger] c2[k]).0);
        lemma_fold_wf(b, c2, min, max, st1);
    }

    let ghost stf = state_model(state);
    proof {
        let cat = catalog_spec(toggles);
        let lcat = long_catalog_spec(toggles);
        let mcat = mpeg_catalog_spec(toggles);
        let llen = lcat.len();
        let lpats = crate::scanner::automaton_patterns(long_ac);
        let mpats = crate::scanner::automaton_patterns(mpeg_ac);

        // the tiers' patterns and entries spell out the catalog slices
        assert forall|j: int| 0 <= j < lcat.len() implies lpats[j] == (#[trigger] lcat[j]).0
            && long_entries@[j].kinds@ == lcat[j].1 by {
            assert(long_entries@.map_values(|en: SignatureEntry| entry_model(en))[j] == lcat[j]);
            assert(entry_model(long_entries@[j]) == lcat[j]);
            assert(long_patterns@.map_values(|p: Vec<u8>| p@)[j] == long_patterns@[j]@);
            assert(long_entries@.map_values(|en: SignatureEntry| en.signature@)[j]
                == long_entries@[j].signature@);
        }
        assert(tier_matches_catalog(lpats, long_entries@, lcat));
        assert forall|j: int| 0 <= j < mcat.len() implies mpats[j] == (#[trigger] mcat[j]).0
            && mpeg_entries@[j].kinds@ == mcat[j].1 by {
            assert(mpeg_entries@.map_values(|en: SignatureEntry| entry_model(en))[j] == mcat[j]);
            assert(entry_model(mpeg_entries@[j]) == mcat[j]);
            assert(mpeg_patterns@.map_values(|p: Vec<u8>| p@)[j] == mpeg_patterns@[j]@);
            assert(mpeg_entries@.map_values(|en: SignatureEntry| en.signature@)[j]
                == mpeg_entries@[j].signature@);
        }
        assert(tier_matches_catalog(mpats, mpeg_entries@, mcat));
        assert(tier_reported(b, lpats, long_cands@));
        assert(tier_reported(b, mpats, mpeg_cands@));

        lemma_tier_complete(b, lpats, long_entries@, lcat, long_cands@, min, max, st0);
        lemma_tier_complete(b, mpats, mpeg_entries@, mcat, mpeg_cands@, min, max, st1);
        lemma_tier_matches(b, lpats, long_entries@, lcat, long_cands@, min, max, st0);
        lemma_tier_matches(b, mpats, mpeg_entries@, mcat, mpeg_cands@, min, max, st1);
        lemma_fold_claim_monotone(b, c2, min, max, st1);

        // completeness over the whole catalog
        assert forall|e: int, i: int|
            0 <= e < cat.len() && #[trigger] occurs_at(b, cat[e].0, i) implies stf.claimed.contains(
            i,
        ) || first_hit(b, i, cat[e].1, min, max) is None by {
            if e < llen {
                assert(cat[e] == lcat[e]);
                assert(lcat[e].0.len() > 0);
                assert(occurs_at(b, lcat[e].0, i));
            } else {
                assert(cat[e] == mcat[e - llen]);
                assert(mcat[e - llen].0.len() > 0);
                assert(occurs_at(b, mcat[e - llen].0, i));
            }
        }

        // every reported match starts at an enabled signature occurrence
        assert forall|k: int|
            #![trigger stf.found[k]]
            0 <= k < stf.found.len() implies exists|e: int|
            0 <= e < cat.len() && occurs_at(b, (#[trigger] cat[e]).0, stf.found[k].offset)
                && first_hit(b, stf.found[k].offset, cat[e].1, min, max) == Some(
                (stf.found[k].size, stf.found[k].ext),
            ) by {
            if k < st1.found.len() {
                assert(stf.found[k] == st1.found[k]);
                let e = choose|e: int|
                    0 <= e < lcat.len() && occurs_at(b, (#[trigger] lcat[e]).0,
                    st1.found[k].offset) && first_hit(b, st1.found[k].offset, lcat[e].1, min, max)
                        == Some((st1.found[k].size, st1.found[k].ext));
                assert(cat[e] == lcat[e]);
            } else {
                let e2 = choose|e: int|
                    0 <= e < mcat.len() && occurs_at(b, (#[trigger] mcat[e]).0,
                    stf.found[k].offset) && first_hit(b, stf.found[k].offset, mcat[e].1, min, max)
                        == Some((stf.found[k].size, stf.found[k].ext));
                assert(cat[llen + e2] == mcat[e2]);
            }
        }
    }

    let count = state.found.len();
    Ok(
        ScanOutcome {
            matches: state.found,
            claimed: state.claimed,
            total_streams_count: count,
            total_streams_size: state.total_size,
        },
    )
}

} // verus!
