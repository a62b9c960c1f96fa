//! Multi-pattern signature scanner: a thin layer over an aho-corasick
//! automaton that reports, for a set of byte patterns, every occurrence of
//! every pattern in a haystack, each exactly once, in order of
//! nondecreasing end position.

use aho_corasick::AhoCorasick;
use vstd::prelude::*;

verus! {

#[verifier::external_type_specification]
#[verifier::external_body]
pub struct ExAhoCorasick(AhoCorasick);

/// The pattern list an automaton was built over.
pub uninterp spec fn automaton_patterns(ac: AhoCorasick) -> Seq<Seq<u8>>;

/// Whether an automaton was built with `AhoCorasick::new`'s default
/// configuration: standard match semantics and unanchored searches, the
/// configuration under which an overlapping search never refuses to run.
pub uninterp spec fn standard_searcher(ac: AhoCorasick) -> bool;

/// Pattern `pat` occurs at position `i` of the haystack.
pub open spec fn occurs_at(hay: Seq<u8>, pat: Seq<u8>, i: int) -> bool {
    &&& 0 <= i
    &&& i + pat.len() <= hay.len()
    &&& hay.subrange(i, i + pat.len()) == pat
}

/// Relies on `aho_corasick::AhoCorasick::new`: builds an automaton over
/// exactly the given patterns, with the default standard match semantics
/// and unanchored searches. Construction fails only when the pattern
/// count, a pattern length, or the total number of trie states overflows
/// the crate's 32-bit index space, so it always succeeds for a handful
/// of short patterns.
#[verifier::external_body]
pub fn build_automaton(patterns: &Vec<Vec<u8>>) -> (r: Option<AhoCorasick>)
    ensures
        r matches Some(ac) ==> automaton_patterns(ac) == patterns@.map_values(|p: Vec<u8>| p@)
            && standard_searcher(ac),
        patterns@.len() <= 4 && (forall|j: int|
            0 <= j < patterns@.len() ==> (#[trigger] patterns@[j])@.len() <= 4) ==> r is Some,
{
    AhoCorasick::new(patterns).ok()
}

/// Relies on `aho_corasick::AhoCorasick::try_find_overlapping_iter`: the
/// overlapping search reports every occurrence of every nonempty
/// pattern, each exactly once, as `(start, pattern index)` pairs ordered
/// by nondecreasing end position. The search refuses to run only for
/// automatons without standard match semantics or for anchored inputs,
/// so with a default-built automaton and a plain byte-slice input it
/// always runs.
#[verifier::external_body]
pub fn find_signatures(ac: &AhoCorasick, hay: &[u8]) -> (r: Option<Vec<(usize, usize)>>)
    ensures
        standard_searcher(*ac) ==> r is Some,
        r matches Some(v) ==> {
            &&& forall|k: int|
                0 <= k < v@.len() ==> {
                    &&& (#[trigger] v@[k]).1 < automaton_patterns(*ac).len()
                    &&& occurs_at(hay@, automaton_patterns(*ac)[v@[k].1 as int], v@[k].0 as int)
                }
            &&& forall|pi: int, i: int|
                0 <= pi < automaton_patterns(*ac).len() && automaton_patterns(*ac)[pi].len() > 0
                    && #[trigger] occurs_at(hay@, automaton_patterns(*ac)[pi], i) ==> exists|
                    k: int,
                |
                    0 <= k < v@.len() && (#[trigger] v@[k]).0 == i && v@[k].1 == pi
            &&& forall|k1: int, k2: int|
                0 <= k1 < k2 < v@.len() ==> #[trigger] v@[k1] != #[trigger] v@[k2]
            &&& forall|k1: int, k2: int|
                0 <= k1 < k2 < v@.len() ==> (#[trigger] v@[k1]).0 + automaton_patterns(
                    *ac,
                )[v@[k1].1 as int].len() <= (#[trigger] v@[k2]).0 + automaton_patterns(
                    *ac,
                )[v@[k2].1 as int].len()
        },
{
    match ac.try_find_overlapping_iter(hay) {
        Ok(it) => Some(it.map(|m| (m.start(), m.pattern().as_usize())).collect()),
        Err(_) => None,
    }
}

} // verus!
