//! Searching a byte string for the first place where another one occurs, and
//! splicing text in at that place.

use crate::bytes::append_bytes;
use vstd::prelude::*;
use vstd::slice::slice_subrange;

verus! {

/// `needle` stands in `hay` at position `at`.
pub open spec fn occurs_at(hay: Seq<u8>, needle: Seq<u8>, at: int) -> bool {
    &&& 0 <= at
    &&& at + needle.len() <= hay.len()
    &&& hay.subrange(at, at + needle.len()) == needle
}

/// `needle` stands somewhere in `hay`.
pub open spec fn occurs(hay: Seq<u8>, needle: Seq<u8>) -> bool {
    exists|at: int| occurs_at(hay, needle, at)
}

/// `at` is the leftmost position at which `needle` stands in `hay`.
pub open spec fn is_first_occurrence(hay: Seq<u8>, needle: Seq<u8>, at: int) -> bool {
    &&& occurs_at(hay, needle, at)
    &&& forall|j: int| 0 <= j < at ==> !occurs_at(hay, needle, j)
}

/// Where text is put into `hay`: at the leftmost occurrence of `marker`, or at
/// the very end where `marker` does not occur.
pub open spec fn insertion_point(hay: Seq<u8>, marker: Seq<u8>) -> int {
    if occurs(hay, marker) {
        choose|at: int| is_first_occurrence(hay, marker, at)
    } else {
        hay.len() as int
    }
}

/// `hay` with `insert` put in at the insertion point for `marker`.
pub open spec fn splice_spec(hay: Seq<u8>, marker: Seq<u8>, insert: Seq<u8>) -> Seq<u8> {
    let at = insertion_point(hay, marker);
    hay.take(at) + insert + hay.skip(at)
}

/// There is at most one leftmost occurrence.
pub proof fn lemma_first_occurrence_is_unique(hay: Seq<u8>, needle: Seq<u8>, a: int, b: int)
    requires
        is_first_occurrence(hay, needle, a),
        is_first_occurrence(hay, needle, b),
    ensures
        a == b,
{
}

/// A leftmost occurrence is the insertion point.
pub proof fn lemma_insertion_point_found(hay: Seq<u8>, marker: Seq<u8>, at: int)
    requires
        is_first_occurrence(hay, marker, at),
    ensures
        insertion_point(hay, marker) == at,
{
    let chosen = choose|p: int| is_first_occurrence(hay, marker, p);
    lemma_first_occurrence_is_unique(hay, marker, chosen, at);
}

/// Where the marker occurs at all, it has a leftmost occurrence, and that
/// lies no further right than any given one.
pub proof fn lemma_occurrence_has_first(hay: Seq<u8>, marker: Seq<u8>, at: int)
    requires
        occurs_at(hay, marker, at),
    ensures
        is_first_occurrence(hay, marker, insertion_point(hay, marker)),
        0 <= insertion_point(hay, marker) <= at,
{
    let first = lemma_least_occurrence(hay, marker, at);
    lemma_insertion_point_found(hay, marker, first);
}

proof fn lemma_least_occurrence(hay: Seq<u8>, marker: Seq<u8>, at: int) -> (first: int)
    requires
        occurs_at(hay, marker, at),
    ensures
        is_first_occurrence(hay, marker, first),
        0 <= first <= at,
    decreases at,
{
    if exists|j: int| 0 <= j < at && occurs_at(hay, marker, j) {
        let j = choose|j: int| 0 <= j < at && occurs_at(hay, marker, j);
        lemma_least_occurrence(hay, marker, j)
    } else {
        at
    }
}

/// Whether `needle` stands in `hay` at position `at`.
pub fn matches_at(hay: &[u8], needle: &[u8], at: usize) -> (found: bool)
    ensures
        found == occurs_at(hay@, needle@, at as int),
{
    let end: usize = hay.len();
    if at > end || end - at < needle.len() {
        return false;
    }
    let mut k: usize = 0;
    while k < needle.len()
        invariant
            k <= needle@.len(),
            at + needle@.len() <= hay@.len() == end,
            forall|j: int| 0 <= j < k ==> hay@[at + j] == needle@[j],
        decreases needle@.len() - k,
    {
        if hay[at + k] != needle[k] {
            assert(hay@.subrange(at as int, at + needle@.len())[k as int] != needle@[k as int]);
            return false;
        }
        k = k + 1;
    }
    assert(hay@.subrange(at as int, at + needle@.len()) =~= needle@);
    true
}

/// The leftmost position at which `needle` stands in `hay`, if it stands
/// there at all. The empty needle stands at position 0.
pub fn find_first(hay: &[u8], needle: &[u8]) -> (found: Option<usize>)
    ensures
        match found {
            Some(at) => is_first_occurrence(hay@, needle@, at as int),
            None => !occurs(hay@, needle@),
        },
{
    if needle.len() > hay.len() {
        return None;
    }
    let last: usize = hay.len() - needle.len();
    let mut at: usize = 0;
    loop
        invariant
            last == hay@.len() - needle@.len(),
            at <= last,
            forall|j: int| 0 <= j < at ==> !occurs_at(hay@, needle@, j),
        decreases last - at,
    {
        if matches_at(hay, needle, at) {
            return Some(at);
        }
        if at == last {
            return None;
        }
        at = at + 1;
    }
}

/// Puts `insert` into `hay` immediately before the leftmost occurrence of
/// `marker`; where `marker` does not occur, `insert` is appended at the end.
pub fn splice_before(hay: &[u8], marker: &[u8], insert: &[u8]) -> (out: Vec<u8>)
    ensures
        out@ == splice_spec(hay@, marker@, insert@),
{
    let at: usize = match find_first(hay, marker) {
        Some(p) => {
            proof {
                lemma_insertion_point_found(hay@, marker@, p as int);
            }
            p
        },
        None => hay.len(),
    };
    let mut out: Vec<u8> = Vec::new();
    append_bytes(&mut out, slice_subrange(hay, 0, at));
    append_bytes(&mut out, insert);
    append_bytes(&mut out, slice_subrange(hay, at, hay.len()));
    assert(hay@.subrange(0, at as int) =~= hay@.take(at as int));
    assert(hay@.subrange(at as int, hay@.len() as int) =~= hay@.skip(at as int));
    out
}

/// Where the marker occurs, the spliced text holds the insert at the
/// insertion point and the marker immediately behind it.
pub proof fn lemma_splice_keeps_marker(hay: Seq<u8>, marker: Seq<u8>, insert: Seq<u8>)
    requires
        occurs(hay, marker),
    ensures
        occurs_at(splice_spec(hay, marker, insert), insert, insertion_point(hay, marker)),
        occurs_at(
            splice_spec(hay, marker, insert),
            marker,
            insertion_point(hay, marker) + insert.len(),
        ),
{
    let some = choose|at: int| occurs_at(hay, marker, at);
    lemma_occurrence_has_first(hay, marker, some);
    let at = insertion_point(hay, marker);
    let out = splice_spec(hay, marker, insert);
    assert(out.subrange(at, at + insert.len()) =~= insert);
    assert(out.subrange(at + insert.len(), at + insert.len() + marker.len()) =~= hay.subrange(
        at,
        at + marker.len(),
    ));
}

/// Where the marker does not occur, the spliced text is `hay` with the
/// insert behind it.
pub proof fn lemma_splice_without_marker(hay: Seq<u8>, marker: Seq<u8>, insert: Seq<u8>)
    requires
        !occurs(hay, marker),
    ensures
        splice_spec(hay, marker, insert) == hay + insert,
{
    assert(hay.take(hay.len() as int) =~= hay);
    assert(hay + insert + hay.skip(hay.len() as int) =~= hay + insert);
}

} // verus!
