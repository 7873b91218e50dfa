//! Segment plans of the averaged periodogram estimators: which stretches of
//! the signal Welch's method (overlapping segments) and Bartlett's method
//! (adjacent segments) analyse, and by how many segments they average.
use vstd::prelude::*;
use vstd::arithmetic::div_mod::{lemma_fundamental_div_mod, lemma_div_is_ordered, lemma_basic_div};
use vstd::arithmetic::mul::{lemma_mul_inequality, lemma_mul_is_distributive_add_other_way};

verus! {

/// Distance between the starts of two consecutive Welch segments.
pub open spec fn spec_welch_hop(segment_length: nat, overlap: nat) -> nat {
    (segment_length - overlap) as nat
}

/// The number of segments Welch's method averages over: `(len - overlap) / hop`
/// when the signal holds at least one segment, and 1 otherwise.
pub open spec fn spec_welch_count(len: nat, segment_length: nat, overlap: nat) -> nat {
    if len >= segment_length {
        ((len - overlap) as nat) / spec_welch_hop(segment_length, overlap)
    } else {
        1
    }
}

/// The number of segments Welch's method actually transforms: those of
/// `spec_welch_count` when the signal holds a segment, none otherwise.
pub open spec fn spec_welch_taken(len: nat, segment_length: nat, overlap: nat) -> nat {
    if len >= segment_length {
        spec_welch_count(len, segment_length, overlap)
    } else {
        0
    }
}

/// Starts of the segments Welch's method transforms, in order.
pub open spec fn spec_welch_starts(len: nat, segment_length: nat, overlap: nat) -> Seq<int> {
    Seq::new(
        spec_welch_taken(len, segment_length, overlap),
        |k: int| k * spec_welch_hop(segment_length, overlap),
    )
}

/// The number of segments Bartlett's method averages over: `len / segment_length`.
pub open spec fn spec_bartlett_count(len: nat, segment_length: nat) -> nat {
    len / segment_length
}

/// Starts of the adjacent segments Bartlett's method transforms, in order.
pub open spec fn spec_bartlett_starts(len: nat, segment_length: nat) -> Seq<int> {
    Seq::new(spec_bartlett_count(len, segment_length), |k: int| k * segment_length)
}

/// With `hop = segment_length - overlap` and a signal holding at least one
/// segment, the count is at least one and one segment more than counted would
/// run past the end of the signal.
proof fn lemma_welch_count_bounds(len: nat, segment_length: nat, overlap: nat)
    requires
        overlap < segment_length,
        len >= segment_length,
    ensures
        spec_welch_count(len, segment_length, overlap) >= 1,
        spec_welch_count(len, segment_length, overlap) * spec_welch_hop(segment_length, overlap)
            + segment_length > len,
        spec_welch_count(len, segment_length, overlap) * spec_welch_hop(segment_length, overlap)
            + overlap <= len,
{
    let hop = spec_welch_hop(segment_length, overlap);
    let span = (len - overlap) as nat;
    let q = spec_welch_count(len, segment_length, overlap);
    assert(q == span / hop);
    lemma_fundamental_div_mod(span as int, hop as int);
    assert(q * hop == hop * q) by (nonlinear_arith);
    lemma_div_is_ordered(hop as int, span as int, hop as int);
    assert(hop / hop == 1) by (nonlinear_arith)
        requires
            hop > 0,
    ;
}

/// Every segment Welch's method counts lies inside the signal.
proof fn lemma_welch_layout(len: nat, segment_length: nat, overlap: nat, k: nat)
    requires
        overlap < segment_length,
        len >= segment_length,
        k < spec_welch_count(len, segment_length, overlap),
    ensures
        k * spec_welch_hop(segment_length, overlap) + segment_length <= len,
{
    let hop = spec_welch_hop(segment_length, overlap);
    let q = spec_welch_count(len, segment_length, overlap);
    lemma_welch_count_bounds(len, segment_length, overlap);
    lemma_mul_inequality(k as int, (q - 1) as int, hop as int);
    assert((q - 1) * hop == q * hop - hop) by (nonlinear_arith);
}

/// Every full segment plan of Bartlett's method: count segments of
/// `segment_length` fit, one more would not.
proof fn lemma_bartlett_layout(len: nat, segment_length: nat, k: nat)
    requires
        segment_length > 0,
        k < spec_bartlett_count(len, segment_length),
    ensures
        k * segment_length + segment_length <= len,
{
    let q = spec_bartlett_count(len, segment_length);
    lemma_fundamental_div_mod(len as int, segment_length as int);
    assert(q * segment_length == segment_length * q) by (nonlinear_arith);
    lemma_mul_inequality(k as int, (q - 1) as int, segment_length as int);
    assert((q - 1) * segment_length == q * segment_length - segment_length) by (nonlinear_arith);
}

proof fn lemma_bartlett_maximal(len: nat, segment_length: nat)
    requires
        segment_length > 0,
    ensures
        spec_bartlett_count(len, segment_length) * segment_length + segment_length > len,
{
    let q = spec_bartlett_count(len, segment_length);
    lemma_fundamental_div_mod(len as int, segment_length as int);
    assert(q * segment_length == segment_length * q) by (nonlinear_arith);
}

/// The number of segments Welch's method averages over. The caller must give a
/// positive segment length and an overlap shorter than a segment.
pub fn welch_segment_count(len: usize, segment_length: usize, overlap: usize) -> (r: usize)
    requires
        segment_length > 0,
        overlap < segment_length,
    ensures
        r == spec_welch_count(len as nat, segment_length as nat, overlap as nat),
        r >= 1,
        len >= segment_length ==> r == (len - overlap) as int / (segment_length - overlap) as int,
        len < segment_length ==> r == 1,
{
    let hop = segment_length - overlap;
    if len >= segment_length {
        proof {
            lemma_welch_count_bounds(len as nat, segment_length as nat, overlap as nat);
        }
        (len - overlap) / hop
    } else {
        1
    }
}

/// Starts of the segments Welch's method transforms: segment `k` starts at
/// `k * (segment_length - overlap)`; a segment that would run past the end of
/// the signal ends the plan.
pub fn welch_segment_starts(len: usize, segment_length: usize, overlap: usize) -> (v: Vec<usize>)
    requires
        segment_length > 0,
        overlap < segment_length,
    ensures
        v@.len() == spec_welch_taken(len as nat, segment_length as nat, overlap as nat),
        forall|k: int|
            0 <= k < v@.len() ==> #[trigger] v@[k] == spec_welch_starts(
                len as nat,
                segment_length as nat,
                overlap as nat,
            )[k],
        forall|k: int| 0 <= k < v@.len() ==> #[trigger] v@[k] + segment_length <= len,
        len >= segment_length ==> v@.len() * spec_welch_hop(segment_length as nat, overlap as nat)
            + segment_length > len,
        len >= segment_length ==> v@.len() == (len - overlap) as int / (segment_length
            - overlap) as int,
        len < segment_length ==> v@.len() == 0,
        forall|k: int| 0 <= k < v@.len() ==> #[trigger] v@[k] == k * (segment_length - overlap),
{
    let hop = segment_length - overlap;
    let n_segments = welch_segment_count(len, segment_length, overlap);
    let ghost gl = len as nat;
    let ghost gs = segment_length as nat;
    let ghost go = overlap as nat;
    let mut starts: Vec<usize> = Vec::new();
    let mut idx: usize = 0;
    while idx < n_segments
        invariant_except_break
            hop == spec_welch_hop(gs, go),
            n_segments == spec_welch_count(gl, gs, go),
            n_segments >= 1,
            gl == len,
            gs == segment_length,
            go == overlap,
            0 < segment_length,
            overlap < segment_length,
            idx <= n_segments,
            len < segment_length ==> idx == 0,
            starts@.len() == idx,
            forall|j: int| 0 <= j < idx ==> #[trigger] starts@[j] == j * hop,
            forall|j: int| 0 <= j < idx ==> #[trigger] starts@[j] + segment_length <= len,
        ensures
            starts@.len() == spec_welch_taken(gl, gs, go),
            forall|j: int| 0 <= j < starts@.len() ==> #[trigger] starts@[j] == j * hop,
            forall|j: int| 0 <= j < starts@.len() ==> #[trigger] starts@[j] + segment_length <= len,
        decreases n_segments - idx,
    {
        if len >= segment_length {
            proof {
                lemma_welch_layout(gl, gs, go, idx as nat);
            }
        }
        let start = idx * hop;
        if start + segment_length > len {
            break;
        }
        starts.push(start);
        idx = idx + 1;
    }
    proof {
        if len >= segment_length {
            lemma_welch_count_bounds(gl, gs, go);
        }
    }
    starts
}

/// The number of segments Bartlett's method averages over. The caller must
/// give a positive segment length.
pub fn bartlett_segment_count(len: usize, segment_length: usize) -> (r: usize)
    requires
        segment_length > 0,
    ensures
        r == spec_bartlett_count(len as nat, segment_length as nat),
        r == len / segment_length,
{
    len / segment_length
}

/// Starts of the adjacent segments Bartlett's method transforms: segment `k`
/// starts at `k * segment_length`, for every segment that fits in the signal.
pub fn bartlett_segment_starts(len: usize, segment_length: usize) -> (v: Vec<usize>)
    requires
        segment_length > 0,
    ensures
        v@.len() == spec_bartlett_count(len as nat, segment_length as nat),
        forall|k: int|
            0 <= k < v@.len() ==> #[trigger] v@[k] == spec_bartlett_starts(
                len as nat,
                segment_length as nat,
            )[k],
        forall|k: int| 0 <= k < v@.len() ==> #[trigger] v@[k] + segment_length <= len,
        v@.len() * segment_length + segment_length > len,
        v@.len() == len / segment_length,
        forall|k: int| 0 <= k < v@.len() ==> #[trigger] v@[k] == k * segment_length,
{
    let n_segments = bartlett_segment_count(len, segment_length);
    let mut starts: Vec<usize> = Vec::new();
    let mut idx: usize = 0;
    while idx < n_segments
        invariant
            n_segments == spec_bartlett_count(len as nat, segment_length as nat),
            0 < segment_length,
            idx <= n_segments,
            starts@.len() == idx,
            forall|j: int| 0 <= j < idx ==> #[trigger] starts@[j] == j * segment_length,
            forall|j: int| 0 <= j < idx ==> #[trigger] starts@[j] + segment_length <= len,
        decreases n_segments - idx,
    {
        proof {
            lemma_bartlett_layout(len as nat, segment_length as nat, idx as nat);
        }
        let start = idx * segment_length;
        starts.push(start);
        idx = idx + 1;
    }
    proof {
        lemma_bartlett_maximal(len as nat, segment_length as nat);
    }
    starts
}

/// Whenever the signal holds at least one segment, Welch's method averages over
/// at least one segment, and it transforms exactly the segments it averages
/// over: none of them runs past the end of the signal.
pub proof fn lemma_welch_counted_segments_fit(len: nat, segment_length: nat, overlap: nat)
    requires
        overlap < segment_length,
        len >= segment_length,
    ensures
        spec_welch_count(len, segment_length, overlap) >= 1,
        spec_welch_taken(len, segment_length, overlap) == spec_welch_count(len, segment_length, overlap),
        forall|k: int|
            0 <= k < spec_welch_taken(len, segment_length, overlap) ==> #[trigger] spec_welch_starts(
                len,
                segment_length,
                overlap,
            )[k] + segment_length <= len,
{
    lemma_welch_count_bounds(len, segment_length, overlap);
    assert forall|k: int|
        0 <= k < spec_welch_taken(len, segment_length, overlap) implies #[trigger] spec_welch_starts(
            len,
            segment_length,
            overlap,
        )[k] + segment_length <= len by {
        lemma_welch_layout(len, segment_length, overlap, k as nat);
    }
}

/// Welch's method transforms `(len - overlap) / (segment_length - overlap)`
/// segments when the signal holds one and none otherwise; segment `k` starts at
/// `k * (segment_length - overlap)`. Bartlett's method transforms
/// `len / segment_length` segments, segment `k` starting at `k * segment_length`.
pub proof fn lemma_segment_plans_explicit(len: nat, segment_length: nat, overlap: nat, k: int)
    requires
        overlap < segment_length,
    ensures
        len >= segment_length ==> spec_welch_starts(len, segment_length, overlap).len() == (len
            - overlap) as int / (segment_length - overlap) as int,
        len < segment_length ==> spec_welch_starts(len, segment_length, overlap).len() == 0,
        0 <= k < spec_welch_starts(len, segment_length, overlap).len() ==> spec_welch_starts(
            len,
            segment_length,
            overlap,
        )[k] == k * (segment_length - overlap),
        spec_bartlett_starts(len, segment_length).len() == len / segment_length,
        0 <= k < spec_bartlett_starts(len, segment_length).len() ==> spec_bartlett_starts(
            len,
            segment_length,
        )[k] == k * segment_length,
{
}

/// Consecutive Welch segments share exactly `overlap` samples.
pub proof fn lemma_welch_consecutive_overlap(len: nat, segment_length: nat, overlap: nat, k: int)
    requires
        overlap < segment_length,
        0 <= k,
        k + 1 < spec_welch_taken(len, segment_length, overlap),
    ensures
        spec_welch_starts(len, segment_length, overlap)[k] + segment_length
            - spec_welch_starts(len, segment_length, overlap)[k + 1] == overlap,
{
    let hop = spec_welch_hop(segment_length, overlap);
    lemma_mul_is_distributive_add_other_way(hop as int, k, 1);
}

/// Consecutive Bartlett segments are adjacent: each starts where the one before ends.
pub proof fn lemma_bartlett_segments_adjacent(len: nat, segment_length: nat, k: int)
    requires
        segment_length > 0,
        0 <= k,
        k + 1 < spec_bartlett_count(len, segment_length),
    ensures
        spec_bartlett_starts(len, segment_length)[k] + segment_length
            == spec_bartlett_starts(len, segment_length)[k + 1],
{
    lemma_mul_is_distributive_add_other_way(segment_length as int, k, 1);
}

/// Bartlett's segment plan is Welch's plan without overlap.
pub proof fn lemma_bartlett_is_welch_without_overlap(len: nat, segment_length: nat)
    requires
        segment_length > 0,
    ensures
        spec_bartlett_starts(len, segment_length) == spec_welch_starts(len, segment_length, 0),
{
    if len < segment_length {
        lemma_basic_div(len as int, segment_length as int);
    }
    assert(spec_bartlett_starts(len, segment_length) =~= spec_welch_starts(len, segment_length, 0));
}

} // verus!
