//! The branch structure of the triangular (Bartlett) window.
use vstd::prelude::*;

verus! {

/// Sample `i` of an `n`-point triangular window lies on the rising edge
/// (weight `2i / (n - 1)`) when `2i <= n - 1`, and on the falling edge (weight
/// `2 - 2i / (n - 1)`) otherwise, so the window is the symmetric triangle
/// `1 - |2i / (n - 1) - 1|`.
pub open spec fn spec_triangle_rising(i: nat, n: nat) -> bool {
    2 * i + 1 <= n
}

/// Whether sample `i` of an `n`-point triangular window lies on its rising edge.
pub fn triangle_rising(i: usize, n: usize) -> (r: bool)
    ensures
        r == spec_triangle_rising(i as nat, n as nat),
        r == (2 * i + 1 <= n),
{
    i < n && i < n - i
}

/// Exact weight of sample `i` of an `n`-point triangular window, times `n - 1`:
/// `2i` on the rising edge, `2(n - 1) - 2i` on the falling edge.
pub open spec fn spec_triangle_scaled_weight(i: nat, n: nat) -> int {
    if spec_triangle_rising(i, n) {
        (2 * i) as int
    } else {
        2 * (n - 1) - 2 * i
    }
}

/// The exact triangular window of `n >= 2` points is symmetric, vanishes at
/// both ends and stays between 0 and 1 (scaled weight between 0 and `n - 1`);
/// for an odd number of points it peaks at exactly 1 in the middle.
pub proof fn lemma_triangle_symmetric(n: nat, i: nat)
    requires
        n >= 2,
        i < n,
    ensures
        spec_triangle_scaled_weight(i, n) == spec_triangle_scaled_weight((n - 1 - i) as nat, n),
        spec_triangle_scaled_weight(0, n) == 0,
        spec_triangle_scaled_weight((n - 1) as nat, n) == 0,
        0 <= spec_triangle_scaled_weight(i, n) <= n - 1,
        n % 2 == 1 ==> spec_triangle_scaled_weight(n / 2, n) == n - 1,
        spec_triangle_rising(i, n) <==> 2 * i <= n - 1,
        spec_triangle_scaled_weight(i, n) == (n - 1) - (if 2 * i >= n - 1 { 2 * i - (n - 1) } else { (n
            - 1) - 2 * i }),
{
}

} // verus!
