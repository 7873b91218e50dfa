//! Layout of a one-sided spectrum of an `n`-sample real signal.
use vstd::prelude::*;

verus! {

/// Number of frequency bins of a one-sided spectrum of `n` samples: `n/2 + 1`.
pub open spec fn spec_one_sided_len(n: nat) -> nat {
    n / 2 + 1
}

/// A bin of a one-sided spectrum is doubled when it is neither the DC bin nor
/// the Nyquist bin: `1 <= k` and `2k < n`. For even `n` the last bin, `n/2`, is
/// the Nyquist bin and is not doubled; for odd `n` there is no Nyquist bin and
/// every bin but the DC bin is doubled.
pub open spec fn spec_is_doubled_bin(k: int, n: nat) -> bool {
    1 <= k && 2 * k < n
}

/// The factor by which bin `k` of the power spectrum is scaled to make it one-sided.
pub open spec fn spec_bin_scale(k: int, n: nat) -> u8 {
    if spec_is_doubled_bin(k, n) { 2 } else { 1 }
}

/// Number of bins of the one-sided spectrum of `n` samples.
pub fn one_sided_len(n: usize) -> (r: usize)
    ensures
        r == spec_one_sided_len(n as nat),
        r == n / 2 + 1,
{
    n / 2 + 1
}

/// Whether bin `k` of the spectrum of `n` samples is doubled by the one-sided scaling.
pub fn is_doubled_bin(k: usize, n: usize) -> (r: bool)
    ensures
        r == spec_is_doubled_bin(k as int, n as nat),
        r == (1 <= k && 2 * k < n),
{
    1 <= k && k < n && k < n - k
}

/// The scale factor of every bin of the one-sided spectrum of `n` samples:
/// 1 for the DC bin and (for even `n`) the Nyquist bin `n/2`, 2 for every other bin.
pub fn bin_scales(n: usize) -> (v: Vec<u8>)
    ensures
        v.len() == spec_one_sided_len(n as nat),
        forall|k: int| 0 <= k < v.len() ==> #[trigger] v[k] == spec_bin_scale(k, n as nat),
        v.len() == n / 2 + 1,
        forall|k: int|
            0 <= k < v.len() ==> #[trigger] v[k] == (if 1 <= k && 2 * k < n { 2u8 } else { 1u8 }),
        v[0] == 1,
        n % 2 == 0 ==> v[(n / 2) as int] == 1,
{
    let len = one_sided_len(n);
    let mut v: Vec<u8> = Vec::new();
    let mut k: usize = 0;
    while k < len
        invariant
            len == spec_one_sided_len(n as nat),
            k <= len,
            v.len() == k,
            forall|j: int| 0 <= j < k ==> #[trigger] v[j] == spec_bin_scale(j, n as nat),
        decreases len - k,
    {
        if is_doubled_bin(k, n) {
            v.push(2);
        } else {
            v.push(1);
        }
        k = k + 1;
    }
    proof {
        lemma_bin_scale_is_one_sided(n as nat);
    }
    v
}

/// The one-sided spectrum of `n` samples has exactly `n/2 + 1` bins, indices
/// `0..=n/2`: its last bin is bin `n/2`.
pub proof fn lemma_one_sided_len_is_half_plus_one(n: nat)
    ensures
        spec_one_sided_len(n) == n / 2 + 1,
        spec_one_sided_len(n) - 1 == n / 2,
        2 * (spec_one_sided_len(n) - 1) <= n,
        n < 2 * spec_one_sided_len(n),
{
}

/// Bin `k` of the spectrum of `n` samples is scaled by 2 exactly when
/// `1 <= k` and `2k < n`, and by 1 otherwise: the DC bin is never doubled,
/// and for even `n` neither is the Nyquist bin `n/2`.
pub proof fn lemma_bin_scale_is_one_sided(n: nat)
    ensures
        forall|k: int| #[trigger] spec_is_doubled_bin(k, n) <==> (1 <= k && 2 * k < n),
        forall|k: int|
            #[trigger] spec_bin_scale(k, n) == (if 1 <= k && 2 * k < n { 2u8 } else { 1u8 }),
        spec_bin_scale(0, n) == 1,
        n % 2 == 0 ==> spec_bin_scale((n / 2) as int, n) == 1,
        forall|k: int| 1 <= k && 2 * k < n ==> #[trigger] spec_bin_scale(k, n) == 2,
{
}

/// The DC bin is never doubled; for even `n` the Nyquist bin `n/2` is not
/// doubled either; every other bin of the one-sided spectrum is doubled, the
/// last bin `(n-1)/2` of an odd-length spectrum included.
pub proof fn lemma_only_inner_bins_doubled(n: nat, k: int)
    requires
        0 <= k < spec_one_sided_len(n),
    ensures
        !spec_is_doubled_bin(0, n),
        n % 2 == 0 ==> !spec_is_doubled_bin((n / 2) as int, n),
        (n % 2 == 1 && n >= 3) ==> spec_is_doubled_bin((n / 2) as int, n),
        (0 < k && (n % 2 == 1 || k < n / 2)) ==> spec_is_doubled_bin(k, n),
{
}

/// A signal of at most two samples has no doubled bin.
pub proof fn lemma_short_signal_not_scaled(n: nat, k: int)
    requires
        n <= 2,
    ensures
        !spec_is_doubled_bin(k, n),
{
}

} // verus!
