//! Lag and order bookkeeping of the autoregressive (Yule-Walker) estimator.
use vstd::prelude::*;

verus! {

/// The largest lag the biased autocorrelation of `n` samples computes when
/// asked for `max_lag`: no lag beyond `n - 1` is computed.
pub open spec fn spec_autocorrelation_max_lag(n: nat, max_lag: nat) -> nat {
    if max_lag <= n - 1 {
        max_lag
    } else {
        (n - 1) as nat
    }
}

/// The largest lag the biased autocorrelation of `n` samples computes when asked
/// for `max_lag`: `min(max_lag, n - 1)`. The signal must not be empty.
pub fn autocorrelation_max_lag(n: usize, max_lag: usize) -> (r: usize)
    requires
        n >= 1,
    ensures
        r == spec_autocorrelation_max_lag(n as nat, max_lag as nat),
        r <= max_lag,
        r < n,
        r == (if max_lag < n { max_lag as int } else { n - 1 }),
{
    if max_lag <= n - 1 {
        max_lag
    } else {
        n - 1
    }
}

/// The number of autocorrelation values computed: one per lag `0..=max_lag'`.
pub fn autocorrelation_len(n: usize, max_lag: usize) -> (r: usize)
    requires
        n >= 1,
    ensures
        r == spec_autocorrelation_max_lag(n as nat, max_lag as nat) + 1,
        1 <= r <= n,
        r == (if max_lag < n { max_lag + 1 } else { n as int }),
{
    autocorrelation_max_lag(n, max_lag) + 1
}

/// The number of products summed for lag `lag` of `n` samples: the pairs
/// `(i, i + lag)` with `i + lag < n`.
pub fn lag_product_count(n: usize, lag: usize) -> (r: usize)
    requires
        lag < n,
    ensures
        r == n - lag,
        r >= 1,
{
    n - lag
}

/// The order of the AR model the Levinson-Durbin recursion fits to
/// `autocorr_len` autocorrelation values: one less than their number. The
/// sequence must not be empty.
pub fn levinson_order(autocorr_len: usize) -> (r: usize)
    requires
        autocorr_len >= 1,
    ensures
        r == autocorr_len - 1,
{
    autocorr_len - 1
}

/// The Yule-Walker estimate of an `order` model from `n` samples has
/// `min(order, n - 1)` coefficients: the Levinson-Durbin order of the
/// autocorrelation sequence it is built from.
pub proof fn lemma_yule_walker_order(n: nat, order: nat)
    requires
        n >= 1,
    ensures
        (spec_autocorrelation_max_lag(n, order) + 1) - 1 == if order < n { order } else { (n - 1) as nat },
{
}

} // verus!
