//! The linear congruential generator behind the white-noise test signal.
//!
//! The generator advances a 64-bit state by `state * LCG_MULTIPLIER +
//! LCG_INCREMENT` modulo 2^64; each sample is the top 31 bits of the new state,
//! which the floating-point layer divides by 2^31 and scales by the amplitude.
use vstd::prelude::*;
use vstd::arithmetic::div_mod::{lemma_add_mod_noop, lemma_small_mod, lemma_mod_twice};

verus! {

/// Multiplier of the generator.
pub const LCG_MULTIPLIER: u64 = 6364136223846793005u64;

/// Increment of the generator.
pub const LCG_INCREMENT: u64 = 1442695040888963407u64;

/// Number of distinct sample values, 2^31: a sample divided by this lies in [0, 1).
pub const NOISE_RANGE: i64 = 2147483648i64;

/// One step of the generator: `(state * LCG_MULTIPLIER + LCG_INCREMENT) mod 2^64`.
#[verifier::opaque]
pub open spec fn spec_lcg_next(state: u64) -> u64 {
    ((state as int * LCG_MULTIPLIER as int + LCG_INCREMENT as int) % 0x1_0000_0000_0000_0000int) as u64
}

/// The state after `k` steps from `seed`.
pub open spec fn spec_lcg_state(seed: u64, k: nat) -> u64
    decreases k,
{
    if k == 0 {
        seed
    } else {
        spec_lcg_next(spec_lcg_state(seed, (k - 1) as nat))
    }
}

/// The sample drawn from a state: its top 31 bits, `state / 2^33`.
pub open spec fn spec_noise_sample(state: u64) -> int {
    state as int / 0x2_0000_0000int
}

/// The first `n` samples of the generator seeded with `seed`: sample `i` is
/// drawn from the state after `i + 1` steps.
pub open spec fn spec_white_noise_raw(n: nat, seed: u64) -> Seq<int> {
    Seq::new(n, |i: int| spec_noise_sample(spec_lcg_state(seed, (i + 1) as nat)))
}

/// Advance the generator by one step.
pub fn lcg_next(state: u64) -> (r: u64)
    ensures
        r == spec_lcg_next(state),
        r as int == (state as int * 6364136223846793005int + 1442695040888963407int)
            % 0x1_0000_0000_0000_0000int,
{
    let product = state.wrapping_mul(LCG_MULTIPLIER);
    let r = product.wrapping_add(LCG_INCREMENT);
    proof {
        reveal(spec_lcg_next);
        let m: int = 0x1_0000_0000_0000_0000int;
        let p: int = state as int * LCG_MULTIPLIER as int;
        assert(product as int == p % m);
        lemma_small_mod(LCG_INCREMENT as nat, m as nat);
        lemma_add_mod_noop(p, LCG_INCREMENT as int, m);
        lemma_mod_twice(p, m);
        if product as int + LCG_INCREMENT as int >= m {
            lemma_small_mod((product as int + LCG_INCREMENT as int - m) as nat, m as nat);
            assert((product as int + LCG_INCREMENT as int - m) % m
                == (product as int + LCG_INCREMENT as int) % m) by {
                vstd::arithmetic::div_mod::lemma_mod_sub_multiples_vanish(
                    product as int + LCG_INCREMENT as int,
                    m,
                );
            }
        } else {
            lemma_small_mod((product as int + LCG_INCREMENT as int) as nat, m as nat);
        }
    }
    r
}

/// The sample drawn from a state: its top 31 bits, in `[0, NOISE_RANGE)`.
pub fn noise_sample(state: u64) -> (r: i64)
    ensures
        r == spec_noise_sample(state),
        0 <= r < NOISE_RANGE,
        r as int == state as int / 0x2_0000_0000int,
        r == (state >> 33u64) as int,
{
    let top = state >> 33u64;
    assert(top == state / 0x2_0000_0000u64) by (bit_vector)
        requires
            top == state >> 33u64,
    ;
    assert(state / 0x2_0000_0000u64 < 0x8000_0000u64) by (bit_vector);
    let r = top as i64;
    assert(r == (state >> 33u64) as int);
    r
}

/// The first `n` raw samples of the white-noise signal seeded with `seed`.
/// Each lies in `[0, NOISE_RANGE)`; the signal value is the sample divided by
/// `NOISE_RANGE` and multiplied by the amplitude.
pub fn white_noise_raw(n: usize, seed: u64) -> (v: Vec<i64>)
    ensures
        v.len() == n,
        forall|i: int| 0 <= i < n ==> #[trigger] v@[i] as int == spec_white_noise_raw(n as nat, seed)[i],
        forall|i: int| 0 <= i < n ==> 0 <= #[trigger] v@[i] < NOISE_RANGE,
        forall|i: int|
            0 <= i < n ==> #[trigger] v@[i] as int == spec_lcg_state(seed, (i + 1) as nat) as int
                / 0x2_0000_0000int,
{
    let mut state = seed;
    let mut v: Vec<i64> = Vec::new();
    let mut i: usize = 0;
    while i < n
        invariant
            i <= n,
            v.len() == i,
            state == spec_lcg_state(seed, i as nat),
            forall|j: int|
                0 <= j < i ==> #[trigger] v@[j] as int == spec_noise_sample(
                    spec_lcg_state(seed, (j + 1) as nat),
                ),
            forall|j: int| 0 <= j < i ==> 0 <= #[trigger] v@[j] < NOISE_RANGE,
        decreases n - i,
    {
        state = lcg_next(state);
        let x = noise_sample(state);
        v.push(x);
        i = i + 1;
    }
    v
}

/// A sample is the top 31 bits of the 64-bit state: `state / 2^33`, which is
/// `state >> 33`, in `[0, 2^31)`.
pub proof fn lemma_noise_sample_is_top_bits(state: u64)
    ensures
        spec_noise_sample(state) == state as int / 0x2_0000_0000int,
        spec_noise_sample(state) == (state >> 33u64) as int,
        0 <= spec_noise_sample(state) < 0x8000_0000int,
{
    assert(state >> 33u64 == state / 0x2_0000_0000u64) by (bit_vector);
    assert(state / 0x2_0000_0000u64 < 0x8000_0000u64) by (bit_vector);
}

/// The generator starts at the seed and each step maps the state `s` to
/// `(s * 6364136223846793005 + 1442695040888963407) mod 2^64`.
pub proof fn lemma_lcg_state_steps(seed: u64, k: nat)
    ensures
        spec_lcg_state(seed, 0) == seed,
        spec_lcg_state(seed, k + 1) as int == (spec_lcg_state(seed, k) as int * 6364136223846793005int
            + 1442695040888963407int) % 0x1_0000_0000_0000_0000int,
{
    reveal(spec_lcg_next);
    let s = spec_lcg_state(seed, k) as int;
    let m = 0x1_0000_0000_0000_0000int;
    assert(0 <= (s * 6364136223846793005int + 1442695040888963407int) % m < m) by (nonlinear_arith)
        requires
            0 <= s,
            m > 0,
    ;
}

/// Sample `i` of the white-noise signal is the top 31 bits of the state after
/// `i + 1` steps from the seed.
pub proof fn lemma_white_noise_sample(n: nat, seed: u64, i: int)
    requires
        0 <= i < n,
    ensures
        spec_white_noise_raw(n, seed)[i] == spec_lcg_state(seed, (i + 1) as nat) as int
            / 0x2_0000_0000int,
        spec_white_noise_raw(n, seed).len() == n,
{
}

/// Stepping from the seed's successor is stepping from the seed one step further.
pub proof fn lemma_lcg_state_shift(seed: u64, k: nat)
    ensures
        spec_lcg_state(spec_lcg_next(seed), k) == spec_lcg_state(seed, k + 1),
    decreases k,
{
    assert(spec_lcg_state(seed, k + 1) == spec_lcg_next(spec_lcg_state(seed, k)));
    if k == 0 {
        assert(spec_lcg_state(seed, 0) == seed);
    } else {
        lemma_lcg_state_shift(seed, (k - 1) as nat);
        assert(spec_lcg_state(spec_lcg_next(seed), k) == spec_lcg_next(
            spec_lcg_state(spec_lcg_next(seed), (k - 1) as nat),
        ));
    }
}

/// A shorter noise signal from the same seed is a prefix of a longer one.
pub proof fn lemma_white_noise_prefix(n: nat, m: nat, seed: u64)
    requires
        n <= m,
    ensures
        spec_white_noise_raw(n, seed) == spec_white_noise_raw(m, seed).take(n as int),
{
    assert(spec_white_noise_raw(n, seed) =~= spec_white_noise_raw(m, seed).take(n as int));
}

/// Seeding with the successor of `seed` drops the first sample of the signal
/// seeded with `seed`.
pub proof fn lemma_white_noise_shift(n: nat, seed: u64)
    ensures
        spec_white_noise_raw(n, spec_lcg_next(seed)) == spec_white_noise_raw(n + 1, seed).skip(1),
{
    assert forall|i: int| 0 <= i < n implies #[trigger] spec_white_noise_raw(n, spec_lcg_next(seed))[i]
        == spec_white_noise_raw(n + 1, seed).skip(1)[i] by {
        lemma_lcg_state_shift(seed, (i + 1) as nat);
    }
    assert(spec_white_noise_raw(n, spec_lcg_next(seed)) =~= spec_white_noise_raw(n + 1, seed).skip(1));
}

/// Every sample of the white-noise signal lies in `[0, NOISE_RANGE)`.
pub proof fn lemma_white_noise_range(n: nat, seed: u64, i: int)
    requires
        0 <= i < n,
    ensures
        0 <= spec_white_noise_raw(n, seed)[i] < NOISE_RANGE,
{
    let s = spec_lcg_state(seed, (i + 1) as nat);
    assert(s / 0x2_0000_0000u64 < 0x8000_0000u64) by (bit_vector);
}

} // verus!
