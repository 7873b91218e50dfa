use spectral_est::bins::{bin_scales, is_doubled_bin, one_sided_len};
use spectral_est::lags::{autocorrelation_len, autocorrelation_max_lag, lag_product_count, levinson_order};
use spectral_est::noise::{lcg_next, noise_sample, white_noise_raw, NOISE_RANGE};
use spectral_est::segments::{
    bartlett_segment_count, bartlett_segment_starts, welch_segment_count, welch_segment_starts,
};
use spectral_est::window::triangle_rising;

#[test]
fn test_bartlett_peak() {
    let w: Vec<f64> = (0..51)
        .map(|i| {
            if triangle_rising(i, 51) { 2.0 * i as f64 / 50.0 } else { 2.0 - 2.0 * i as f64 / 50.0 }
        })
        .collect();
    assert!((w[25] - 1.0).abs() < 1e-14);
    assert!((w[0]).abs() < 1e-14);
}

#[test]
fn one_sided_length_of_spectra() {
    assert_eq!(one_sided_len(64), 33);
    assert_eq!(one_sided_len(128), 65);
    assert_eq!(one_sided_len(256), 129);
    assert_eq!(one_sided_len(7), 4);
    assert_eq!(one_sided_len(0), 1);
    assert_eq!(one_sided_len(1), 1);
}

#[test]
fn doubled_bins_are_inner_bins() {
    assert_eq!(bin_scales(8), vec![1, 2, 2, 2, 1]);
    assert_eq!(bin_scales(7), vec![1, 2, 2, 2]);
    assert!(is_doubled_bin(3, 7));
    assert!(!is_doubled_bin(4, 7));
    assert_eq!(bin_scales(4), vec![1, 2, 1]);
    assert_eq!(bin_scales(3), vec![1, 2]);
    assert!(!is_doubled_bin(0, 64));
    assert!(is_doubled_bin(1, 64));
    assert!(is_doubled_bin(31, 64));
    assert!(!is_doubled_bin(32, 64));
}

#[test]
fn short_signals_are_not_scaled() {
    // At most two samples: no bin is doubled.
    assert_eq!(bin_scales(0), vec![1]);
    assert_eq!(bin_scales(1), vec![1]);
    assert_eq!(bin_scales(2), vec![1, 1]);
}

#[test]
fn welch_plan_half_overlap() {
    assert_eq!(welch_segment_count(256, 64, 32), 7);
    assert_eq!(welch_segment_starts(256, 64, 32), vec![0, 32, 64, 96, 128, 160, 192]);
    assert_eq!(welch_segment_count(1024, 256, 128), 7);
    assert_eq!(welch_segment_starts(1024, 256, 128), vec![0, 128, 256, 384, 512, 640, 768]);
}

#[test]
fn welch_plan_without_overlap() {
    assert_eq!(welch_segment_count(256, 64, 0), 4);
    assert_eq!(welch_segment_starts(256, 64, 0), vec![0, 64, 128, 192]);
}

#[test]
fn welch_plan_full_overlap() {
    let starts = welch_segment_starts(128, 64, 63);
    assert_eq!(welch_segment_count(128, 64, 63), 65);
    assert_eq!(starts.len(), 65);
    for (k, &s) in starts.iter().enumerate() {
        assert_eq!(s, k);
        assert!(s + 64 <= 128);
    }
}

#[test]
fn welch_plan_short_signal() {
    assert_eq!(welch_segment_count(10, 64, 32), 1);
    assert!(welch_segment_starts(10, 64, 32).is_empty());
    assert_eq!(welch_segment_count(0, 1, 0), 1);
    assert!(welch_segment_starts(0, 1, 0).is_empty());
}

#[test]
fn welch_plan_is_maximal() {
    // 300 samples, segments of 64 with hop 48: starts 0..=192; 240 + 64 > 300.
    let starts = welch_segment_starts(300, 64, 16);
    assert_eq!(starts, vec![0, 48, 96, 144, 192]);
    assert_eq!(welch_segment_count(300, 64, 16), 5);
    let last = *starts.last().unwrap();
    assert!(last + 64 <= 300);
    assert!(last + 48 + 64 > 300);
}

#[test]
fn bartlett_plan() {
    assert_eq!(bartlett_segment_count(256, 64), 4);
    assert_eq!(bartlett_segment_starts(256, 64), vec![0, 64, 128, 192]);
    assert_eq!(bartlett_segment_count(512, 128), 4);
    assert_eq!(bartlett_segment_starts(300, 64), vec![0, 64, 128, 192]);
    assert_eq!(bartlett_segment_count(100, 128), 0);
    assert!(bartlett_segment_starts(100, 128).is_empty());
}

#[test]
fn bartlett_plan_is_welch_plan_without_overlap() {
    for len in [0usize, 1, 63, 64, 65, 127, 128, 300, 1000] {
        for seg in [1usize, 3, 64, 128] {
            assert_eq!(bartlett_segment_starts(len, seg), welch_segment_starts(len, seg, 0));
        }
    }
}

#[test]
fn lcg_steps() {
    assert_eq!(lcg_next(0), 1442695040888963407);
    assert_eq!(lcg_next(1), 7806831264735756412);
    assert_eq!(lcg_next(1442695040888963407), 1876011003808476466);
}

#[test]
fn noise_sample_is_top_31_bits() {
    assert_eq!(noise_sample(1442695040888963407), 167951807);
    assert_eq!(noise_sample(0), 0);
    assert_eq!(noise_sample(u64::MAX), NOISE_RANGE - 1);
    assert_eq!(NOISE_RANGE, 1i64 << 31);
}

#[test]
fn white_noise_raw_values() {
    assert_eq!(white_noise_raw(4, 0), vec![167951807, 218396424, 1299921937, 861605236]);
    assert_eq!(white_noise_raw(3, 42), vec![1220265334, 484179026, 886563538]);
    assert!(white_noise_raw(0, 7).is_empty());
}

#[test]
fn white_noise_raw_in_range() {
    for &x in &white_noise_raw(1000, 12345) {
        assert!(0 <= x && x < NOISE_RANGE);
    }
}

#[test]
fn white_noise_prefix_and_shift() {
    let long = white_noise_raw(10, 99);
    let short = white_noise_raw(4, 99);
    assert_eq!(&long[..4], &short[..]);
    let shifted = white_noise_raw(9, lcg_next(99));
    assert_eq!(&long[1..], &shifted[..]);
}

#[test]
fn autocorrelation_lag_range() {
    assert_eq!(autocorrelation_max_lag(3, 2), 2);
    assert_eq!(autocorrelation_max_lag(4, 3), 3);
    assert_eq!(autocorrelation_max_lag(3, 10), 2);
    assert_eq!(autocorrelation_len(3, 2), 3);
    assert_eq!(autocorrelation_len(1, 5), 1);
    assert_eq!(lag_product_count(4, 0), 4);
    assert_eq!(lag_product_count(4, 3), 1);
}

#[test]
fn yule_walker_model_order() {
    // 8 samples, order 3: four autocorrelation values, three coefficients.
    assert_eq!(levinson_order(autocorrelation_len(8, 3)), 3);
    // 16 samples, order 2.
    assert_eq!(levinson_order(autocorrelation_len(16, 2)), 2);
    // Order capped by the signal length.
    assert_eq!(levinson_order(autocorrelation_len(3, 10)), 2);
    assert_eq!(levinson_order(2), 1);
    assert_eq!(levinson_order(1), 0);
}

#[test]
fn triangle_branches() {
    assert!(triangle_rising(0, 51));
    assert!(triangle_rising(25, 51));
    assert!(!triangle_rising(26, 51));
    assert!(triangle_rising(1, 4));
    assert!(!triangle_rising(2, 4));
    assert!(!triangle_rising(3, 4));
    assert!(!triangle_rising(5, 4));
}

#[test]
fn triangle_window_even_length_is_symmetric() {
    // The window built from the branch stays within [0, 1] and is symmetric.
    let n = 4usize;
    let w: Vec<f64> = (0..n)
        .map(|i| {
            if triangle_rising(i, n) {
                2.0 * i as f64 / (n - 1) as f64
            } else {
                2.0 - 2.0 * i as f64 / (n - 1) as f64
            }
        })
        .collect();
    for i in 0..n {
        assert!(w[i] >= 0.0 && w[i] <= 1.0);
        assert!((w[i] - w[n - 1 - i]).abs() < 1e-14);
    }
    assert!(w[0].abs() < 1e-14);
    assert!(w[3].abs() < 1e-14);
}
