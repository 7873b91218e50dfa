# spectral_est

Power spectral density estimation (periodogram, Welch, Bartlett, Yule-Walker AR,
window functions).

- `src/` is the verified library: the integer structure of the estimators —
  one-sided bin layout and scaling (`bins`), segment plans of Welch's and
  Bartlett's methods (`segments`), autocorrelation lag ranges and AR model order
  (`lags`), the triangular window's branch (`window`), and the linear
  congruential generator of the white-noise signal (`noise`).
- `app/` holds the floating-point estimators themselves, built on those pieces.
