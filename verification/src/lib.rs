//! Integer structure of power spectral density estimation: the layout of
//! one-sided spectra, the segment plans of Welch's and Bartlett's methods,
//! the lag range of the biased autocorrelation, the branch of the triangular
//! window, and the pseudo-random generator behind the white-noise test signal.
//!
//! The floating-point arithmetic of the estimators is built on these pieces.

pub mod bins;
pub mod segments;
pub mod noise;
pub mod lags;
pub mod window;
