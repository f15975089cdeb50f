//! A verified transistor-ladder low-pass filter (Moog ladder topology).
//!
//! The filter is a resonant, drive-saturating, switchable 2-pole/4-pole
//! nonlinear cascade evaluated once per audio sample.  All signal values are
//! Q24 fixed-point numbers: an `i64` holds `value * 2^24`.  The coefficient
//! stage derives the integrator gain from the cutoff frequency and the sample
//! rate; the ladder stage advances the recursive per-channel state by one
//! sample.  Saturation uses a rational approximation of the hyperbolic
//! tangent, so every stage output is provably bounded for every admissible
//! input sequence.

pub mod coeffs;
pub mod fixed;
pub mod ladder;
