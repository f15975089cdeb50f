//! Tests of the Q24 arithmetic, the saturating nonlinearity and the
//! coefficient stage.

use moog_ladder::coeffs::derive_coefficients;
use moog_ladder::coeffs::integrator_gain;
use moog_ladder::coeffs::TWO_VT_Q24;
use moog_ladder::fixed::fx_div;
use moog_ladder::fixed::fx_mul;
use moog_ladder::fixed::saturate;
use moog_ladder::fixed::FX_ONE;

fn q24(x: f64) -> i64 {
    (x * FX_ONE as f64).round() as i64
}

fn to_f64(v: i64) -> f64 {
    v as f64 / FX_ONE as f64
}

#[test]
fn multiply_exact_products() {
    assert_eq!(fx_mul(q24(2.0), q24(3.0)), q24(6.0));
    assert_eq!(fx_mul(q24(-2.0), q24(3.0)), q24(-6.0));
    assert_eq!(fx_mul(q24(2.0), q24(-3.0)), q24(-6.0));
    assert_eq!(fx_mul(q24(-2.0), q24(-3.0)), q24(6.0));
    assert_eq!(fx_mul(q24(0.5), q24(0.5)), q24(0.25));
    assert_eq!(fx_mul(0, q24(123.0)), 0);
}

#[test]
fn multiply_truncates_toward_zero() {
    // 1 raw * 1 raw is far below one raw unit: truncates to zero either way.
    assert_eq!(fx_mul(1, 1), 0);
    assert_eq!(fx_mul(-1, 1), 0);
    assert_eq!(fx_mul(3, FX_ONE / 2), 1);
    assert_eq!(fx_mul(-3, FX_ONE / 2), -1);
}

#[test]
fn divide_rounds_down() {
    assert_eq!(fx_div(q24(1.0), q24(2.0)), q24(0.5));
    assert_eq!(fx_div(q24(3.0), q24(4.0)), q24(0.75));
    // 5 / 3 in raw units: the quotient rounds down.
    assert_eq!(fx_div(5, 3), (5 * FX_ONE as i128 / 3) as i64);
}

#[test]
fn saturation_fixes_zero_and_full_scale() {
    assert_eq!(saturate(0), 0);
    assert_eq!(saturate(q24(3.0)), FX_ONE);
    assert_eq!(saturate(q24(-3.0)), -FX_ONE);
    assert_eq!(saturate(q24(100.0)), FX_ONE);
    assert_eq!(saturate(q24(-100.0)), -FX_ONE);
}

#[test]
fn saturation_matches_rational_tanh() {
    // At 1.0 the approximation is 1 * (27 + 1) / (27 + 9) = 28 / 36.
    let expected = (28 * FX_ONE as i128 / 36) as i64;
    assert_eq!(saturate(q24(1.0)), expected);
    // Close to the true hyperbolic tangent.
    assert!((to_f64(saturate(q24(1.0))) - 1.0f64.tanh()).abs() < 0.02);
    assert!((to_f64(saturate(q24(0.5))) - 0.5f64.tanh()).abs() < 0.01);
    assert!((to_f64(saturate(q24(2.0))) - 2.0f64.tanh()).abs() < 0.04);
}

#[test]
fn saturation_is_odd_and_bounded() {
    for raw in [1, 7, 12345, q24(0.3), q24(0.9), q24(1.7), q24(2.9), q24(5.0)] {
        assert_eq!(saturate(-raw), -saturate(raw));
        assert!(saturate(raw) <= FX_ONE);
        assert!(saturate(raw) >= 0);
    }
}

#[test]
fn integrator_gain_matches_exponential_map() {
    // g = 1 - exp(-2 pi fc / fs), here through the rational approximation.
    let g = integrator_gain(q24(1000.0), q24(48000.0));
    let t = 2.0 * std::f64::consts::PI * 1000.0 / 48000.0;
    let exact = 1.0 - (-t).exp();
    assert!((to_f64(g) - exact).abs() < 1e-3);
    let pade = 12.0 * t / (t * t + 6.0 * t + 12.0);
    assert!((to_f64(g) - pade).abs() < 1e-6);
}

#[test]
fn integrator_gain_monotone_in_cutoff() {
    let rate = q24(48000.0);
    let mut last = integrator_gain(q24(20.0), rate);
    for hz in [50.0, 100.0, 440.0, 1000.0, 2000.0, 5000.0, 10000.0, 20000.0] {
        let g = integrator_gain(q24(hz), rate);
        assert!(g >= last);
        last = g;
    }
}

#[test]
fn integrator_gain_caps_at_high_cutoff() {
    // Past half the sample rate the normalized cutoff caps at 3, where the
    // gain map reaches 36/39.
    let capped = (36 * FX_ONE as i128 * FX_ONE as i128
        / (39 * FX_ONE as i128)) as i64;
    assert_eq!(integrator_gain(q24(24000.0), q24(48000.0)), capped);
    assert_eq!(integrator_gain(q24(40000.0), q24(48000.0)), capped);
    assert!(to_f64(capped) < 1.0);
}

#[test]
fn coefficient_parameter_maps() {
    let c = derive_coefficients(q24(1000.0), q24(48000.0), q24(0.5), q24(0.0), q24(0.25));
    assert_eq!(c.resonance_gain, 2 * FX_ONE);
    assert_eq!(c.drive_gain, FX_ONE);
    assert_eq!(c.output_gain, q24(4.5));
    let c2 = derive_coefficients(q24(1000.0), q24(48000.0), q24(1.0), q24(1.0), q24(1.0));
    assert_eq!(c2.resonance_gain, 4 * FX_ONE);
    assert_eq!(c2.drive_gain, 15 * FX_ONE);
    assert_eq!(c2.output_gain, 15 * FX_ONE);
    // The per-stage step is the thermal-voltage scale times the gain.
    let g = integrator_gain(q24(1000.0), q24(48000.0));
    assert_eq!(c.stage_gain, fx_mul(TWO_VT_Q24, g));
}
