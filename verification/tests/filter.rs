//! Behavioral tests of the ladder state machine: stability, DC response,
//! frequency response, resonance peaking, reset, topology isolation and the
//! impulse-response scenario.

use moog_ladder::coeffs::derive_coefficients;
use moog_ladder::coeffs::Coefficients;
use moog_ladder::coeffs::VT_REC_Q24;
use moog_ladder::fixed::fx_mul;
use moog_ladder::fixed::saturate;
use moog_ladder::fixed::FX_ONE;
use moog_ladder::ladder::FilterState;
use moog_ladder::ladder::STAGE_MAX_Q24;

fn q24(x: f64) -> i64 {
    (x * FX_ONE as f64).round() as i64
}

fn to_f64(v: i64) -> f64 {
    v as f64 / FX_ONE as f64
}

fn coeffs(cutoff_hz: f64, resonance: f64, drive: f64, output: f64) -> Coefficients {
    derive_coefficients(q24(cutoff_hz), q24(48000.0), q24(resonance), q24(drive), q24(output))
}

fn sine(hz: f64, n: usize) -> Vec<i64> {
    (0..n).map(|i| q24((2.0 * std::f64::consts::PI * hz * i as f64 / 48000.0).sin())).collect()
}

fn rms(samples: &[i64]) -> f64 {
    let sum: f64 = samples.iter().map(|&v| to_f64(v) * to_f64(v)).sum();
    (sum / samples.len() as f64).sqrt()
}

fn state_bounded(s: &FilterState) -> bool {
    s.stage0.abs() <= STAGE_MAX_Q24 && s.stage1.abs() <= STAGE_MAX_Q24
        && s.stage2.abs() <= STAGE_MAX_Q24 && s.stage3.abs() <= STAGE_MAX_Q24
}

#[test]
fn stability_under_extreme_parameters() {
    // Full resonance, full drive, full output, constant full-scale input:
    // the output and the state stay bounded over ten thousand samples.
    let c = coeffs(20000.0, 1.0, 1.0, 1.0);
    let mut s = FilterState::new();
    for _ in 0..10000 {
        let y = s.process_sample(&c, q24(1.0), true);
        assert!(y.abs() <= FX_ONE);
        assert!(state_bounded(&s));
    }
    let mut s2 = FilterState::new();
    for _ in 0..10000 {
        let y = s2.process_sample(&c, q24(-1.0), false);
        assert!(y.abs() <= FX_ONE);
        assert!(state_bounded(&s2));
    }
}

#[test]
fn stability_across_topology_switches() {
    // Switching 2-pole and 4-pole every sample leaves stale values in the
    // unused taps; the state must stay bounded regardless.
    let c = coeffs(18000.0, 1.0, 1.0, 1.0);
    let mut s = FilterState::new();
    for i in 0..10000 {
        let x = if i % 3 == 0 { q24(1.0) } else { q24(-1.0) };
        let y = s.process_sample(&c, x, i % 2 == 0);
        assert!(y.abs() <= FX_ONE);
        assert!(state_bounded(&s));
    }
}

#[test]
fn dc_response_settles_at_thermal_scale() {
    // Resonance 0, unity drive and output, constant input 1.0: the cascade
    // settles.  The input passes the saturator twice (drive stage, then
    // stage 1), every stage output settles where its normalized saturation
    // matches that value (at the thermal-voltage scale, near 0.78 * 2 Vt),
    // and the output is the saturated last stage, about 0.0404.
    let c = coeffs(1000.0, 0.0, 0.0, 0.0);
    let mut s = FilterState::new();
    let mut last = 0i64;
    let mut prev = 0i64;
    for _ in 0..30000 {
        prev = last;
        last = s.process_sample(&c, q24(1.0), true);
    }
    assert!((last - prev).abs() <= 2);
    assert!((to_f64(last) - 0.0404).abs() < 0.001);
    assert!((to_f64(s.stage3) - 0.0404).abs() < 0.001);
    // All four stages settle at the same level: DC passes each one-pole
    // stage at unit gain.
    assert!((s.stage0 - s.stage3).abs() <= q24(0.001));
    assert!((s.stage1 - s.stage2).abs() <= q24(0.001));
    // The settled state is an exact fixed point of the update: holding the
    // input holds the state and the output bit-identically.
    let settled = s;
    let y1 = s.process_sample(&c, q24(1.0), true);
    let y2 = s.process_sample(&c, q24(1.0), true);
    assert_eq!(s, settled);
    assert_eq!(y1, y2);
    assert_eq!(y1, last);
    // At the fixed point every stage's saturated value tracks the
    // drive-saturated input to within the integrator's quantization step.
    let quantum = |d: i64| (c.stage_gain as i128) * (d.abs() as i128) < FX_ONE as i128;
    let t1 = saturate(saturate(fx_mul(q24(1.0), c.drive_gain)));
    assert!(quantum(t1 - s.sat0));
    assert!(quantum(s.sat0 - s.sat1));
    assert!(quantum(s.sat1 - s.sat2));
    assert!(quantum(s.sat2 - saturate(fx_mul(s.stage3, VT_REC_Q24))));
}

#[test]
fn cutoff_increase_raises_response() {
    // A 500 Hz tone passes more as the cutoff rises toward and past it.
    let tone = sine(500.0, 24000);
    let mut responses = Vec::new();
    for cutoff in [250.0, 2000.0, 8000.0] {
        let c = coeffs(cutoff, 0.0, 0.0, 0.0);
        let mut s = FilterState::new();
        let out: Vec<i64> = tone.iter().map(|&x| s.process_sample(&c, x, true)).collect();
        responses.push(rms(&out[12000..]));
    }
    assert!(responses[0] < responses[1]);
    assert!(responses[1] < responses[2]);
}

#[test]
fn resonance_increase_raises_peak_response() {
    // A tone at the cutoff frequency comes out stronger with more feedback.
    let tone = sine(1000.0, 24000);
    let mut responses = Vec::new();
    for resonance in [0.0, 0.5, 0.9] {
        let c = coeffs(1000.0, resonance, 0.0, 0.0);
        let mut s = FilterState::new();
        let out: Vec<i64> = tone.iter().map(|&x| s.process_sample(&c, x, true)).collect();
        responses.push(rms(&out[12000..]));
    }
    assert!(responses[0] < responses[1]);
    assert!(responses[1] < responses[2]);
}

#[test]
fn reset_returns_to_fresh_state() {
    let c = coeffs(5000.0, 0.8, 0.6, 0.4);
    let mut s = FilterState::new();
    for &x in sine(700.0, 256).iter() {
        s.process_sample(&c, x, true);
        s.process_sample(&c, x, false);
    }
    assert_ne!(s, FilterState::new());
    s.reset();
    assert_eq!(s, FilterState::new());
}

#[test]
fn silence_after_reset_is_exactly_silent() {
    let c = coeffs(5000.0, 0.8, 0.6, 0.4);
    let mut s = FilterState::new();
    for &x in sine(700.0, 256).iter() {
        s.process_sample(&c, x, true);
    }
    s.reset();
    for i in 0..2000 {
        let y = s.process_sample(&c, 0, i % 2 == 0);
        assert_eq!(y, 0);
    }
    assert_eq!(s, FilterState::new());
}

#[test]
fn two_pole_ignores_upper_stages() {
    // Identical lower-stage state, arbitrary (but in-range) upper-stage
    // state: 2-pole processing is bit-identical and never writes the upper
    // stages.
    let c = coeffs(3000.0, 0.7, 0.5, 0.3);
    let mut a = FilterState::new();
    let stage2 = q24(0.01);
    let stage3 = q24(-0.02);
    let mut b = FilterState {
        stage2,
        stage3,
        sat1: q24(-0.4),
        sat2: saturate(fx_mul(stage2, VT_REC_Q24)),
        ..FilterState::new()
    };
    for &x in sine(900.0, 4096).iter() {
        let ya = a.process_sample(&c, x, false);
        let yb = b.process_sample(&c, x, false);
        assert_eq!(ya, yb);
        assert_eq!(a.stage0, b.stage0);
        assert_eq!(a.stage1, b.stage1);
        assert_eq!(a.sat0, b.sat0);
        assert_eq!(b.stage2, stage2);
        assert_eq!(b.stage3, stage3);
        assert_eq!(b.sat1, q24(-0.4));
    }
}

#[test]
fn two_pole_output_carries_drive_post_gain() {
    // Drive is a pre-gain, so it reappears as a post-gain on the output in
    // both topologies: the 2-pole output is the saturated
    // outputGain * stage2 * driveGain, not outputGain * stage2 alone.
    let c = coeffs(2000.0, 0.0, 1.0, 0.5);
    let mut s = FilterState::new();
    let mut y = 0i64;
    for _ in 0..512 {
        y = s.process_sample(&c, q24(0.5), false);
    }
    let with_drive = saturate(fx_mul(fx_mul(c.output_gain, s.stage1), c.drive_gain));
    let without_drive = saturate(fx_mul(c.output_gain, s.stage1));
    assert_eq!(y, with_drive);
    assert_ne!(y, without_drive);
}

#[test]
fn impulse_response_is_a_clean_low_pass_decay() {
    // 48 kHz, cutoff 1000 Hz, no resonance, minimum drive, unity output,
    // 4-pole; impulse input.  The response stays strictly inside (-1, 1),
    // never swings negative, and dies away.
    let c = coeffs(1000.0, 0.0, 0.0, 0.0);
    let mut s = FilterState::new();
    let mut peak = 0i64;
    let mut last = 0i64;
    for i in 0..48000 {
        let x = if i == 0 { q24(1.0) } else { 0 };
        let y = s.process_sample(&c, x, true);
        assert!(y.abs() < FX_ONE);
        assert!(y >= 0);
        if y > peak {
            peak = y;
        }
        last = y;
    }
    assert!(peak > 0);
    assert!(to_f64(last) < 0.0005);
}
