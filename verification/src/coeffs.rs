//! The coefficient stage: derives the integrator gain from cutoff frequency
//! and sample rate, and maps the unit-range resonance, drive and output
//! parameters onto the gains the ladder equations use.
//!
//! The integrator gain models `g = 1 - exp(-2 pi * cutoff / rate)`.  The
//! exponential is evaluated through a second-order rational approximation,
//! `g(t) = 12 t / (t^2 + 6 t + 12)` with `t = 2 pi * cutoff / rate` capped at
//! 3: the (2,2) Pade approximant of `1 - exp(-t)`, monotone in `t` on the
//! capped range.  The cap trades the exponential's tail for monotonicity:
//! at and above the cap the gain tops out at 36/39 (about 0.923) where the
//! exponential map would approach 1 toward the Nyquist frequency; below the
//! cap the two agree closely.  The parameter maps are affine: resonance in
//! [0, 1] scales to a [0, 4] feedback gain, drive and output in [0, 1] scale
//! to [1, 15] gains.

use vstd::prelude::*;

use crate::fixed::FX_ARG_MAX;
use crate::fixed::FX_ONE;
use crate::fixed::fx_div;
use crate::fixed::fx_div_s;
use crate::fixed::fx_mul;
use crate::fixed::fx_mul_s;
use crate::fixed::lemma_div_frac_le;
use crate::fixed::lemma_fx_mul_s_bound;
use crate::fixed::lemma_fx_mul_s_comm;
use crate::fixed::lemma_fx_mul_s_mono;
use crate::fixed::lemma_fx_mul_s_sign;

verus! {

/// 2 pi in Q24.
pub const TAU_Q24: i64 = 105414357;

/// Twice the transistor thermal voltage, `2 * 0.026`, in Q24.
pub const TWO_VT_Q24: i64 = 872415;

/// Reciprocal of twice the thermal voltage, `1 / (2 * 0.026)`, in Q24.
pub const VT_REC_Q24: i64 = 322638769;

/// Cap on the normalized angular cutoff `t`: 3.0 in Q24.
pub const T_MAX_Q24: i64 = 50331648;

/// The rational integrator-gain map `12 t / (t^2 + 6 t + 12)` in Q24.
pub open spec fn g_of_t_s(t: int) -> int {
    fx_div_s(12 * t, fx_mul_s(t, t) + 6 * t + 12 * (FX_ONE as int))
}

/// The normalized angular cutoff `2 pi * cutoff / rate`, capped at 3.
pub open spec fn t_of_s(cutoff: int, rate: int) -> int {
    if 2 * cutoff >= rate {
        T_MAX_Q24 as int
    } else {
        let t0 = fx_mul_s(TAU_Q24 as int, fx_div_s(cutoff, rate));
        if t0 > T_MAX_Q24 as int {
            T_MAX_Q24 as int
        } else {
            t0
        }
    }
}

/// The one-pole integrator coefficient derived from cutoff and sample rate.
pub open spec fn integrator_gain_s(cutoff: int, rate: int) -> int {
    g_of_t_s(t_of_s(cutoff, rate))
}

/// The per-sample gains consumed by the ladder state machine, all in Q24.
pub struct Coefficients {
    /// Per-stage integrator step `2 Vt * g`.
    pub stage_gain: i64,
    /// Feedback scale derived from the resonance parameter, in [0, 4].
    pub resonance_gain: i64,
    /// Input saturation pre-gain derived from the drive parameter, in [1, 15].
    pub drive_gain: i64,
    /// Output gain derived from the output parameter, in [1, 15].
    pub output_gain: i64,
}

impl Coefficients {
    /// The gain ranges every derived coefficient set satisfies; the ladder
    /// state machine requires them to keep all of its arithmetic in range.
    pub open spec fn wf(self) -> bool {
        &&& 0 <= self.stage_gain <= TWO_VT_Q24
        &&& 0 <= self.resonance_gain <= 4 * FX_ONE
        &&& FX_ONE <= self.drive_gain <= 15 * FX_ONE
        &&& FX_ONE <= self.output_gain <= 15 * FX_ONE
    }
}

/// The gain map stays within `[0, 1)` on the capped range of `t`: strictly
/// below one, as the exponential it models.
pub proof fn lemma_g_of_t_bounds(t: int)
    requires
        0 <= t <= T_MAX_Q24,
    ensures
        0 <= g_of_t_s(t) < FX_ONE,
{
    let one = FX_ONE as int;
    let sq = fx_mul_s(t, t);
    lemma_fx_mul_s_sign(t, t);
    let d = sq + 6 * t + 12 * one;
    assert(t * t >= (6 * t - 12 * one + 1) * one) by (nonlinear_arith)
        requires
            0 <= t <= 3 * one,
            one == FX_ONE;
    if 6 * t - 12 * one + 1 >= 0 {
        vstd::arithmetic::div_mod::lemma_div_multiples_vanish(6 * t - 12 * one + 1, one);
        vstd::arithmetic::div_mod::lemma_div_is_ordered((6 * t - 12 * one + 1) * one, t * t, one);
        assert((6 * t - 12 * one + 1) * one == one * (6 * t - 12 * one + 1)) by (nonlinear_arith);
    }
    assert(12 * t < d);
    assert(12 * t * one < d * one) by (nonlinear_arith)
        requires
            12 * t < d,
            one > 0;
    vstd::arithmetic::div_mod::lemma_multiply_divide_lt(12 * t * one, d, one);
    vstd::arithmetic::div_mod::lemma_div_pos_is_pos(12 * t * one, d);
}

/// The gain map is monotone on the capped range of `t`.
pub proof fn lemma_g_of_t_mono(t1: int, t2: int)
    requires
        0 <= t1 <= t2 <= T_MAX_Q24,
    ensures
        g_of_t_s(t1) <= g_of_t_s(t2),
{
    let one = FX_ONE as int;
    let sq1 = fx_mul_s(t1, t1);
    let sq2 = fx_mul_s(t2, t2);
    lemma_fx_mul_s_sign(t1, t1);
    lemma_fx_mul_s_sign(t2, t2);
    let d1 = sq1 + 6 * t1 + 12 * one;
    let d2 = sq2 + 6 * t2 + 12 * one;
    vstd::arithmetic::div_mod::lemma_fundamental_div_mod(t1 * t1, one);
    vstd::arithmetic::div_mod::lemma_fundamental_div_mod(t2 * t2, one);
    vstd::arithmetic::div_mod::lemma_mod_division_less_than_divisor(t1 * t1, one);
    vstd::arithmetic::div_mod::lemma_mod_division_less_than_divisor(t2 * t2, one);
    let r1 = (t1 * t1) % one;
    let r2 = (t2 * t2) % one;
    if t1 == t2 {
        assert((12 * t1) * d2 <= (12 * t2) * d1);
    } else {
        // The exact quadratic denominators keep the fractions ordered with a
        // margin of 3 * one^2 per unit of t2 - t1, which absorbs the one
        // rounding step hidden in each squared term.
        assert(t1 * sq2 + 12 * one * t1 <= t2 * sq1 + 12 * one * t2) by (nonlinear_arith)
            requires
                0 <= t1,
                t1 + 1 <= t2,
                t2 <= 3 * one,
                one == FX_ONE,
                one * sq1 == t1 * t1 - r1,
                one * sq2 == t2 * t2 - r2,
                0 <= r1 < one,
                0 <= r2 < one;
        assert((12 * t1) * d2 <= (12 * t2) * d1) by (nonlinear_arith)
            requires
                t1 * sq2 + 12 * one * t1 <= t2 * sq1 + 12 * one * t2,
                0 <= t1 <= t2,
                d1 == sq1 + 6 * t1 + 12 * one,
                d2 == sq2 + 6 * t2 + 12 * one;
    }
    assert((12 * t1 * one) * d2 <= (12 * t2 * one) * d1) by (nonlinear_arith)
        requires
            (12 * t1) * d2 <= (12 * t2) * d1,
            one > 0;
    assert(0 <= 12 * t1 * one) by (nonlinear_arith)
        requires
            0 <= t1,
            one > 0;
    lemma_div_frac_le(12 * t1 * one, d1, 12 * t2 * one, d2);
}

/// The gain map is strictly positive once the normalized cutoff is at least
/// two raw units.
proof fn lemma_g_of_t_positive(t: int)
    requires
        2 <= t <= T_MAX_Q24,
    ensures
        g_of_t_s(t) >= 1,
{
    let one = FX_ONE as int;
    let sq = fx_mul_s(t, t);
    lemma_fx_mul_s_sign(t, t);
    assert(t * t <= (3 * t) * one) by (nonlinear_arith)
        requires
            0 <= t <= 3 * one,
            one == FX_ONE;
    vstd::arithmetic::div_mod::lemma_div_is_ordered(t * t, (3 * t) * one, one);
    vstd::arithmetic::div_mod::lemma_div_multiples_vanish(3 * t, one);
    assert((3 * t) * one == one * (3 * t)) by (nonlinear_arith);
    assert(sq <= 3 * t);
    let d = sq + 6 * t + 12 * one;
    assert(12 * t * one >= 9 * t + 12 * one) by (nonlinear_arith)
        requires
            2 <= t,
            one == FX_ONE;
    vstd::arithmetic::div_mod::lemma_div_non_zero(12 * t * one, d);
}

/// The integrator gain is strictly positive whenever the cutoff is at least
/// one sample-rate quantum, `cutoff >= rate / 2^24` — in particular for
/// every cutoff of at least 20 Hz at any representable sample rate, the
/// ranges the host promises.
pub proof fn lemma_integrator_gain_positive(cutoff: int, rate: int)
    requires
        1 <= cutoff,
        1 <= rate,
        cutoff * (FX_ONE as int) >= rate,
    ensures
        integrator_gain_s(cutoff, rate) >= 1,
{
    let one = FX_ONE as int;
    let tau = TAU_Q24 as int;
    lemma_t_of_s_bounds(cutoff, rate);
    if 2 * cutoff < rate {
        let ratio = fx_div_s(cutoff, rate);
        vstd::arithmetic::div_mod::lemma_div_non_zero(cutoff * one, rate);
        lemma_fx_mul_s_mono(1, ratio, tau);
        lemma_fx_mul_s_comm(ratio, tau);
        assert(tau == 6 * one + 4751061);
        vstd::arithmetic::div_mod::lemma_fundamental_div_mod_converse(tau, one, 6, 4751061);
        assert(fx_mul_s(1, tau) == 6);
    }
    lemma_g_of_t_positive(t_of_s(cutoff, rate));
}

/// Increasing the cutoff frequency never decreases the integrator gain
/// (the coefficient-level form of low-pass frequency-response monotonicity).
pub proof fn lemma_integrator_gain_monotone(cutoff1: int, cutoff2: int, rate: int)
    requires
        1 <= cutoff1 <= cutoff2,
        1 <= rate,
    ensures
        integrator_gain_s(cutoff1, rate) <= integrator_gain_s(cutoff2, rate),
{
    let one = FX_ONE as int;
    let tau = TAU_Q24 as int;
    lemma_t_of_s_bounds(cutoff1, rate);
    lemma_t_of_s_bounds(cutoff2, rate);
    if 2 * cutoff1 >= rate {
        assert(t_of_s(cutoff1, rate) == t_of_s(cutoff2, rate));
    } else if 2 * cutoff2 >= rate {
        lemma_g_of_t_mono(t_of_s(cutoff1, rate), t_of_s(cutoff2, rate));
    } else {
        assert(cutoff1 * one <= cutoff2 * one) by (nonlinear_arith)
            requires
                cutoff1 <= cutoff2,
                one > 0;
        vstd::arithmetic::div_mod::lemma_div_is_ordered(cutoff1 * one, cutoff2 * one, rate);
        vstd::arithmetic::div_mod::lemma_div_pos_is_pos(cutoff1 * one, rate);
        lemma_fx_mul_s_mono(fx_div_s(cutoff1, rate), fx_div_s(cutoff2, rate), tau);
        assert(fx_div_s(cutoff1, rate) * tau == tau * fx_div_s(cutoff1, rate))
            by (nonlinear_arith);
        assert(fx_div_s(cutoff2, rate) * tau == tau * fx_div_s(cutoff2, rate))
            by (nonlinear_arith);
        lemma_g_of_t_mono(t_of_s(cutoff1, rate), t_of_s(cutoff2, rate));
    }
}

/// The capped normalized cutoff always lies in `[0, 3]`.
pub proof fn lemma_t_of_s_bounds(cutoff: int, rate: int)
    requires
        1 <= cutoff,
        1 <= rate,
    ensures
        0 <= t_of_s(cutoff, rate) <= T_MAX_Q24,
{
    let one = FX_ONE as int;
    if 2 * cutoff < rate {
        assert(0 <= cutoff * one) by (nonlinear_arith)
            requires
                0 <= cutoff,
                one > 0;
        vstd::arithmetic::div_mod::lemma_div_pos_is_pos(cutoff * one, rate);
        lemma_fx_mul_s_sign(TAU_Q24 as int, fx_div_s(cutoff, rate));
    }
}

/// Derives the integrator gain `g` for the given cutoff and sample rate,
/// both in Q24 hertz.
pub fn integrator_gain(cutoff_hz: i64, sample_rate_hz: i64) -> (g: i64)
    requires
        1 <= cutoff_hz <= FX_ARG_MAX,
        1 <= sample_rate_hz <= FX_ARG_MAX,
    ensures
        g == integrator_gain_s(cutoff_hz as int, sample_rate_hz as int),
        0 <= g < FX_ONE,
{
    let t = if 2 * cutoff_hz >= sample_rate_hz {
        T_MAX_Q24
    } else {
        let ratio = fx_div(cutoff_hz, sample_rate_hz);
        let t0 = fx_mul(TAU_Q24, ratio);
        proof {
            lemma_fx_mul_s_sign(TAU_Q24 as int, ratio as int);
        }
        if t0 > T_MAX_Q24 {
            T_MAX_Q24
        } else {
            t0
        }
    };
    let sq = fx_mul(t, t);
    proof {
        lemma_fx_mul_s_sign(t as int, t as int);
        lemma_fx_mul_s_bound(t as int, t as int, T_MAX_Q24 as int, T_MAX_Q24 as int);
    }
    let d = sq + 6 * t + 12 * FX_ONE;
    let g = fx_div(12 * t, d);
    proof {
        lemma_g_of_t_bounds(t as int);
    }
    g
}

/// Derives the full coefficient set from the smoothed parameter values.
/// `cutoff_hz` and `sample_rate_hz` are Q24 hertz; `resonance`, `drive` and
/// `output` are Q24 values in the unit range `[0, 1]`.
pub fn derive_coefficients(
    cutoff_hz: i64,
    sample_rate_hz: i64,
    resonance: i64,
    drive: i64,
    output: i64,
) -> (c: Coefficients)
    requires
        1 <= cutoff_hz <= FX_ARG_MAX,
        1 <= sample_rate_hz <= FX_ARG_MAX,
        0 <= resonance <= FX_ONE,
        0 <= drive <= FX_ONE,
        0 <= output <= FX_ONE,
    ensures
        c.stage_gain == fx_mul_s(
            TWO_VT_Q24 as int,
            integrator_gain_s(cutoff_hz as int, sample_rate_hz as int),
        ),
        c.resonance_gain == 4 * resonance,
        c.drive_gain == FX_ONE + 14 * drive,
        c.output_gain == FX_ONE + 14 * output,
        c.wf(),
{
    let g = integrator_gain(cutoff_hz, sample_rate_hz);
    let stage_gain = fx_mul(TWO_VT_Q24, g);
    proof {
        lemma_fx_mul_s_sign(TWO_VT_Q24 as int, g as int);
        lemma_fx_mul_s_bound(TWO_VT_Q24 as int, g as int, TWO_VT_Q24 as int, FX_ONE as int);
        vstd::arithmetic::div_mod::lemma_div_multiples_vanish(
            TWO_VT_Q24 as int,
            FX_ONE as int,
        );
        assert(TWO_VT_Q24 as int * (FX_ONE as int) == (FX_ONE as int) * (TWO_VT_Q24 as int))
            by (nonlinear_arith);
    }
    Coefficients {
        stage_gain,
        resonance_gain: 4 * resonance,
        drive_gain: FX_ONE + 14 * drive,
        output_gain: FX_ONE + 14 * output,
    }
}

} // verus!
