//! The ladder state machine: the per-channel recursive filter state and the
//! per-sample update of the 4-pole and 2-pole nonlinear cascades.
//!
//! Every update follows the classic transistor-ladder difference equations in
//! Q24 fixed point.  Each stage integrates the difference between the
//! upstream saturated value and its own cached saturated value; the last
//! stage of either cascade saturates its own output inline instead of caching
//! it, and resonance feeds the last stage's output back to the input.  The
//! saturating nonlinearity bounds every state component: well-formedness of
//! the state is preserved by every step, for every admissible input, with no
//! explicit limiter in the signal path.

use vstd::prelude::*;

use crate::coeffs::Coefficients;
use crate::coeffs::TWO_VT_Q24;
use crate::coeffs::VT_REC_Q24;
use crate::fixed::FX_ONE;
use crate::fixed::abs_s;
use crate::fixed::fx_mul;
use crate::fixed::fx_mul_s;
use crate::fixed::lemma_fx_mul_s_abs_le;
use crate::fixed::lemma_fx_mul_s_bound;
use crate::fixed::lemma_fx_mul_s_comm;
use crate::fixed::lemma_fx_mul_s_mono;
use crate::fixed::lemma_fx_mul_s_mono_signed;
use crate::fixed::lemma_fx_mul_s_odd;
use crate::fixed::lemma_fx_mul_s_sign;
use crate::fixed::lemma_fx_mul_s_zero;
use crate::fixed::lemma_fx_mul_s_zero_converse;
use crate::fixed::lemma_sat_s_bounds;
use crate::fixed::lemma_sat_s_full;
use crate::fixed::lemma_sat_s_le_id;
use crate::fixed::lemma_sat_s_odd;
use crate::fixed::lemma_sat_s_zero;
use crate::fixed::sat_s;
use crate::fixed::saturate;

verus! {

/// Largest input-sample magnitude `process_sample` accepts (64.0 in Q24);
/// keeps the drive product inside the multiplier's range.
pub const INPUT_MAX_Q24: i64 = 1073741824;

/// Smallest stage-output magnitude that saturates the cascaded nonlinearity
/// to exactly one: the least `v` with `v / (2 Vt) >= 3` after rounding.
pub const SAT_EDGE_Q24: i64 = 2617246;

/// Largest change of one stage output in one sample: `2 Vt * g * 2` with
/// `g <= 1`.
pub const MAX_STEP_Q24: i64 = 1744830;

/// Bound on every stage output: once a stage output passes `SAT_EDGE_Q24`
/// its own saturated value pins at one and the integrator can only pull it
/// back, so it never strays more than two steps past the edge.
pub const STAGE_MAX_Q24: i64 = 6106906;

/// The mathematical model of the filter state: the four stage outputs and
/// the three cached saturated taps, as unbounded integers.
pub struct LadderModel {
    pub stage0: int,
    pub stage1: int,
    pub stage2: int,
    pub stage3: int,
    pub sat0: int,
    pub sat1: int,
    pub sat2: int,
}

/// One step of the model: the state after the sample and the output sample.
pub struct StepModel {
    pub state: LadderModel,
    pub output: int,
}

/// The input saturated through the drive pre-gain.
pub open spec fn drive_input_s(c: Coefficients, input: int) -> int {
    sat_s(fx_mul_s(input, c.drive_gain as int))
}

/// The resonance feedback term read from the last stage's previous output.
pub open spec fn feedback_s(c: Coefficients, tap: int) -> int {
    fx_mul_s(fx_mul_s(4 * c.resonance_gain, tap), VT_REC_Q24 as int)
}

/// A stage output normalized by the thermal voltage and saturated.
pub open spec fn stage_sat_s(v: int) -> int {
    sat_s(fx_mul_s(v, VT_REC_Q24 as int))
}

/// One 4-pole sample: stages advance in order 1 to 4, each using only values
/// already computed; the 4th stage saturates its own previous output inline
/// (the deliberate asymmetry: three cached taps for four stages).
pub open spec fn step4_s(m: LadderModel, c: Coefficients, input: int) -> StepModel {
    let x = drive_input_s(c, input);
    let fb = feedback_s(c, m.stage3);
    let t1 = sat_s(x - fb);
    let s0 = m.stage0 + fx_mul_s(c.stage_gain as int, t1 - m.sat0);
    let w0 = stage_sat_s(s0);
    let s1 = m.stage1 + fx_mul_s(c.stage_gain as int, w0 - m.sat1);
    let w1 = stage_sat_s(s1);
    let s2 = m.stage2 + fx_mul_s(c.stage_gain as int, w1 - m.sat2);
    let w2 = stage_sat_s(s2);
    let s3 = m.stage3 + fx_mul_s(c.stage_gain as int, w2 - stage_sat_s(m.stage3));
    StepModel {
        state: LadderModel {
            stage0: s0,
            stage1: s1,
            stage2: s2,
            stage3: s3,
            sat0: w0,
            sat1: w1,
            sat2: w2,
        },
        output: sat_s(fx_mul_s(fx_mul_s(c.output_gain as int, s3), c.drive_gain as int)),
    }
}

/// One 2-pole sample: structurally the 4-pole step cut to two stages, with
/// the feedback tap on the 2nd stage and the 2nd stage saturating its own
/// previous output inline.  The output step mirrors the 4-pole one: drive is
/// a pre-gain, so it reappears as a post-gain on the output.  Stages 3 and 4
/// and the cached taps 2 and 3 are not touched.
pub open spec fn step2_s(m: LadderModel, c: Coefficients, input: int) -> StepModel {
    let x = drive_input_s(c, input);
    let fb = feedback_s(c, m.stage1);
    let t1 = sat_s(x - fb);
    let s0 = m.stage0 + fx_mul_s(c.stage_gain as int, t1 - m.sat0);
    let w0 = stage_sat_s(s0);
    let s1 = m.stage1 + fx_mul_s(c.stage_gain as int, w0 - stage_sat_s(m.stage1));
    StepModel {
        state: LadderModel {
            stage0: s0,
            stage1: s1,
            stage2: m.stage2,
            stage3: m.stage3,
            sat0: w0,
            sat1: m.sat1,
            sat2: m.sat2,
        },
        output: sat_s(fx_mul_s(fx_mul_s(c.output_gain as int, s1), c.drive_gain as int)),
    }
}

/// One sample in the selected topology.
pub open spec fn step_s(m: LadderModel, c: Coefficients, input: int, four_pole: bool) -> StepModel {
    if four_pole {
        step4_s(m, c, input)
    } else {
        step2_s(m, c, input)
    }
}

/// The cached tap equals the saturation of the stage output it caches.
pub open spec fn linked_s(stage: int, cached: int) -> bool {
    cached == stage_sat_s(stage)
}

/// Well-formedness of the filter state.  Stage outputs are bounded; the taps
/// cached for stages 1 and 3 match their stage outputs.  The tap cached for
/// stage 2 may instead be stale within a tightened bound: a 2-pole step moves
/// the 2nd stage output without rewriting that tap, but only while the output
/// stays within one step of the saturation edge.
pub open spec fn wf_model(m: LadderModel) -> bool {
    &&& abs_s(m.stage0) <= STAGE_MAX_Q24
    &&& linked_s(m.stage0, m.sat0)
    &&& -FX_ONE <= m.sat0 <= FX_ONE
    &&& abs_s(m.stage1) <= STAGE_MAX_Q24
    &&& -FX_ONE <= m.sat1 <= FX_ONE
    &&& (linked_s(m.stage1, m.sat1) || abs_s(m.stage1) <= SAT_EDGE_Q24 + MAX_STEP_Q24)
    &&& abs_s(m.stage2) <= STAGE_MAX_Q24
    &&& linked_s(m.stage2, m.sat2)
    &&& -FX_ONE <= m.sat2 <= FX_ONE
    &&& abs_s(m.stage3) <= STAGE_MAX_Q24
}

/// The zero state of a fresh or reset filter.
pub open spec fn zero_model() -> LadderModel {
    LadderModel { stage0: 0, stage1: 0, stage2: 0, stage3: 0, sat0: 0, sat1: 0, sat2: 0 }
}

/// A zero stage output saturates to zero, so the zero state is well formed.
pub proof fn lemma_zero_wf()
    ensures
        wf_model(zero_model()),
        stage_sat_s(0) == 0,
{
    lemma_fx_mul_s_zero(VT_REC_Q24 as int);
    lemma_sat_s_zero();
}

/// Past the saturation edge, the normalized-and-saturated stage output pins
/// at exactly plus or minus one.
pub proof fn lemma_stage_sat_edge(v: int)
    requires
        abs_s(v) >= SAT_EDGE_Q24,
    ensures
        v > 0 ==> stage_sat_s(v) == FX_ONE,
        v < 0 ==> stage_sat_s(v) == -FX_ONE,
{
    let one = FX_ONE as int;
    let vt = VT_REC_Q24 as int;
    assert((SAT_EDGE_Q24 as int) * vt == 50331653 * one + 13592126) by (nonlinear_arith)
        requires
            vt == 322638769,
            one == 16777216,
            SAT_EDGE_Q24 == 2617246;
    vstd::arithmetic::div_mod::lemma_fundamental_div_mod_converse(
        (SAT_EDGE_Q24 as int) * vt,
        one,
        50331653,
        13592126,
    );
    assert(fx_mul_s(SAT_EDGE_Q24 as int, vt) == 50331653);
    if v > 0 {
        lemma_fx_mul_s_mono(SAT_EDGE_Q24 as int, v, vt);
        lemma_sat_s_full(fx_mul_s(v, vt));
    }
    if v < 0 {
        lemma_fx_mul_s_mono(SAT_EDGE_Q24 as int, -v, vt);
        lemma_fx_mul_s_odd(-v, vt);
        lemma_sat_s_odd(fx_mul_s(-v, vt));
        lemma_sat_s_full(fx_mul_s(-v, vt));
    }
}

/// One integrator step never moves a stage output by more than
/// `MAX_STEP_Q24`.
pub proof fn lemma_step_size(gain: int, upstream: int, own: int)
    requires
        0 <= gain <= TWO_VT_Q24,
        -FX_ONE <= upstream <= FX_ONE,
        -FX_ONE <= own <= FX_ONE,
    ensures
        abs_s(fx_mul_s(gain, upstream - own)) <= MAX_STEP_Q24,
{
    let one = FX_ONE as int;
    lemma_fx_mul_s_bound(gain, upstream - own, TWO_VT_Q24 as int, 2 * one);
    vstd::arithmetic::div_mod::lemma_div_multiples_vanish(2 * (TWO_VT_Q24 as int), one);
    assert((TWO_VT_Q24 as int) * (2 * one) == one * (2 * (TWO_VT_Q24 as int)))
        by (nonlinear_arith);
}

/// The workhorse of stability: a bounded stage output stays bounded after
/// one integrator step.  Either the cached tap matches the stage output, so
/// past the saturation edge the step can only pull the output back, or the
/// output was already within one step of the edge.
pub proof fn lemma_stage_advance(stage: int, cached: int, upstream: int, gain: int)
    requires
        abs_s(stage) <= STAGE_MAX_Q24,
        -FX_ONE <= cached <= FX_ONE,
        -FX_ONE <= upstream <= FX_ONE,
        0 <= gain <= TWO_VT_Q24,
        linked_s(stage, cached) || abs_s(stage) <= SAT_EDGE_Q24 + MAX_STEP_Q24,
    ensures
        abs_s(stage + fx_mul_s(gain, upstream - cached)) <= STAGE_MAX_Q24,
{
    lemma_step_size(gain, upstream, cached);
    if abs_s(stage) > SAT_EDGE_Q24 + MAX_STEP_Q24 {
        // The cached tap is live and the output is past the edge, so the
        // saturated tap is pinned and the step is one-sided.
        lemma_stage_sat_edge(stage);
        lemma_fx_mul_s_sign(gain, upstream - cached);
    }
}

/// Every step preserves well-formedness and yields a bounded output, for
/// every admissible coefficient set and input, in either topology and across
/// topology switches.
pub proof fn lemma_step_preserves_wf(m: LadderModel, c: Coefficients, input: int, four_pole: bool)
    requires
        wf_model(m),
        c.wf(),
    ensures
        wf_model(step_s(m, c, input, four_pole).state),
        -FX_ONE <= step_s(m, c, input, four_pole).output <= FX_ONE,
{
    let gain = c.stage_gain as int;
    let vt = VT_REC_Q24 as int;
    let x = drive_input_s(c, input);
    lemma_sat_s_bounds(fx_mul_s(input, c.drive_gain as int));
    if four_pole {
        let fb = feedback_s(c, m.stage3);
        let t1 = sat_s(x - fb);
        lemma_sat_s_bounds(x - fb);
        let s0 = m.stage0 + fx_mul_s(gain, t1 - m.sat0);
        lemma_stage_advance(m.stage0, m.sat0, t1, gain);
        let w0 = stage_sat_s(s0);
        lemma_sat_s_bounds(fx_mul_s(s0, vt));
        let s1 = m.stage1 + fx_mul_s(gain, w0 - m.sat1);
        lemma_stage_advance(m.stage1, m.sat1, w0, gain);
        let w1 = stage_sat_s(s1);
        lemma_sat_s_bounds(fx_mul_s(s1, vt));
        let s2 = m.stage2 + fx_mul_s(gain, w1 - m.sat2);
        lemma_stage_advance(m.stage2, m.sat2, w1, gain);
        let w2 = stage_sat_s(s2);
        lemma_sat_s_bounds(fx_mul_s(s2, vt));
        let own3 = stage_sat_s(m.stage3);
        lemma_sat_s_bounds(fx_mul_s(m.stage3, vt));
        lemma_stage_advance(m.stage3, own3, w2, gain);
        let s3 = m.stage3 + fx_mul_s(gain, w2 - own3);
        lemma_sat_s_bounds(fx_mul_s(fx_mul_s(c.output_gain as int, s3), c.drive_gain as int));
    } else {
        let fb = feedback_s(c, m.stage1);
        let t1 = sat_s(x - fb);
        lemma_sat_s_bounds(x - fb);
        let s0 = m.stage0 + fx_mul_s(gain, t1 - m.sat0);
        lemma_stage_advance(m.stage0, m.sat0, t1, gain);
        let w0 = stage_sat_s(s0);
        lemma_sat_s_bounds(fx_mul_s(s0, vt));
        let own1 = stage_sat_s(m.stage1);
        lemma_sat_s_bounds(fx_mul_s(m.stage1, vt));
        let inc = fx_mul_s(gain, w0 - own1);
        lemma_step_size(gain, w0, own1);
        lemma_stage_advance(m.stage1, own1, w0, gain);
        let s1 = m.stage1 + inc;
        // The stale-tap disjunct of the 2nd stage: either the new output
        // stays within one step of the saturation edge, or it stays past the
        // edge, where the tap this step leaves behind still saturates to the
        // same pinned value.
        if abs_s(m.stage1) <= SAT_EDGE_Q24 {
            assert(abs_s(s1) <= SAT_EDGE_Q24 + MAX_STEP_Q24);
        } else {
            lemma_stage_sat_edge(m.stage1);
            lemma_fx_mul_s_sign(gain, w0 - own1);
            if m.stage1 > 0 {
                if s1 > SAT_EDGE_Q24 && linked_s(m.stage1, m.sat1) {
                    lemma_stage_sat_edge(s1);
                    assert(linked_s(s1, m.sat1));
                } else {
                    assert(abs_s(s1) <= SAT_EDGE_Q24 + MAX_STEP_Q24);
                }
            } else {
                if s1 < -SAT_EDGE_Q24 && linked_s(m.stage1, m.sat1) {
                    lemma_stage_sat_edge(s1);
                    assert(linked_s(s1, m.sat1));
                } else {
                    assert(abs_s(s1) <= SAT_EDGE_Q24 + MAX_STEP_Q24);
                }
            }
        }
        lemma_sat_s_bounds(fx_mul_s(fx_mul_s(c.output_gain as int, s1), c.drive_gain as int));
    }
}

/// The state reached from `m` after processing the given input samples with
/// the given per-sample topology choices.
pub open spec fn run_s(m: LadderModel, c: Coefficients, inputs: Seq<int>, modes: Seq<bool>) -> LadderModel
    decreases inputs.len(),
{
    if inputs.len() == 0 {
        m
    } else {
        run_s(
            step_s(m, c, inputs[0], modes[0]).state,
            c,
            inputs.subrange(1, inputs.len() as int),
            modes.subrange(1, modes.len() as int),
        )
    }
}

/// The output samples produced from `m` by the given input samples.
pub open spec fn outputs_s(m: LadderModel, c: Coefficients, inputs: Seq<int>, modes: Seq<bool>) -> Seq<int>
    decreases inputs.len(),
{
    if inputs.len() == 0 {
        Seq::empty()
    } else {
        seq![step_s(m, c, inputs[0], modes[0]).output] + outputs_s(
            step_s(m, c, inputs[0], modes[0]).state,
            c,
            inputs.subrange(1, inputs.len() as int),
            modes.subrange(1, modes.len() as int),
        )
    }
}

/// Stability: from any well-formed state, any input sequence under any
/// topology choices leaves the state well formed (every stage output within
/// `STAGE_MAX_Q24`) and keeps every output sample within unity.  The bound
/// comes from the saturating nonlinearity alone; no limiter exists in the
/// signal path.
pub proof fn lemma_stability(m: LadderModel, c: Coefficients, inputs: Seq<int>, modes: Seq<bool>)
    requires
        wf_model(m),
        c.wf(),
        inputs.len() == modes.len(),
    ensures
        wf_model(run_s(m, c, inputs, modes)),
        outputs_s(m, c, inputs, modes).len() == inputs.len(),
        forall|i: int|
            0 <= i < inputs.len() ==> -FX_ONE <= #[trigger] outputs_s(m, c, inputs, modes)[i]
                <= FX_ONE,
    decreases inputs.len(),
{
    if inputs.len() > 0 {
        let next = step_s(m, c, inputs[0], modes[0]).state;
        let rest_in = inputs.subrange(1, inputs.len() as int);
        let rest_md = modes.subrange(1, modes.len() as int);
        lemma_step_preserves_wf(m, c, inputs[0], modes[0]);
        lemma_stability(next, c, rest_in, rest_md);
        assert forall|i: int| 0 <= i < inputs.len() implies -FX_ONE <= #[trigger] outputs_s(
            m,
            c,
            inputs,
            modes,
        )[i] <= FX_ONE by {
            if i > 0 {
                assert(outputs_s(m, c, inputs, modes)[i] == outputs_s(next, c, rest_in, rest_md)[
                    i - 1]);
            }
        }
    }
}

/// Processing the zero sample in the zero state gives back the zero state
/// and the zero output, in either topology.
pub proof fn lemma_step_zero(c: Coefficients, four_pole: bool)
    ensures
        step_s(zero_model(), c, 0, four_pole).state == zero_model(),
        step_s(zero_model(), c, 0, four_pole).output == 0,
{
    lemma_fx_mul_s_zero(c.drive_gain as int);
    lemma_fx_mul_s_zero(4 * c.resonance_gain as int);
    lemma_fx_mul_s_zero(VT_REC_Q24 as int);
    lemma_fx_mul_s_zero(c.stage_gain as int);
    lemma_fx_mul_s_zero(c.output_gain as int);
    lemma_sat_s_zero();
}

/// Idempotent reset: from the zero state that `reset` (or a fresh
/// construction) establishes, an all-zero input sequence produces all-zero
/// output and leaves the state at zero, whatever the topology choices.
pub proof fn lemma_silence_after_reset(c: Coefficients, inputs: Seq<int>, modes: Seq<bool>)
    requires
        inputs.len() == modes.len(),
        forall|i: int| 0 <= i < inputs.len() ==> #[trigger] inputs[i] == 0,
    ensures
        run_s(zero_model(), c, inputs, modes) == zero_model(),
        outputs_s(zero_model(), c, inputs, modes).len() == inputs.len(),
        forall|i: int|
            0 <= i < inputs.len() ==> #[trigger] outputs_s(zero_model(), c, inputs, modes)[i]
                == 0,
    decreases inputs.len(),
{
    if inputs.len() > 0 {
        let rest_in = inputs.subrange(1, inputs.len() as int);
        let rest_md = modes.subrange(1, modes.len() as int);
        lemma_step_zero(c, modes[0]);
        lemma_silence_after_reset(c, rest_in, rest_md);
        assert forall|i: int| 0 <= i < inputs.len() implies #[trigger] outputs_s(
            zero_model(),
            c,
            inputs,
            modes,
        )[i] == 0 by {
            if i > 0 {
                assert(outputs_s(zero_model(), c, inputs, modes)[i] == outputs_s(
                    zero_model(),
                    c,
                    rest_in,
                    rest_md,
                )[i - 1]);
            }
        }
    }
}

/// A steady state persists: once a constant input maps the state to itself,
/// holding that input holds the state and the output constant.  This is the
/// equilibrium half of the DC-response property; reaching the equilibrium is
/// a convergence fact checked by test.
pub proof fn lemma_steady_state_persists(
    m: LadderModel,
    c: Coefficients,
    input: int,
    four_pole: bool,
    inputs: Seq<int>,
    modes: Seq<bool>,
)
    requires
        step_s(m, c, input, four_pole).state == m,
        inputs.len() == modes.len(),
        forall|i: int| 0 <= i < inputs.len() ==> #[trigger] inputs[i] == input,
        forall|i: int| 0 <= i < modes.len() ==> #[trigger] modes[i] == four_pole,
    ensures
        run_s(m, c, inputs, modes) == m,
        outputs_s(m, c, inputs, modes).len() == inputs.len(),
        forall|i: int|
            0 <= i < inputs.len() ==> #[trigger] outputs_s(m, c, inputs, modes)[i] == step_s(
                m,
                c,
                input,
                four_pole,
            ).output,
    decreases inputs.len(),
{
    if inputs.len() > 0 {
        let rest_in = inputs.subrange(1, inputs.len() as int);
        let rest_md = modes.subrange(1, modes.len() as int);
        lemma_steady_state_persists(m, c, input, four_pole, rest_in, rest_md);
        assert forall|i: int| 0 <= i < inputs.len() implies #[trigger] outputs_s(
            m,
            c,
            inputs,
            modes,
        )[i] == step_s(m, c, input, four_pole).output by {
            if i > 0 {
                assert(outputs_s(m, c, inputs, modes)[i] == outputs_s(m, c, rest_in, rest_md)[
                    i - 1]);
            }
        }
    }
}

/// The DC-response shape of a steady state: with no resonance, a 4-pole
/// state that a constant input maps to itself carries the drive-saturated
/// input through the whole cascade.  Each stage's saturated value agrees
/// with its upstream saturated value to within the integrator's quantization
/// step: one raw unit per `stage_gain`.  Reaching such a state is a
/// convergence fact checked by test; the output at the state is pinned by
/// `step4_s` itself.
pub proof fn lemma_dc_fixed_point_tracks_input(m: LadderModel, c: Coefficients, input: int)
    requires
        c.resonance_gain == 0,
        1 <= c.stage_gain,
        step4_s(m, c, input).state == m,
    ensures
        c.stage_gain * abs_s(sat_s(drive_input_s(c, input)) - m.sat0) < FX_ONE,
        c.stage_gain * abs_s(m.sat0 - m.sat1) < FX_ONE,
        c.stage_gain * abs_s(m.sat1 - m.sat2) < FX_ONE,
        c.stage_gain * abs_s(m.sat2 - stage_sat_s(m.stage3)) < FX_ONE,
{
    let gain = c.stage_gain as int;
    let x = drive_input_s(c, input);
    lemma_fx_mul_s_zero(m.stage3);
    lemma_fx_mul_s_zero(VT_REC_Q24 as int);
    assert(feedback_s(c, m.stage3) == 0);
    let t1 = sat_s(x - 0);
    assert(step4_s(m, c, input).state.stage0 == m.stage0);
    lemma_fx_mul_s_zero_converse(gain, t1 - m.sat0);
    assert(step4_s(m, c, input).state.sat0 == m.sat0);
    lemma_fx_mul_s_zero_converse(gain, m.sat0 - m.sat1);
    lemma_fx_mul_s_zero_converse(gain, m.sat1 - m.sat2);
    lemma_fx_mul_s_zero_converse(gain, m.sat2 - stage_sat_s(m.stage3));
}

/// Every component of the state is non-negative.
pub open spec fn nonneg_model(m: LadderModel) -> bool {
    &&& 0 <= m.stage0
    &&& 0 <= m.stage1
    &&& 0 <= m.stage2
    &&& 0 <= m.stage3
    &&& 0 <= m.sat0
    &&& 0 <= m.sat1
    &&& 0 <= m.sat2
}

/// A stage output never undershoots zero: with a non-negative upstream value
/// and a live cached tap, the integrator subtracts at most the saturated,
/// thermal-voltage-rescaled image of the stage output itself, which never
/// exceeds the output.
pub proof fn lemma_stage_nonneg(stage: int, upstream: int, gain: int)
    requires
        0 <= stage,
        0 <= upstream,
        0 <= gain <= TWO_VT_Q24,
    ensures
        0 <= stage + fx_mul_s(gain, upstream - stage_sat_s(stage)),
{
    let one = FX_ONE as int;
    let vt = VT_REC_Q24 as int;
    let u = fx_mul_s(stage, vt);
    lemma_fx_mul_s_sign(stage, vt);
    let w = sat_s(u);
    lemma_sat_s_le_id(u);
    lemma_sat_s_bounds(u);
    vstd::arithmetic::div_mod::lemma_fundamental_div_mod(stage * vt, one);
    vstd::arithmetic::div_mod::lemma_mod_division_less_than_divisor(stage * vt, one);
    // gain * w <= 2 Vt * (stage / 2 Vt) <= stage, scaled by one:
    // the constant product 2 Vt * (1 / 2 Vt) rounds below one squared.
    assert((gain * w) * one <= (stage * one) * one) by (nonlinear_arith)
        requires
            0 <= gain <= TWO_VT_Q24,
            0 <= w <= u,
            one * u <= stage * vt,
            0 <= stage,
            vt == 322638769,
            one == 16777216,
            TWO_VT_Q24 == 872415;
    assert(gain * w <= stage * one) by (nonlinear_arith)
        requires
            (gain * w) * one <= (stage * one) * one,
            one > 0;
    vstd::arithmetic::div_mod::lemma_div_is_ordered(gain * w, stage * one, one);
    vstd::arithmetic::div_mod::lemma_div_multiples_vanish(stage, one);
    assert(stage * one == one * stage) by (nonlinear_arith);
    lemma_fx_mul_s_sign(gain, w);
    assert(fx_mul_s(gain, w) <= stage);
    lemma_fx_mul_s_mono_signed(gain, -w, upstream - w);
    lemma_fx_mul_s_comm(gain, -w);
    lemma_fx_mul_s_odd(w, gain);
    lemma_fx_mul_s_comm(w, gain);
    assert(fx_mul_s(gain, -w) == -fx_mul_s(gain, w));
}

/// With no resonance, one 4-pole step maps a non-negative, fully linked
/// state and a non-negative input to the same kind of state and a
/// non-negative output.
pub proof fn lemma_step4_keeps_nonneg(m: LadderModel, c: Coefficients, input: int)
    requires
        c.wf(),
        c.resonance_gain == 0,
        0 <= input,
        nonneg_model(m),
        linked_s(m.stage0, m.sat0),
        linked_s(m.stage1, m.sat1),
        linked_s(m.stage2, m.sat2),
    ensures
        nonneg_model(step4_s(m, c, input).state),
        linked_s(step4_s(m, c, input).state.stage0, step4_s(m, c, input).state.sat0),
        linked_s(step4_s(m, c, input).state.stage1, step4_s(m, c, input).state.sat1),
        linked_s(step4_s(m, c, input).state.stage2, step4_s(m, c, input).state.sat2),
        0 <= step4_s(m, c, input).output,
{
    let gain = c.stage_gain as int;
    let vt = VT_REC_Q24 as int;
    lemma_fx_mul_s_sign(input, c.drive_gain as int);
    let x = drive_input_s(c, input);
    lemma_sat_s_bounds(fx_mul_s(input, c.drive_gain as int));
    lemma_fx_mul_s_zero(m.stage3);
    lemma_fx_mul_s_zero(vt);
    assert(feedback_s(c, m.stage3) == 0);
    let t1 = sat_s(x - 0);
    lemma_sat_s_bounds(x);
    lemma_stage_nonneg(m.stage0, t1, gain);
    let s0 = m.stage0 + fx_mul_s(gain, t1 - m.sat0);
    lemma_fx_mul_s_sign(s0, vt);
    lemma_sat_s_bounds(fx_mul_s(s0, vt));
    let w0 = stage_sat_s(s0);
    lemma_stage_nonneg(m.stage1, w0, gain);
    let s1 = m.stage1 + fx_mul_s(gain, w0 - m.sat1);
    lemma_fx_mul_s_sign(s1, vt);
    lemma_sat_s_bounds(fx_mul_s(s1, vt));
    let w1 = stage_sat_s(s1);
    lemma_stage_nonneg(m.stage2, w1, gain);
    let s2 = m.stage2 + fx_mul_s(gain, w1 - m.sat2);
    lemma_fx_mul_s_sign(s2, vt);
    lemma_sat_s_bounds(fx_mul_s(s2, vt));
    let w2 = stage_sat_s(s2);
    lemma_stage_nonneg(m.stage3, w2, gain);
    let s3 = m.stage3 + fx_mul_s(gain, w2 - stage_sat_s(m.stage3));
    lemma_fx_mul_s_sign(c.output_gain as int, s3);
    lemma_fx_mul_s_sign(fx_mul_s(c.output_gain as int, s3), c.drive_gain as int);
    lemma_sat_s_bounds(fx_mul_s(fx_mul_s(c.output_gain as int, s3), c.drive_gain as int));
}

/// The sign-preservation half of the impulse-response property: with zero
/// resonance, a 4-pole run over non-negative input samples — an impulse
/// among them — started from the reset state (or any non-negative, fully
/// linked state) produces only non-negative outputs.  The cascade never
/// swings opposite to its input.
pub proof fn lemma_nonneg_signal_stays_nonneg(
    m: LadderModel,
    c: Coefficients,
    inputs: Seq<int>,
    modes: Seq<bool>,
)
    requires
        c.wf(),
        c.resonance_gain == 0,
        nonneg_model(m),
        linked_s(m.stage0, m.sat0),
        linked_s(m.stage1, m.sat1),
        linked_s(m.stage2, m.sat2),
        inputs.len() == modes.len(),
        forall|i: int| 0 <= i < inputs.len() ==> 0 <= #[trigger] inputs[i],
        forall|i: int| 0 <= i < modes.len() ==> #[trigger] modes[i] == true,
    ensures
        nonneg_model(run_s(m, c, inputs, modes)),
        outputs_s(m, c, inputs, modes).len() == inputs.len(),
        forall|i: int|
            0 <= i < inputs.len() ==> 0 <= #[trigger] outputs_s(m, c, inputs, modes)[i],
    decreases inputs.len(),
{
    if inputs.len() > 0 {
        let next = step_s(m, c, inputs[0], modes[0]).state;
        let rest_in = inputs.subrange(1, inputs.len() as int);
        let rest_md = modes.subrange(1, modes.len() as int);
        lemma_step4_keeps_nonneg(m, c, inputs[0]);
        lemma_nonneg_signal_stays_nonneg(next, c, rest_in, rest_md);
        assert forall|i: int| 0 <= i < inputs.len() implies 0 <= #[trigger] outputs_s(
            m,
            c,
            inputs,
            modes,
        )[i] by {
            if i > 0 {
                assert(outputs_s(m, c, inputs, modes)[i] == outputs_s(next, c, rest_in, rest_md)[
                    i - 1]);
            }
        }
    }
}

/// One 2-pole step reads nothing but the first two stage outputs and the
/// first cached tap, and writes nothing else.
pub proof fn lemma_two_pole_step_isolation(
    m1: LadderModel,
    m2: LadderModel,
    c: Coefficients,
    input: int,
)
    requires
        m1.stage0 == m2.stage0,
        m1.stage1 == m2.stage1,
        m1.sat0 == m2.sat0,
    ensures
        step2_s(m1, c, input).output == step2_s(m2, c, input).output,
        step2_s(m1, c, input).state.stage0 == step2_s(m2, c, input).state.stage0,
        step2_s(m1, c, input).state.stage1 == step2_s(m2, c, input).state.stage1,
        step2_s(m1, c, input).state.sat0 == step2_s(m2, c, input).state.sat0,
        step2_s(m1, c, input).state.stage2 == m1.stage2,
        step2_s(m1, c, input).state.stage3 == m1.stage3,
        step2_s(m1, c, input).state.sat1 == m1.sat1,
        step2_s(m1, c, input).state.sat2 == m1.sat2,
{
}

/// Topology isolation: in 2-pole mode the output sequence is bit-identical
/// whatever values occupy the 3rd and 4th stage outputs and their cached
/// taps, and those values are never written.
pub proof fn lemma_two_pole_isolation(
    m1: LadderModel,
    m2: LadderModel,
    c: Coefficients,
    inputs: Seq<int>,
    modes: Seq<bool>,
)
    requires
        m1.stage0 == m2.stage0,
        m1.stage1 == m2.stage1,
        m1.sat0 == m2.sat0,
        inputs.len() == modes.len(),
        forall|i: int| 0 <= i < modes.len() ==> #[trigger] modes[i] == false,
    ensures
        outputs_s(m1, c, inputs, modes) == outputs_s(m2, c, inputs, modes),
        run_s(m1, c, inputs, modes).stage2 == m1.stage2,
        run_s(m1, c, inputs, modes).stage3 == m1.stage3,
        run_s(m1, c, inputs, modes).sat1 == m1.sat1,
        run_s(m1, c, inputs, modes).sat2 == m1.sat2,
    decreases inputs.len(),
{
    if inputs.len() > 0 {
        let rest_in = inputs.subrange(1, inputs.len() as int);
        let rest_md = modes.subrange(1, modes.len() as int);
        lemma_two_pole_step_isolation(m1, m2, c, inputs[0]);
        lemma_two_pole_isolation(
            step_s(m1, c, inputs[0], false).state,
            step_s(m2, c, inputs[0], false).state,
            c,
            rest_in,
            rest_md,
        );
    }
}

/// More resonance means at least as much feedback: with all other gains
/// equal, a larger resonance gain never shrinks the magnitude of the
/// feedback term, whatever the tap value.
pub proof fn lemma_feedback_monotone(c1: Coefficients, c2: Coefficients, tap: int)
    requires
        0 <= c1.resonance_gain <= c2.resonance_gain,
    ensures
        abs_s(feedback_s(c1, tap)) <= abs_s(feedback_s(c2, tap)),
{
    let vt = VT_REC_Q24 as int;
    if tap >= 0 {
        lemma_fx_mul_s_sign(4 * c1.resonance_gain as int, tap);
        lemma_fx_mul_s_sign(4 * c2.resonance_gain as int, tap);
        lemma_fx_mul_s_mono(4 * c1.resonance_gain as int, 4 * c2.resonance_gain as int, tap);
        lemma_fx_mul_s_sign(fx_mul_s(4 * c1.resonance_gain as int, tap), vt);
        lemma_fx_mul_s_sign(fx_mul_s(4 * c2.resonance_gain as int, tap), vt);
        lemma_fx_mul_s_mono(
            fx_mul_s(4 * c1.resonance_gain as int, tap),
            fx_mul_s(4 * c2.resonance_gain as int, tap),
            vt,
        );
    } else {
        lemma_flip_tap(c1, tap);
        lemma_flip_tap(c2, tap);
        lemma_feedback_monotone_nonneg(c1, c2, -tap);
    }
}

/// Flipping the tap's sign flips the feedback term's sign.
proof fn lemma_flip_tap(c: Coefficients, tap: int)
    ensures
        feedback_s(c, tap) == -feedback_s(c, -tap),
{
    let r4 = 4 * c.resonance_gain as int;
    let vt = VT_REC_Q24 as int;
    lemma_fx_mul_s_comm(r4, tap);
    lemma_fx_mul_s_odd(-tap, r4);
    lemma_fx_mul_s_comm(-tap, r4);
    lemma_fx_mul_s_odd(fx_mul_s(r4, -tap), vt);
}

/// The non-negative-tap core of `lemma_feedback_monotone`.
proof fn lemma_feedback_monotone_nonneg(c1: Coefficients, c2: Coefficients, tap: int)
    requires
        0 <= c1.resonance_gain <= c2.resonance_gain,
        0 <= tap,
    ensures
        0 <= feedback_s(c1, tap) <= feedback_s(c2, tap),
{
    let vt = VT_REC_Q24 as int;
    lemma_fx_mul_s_sign(4 * c1.resonance_gain as int, tap);
    lemma_fx_mul_s_sign(4 * c2.resonance_gain as int, tap);
    lemma_fx_mul_s_mono(4 * c1.resonance_gain as int, 4 * c2.resonance_gain as int, tap);
    lemma_fx_mul_s_sign(fx_mul_s(4 * c1.resonance_gain as int, tap), vt);
    lemma_fx_mul_s_sign(fx_mul_s(4 * c2.resonance_gain as int, tap), vt);
    lemma_fx_mul_s_mono(
        fx_mul_s(4 * c1.resonance_gain as int, tap),
        fx_mul_s(4 * c2.resonance_gain as int, tap),
        vt,
    );
}

/// The per-channel recursive filter state: four stage outputs and three
/// cached saturated taps, all Q24.  In 2-pole mode only `stage0`, `stage1`
/// and `sat0` are read or written.
#[derive(Clone, Copy, Debug, PartialEq, Eq, Structural)]
pub struct FilterState {
    pub stage0: i64,
    pub stage1: i64,
    pub stage2: i64,
    pub stage3: i64,
    pub sat0: i64,
    pub sat1: i64,
    pub sat2: i64,
}

impl View for FilterState {
    type V = LadderModel;

    open spec fn view(&self) -> LadderModel {
        LadderModel {
            stage0: self.stage0 as int,
            stage1: self.stage1 as int,
            stage2: self.stage2 as int,
            stage3: self.stage3 as int,
            sat0: self.sat0 as int,
            sat1: self.sat1 as int,
            sat2: self.sat2 as int,
        }
    }
}

impl FilterState {
    /// Well-formedness: established at construction and by `reset`, and
    /// preserved by `process_sample`.
    pub open spec fn wf(self) -> bool {
        wf_model(self@)
    }

    /// A fresh, zero-initialized filter state.
    pub fn new() -> (s: FilterState)
        ensures
            s@ == zero_model(),
            s.wf(),
    {
        proof {
            lemma_zero_wf();
        }
        FilterState { stage0: 0, stage1: 0, stage2: 0, stage3: 0, sat0: 0, sat1: 0, sat2: 0 }
    }

    /// Zeroes all state, exactly as a freshly constructed instance.
    pub fn reset(&mut self)
        ensures
            final(self)@ == zero_model(),
            final(self).wf(),
    {
        proof {
            lemma_zero_wf();
        }
        self.stage0 = 0;
        self.stage1 = 0;
        self.stage2 = 0;
        self.stage3 = 0;
        self.sat0 = 0;
        self.sat1 = 0;
        self.sat2 = 0;
    }

    /// Advances the state by one sample and returns the filtered sample.
    /// The state changes exactly as the model step says, stays well formed,
    /// and the output is bounded by unity.
    pub fn process_sample(&mut self, c: &Coefficients, input: i64, four_pole: bool) -> (out: i64)
        requires
            old(self).wf(),
            c.wf(),
            -INPUT_MAX_Q24 <= input <= INPUT_MAX_Q24,
        ensures
            final(self)@ == step_s(old(self)@, *c, input as int, four_pole).state,
            out == step_s(old(self)@, *c, input as int, four_pole).output,
            final(self).wf(),
            -FX_ONE <= out <= FX_ONE,
    {
        proof {
            lemma_step_preserves_wf(old(self)@, *c, input as int, four_pole);
        }
        let xd = fx_mul(input, c.drive_gain);
        proof {
            lemma_fx_mul_s_abs_le(
                input as int,
                c.drive_gain as int,
                INPUT_MAX_Q24 as int,
                15 * FX_ONE as int,
                17179869184,
            );
        }
        let x = saturate(xd);
        let resonance4 = 4 * c.resonance_gain;
        let tap = if four_pole {
            self.stage3
        } else {
            self.stage1
        };
        let fa = fx_mul(resonance4, tap);
        proof {
            lemma_fx_mul_s_abs_le(
                resonance4 as int,
                tap as int,
                16 * FX_ONE as int,
                STAGE_MAX_Q24 as int,
                16 * STAGE_MAX_Q24 as int,
            );
        }
        let fb = fx_mul(fa, VT_REC_Q24);
        proof {
            lemma_fx_mul_s_abs_le(
                fa as int,
                VT_REC_Q24 as int,
                16 * STAGE_MAX_Q24 as int,
                VT_REC_Q24 as int,
                2147483648,
            );
        }
        let t1 = saturate(x - fb);
        let inc0 = fx_mul(c.stage_gain, t1 - self.sat0);
        proof {
            lemma_step_size(c.stage_gain as int, t1 as int, self.sat0 as int);
        }
        let s0 = self.stage0 + inc0;
        let w0 = saturate_stage(s0);
        let out: i64;
        if four_pole {
            let inc1 = fx_mul(c.stage_gain, w0 - self.sat1);
            proof {
                lemma_step_size(c.stage_gain as int, w0 as int, self.sat1 as int);
            }
            let s1 = self.stage1 + inc1;
            let w1 = saturate_stage(s1);
            let inc2 = fx_mul(c.stage_gain, w1 - self.sat2);
            proof {
                lemma_step_size(c.stage_gain as int, w1 as int, self.sat2 as int);
            }
            let s2 = self.stage2 + inc2;
            let w2 = saturate_stage(s2);
            let own3 = saturate_stage(self.stage3);
            let inc3 = fx_mul(c.stage_gain, w2 - own3);
            proof {
                lemma_step_size(c.stage_gain as int, w2 as int, own3 as int);
            }
            let s3 = self.stage3 + inc3;
            let oa = fx_mul(c.output_gain, s3);
            proof {
                lemma_fx_mul_s_abs_le(
                    c.output_gain as int,
                    s3 as int,
                    15 * FX_ONE as int,
                    (STAGE_MAX_Q24 + MAX_STEP_Q24) as int,
                    15 * (STAGE_MAX_Q24 + MAX_STEP_Q24) as int,
                );
            }
            let ob = fx_mul(oa, c.drive_gain);
            proof {
                lemma_fx_mul_s_abs_le(
                    oa as int,
                    c.drive_gain as int,
                    15 * (STAGE_MAX_Q24 + MAX_STEP_Q24) as int,
                    15 * FX_ONE as int,
                    1766640600,
                );
            }
            out = saturate(ob);
            self.stage0 = s0;
            self.stage1 = s1;
            self.stage2 = s2;
            self.stage3 = s3;
            self.sat0 = w0;
            self.sat1 = w1;
            self.sat2 = w2;
        } else {
            let own1 = saturate_stage(self.stage1);
            let inc1 = fx_mul(c.stage_gain, w0 - own1);
            proof {
                lemma_step_size(c.stage_gain as int, w0 as int, own1 as int);
            }
            let s1 = self.stage1 + inc1;
            let oa = fx_mul(c.output_gain, s1);
            proof {
                lemma_fx_mul_s_abs_le(
                    c.output_gain as int,
                    s1 as int,
                    15 * FX_ONE as int,
                    (STAGE_MAX_Q24 + MAX_STEP_Q24) as int,
                    15 * (STAGE_MAX_Q24 + MAX_STEP_Q24) as int,
                );
            }
            let ob = fx_mul(oa, c.drive_gain);
            proof {
                lemma_fx_mul_s_abs_le(
                    oa as int,
                    c.drive_gain as int,
                    15 * (STAGE_MAX_Q24 + MAX_STEP_Q24) as int,
                    15 * FX_ONE as int,
                    1766640600,
                );
            }
            out = saturate(ob);
            self.stage0 = s0;
            self.stage1 = s1;
            self.sat0 = w0;
        }
        out
    }
}

/// Saturates a stage output normalized by the thermal voltage: the cached
/// tap `stage_sat_s` of a bounded stage output.
fn saturate_stage(v: i64) -> (r: i64)
    requires
        -(STAGE_MAX_Q24 + MAX_STEP_Q24) <= v <= STAGE_MAX_Q24 + MAX_STEP_Q24,
    ensures
        r == stage_sat_s(v as int),
        -FX_ONE <= r <= FX_ONE,
{
    let nv = fx_mul(v, VT_REC_Q24);
    proof {
        lemma_fx_mul_s_abs_le(
            v as int,
            VT_REC_Q24 as int,
            (STAGE_MAX_Q24 + MAX_STEP_Q24) as int,
            VT_REC_Q24 as int,
            268435456,
        );
    }
    saturate(nv)
}

} // verus!
