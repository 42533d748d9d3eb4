//! Coefficients of the reverb's damping, feedback and output weighting, and of
//! the dry/wet mix, as exact fractions.
use crate::delay::NUM_DELAYS;
use vstd::prelude::*;

verus! {

/// Denominator of the feedback, damping and weight coefficients.
pub const COEFF_SCALE: u32 = 10;

/// Feedback of every line, over `COEFF_SCALE`.
pub const FEEDBACK_TENTHS: u32 = 7;

/// Lines below this index are early reflections; the rest are the main reverb.
pub const EARLY_LINES: usize = 4;

/// Denominator of the wet mix.
pub const WET_MIX_SCALE: u32 = 4;

/// One-pole damping coefficient of line `line`, over `COEFF_SCALE`: early
/// reflections are damped more than the main reverb.
pub open spec fn damping_spec(line: int) -> nat {
    if line < EARLY_LINES {
        3
    } else {
        8
    }
}

/// Output weight of line `line`, over `COEFF_SCALE`: the main reverb dominates.
pub open spec fn weight_spec(line: int) -> nat {
    if line < EARLY_LINES {
        3
    } else {
        7
    }
}

/// Damping coefficient of line `line`, over `COEFF_SCALE`.
pub fn damping_tenths(line: usize) -> (r: u32)
    requires
        line < NUM_DELAYS,
    ensures
        r == damping_spec(line as int),
{
    if line < EARLY_LINES {
        3
    } else {
        8
    }
}

/// Output weight of line `line`, over `COEFF_SCALE`.
pub fn weight_tenths(line: usize) -> (r: u32)
    requires
        line < NUM_DELAYS,
    ensures
        r == weight_spec(line as int),
{
    if line < EARLY_LINES {
        3
    } else {
        7
    }
}

/// Share of the wet signal in the output, over `WET_MIX_SCALE`: a quarter with
/// the reverb enabled, nothing without it.
pub fn wet_mix_quarters(reverb_enabled: bool) -> (r: u32)
    ensures
        r == (if reverb_enabled { 1u32 } else { 0u32 }),
        r <= WET_MIX_SCALE,
{
    if reverb_enabled {
        1
    } else {
        0
    }
}

/// The gain of every line's loop, feedback times damping, is below one, and
/// every coefficient lies in [0, 1].
pub proof fn lemma_loop_gain_below_unity(line: int)
    requires
        0 <= line < NUM_DELAYS,
    ensures
        FEEDBACK_TENTHS * damping_spec(line) < COEFF_SCALE * COEFF_SCALE,
        damping_spec(line) <= COEFF_SCALE,
        weight_spec(line) <= COEFF_SCALE,
        FEEDBACK_TENTHS < COEFF_SCALE,
{
}

pub open spec fn abs(x: int) -> int {
    if x < 0 {
        -x
    } else {
        x
    }
}

/// One sample of line `line` in exact arithmetic keeps the line bounded: with
/// its filter memory `f` and the sample `d` read from its buffer within `b`, and
/// the input `x` within `u`, where `3 * b >= 10 * u`, the new filter memory
/// `(c * f + (10 - c) * d) / 10` and the value written back,
/// `x + (7 / 10) * memory`, stay within `b`. Both are stated multiplied out:
/// the memory times `COEFF_SCALE`, the written value times its square.
pub proof fn lemma_line_stays_bounded(line: int, f: int, d: int, x: int, b: int, u: int)
    requires
        0 <= line < NUM_DELAYS,
        abs(f) <= b,
        abs(d) <= b,
        abs(x) <= u,
        3 * b >= 10 * u,
    ensures
        abs(damping_spec(line) * f + (COEFF_SCALE - damping_spec(line)) * d) <= COEFF_SCALE * b,
        abs(
            COEFF_SCALE * COEFF_SCALE * x + FEEDBACK_TENTHS * (damping_spec(line) * f + (
            COEFF_SCALE - damping_spec(line)) * d),
        ) <= COEFF_SCALE * COEFF_SCALE * b,
{
    let c = damping_spec(line) as int;
    assert(abs(c * f + (10 - c) * d) <= 10 * b) by (nonlinear_arith)
        requires
            0 <= c <= 10,
            -b <= f <= b,
            -b <= d <= b,
    ;
    let m = c * f + (10 - c) * d;
    assert(abs(100 * x + 7 * m) <= 100 * b) by (nonlinear_arith)
        requires
            -10 * b <= m <= 10 * b,
            -u <= x <= u,
            3 * b >= 10 * u,
    ;
}

/// The wet sample, the weighted sum of the eight filter memories, is within
/// four times their common bound `b`; stated times `COEFF_SCALE`.
pub proof fn lemma_wet_output_bounded(mem: Seq<int>, b: int)
    requires
        mem.len() == NUM_DELAYS,
        forall|l: int| 0 <= l < NUM_DELAYS ==> abs(#[trigger] mem[l]) <= b,
    ensures
        abs(weighted_sum(mem, NUM_DELAYS as int)) <= 4 * COEFF_SCALE * b,
{
    lemma_weighted_sum_bound(mem, NUM_DELAYS as int, b);
}

/// Sum of `weight_spec(l) * mem[l]` over the first `n` lines.
pub open spec fn weighted_sum(mem: Seq<int>, n: int) -> int
    decreases n,
{
    if n <= 0 {
        0
    } else {
        weighted_sum(mem, n - 1) + weight_spec(n - 1) * mem[n - 1]
    }
}

/// Sum of the first `n` line weights.
pub open spec fn weight_total(n: int) -> int
    decreases n,
{
    if n <= 0 {
        0
    } else {
        weight_total(n - 1) + weight_spec(n - 1)
    }
}

proof fn lemma_weighted_sum_bound(mem: Seq<int>, n: int, b: int)
    requires
        0 <= n <= mem.len(),
        forall|l: int| 0 <= l < mem.len() ==> abs(#[trigger] mem[l]) <= b,
    ensures
        abs(weighted_sum(mem, n)) <= weight_total(n) * b,
        n == NUM_DELAYS ==> weight_total(n) == 4 * COEFF_SCALE,
    decreases n,
{
    if n > 0 {
        lemma_weighted_sum_bound(mem, n - 1, b);
        let w = weight_spec(n - 1) as int;
        let y = mem[n - 1];
        let s0 = weighted_sum(mem, n - 1);
        let t0 = weight_total(n - 1);
        assert(abs(s0 + w * y) <= (t0 + w) * b) by (nonlinear_arith)
            requires
                -(t0 * b) <= s0 <= t0 * b,
                -b <= y <= b,
                0 <= w,
        ;
    }
    if n == NUM_DELAYS {
        reveal_with_fuel(weight_total, 9);
    }
}

} // verus!
