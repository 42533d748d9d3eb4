//! Framing policy and frequency mask of the block-transform lowpass filter.
//! Gains are exact fractions over `GAIN_DENOMINATOR`.
use vstd::prelude::*;

verus! {

/// Length of the transform frame, in samples.
pub const FFT_SIZE: usize = 2048;

/// Width of the rolloff band above the cutoff bin, in bins.
pub const TRANSITION_BINS: usize = 5;

/// Denominator of every bin gain: the fourth power of `TRANSITION_BINS`.
pub const GAIN_DENOMINATOR: u32 = 625;

pub open spec fn pow4(x: int) -> int {
    x * x * x * x
}

/// Gain of bin `i` for cutoff bin `c`, over `GAIN_DENOMINATOR`: unity at and
/// below the cutoff, `(1 - t)^4` with `t = (i - c) / 5` inside the transition
/// band, zero beyond it.
pub open spec fn rolloff_gain_spec(i: int, c: int) -> int {
    if i <= c {
        GAIN_DENOMINATOR as int
    } else if i - c < TRANSITION_BINS {
        pow4(TRANSITION_BINS - (i - c))
    } else {
        0
    }
}

/// A block is transformed when it holds at least one full frame; a shorter
/// block passes through unchanged.
pub open spec fn transform_applies(len: nat) -> bool {
    len >= FFT_SIZE
}

/// Gain of bin `i` for cutoff bin `cutoff_bin`, over `GAIN_DENOMINATOR`.
pub fn rolloff_gain(i: usize, cutoff_bin: usize) -> (r: u32)
    ensures
        r == rolloff_gain_spec(i as int, cutoff_bin as int),
        r <= GAIN_DENOMINATOR,
{
    if i <= cutoff_bin {
        GAIN_DENOMINATOR
    } else if i - cutoff_bin < TRANSITION_BINS {
        let k: u32 = (TRANSITION_BINS - (i - cutoff_bin)) as u32;
        assert(k * k <= 16) by (nonlinear_arith)
            requires 1 <= k <= 4;
        let k2: u32 = k * k;
        assert(k2 * k2 <= 256 && k2 * k2 == pow4(k as int)) by (nonlinear_arith)
            requires k2 == k * k, k2 <= 16;
        k2 * k2
    } else {
        0
    }
}

/// The gain of every bin of a frame for cutoff bin `cutoff_bin`.
pub fn rolloff_mask(cutoff_bin: usize) -> (r: Vec<u32>)
    ensures
        r@.len() == FFT_SIZE,
        forall|i: int| 0 <= i < FFT_SIZE ==> #[trigger] r@[i] == rolloff_gain_spec(i, cutoff_bin as int),
{
    let mut mask: Vec<u32> = Vec::new();
    let mut i: usize = 0;
    while i < FFT_SIZE
        invariant
            0 <= i <= FFT_SIZE,
            mask@.len() == i,
            forall|j: int| 0 <= j < i ==> #[trigger] mask@[j] == rolloff_gain_spec(j, cutoff_bin as int),
        decreases FFT_SIZE - i,
    {
        mask.push(rolloff_gain(i, cutoff_bin));
        i = i + 1;
    }
    mask
}

/// Copies to `output` every sample of `input` that the transform does not
/// cover, and says whether a frame is to be transformed. A block shorter than
/// a frame is copied whole; of a longer one, the samples after the first frame
/// are copied and the frame itself is left for the transform to fill.
pub fn route_frame<T: Copy>(input: &[T], output: &mut [T]) -> (transform: bool)
    requires
        old(output)@.len() == input@.len(),
    ensures
        transform == transform_applies(input@.len()),
        final(output)@.len() == input@.len(),
        !transform ==> final(output)@ == input@,
        transform ==> forall|k: int|
            FFT_SIZE <= k < input@.len() ==> #[trigger] final(output)@[k] == input@[k],
        transform ==> forall|k: int| 0 <= k < FFT_SIZE ==> #[trigger] final(output)@[k] == old(output)@[k],
{
    let transform = input.len() >= FFT_SIZE;
    let start: usize = if transform { FFT_SIZE } else { 0 };
    let mut k: usize = start;
    while k < input.len()
        invariant
            start <= k <= input@.len(),
            output@.len() == input@.len(),
            forall|j: int| start <= j < k ==> #[trigger] output@[j] == input@[j],
            forall|j: int| 0 <= j < start ==> #[trigger] output@[j] == old(output)@[j],
        decreases input@.len() - k,
    {
        output[k] = input[k];
        k = k + 1;
    }
    if !transform {
        assert(output@ =~= input@);
    }
    transform
}

} // verus!
