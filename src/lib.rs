//! Integer and structural core of a reverb / lowpass audio effect: the delay-line
//! bank with its cursor discipline, the derivation of delay lengths from the
//! sample rate, the damping, feedback and mix coefficients with the stability
//! they give, and the framing policy of the spectral filter and its rolloff mask.
use vstd::prelude::*;

pub mod delay;
pub mod mixing;
pub mod spectral;

verus! {

/// Sum of two integers; the sum must fit a `u32`.
pub fn add(left: u32, right: u32) -> (r: u32)
    requires
        left + right <= u32::MAX,
    ensures
        r == left + right,
{
    left + right
}

} // verus!
