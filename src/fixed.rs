//! Fixed-point scales shared by the pipeline stages.
use vstd::prelude::*;

verus! {

/// Sample value of the display white point (1.0).
pub const UNIT: u32 = 65536;

/// Scale of white-balance and color-matrix coefficients (1.0).
pub const COEFF_ONE: u32 = 10000;

/// Clamps an integer into `[lo, hi]`.
pub open spec fn clamp_int(v: int, lo: int, hi: int) -> int {
    if v < lo {
        lo
    } else if v > hi {
        hi
    } else {
        v
    }
}

} // verus!
