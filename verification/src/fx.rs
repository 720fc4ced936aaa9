//! Fixed-point scalar helpers.
//!
//! A scalar is an `i64` counting millionths: raw value `r` stands for the
//! real number `r / 1_000_000`. Constants appearing in expressions are kept
//! within `CONST_RAW_LIMIT` so that sums of two of them always fit in `i64`.

use vstd::prelude::*;

verus! {

/// Scale of the fixed-point representation: raw value 1_000_000 stands for 1.
pub const FX_SCALE: i64 = 1_000_000;

/// Raw value standing for 1.0.
pub const FX_ONE: i64 = 1_000_000;

/// Largest magnitude (in raw millionths) a constant in an expression may have.
pub const CONST_RAW_LIMIT: i64 = 1_000_000_000_000_000;

/// Lower bound of the parameter value domain (raw): stands for -5.0.
pub const PARAM_RAW_MIN: i64 = -5_000_000;

/// Upper bound of the parameter value domain (raw): stands for 5.0.
pub const PARAM_RAW_MAX: i64 = 5_000_000;

/// Largest magnitude (raw) the parameter domain bounds may take; keeps the
/// fit engine's probe arithmetic far from `i64` overflow.
pub const RAW_DOMAIN_LIMIT: i64 = 1_000_000_000_000;

/// Largest step size (raw) the fit engine works with.
pub const STEP_LIMIT: i64 = 1_000_000_000_000;

/// True of a raw constant value an expression tree may hold.
pub open spec fn const_in_range(raw: i64) -> bool {
    -CONST_RAW_LIMIT <= raw <= CONST_RAW_LIMIT
}

/// Clamp a mathematical integer into `[lo, hi]`.
pub open spec fn clamp_int(v: int, lo: int, hi: int) -> int {
    if v < lo {
        lo
    } else if v > hi {
        hi
    } else {
        v
    }
}

} // verus!
