//! The Q16.16 fixed-point carrier for decoded box data.
//!
//! The accelerator emits signed Q8.8 samples: a raw `i16` denotes the
//! real number `raw / 256`.  All decoded coordinates and confidences are
//! carried as Q16.16 integers, where a stored `i64` value `v` denotes
//! `v / 65536`; every Q8.8 sample is exactly representable there.

use vstd::prelude::*;

verus! {

/// The Q16.16 representation of the real number one.
pub const Q16_ONE: i64 = 65536;

/// The Q16.16 integer denoting the same real number as the Q8.8 sample
/// `raw`: `raw / 256 == (raw * 256) / 65536`.
pub open spec fn fix_to_q16_spec(raw: i16) -> int {
    raw * 256
}

/// Widens a raw Q8.8 accelerator sample into the Q16.16 carrier.
pub fn fix_to_q16(raw: i16) -> (r: i64)
    ensures
        r == fix_to_q16_spec(raw),
{
    raw as i64 * 256
}

/// The widening is linear and odd: it scales by the constant 256, so it
/// negates with its argument, carries the Q8.8 unit (256, the real
/// number one) to the Q16.16 unit, and fixes zero.
pub proof fn lemma_fix_to_q16_linear_odd(x: i16, y: i16)
    requires
        x != i16::MIN,
    ensures
        fix_to_q16_spec(x) == 256 * x,
        fix_to_q16_spec((-x) as i16) == -fix_to_q16_spec(x),
        x + y <= i16::MAX && i16::MIN <= x + y ==>
            fix_to_q16_spec((x + y) as i16) == fix_to_q16_spec(x) + fix_to_q16_spec(y),
        fix_to_q16_spec(256) == 65536,
        fix_to_q16_spec(0) == 0,
{
}

} // verus!
