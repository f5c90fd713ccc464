//! Timestamps and the internal time base.
use vstd::prelude::*;

use crate::common::rational::Rational;

verus! {

/// The timestamp that is not known.
pub const NOPTS_VALUE: i64 = i64::MIN;

/// Units of the internal time base in a second.
pub const TIME_BASE: i32 = 1_000_000;

/// The internal time base.
pub fn time_base_q() -> (r: Rational)
    ensures
        r.num == 1,
        r.den == TIME_BASE,
{
    Rational { num: 1, den: TIME_BASE }
}

} // verus!
