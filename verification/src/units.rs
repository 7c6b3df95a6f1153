//! Display units for swap sizes and the exact conversion from raw kilobytes.
//!
//! Raw samples arrive in kilobytes. A selected unit scales them for display:
//! kilobytes are shown exactly, megabytes and gigabytes as a fixed-point
//! value with two decimal places (hundredths of a unit, rounded half up).

use vstd::prelude::*;

verus! {

/// The display unit selected by the user.
#[derive(Debug, Clone, Copy, PartialEq, Eq, Structural)]
pub enum SizeUnits {
    KB,
    MB,
    GB,
}

impl SizeUnits {
    /// How many kilobytes one display unit holds.
    pub open spec fn spec_divisor(self) -> int {
        match self {
            SizeUnits::KB => 1,
            SizeUnits::MB => 1024,
            SizeUnits::GB => 1048576,
        }
    }

    /// Executable twin of [`Self::spec_divisor`].
    pub fn divisor(self) -> (d: u64)
        ensures
            d == self.spec_divisor(),
    {
        match self {
            SizeUnits::KB => 1,
            SizeUnits::MB => 1024,
            SizeUnits::GB => 1024 * 1024,
        }
    }
}

impl Default for SizeUnits {
    /// The native unit of the raw samples.
    fn default() -> (u: SizeUnits)
        ensures
            u == SizeUnits::KB,
    {
        SizeUnits::KB
    }
}

/// A swap size scaled to a display unit, held as an exact fixed-point
/// value: `whole` display units plus `hundredths` hundredths of one.
#[derive(Debug, Clone, Copy, PartialEq, Eq, Structural)]
pub struct SwapValue {
    pub whole: u64,
    pub hundredths: u64,
}

impl SwapValue {
    /// The value in hundredths of the display unit.
    pub open spec fn centi(self) -> int {
        100 * self.whole + self.hundredths
    }

    /// A well-formed value carries a fraction below one whole unit.
    pub open spec fn wf(self) -> bool {
        self.hundredths < 100
    }
}

/// `kb` kilobytes in hundredths of `unit`, rounded half up:
/// the unique integer nearest to `100 * kb / divisor` (upper value on ties).
pub open spec fn centi_value(kb: int, unit: SizeUnits) -> int {
    (100 * kb + unit.spec_divisor() / 2) / unit.spec_divisor()
}

/// Scale a raw kilobyte count to the selected display unit.
///
/// The result is the fixed-point value nearest to `kb / divisor`, and is
/// exact (no rounding) when the unit is kilobytes.
pub fn convert_swap(kb: u64, unit: SizeUnits) -> (v: SwapValue)
    ensures
        v.wf(),
        v.centi() == centi_value(kb as int, unit),
        unit == SizeUnits::KB ==> v.whole == kb && v.hundredths == 0,
{
    let d = unit.divisor();
    let whole = kb / d;
    let rem = kb % d;
    proof {
        lemma_split_centi(kb as int, d as int);
    }
    let frac = (rem * 100 + d / 2) / d;
    if frac == 100 {
        proof {
            assert(d >= 1024) by {
                if d == 1 {
                    assert(rem == 0);
                }
            }
            assert(whole * 1024 <= whole * (d as int)) by (nonlinear_arith)
                requires
                    1024 <= d,
                    0 <= whole,
            ;
            assert((whole as int) * (d as int) <= kb) by {
                broadcast use vstd::arithmetic::div_mod::lemma_fundamental_div_mod;

                assert((d as int) * ((kb as int) / (d as int)) <= kb);
                vstd::arithmetic::mul::lemma_mul_is_commutative(whole as int, d as int);
            }
        }
        SwapValue { whole: whole + 1, hundredths: 0 }
    } else {
        SwapValue { whole, hundredths: frac }
    }
}

/// The quotient `(100 kb + d/2) / d` splits into the whole kilobyte
/// quotient and the rounded fraction of the remainder, and that fraction
/// never exceeds one whole unit.
proof fn lemma_split_centi(kb: int, d: int)
    requires
        0 <= kb,
        0 < d,
    ensures
        (100 * kb + d / 2) / d == 100 * (kb / d) + (100 * (kb % d) + d / 2) / d,
        0 <= (100 * (kb % d) + d / 2) / d <= 100,
{
    let q = kb / d;
    let r = kb % d;
    let h = d / 2;
    assert(kb == d * q + r) by {
        vstd::arithmetic::div_mod::lemma_fundamental_div_mod(kb, d);
    }
    assert(100 * kb + h == (100 * r + h) + (100 * q) * d) by (nonlinear_arith)
        requires
            kb == d * q + r,
            h == d / 2,
    ;
    assert((100 * r + h) / d + 100 * q == ((100 * r + h) + (100 * q) * d) / d) by {
        vstd::arithmetic::div_mod::lemma_hoist_over_denominator(100 * r + h, 100 * q, d as nat);
    }
    assert(0 <= (100 * r + h) / d <= 100) by (nonlinear_arith)
        requires
            0 <= r < d,
            h == d / 2,
            0 < d,
    ;
}

/// Law: conversion rounds half up to the nearest hundredth of the unit —
/// the scaled value differs from the exact ratio `100 kb / divisor` by at
/// most half a hundredth — and the kilobyte unit is represented exactly.
pub proof fn lemma_convert_rounding(kb: int, unit: SizeUnits)
    requires
        0 <= kb,
    ensures
        unit.spec_divisor() * centi_value(kb, unit) <= 100 * kb + unit.spec_divisor() / 2,
        100 * kb + unit.spec_divisor() / 2 < unit.spec_divisor() * centi_value(kb, unit)
            + unit.spec_divisor(),
        centi_value(kb, SizeUnits::KB) == 100 * kb,
{
    let d = unit.spec_divisor();
    let x = 100 * kb + d / 2;
    assert(x == d * (x / d) + (x % d)) by {
        vstd::arithmetic::div_mod::lemma_fundamental_div_mod(x, d);
    }
}

/// Law: for a fixed unit the conversion is monotonic in the kilobyte count.
pub proof fn lemma_convert_monotonic(kb1: int, kb2: int, unit: SizeUnits)
    requires
        0 <= kb1 <= kb2,
    ensures
        centi_value(kb1, unit) <= centi_value(kb2, unit),
{
    let d = unit.spec_divisor();
    vstd::arithmetic::div_mod::lemma_div_is_ordered(100 * kb1 + d / 2, 100 * kb2 + d / 2, d);
}

} // verus!
