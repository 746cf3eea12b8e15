//! Unit conversion between canonical lengths and display values.
//!
//! A canonical length is a whole number of nanometres. A display value is a
//! whole number of display steps of a unit, where one step is the smallest
//! increment the unit is shown with (a thousandth of a millimetre, a
//! hundredth of a mil, ...). Keeping both sides integral means that repeated
//! conversions never drift.

use vstd::arithmetic::div_mod::{
    lemma_fundamental_div_mod, lemma_fundamental_div_mod_converse, lemma_mod_pos_bound,
};
use vstd::prelude::*;

verus! {

/// Nanometres in one millimetre.
pub const NM_PER_MM: i64 = 1_000_000;

/// Nanometres in one mil (a thousandth of an inch).
pub const NM_PER_MIL: i64 = 25_400;

/// Nanometres in one micrometre.
pub const NM_PER_UM: i64 = 1_000;

/// Length unit shown to the user.
#[derive(Clone, Copy, Debug, PartialEq, Eq, Structural)]
pub enum DisplayUnit {
    Millimeters,
    Mils,
    Micrometers,
    Nanometers,
}

/// `v` limited to the range of a canonical length.
pub open spec fn clamp_i64(v: int) -> int {
    if v < i64::MIN {
        i64::MIN as int
    } else if v > i64::MAX {
        i64::MAX as int
    } else {
        v
    }
}

/// `v / s` rounded to the nearest integer, halves away from zero.
pub open spec fn round_div(v: int, s: int) -> int
    recommends
        s > 0,
{
    if v >= 0 {
        (2 * v + s) / (2 * s)
    } else {
        -((2 * (-v) + s) / (2 * s))
    }
}

/// The canonical length of `value` display steps of `unit`, limited to the
/// canonical range.
pub open spec fn spec_to_canonical(value: int, unit: DisplayUnit) -> int {
    clamp_i64(value * unit.step())
}

/// The display value nearest to the canonical length `nm`.
pub open spec fn spec_from_canonical(nm: int, unit: DisplayUnit) -> int {
    round_div(nm, unit.step())
}

impl DisplayUnit {
    /// Nanometres in one display step of this unit.
    pub open spec fn step(self) -> int {
        match self {
            DisplayUnit::Millimeters => 1000,
            DisplayUnit::Mils => 254,
            DisplayUnit::Micrometers => 10,
            DisplayUnit::Nanometers => 1,
        }
    }

    /// Display steps in one whole unit.
    pub open spec fn steps_per_unit(self) -> int {
        match self {
            DisplayUnit::Millimeters => 1000,
            DisplayUnit::Mils => 100,
            DisplayUnit::Micrometers => 100,
            DisplayUnit::Nanometers => 1,
        }
    }

    /// Nanometres in one display step: a thousandth of a millimetre, a
    /// hundredth of a mil, a hundredth of a micrometre, or one nanometre.
    pub fn step_nm(self) -> (s: i64)
        ensures
            s == self.step(),
    {
        match self {
            DisplayUnit::Millimeters => 1000,
            DisplayUnit::Mils => 254,
            DisplayUnit::Micrometers => 10,
            DisplayUnit::Nanometers => 1,
        }
    }

    /// Display steps that make up one whole unit, for placing the decimal
    /// point when a display value is printed.
    pub fn display_steps_per_unit(self) -> (n: i64)
        ensures
            n == self.steps_per_unit(),
    {
        match self {
            DisplayUnit::Millimeters => 1000,
            DisplayUnit::Mils => 100,
            DisplayUnit::Micrometers => 100,
            DisplayUnit::Nanometers => 1,
        }
    }

    /// Whether the unit is the imperial one.
    pub fn is_mils(self) -> (b: bool)
        ensures
            b == (self == DisplayUnit::Mils),
    {
        match self {
            DisplayUnit::Mils => true,
            _ => false,
        }
    }
}

/// One whole unit is a whole number of steps, and the steps of one unit add
/// up to its length in nanometres.
pub proof fn lemma_steps_fill_unit(unit: DisplayUnit)
    ensures
        unit.step() >= 1,
        unit.steps_per_unit() >= 1,
        unit == DisplayUnit::Millimeters ==> unit.step() * unit.steps_per_unit() == NM_PER_MM,
        unit == DisplayUnit::Mils ==> unit.step() * unit.steps_per_unit() == NM_PER_MIL,
        unit == DisplayUnit::Micrometers ==> unit.step() * unit.steps_per_unit() == NM_PER_UM,
        unit == DisplayUnit::Nanometers ==> unit.step() * unit.steps_per_unit() == 1,
{
}

/// Converts a display value to canonical nanometres. A value whose length
/// lies outside the canonical range is clamped to the nearest end of it.
pub fn to_canonical(value: i64, unit: DisplayUnit) -> (nm: i64)
    ensures
        nm == spec_to_canonical(value as int, unit),
{
    let step: i64 = unit.step_nm();
    let wide: i128 = match unit {
        DisplayUnit::Millimeters => (value as i128) * 1000,
        DisplayUnit::Mils => (value as i128) * 254,
        DisplayUnit::Micrometers => (value as i128) * 10,
        DisplayUnit::Nanometers => value as i128,
    };
    assert(wide == value * step);
    if wide < i64::MIN as i128 {
        i64::MIN
    } else if wide > i64::MAX as i128 {
        i64::MAX
    } else {
        wide as i64
    }
}

/// Converts canonical nanometres to the nearest display value of `unit`,
/// halves rounded away from zero.
pub fn from_canonical(nm: i64, unit: DisplayUnit) -> (value: i64)
    ensures
        value == spec_from_canonical(nm as int, unit),
{
    let magnitude: i128 = if nm >= 0 {
        nm as i128
    } else {
        -(nm as i128)
    };
    let rounded: i128 = match unit {
        DisplayUnit::Millimeters => (2 * magnitude + 1000) / 2000,
        DisplayUnit::Mils => (2 * magnitude + 254) / 508,
        DisplayUnit::Micrometers => (2 * magnitude + 10) / 20,
        DisplayUnit::Nanometers => (2 * magnitude + 1) / 2,
    };
    proof {
        let s = unit.step();
        assert(2 * s == 2000 || 2 * s == 508 || 2 * s == 20 || 2 * s == 2);
        assert(rounded == (2 * magnitude + s) / (2 * s));
        assert(0 <= rounded <= magnitude);
    }
    if nm >= 0 {
        rounded as i64
    } else {
        (-rounded) as i64
    }
}

/// Re-expresses a display value of one unit in another unit, by way of the
/// canonical length.
pub fn convert(value: i64, from: DisplayUnit, to: DisplayUnit) -> (converted: i64)
    ensures
        converted == spec_from_canonical(spec_to_canonical(value as int, from), to),
{
    from_canonical(to_canonical(value, from), to)
}

/// `round_div(v, s)` steps of `s` lie within half of `s` of `v`.
pub proof fn lemma_round_div_near(v: int, s: int)
    requires
        s >= 1,
    ensures
        2 * (round_div(v, s) * s - v) <= s,
        2 * (v - round_div(v, s) * s) <= s,
{
    let a = if v >= 0 {
        v
    } else {
        -v
    };
    let q = (2 * a + s) / (2 * s);
    lemma_fundamental_div_mod(2 * a + s, 2 * s);
    lemma_mod_pos_bound(2 * a + s, 2 * s);
    assert((2 * s) * q == 2 * (q * s)) by (nonlinear_arith);
    assert((-q) * s == -(q * s)) by (nonlinear_arith);
}

/// A whole number of steps rounds to itself.
pub proof fn lemma_round_div_exact(k: int, s: int)
    requires
        s >= 1,
    ensures
        round_div(k * s, s) == k,
{
    let a = if k >= 0 {
        k
    } else {
        -k
    };
    assert(a * s >= 0) by (nonlinear_arith)
        requires
            a >= 0,
            s >= 1,
    ;
    assert((-k) * s == -(k * s)) by (nonlinear_arith);
    assert(k * s >= 0 <==> k >= 0) by (nonlinear_arith)
        requires
            s >= 1,
    ;
    assert(2 * (a * s) + s == a * (2 * s) + s) by (nonlinear_arith);
    lemma_fundamental_div_mod_converse(2 * (a * s) + s, 2 * s, a, s);
}

/// Converting a canonical length to a display value and back gives a length
/// within half a display step of that length, for every canonical length
/// and every unit.
pub proof fn lemma_canonical_round_trip(nm: int, unit: DisplayUnit)
    requires
        i64::MIN <= nm <= i64::MAX,
    ensures
        2 * (spec_to_canonical(spec_from_canonical(nm, unit), unit) - nm) <= unit.step(),
        2 * (nm - spec_to_canonical(spec_from_canonical(nm, unit), unit)) <= unit.step(),
{
    lemma_round_div_near(nm, unit.step());
}

/// Converting a display value to canonical and back reproduces it, as long
/// as its length lies inside the canonical range.
pub proof fn lemma_display_round_trip(value: int, unit: DisplayUnit)
    requires
        i64::MIN <= value * unit.step() <= i64::MAX,
    ensures
        spec_from_canonical(spec_to_canonical(value, unit), unit) == value,
{
    lemma_round_div_exact(value, unit.step());
}

} // verus!
