//! Temperatures and conversions between the supported scales.
//!
//! Each conversion constant is a ratio of integers (1.8 = 9/5, 32 = 160/5,
//! 273.15 = 5463/20), so a conversion maps the fraction `num / den` to another
//! exact fraction. Fahrenheit and Kelvin have no direct formula between them:
//! those conversions are composed from two hops through Celsius, the pivot.

use vstd::prelude::*;
use vstd::string::StringExecFns;

use crate::rational::{rat_wf, Rat, Rational};
use crate::units::{all_units, TemperatureUnit};

verus! {

/// The largest numerator magnitude `convert` accepts. It leaves room for the
/// intermediate products of a two-hop conversion inside `i128`, and admits
/// every value a parse can produce as well as the result of converting one.
pub const CONVERT_NUM_BOUND: i128 = 50_000_000_000_000_000_000_000_000_000_000_000;

/// The largest denominator `convert` accepts (see `CONVERT_NUM_BOUND`).
pub const CONVERT_DEN_BOUND: i128 = 100_000_000_000_000_000_000_000_000_000_000;

/// Bound on the numerator magnitude a single conversion hop accepts.
const HOP_NUM_BOUND: i128 = 2_000_000_000_000_000_000_000_000_000_000_000_000;

/// Bound on the denominator a single conversion hop accepts.
const HOP_DEN_BOUND: i128 = 10_000_000_000_000_000_000_000_000_000_000_000;

/// An immutable temperature: an exact value tagged with its scale.
#[derive(Clone, Copy, Debug, PartialEq, Eq, Structural)]
pub struct Temperature {
    pub value: Rational,
    pub unit: TemperatureUnit,
}

/// A conversion failure: no rule, direct or composed, covers the pair.
/// With the current three units every ordered pair is covered, so this is
/// never produced; it remains so that adding a unit without its rules fails
/// loudly instead of silently.
#[derive(Clone, Copy, Debug, PartialEq, Eq, Structural)]
pub enum TemperatureConversionError {
    NotSupported { from: TemperatureUnit, to: TemperatureUnit },
}

impl TemperatureConversionError {
    /// A human-readable description naming the unsupported pair.
    pub fn message(&self) -> (r: String)
        ensures
            self matches TemperatureConversionError::NotSupported { from, to } ==> r@
                == "conversion from "@ + from.spec_symbol() + " to "@ + to.spec_symbol()
                + " is not supported"@,
    {
        match self {
            TemperatureConversionError::NotSupported { from, to } => {
                let r = String::from_str("conversion from ").concat(from.symbol()).concat(
                    " to ",
                ).concat(to.symbol()).concat(" is not supported");
                proof {
                    assert(r@ =~= "conversion from "@ + from.spec_symbol() + " to "@
                        + to.spec_symbol() + " is not supported"@);
                }
                r
            },
        }
    }
}

/// Celsius to Fahrenheit: `v * 9/5 + 32`.
pub open spec fn spec_c_to_f(v: Rat) -> Rat {
    Rat { num: 9 * v.num + 160 * v.den, den: 5 * v.den }
}

/// Celsius to Kelvin: `v + 273.15`, with 273.15 = 5463/20.
pub open spec fn spec_c_to_k(v: Rat) -> Rat {
    Rat { num: 20 * v.num + 5463 * v.den, den: 20 * v.den }
}

/// Fahrenheit to Celsius: `(v - 32) * 5/9`.
pub open spec fn spec_f_to_c(v: Rat) -> Rat {
    Rat { num: 5 * v.num - 160 * v.den, den: 9 * v.den }
}

/// Kelvin to Celsius: `v - 273.15`, with 273.15 = 5463/20.
pub open spec fn spec_k_to_c(v: Rat) -> Rat {
    Rat { num: 20 * v.num - 5463 * v.den, den: 20 * v.den }
}

/// The value of `v`, read on the scale `from`, expressed on the scale `to`.
/// Pairs without a direct formula go through Celsius, the pivot.
pub open spec fn spec_convert(v: Rat, from: TemperatureUnit, to: TemperatureUnit) -> Rat {
    if from == to {
        v
    } else {
        match (from, to) {
            (TemperatureUnit::Celsius, TemperatureUnit::Fahrenheit) => spec_c_to_f(v),
            (TemperatureUnit::Celsius, TemperatureUnit::Kelvin) => spec_c_to_k(v),
            (TemperatureUnit::Fahrenheit, TemperatureUnit::Celsius) => spec_f_to_c(v),
            (TemperatureUnit::Kelvin, TemperatureUnit::Celsius) => spec_k_to_c(v),
            (TemperatureUnit::Fahrenheit, TemperatureUnit::Kelvin) => spec_c_to_k(spec_f_to_c(v)),
            (TemperatureUnit::Kelvin, TemperatureUnit::Fahrenheit) => spec_c_to_f(spec_k_to_c(v)),
            _ => v,
        }
    }
}

/// The units other than `u`, in registry order: the default target list when
/// converting a temperature to every other unit.
pub open spec fn spec_other_units(u: TemperatureUnit) -> Seq<TemperatureUnit> {
    match u {
        TemperatureUnit::Celsius => seq![TemperatureUnit::Fahrenheit, TemperatureUnit::Kelvin],
        TemperatureUnit::Fahrenheit => seq![TemperatureUnit::Celsius, TemperatureUnit::Kelvin],
        TemperatureUnit::Kelvin => seq![TemperatureUnit::Celsius, TemperatureUnit::Fahrenheit],
    }
}

fn rat_c_to_f(v: Rational) -> (r: Rational)
    requires
        rat_wf(v@),
        -HOP_NUM_BOUND <= v.num <= HOP_NUM_BOUND,
        v.den <= HOP_DEN_BOUND,
    ensures
        r@ == spec_c_to_f(v@),
        rat_wf(r@),
{
    Rational { num: 9 * v.num + 160 * v.den, den: 5 * v.den }
}

fn rat_c_to_k(v: Rational) -> (r: Rational)
    requires
        rat_wf(v@),
        -HOP_NUM_BOUND <= v.num <= HOP_NUM_BOUND,
        v.den <= HOP_DEN_BOUND,
    ensures
        r@ == spec_c_to_k(v@),
        rat_wf(r@),
{
    Rational { num: 20 * v.num + 5463 * v.den, den: 20 * v.den }
}

fn rat_f_to_c(v: Rational) -> (r: Rational)
    requires
        rat_wf(v@),
        -HOP_NUM_BOUND <= v.num <= HOP_NUM_BOUND,
        v.den <= HOP_DEN_BOUND,
    ensures
        r@ == spec_f_to_c(v@),
        rat_wf(r@),
{
    Rational { num: 5 * v.num - 160 * v.den, den: 9 * v.den }
}

fn rat_k_to_c(v: Rational) -> (r: Rational)
    requires
        rat_wf(v@),
        -HOP_NUM_BOUND <= v.num <= HOP_NUM_BOUND,
        v.den <= HOP_DEN_BOUND,
    ensures
        r@ == spec_k_to_c(v@),
        rat_wf(r@),
{
    Rational { num: 20 * v.num - 5463 * v.den, den: 20 * v.den }
}

impl Temperature {
    /// Whether the value's magnitude is small enough for `convert`. Every
    /// parsed temperature satisfies this, and so does the result of one
    /// conversion of a parsed temperature, so round trips stay available.
    pub open spec fn convertible(self) -> bool {
        &&& rat_wf(self.value@)
        &&& -CONVERT_NUM_BOUND <= self.value.num <= CONVERT_NUM_BOUND
        &&& self.value.den <= CONVERT_DEN_BOUND
    }

    /// Converts `self` to the scale `unit`.
    ///
    /// Converting to the own scale returns `self` unchanged, bit for bit,
    /// rather than recomputing it. Every other pair of the three scales is
    /// covered by a direct formula or a two-hop composition through Celsius,
    /// so the call always succeeds; `NotSupported` is reachable only when a
    /// scale is added without its rules.
    pub fn convert(self, unit: TemperatureUnit) -> (r: Result<
        Temperature,
        TemperatureConversionError,
    >)
        requires
            self.convertible(),
        ensures
            r is Ok,
            r matches Ok(t) ==> t.unit == unit && t.value@ == spec_convert(
                self.value@,
                self.unit,
                unit,
            ) && rat_wf(t.value@) && t.renderable() && (self.unit == unit ==> t == self),
    {
        if self.unit == unit {
            return Ok(self);
        }
        let value = match (self.unit, unit) {
            (TemperatureUnit::Celsius, TemperatureUnit::Fahrenheit) => rat_c_to_f(self.value),
            (TemperatureUnit::Celsius, TemperatureUnit::Kelvin) => rat_c_to_k(self.value),
            (TemperatureUnit::Fahrenheit, TemperatureUnit::Celsius) => rat_f_to_c(self.value),
            (TemperatureUnit::Fahrenheit, TemperatureUnit::Kelvin) => rat_c_to_k(
                rat_f_to_c(self.value),
            ),
            (TemperatureUnit::Kelvin, TemperatureUnit::Celsius) => rat_k_to_c(self.value),
            (TemperatureUnit::Kelvin, TemperatureUnit::Fahrenheit) => rat_c_to_f(
                rat_k_to_c(self.value),
            ),
            (from, to) => {
                return Err(TemperatureConversionError::NotSupported { from, to });
            },
        };
        Ok(Temperature { value, unit })
    }

    /// Offers one unit of the registry to the batch: the own scale is
    /// skipped, any other target is converted and appended. A target whose
    /// conversion is unsupported is dropped from the batch rather than
    /// failing it; any other conversion error would abort the whole batch,
    /// but no other kind exists.
    fn push_conversion(self, target: TemperatureUnit, out: &mut Vec<Temperature>)
        requires
            self.convertible(),
        ensures
            self.unit == target ==> final(out)@ == old(out)@,
            self.unit != target ==> final(out)@.len() == old(out)@.len() + 1
                && final(out)@.drop_last() == old(out)@
                && final(out)@.last().unit == target
                && final(out)@.last().value@ == spec_convert(self.value@, self.unit, target),
    {
        if target != self.unit {
            match self.convert(target) {
                Ok(t) => {
                    out.push(t);
                    proof {
                        assert(out@.drop_last() =~= old(out)@);
                    }
                },
                Err(TemperatureConversionError::NotSupported { .. }) => {},
            }
        }
    }

    /// Converts `self` to every *other* unit, in registry order: the result
    /// holds, for each of the two other scales, the converted temperature.
    pub fn convert_to_all(&self) -> (r: Vec<Temperature>)
        requires
            self.convertible(),
        ensures
            r@.len() == spec_other_units(self.unit).len(),
            forall|i: int|
                0 <= i < r@.len() ==> (#[trigger] r@[i]).unit == spec_other_units(self.unit)[i]
                    && r@[i].value@ == spec_convert(
                    self.value@,
                    self.unit,
                    spec_other_units(self.unit)[i],
                ),
    {
        let units = all_units();
        let mut out: Vec<Temperature> = Vec::new();
        let t = *self;
        t.push_conversion(units[0], &mut out);
        t.push_conversion(units[1], &mut out);
        t.push_conversion(units[2], &mut out);
        proof {
            assert(forall|i: int|
                0 <= i < out@.len() ==> (#[trigger] out@[i]).unit == spec_other_units(self.unit)[i]
                    && out@[i].value@ == spec_convert(
                    self.value@,
                    self.unit,
                    spec_other_units(self.unit)[i],
                )) by {
                assert(forall|i: int|
                    0 <= i < out@.len() - 1 ==> #[trigger] out@[i] == out@.drop_last()[i]);
            }
        }
        out
    }
}

} // verus!
