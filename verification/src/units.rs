//! The registry of supported temperature scales.
//!
//! Each unit has a canonical display symbol (used when rendering) and a more
//! permissive recognition pattern (used when parsing): the degree sign is
//! optional for Celsius and Fahrenheit, and letters match in either case.

use vstd::prelude::*;

verus! {

/// The three supported temperature scales, in fixed registry order.
///
/// The declaration order (Celsius, Fahrenheit, Kelvin) is the registry order:
/// it decides which unit wins when a symbol is recognized (first match) and
/// the order of the targets in the "convert to every other unit" batch.
#[derive(Clone, Copy, Debug, PartialEq, Eq, Structural)]
pub enum TemperatureUnit {
    Celsius,
    Fahrenheit,
    Kelvin,
}

impl TemperatureUnit {
    /// The canonical display symbol, as a sequence of characters.
    pub open spec fn spec_symbol(self) -> Seq<char> {
        match self {
            TemperatureUnit::Celsius => seq!['\u{00B0}', 'C'],
            TemperatureUnit::Fahrenheit => seq!['\u{00B0}', 'F'],
            TemperatureUnit::Kelvin => seq!['K'],
        }
    }

    /// The canonical display symbol: a degree sign and the letter for Celsius
    /// and Fahrenheit, a bare letter for Kelvin.
    pub fn symbol(&self) -> (r: &'static str)
        ensures
            r@ == self.spec_symbol(),
    {
        match self {
            TemperatureUnit::Celsius => {
                let s = "\u{00B0}C";
                proof {
                    reveal_strlit("\u{00B0}C");
                    assert(s@ =~= self.spec_symbol());
                }
                s
            },
            TemperatureUnit::Fahrenheit => {
                let s = "\u{00B0}F";
                proof {
                    reveal_strlit("\u{00B0}F");
                    assert(s@ =~= self.spec_symbol());
                }
                s
            },
            TemperatureUnit::Kelvin => {
                let s = "K";
                proof {
                    reveal_strlit("K");
                    assert(s@ =~= self.spec_symbol());
                }
                s
            },
        }
    }

    /// A token that denotes the unit written with `upper` or `lower`,
    /// preceded by an optional degree sign.
    pub open spec fn spec_letter_token(t: Seq<char>, upper: char, lower: char) -> bool {
        ||| (t.len() == 1 && (t[0] == upper || t[0] == lower))
        ||| (t.len() == 2 && t[0] == '\u{00B0}' && (t[1] == upper || t[1] == lower))
    }

    /// The recognition pattern: does the character sequence `t` denote this
    /// unit? More permissive than the display symbol: "C", "c", "°C" and "°c"
    /// all denote Celsius; Kelvin is a bare "K" or "k" without a degree sign.
    pub open spec fn spec_matches_symbol(self, t: Seq<char>) -> bool {
        match self {
            TemperatureUnit::Celsius => Self::spec_letter_token(t, 'C', 'c'),
            TemperatureUnit::Fahrenheit => Self::spec_letter_token(t, 'F', 'f'),
            TemperatureUnit::Kelvin => t.len() == 1 && (t[0] == 'K' || t[0] == 'k'),
        }
    }

    /// Tests whether the characters of `chars` from `start` to the end denote
    /// the unit written with `upper` or `lower`, with an optional degree sign.
    fn letter_token(chars: &Vec<char>, start: usize, upper: char, lower: char) -> (r: bool)
        requires
            start <= chars@.len(),
        ensures
            r == Self::spec_letter_token(
                chars@.subrange(start as int, chars@.len() as int),
                upper,
                lower,
            ),
    {
        let ghost t = chars@.subrange(start as int, chars@.len() as int);
        let n = chars.len() - start;
        if n == 1 {
            let c = chars[start];
            assert(c == t[0]);
            c == upper || c == lower
        } else if n == 2 {
            let c0 = chars[start];
            let c1 = chars[start + 1];
            assert(c0 == t[0] && c1 == t[1]);
            c0 == '\u{00B0}' && (c1 == upper || c1 == lower)
        } else {
            false
        }
    }

    /// Tests whether the characters of `chars` from `start` to the end denote
    /// this unit.
    pub fn matches_symbol(&self, chars: &Vec<char>, start: usize) -> (r: bool)
        requires
            start <= chars@.len(),
        ensures
            r == self.spec_matches_symbol(chars@.subrange(start as int, chars@.len() as int)),
    {
        match self {
            TemperatureUnit::Celsius => Self::letter_token(chars, start, 'C', 'c'),
            TemperatureUnit::Fahrenheit => Self::letter_token(chars, start, 'F', 'f'),
            TemperatureUnit::Kelvin => {
                let ghost t = chars@.subrange(start as int, chars@.len() as int);
                if chars.len() - start == 1 {
                    let c = chars[start];
                    assert(c == t[0]);
                    c == 'K' || c == 'k'
                } else {
                    false
                }
            },
        }
    }

    /// The first unit, in registry order, whose recognition pattern matches
    /// `t`; `None` when no pattern does. The patterns are mutually exclusive,
    /// so at most one unit can match, but the first match is authoritative
    /// either way.
    pub open spec fn spec_matched_unit(t: Seq<char>) -> Option<TemperatureUnit> {
        if TemperatureUnit::Celsius.spec_matches_symbol(t) {
            Some(TemperatureUnit::Celsius)
        } else if TemperatureUnit::Fahrenheit.spec_matches_symbol(t) {
            Some(TemperatureUnit::Fahrenheit)
        } else if TemperatureUnit::Kelvin.spec_matches_symbol(t) {
            Some(TemperatureUnit::Kelvin)
        } else {
            None
        }
    }

    /// Finds the unit denoted by the characters of `chars` from `start` to the
    /// end, testing each unit's recognition pattern in registry order.
    pub fn matched_unit(chars: &Vec<char>, start: usize) -> (r: Option<TemperatureUnit>)
        requires
            start <= chars@.len(),
        ensures
            r == Self::spec_matched_unit(chars@.subrange(start as int, chars@.len() as int)),
    {
        if TemperatureUnit::Celsius.matches_symbol(chars, start) {
            Some(TemperatureUnit::Celsius)
        } else if TemperatureUnit::Fahrenheit.matches_symbol(chars, start) {
            Some(TemperatureUnit::Fahrenheit)
        } else if TemperatureUnit::Kelvin.matches_symbol(chars, start) {
            Some(TemperatureUnit::Kelvin)
        } else {
            None
        }
    }
}

/// All units in fixed registry order: Celsius, Fahrenheit, Kelvin.
pub fn all_units() -> (r: Vec<TemperatureUnit>)
    ensures
        r@ == seq![
            TemperatureUnit::Celsius,
            TemperatureUnit::Fahrenheit,
            TemperatureUnit::Kelvin,
        ],
{
    let mut v: Vec<TemperatureUnit> = Vec::new();
    v.push(TemperatureUnit::Celsius);
    v.push(TemperatureUnit::Fahrenheit);
    v.push(TemperatureUnit::Kelvin);
    proof {
        assert(v@ =~= seq![
            TemperatureUnit::Celsius,
            TemperatureUnit::Fahrenheit,
            TemperatureUnit::Kelvin,
        ]);
    }
    v
}

} // verus!
