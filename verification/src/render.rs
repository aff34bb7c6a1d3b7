//! Rendering a temperature back to text.
//!
//! The output format is `{value} {symbol}`: the decimal rendering of the
//! value, one space, and the unit's canonical display symbol — which may
//! differ from the form that was parsed (a bare "c" renders as "°C"). The
//! value is rendered exactly whenever its fraction terminates in decimal
//! (in particular for every parsed value, whose denominator is a power of
//! ten); a non-terminating expansion is cut off after a fixed number of
//! fraction digits.

use vstd::prelude::*;
use vstd::string::StringExecFns;

use crate::convert::Temperature;
use crate::rational::{rat_wf, Rat};

verus! {

/// The largest numerator magnitude `to_display_string` accepts: room for
/// every value the converter can produce.
pub const RENDER_NUM_BOUND: i128 = 100_000_000_000_000_000_000_000_000_000_000_000_000;

/// The largest denominator `to_display_string` accepts (see
/// `RENDER_NUM_BOUND`).
pub const RENDER_DEN_BOUND: i128 = 1_000_000_000_000_000_000_000_000_000_000_000_000;

/// How many fraction digits are rendered at most; a terminating expansion
/// stops by itself when the remainder runs out.
pub const MAX_RENDER_FRAC_DIGITS: usize = 32;

/// The character for one decimal digit.
pub open spec fn digit_char(d: int) -> char {
    if d == 0 {
        '0'
    } else if d == 1 {
        '1'
    } else if d == 2 {
        '2'
    } else if d == 3 {
        '3'
    } else if d == 4 {
        '4'
    } else if d == 5 {
        '5'
    } else if d == 6 {
        '6'
    } else if d == 7 {
        '7'
    } else if d == 8 {
        '8'
    } else {
        '9'
    }
}

/// The decimal digits of a non-negative integer, most significant first;
/// zero renders as "0".
pub open spec fn spec_nat_digits(n: int) -> Seq<char>
    decreases n,
        when n >= 0
{
    if n <= 9 {
        seq![digit_char(n)]
    } else {
        spec_nat_digits(n / 10).push(digit_char(n % 10))
    }
}

/// The decimal expansion of the proper fraction `rem / den`, digit by digit:
/// each step brings down a zero and divides. It stops when the remainder is
/// exhausted (a terminating expansion, no trailing zeros) or when the fuel
/// runs out (a non-terminating one, cut off).
pub open spec fn spec_frac_expansion(rem: int, den: int, fuel: nat) -> Seq<char>
    decreases fuel,
        when den >= 1
{
    if rem <= 0 || fuel == 0 {
        Seq::empty()
    } else {
        seq![digit_char((rem * 10) / den)] + spec_frac_expansion((rem * 10) % den, den, (fuel
            - 1) as nat)
    }
}

/// The decimal rendering of a value: an ASCII minus sign when negative, the
/// integer digits, and a dot with the fraction digits when the value is not
/// an integer.
pub open spec fn spec_render_value(v: Rat) -> Seq<char> {
    let a = if v.num < 0 {
        -v.num
    } else {
        v.num
    };
    let q = a / v.den;
    let rem = a % v.den;
    (if v.num < 0 {
        seq!['-']
    } else {
        Seq::empty()
    }) + spec_nat_digits(q) + (if rem > 0 {
        seq!['.'] + spec_frac_expansion(rem, v.den, MAX_RENDER_FRAC_DIGITS as nat)
    } else {
        Seq::empty()
    })
}

/// The full rendering of a temperature: value, one space, display symbol.
pub open spec fn spec_render(t: Temperature) -> Seq<char> {
    spec_render_value(t.value@) + seq![' '] + t.unit.spec_symbol()
}

/// One digit as text.
fn digit_str(d: i128) -> (r: &'static str)
    requires
        0 <= d <= 9,
    ensures
        r@ == seq![digit_char(d as int)],
{
    let s = match d {
        0 => "0",
        1 => "1",
        2 => "2",
        3 => "3",
        4 => "4",
        5 => "5",
        6 => "6",
        7 => "7",
        8 => "8",
        _ => "9",
    };
    proof {
        reveal_strlit("0");
        reveal_strlit("1");
        reveal_strlit("2");
        reveal_strlit("3");
        reveal_strlit("4");
        reveal_strlit("5");
        reveal_strlit("6");
        reveal_strlit("7");
        reveal_strlit("8");
        reveal_strlit("9");
        assert(s@ =~= seq![digit_char(d as int)]);
    }
    s
}

/// Appends the decimal digits of `n`, most significant first.
fn push_nat_digits(out: &mut String, n: i128)
    requires
        n >= 0,
    ensures
        final(out)@ == old(out)@ + spec_nat_digits(n as int),
    decreases n,
{
    if n <= 9 {
        out.append(digit_str(n));
        proof {
            assert(final(out)@ =~= old(out)@ + spec_nat_digits(n as int));
        }
    } else {
        push_nat_digits(out, n / 10);
        out.append(digit_str(n % 10));
        proof {
            assert(final(out)@ =~= old(out)@ + spec_nat_digits(n as int));
        }
    }
}

/// Appends the decimal expansion of the proper fraction `rem / den`.
fn push_frac_digits(out: &mut String, rem: i128, den: i128, fuel: usize)
    requires
        0 <= rem < den,
        den <= RENDER_DEN_BOUND,
    ensures
        final(out)@ == old(out)@ + spec_frac_expansion(rem as int, den as int, fuel as nat),
    decreases fuel,
{
    if rem == 0 || fuel == 0 {
        proof {
            assert(final(out)@ =~= old(out)@ + spec_frac_expansion(
                rem as int,
                den as int,
                fuel as nat,
            ));
        }
        return ;
    }
    proof {
        let r = rem as int;
        let d = den as int;
        assert((r * 10) / d < 10 && (r * 10) / d >= 0 && (r * 10) % d < d && (r * 10) % d >= 0 && r
            * 10 <= d * 10) by (nonlinear_arith)
            requires
                0 <= r < d,
                d >= 1,
        ;
    }
    let scaled = rem * 10;
    out.append(digit_str(scaled / den));
    push_frac_digits(out, scaled % den, den, fuel - 1);
    proof {
        assert(final(out)@ =~= old(out)@ + spec_frac_expansion(
            rem as int,
            den as int,
            fuel as nat,
        ));
    }
}

impl Temperature {
    /// Whether the value's magnitude is small enough for
    /// `to_display_string`. Every parsed or converted temperature is.
    pub open spec fn renderable(self) -> bool {
        &&& rat_wf(self.value@)
        &&& -RENDER_NUM_BOUND <= self.value.num <= RENDER_NUM_BOUND
        &&& self.value.den <= RENDER_DEN_BOUND
    }

    /// Renders the temperature as `{value} {symbol}`.
    pub fn to_display_string(&self) -> (r: String)
        requires
            self.renderable(),
        ensures
            r@ == spec_render(*self),
    {
        let v = self.value;
        let mut out = String::new();
        if v.num < 0 {
            out.append("-");
            proof {
                reveal_strlit("-");
            }
        }
        let a: i128 = if v.num < 0 {
            -v.num
        } else {
            v.num
        };
        let q = a / v.den;
        let rem = a % v.den;
        push_nat_digits(&mut out, q);
        if rem > 0 {
            out.append(".");
            proof {
                reveal_strlit(".");
            }
            push_frac_digits(&mut out, rem, v.den, MAX_RENDER_FRAC_DIGITS);
        }
        out.append(" ");
        out.append(self.unit.symbol());
        proof {
            reveal_strlit(" ");
            assert(out@ =~= spec_render(*self));
        }
        out
    }
}

} // verus!
