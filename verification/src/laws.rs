//! The engine's general guarantees, stated and proved once over the models
//! that the functions' own contracts use.

use vstd::prelude::*;

use crate::convert::{spec_convert, Temperature};
use crate::parse::{
    digit_val, digits_end, digits_value, frac_digits, has_frac, int_digits, int_end,
    is_digit_char, is_negative, lemma_digits_end, literal_digit_count, num_end,
    pow10, sign_len, spec_literal_unit, spec_literal_value, unit_part, unit_start, valid_literal,
    MAX_LITERAL_DIGITS,
};
use crate::rational::{rat_eq, rat_wf, Rat};
use crate::render::{
    digit_char, spec_frac_expansion, spec_nat_digits, spec_render, MAX_RENDER_FRAC_DIGITS,
};
use crate::units::TemperatureUnit;

verus! {

/// Multiplying numerator and denominator by the same factor keeps the
/// denoted value.
proof fn lemma_scale_eq(c: int, n: int, d: int)
    ensures
        (c * n) * d == n * (c * d),
{
    assert((c * n) * d == n * (c * d)) by (nonlinear_arith);
}

/// Round-trip symmetry: for every pair of units with a defined conversion,
/// converting there and back denotes exactly the value that went in — not
/// merely within a tolerance, since conversions are exact fractions.
pub proof fn lemma_convert_round_trip(v: Rat, a: TemperatureUnit, b: TemperatureUnit)
    requires
        rat_wf(v),
    ensures
        rat_wf(spec_convert(v, a, b)),
        rat_eq(spec_convert(spec_convert(v, a, b), b, a), v),
{
    let w = spec_convert(v, a, b);
    let u = spec_convert(w, b, a);
    if a == b {
    } else {
        match (a, b) {
            (TemperatureUnit::Celsius, TemperatureUnit::Fahrenheit) => {
                assert(u.num == 45 * v.num && u.den == 45 * v.den);
                lemma_scale_eq(45, v.num, v.den);
            },
            (TemperatureUnit::Celsius, TemperatureUnit::Kelvin) => {
                assert(u.num == 400 * v.num && u.den == 400 * v.den);
                lemma_scale_eq(400, v.num, v.den);
            },
            (TemperatureUnit::Fahrenheit, TemperatureUnit::Celsius) => {
                assert(u.num == 45 * v.num && u.den == 45 * v.den);
                lemma_scale_eq(45, v.num, v.den);
            },
            (TemperatureUnit::Fahrenheit, TemperatureUnit::Kelvin) => {
                assert(u.num == 18000 * v.num && u.den == 18000 * v.den);
                lemma_scale_eq(18000, v.num, v.den);
            },
            (TemperatureUnit::Kelvin, TemperatureUnit::Celsius) => {
                assert(u.num == 400 * v.num && u.den == 400 * v.den);
                lemma_scale_eq(400, v.num, v.den);
            },
            (TemperatureUnit::Kelvin, TemperatureUnit::Fahrenheit) => {
                assert(u.num == 18000 * v.num && u.den == 18000 * v.den);
                lemma_scale_eq(18000, v.num, v.den);
            },
            _ => {},
        }
    }
}

/// Composition consistency: the conversions without a direct formula equal
/// the two direct hops through Celsius computed one after the other — not
/// only by construction of the spec, but for the `convert` contract, which
/// states each step over the same model.
pub proof fn lemma_two_hop_composition(v: Rat)
    ensures
        spec_convert(v, TemperatureUnit::Fahrenheit, TemperatureUnit::Kelvin) == spec_convert(
            spec_convert(v, TemperatureUnit::Fahrenheit, TemperatureUnit::Celsius),
            TemperatureUnit::Celsius,
            TemperatureUnit::Kelvin,
        ),
        spec_convert(v, TemperatureUnit::Kelvin, TemperatureUnit::Fahrenheit) == spec_convert(
            spec_convert(v, TemperatureUnit::Kelvin, TemperatureUnit::Celsius),
            TemperatureUnit::Celsius,
            TemperatureUnit::Fahrenheit,
        ),
{
}

/// Converting to the own unit leaves the model unchanged (the executable
/// `convert` is stronger still: it returns the input bit for bit).
pub proof fn lemma_identity_conversion(v: Rat, u: TemperatureUnit)
    ensures
        spec_convert(v, u, u) == v,
{
}

/// Digit runs look the same in two strings that agree everywhere after the
/// first character.
proof fn lemma_digits_end_congruent(s1: Seq<char>, s2: Seq<char>, i: int)
    requires
        s1.len() == s2.len(),
        1 <= i <= s1.len(),
        forall|j: int| 1 <= j < s1.len() ==> s1[j] == s2[j],
    ensures
        digits_end(s1, i) == digits_end(s2, i),
    decreases s1.len() - i,
{
    if i < s1.len() && is_digit_char(s1[i]) {
        lemma_digits_end_congruent(s1, s2, i + 1);
    }
}

/// The ASCII hyphen-minus and the Unicode minus sign are interchangeable:
/// a literal is valid with one sign exactly when it is valid with the other,
/// and both denote the same temperature.
pub proof fn lemma_minus_sign_equivalence(rest: Seq<char>)
    ensures
        ({
            let s1 = seq!['-'] + rest;
            let s2 = seq!['\u{2212}'] + rest;
            &&& valid_literal(s1) == valid_literal(s2)
            &&& literal_digit_count(s1) == literal_digit_count(s2)
            &&& (valid_literal(s1) ==> spec_literal_value(s1) == spec_literal_value(s2)
                && spec_literal_unit(s1) == spec_literal_unit(s2))
        }),
{
    let s1 = seq!['-'] + rest;
    let s2 = seq!['\u{2212}'] + rest;
    assert(forall|j: int| 1 <= j < s1.len() ==> s1[j] == s2[j]);
    assert(sign_len(s1) == 1 && sign_len(s2) == 1);
    lemma_digits_end(s1, 1);
    lemma_digits_end(s2, 1);
    lemma_digits_end_congruent(s1, s2, 1);
    assert(int_end(s1) == int_end(s2));
    if int_end(s1) < s1.len() && s1[int_end(s1)] == '.' {
        lemma_digits_end(s1, int_end(s1) + 1);
        lemma_digits_end_congruent(s1, s2, int_end(s1) + 1);
    }
    assert(has_frac(s1) == has_frac(s2));
    assert(num_end(s1) == num_end(s2));
    assert(1 <= num_end(s1) <= s1.len());
    assert(unit_start(s1) == unit_start(s2));
    assert(unit_part(s1) =~= unit_part(s2));
    assert(int_digits(s1) =~= int_digits(s2));
    assert(frac_digits(s1) =~= frac_digits(s2));
    assert(is_negative(s1) && is_negative(s2));
}

/// A digit character carries its digit back.
proof fn lemma_digit_char_val(d: int)
    requires
        0 <= d <= 9,
    ensures
        is_digit_char(digit_char(d)),
        digit_val(digit_char(d)) == d,
{
}

/// The value of a single character, as a digit run.
proof fn lemma_digits_value_single(c: char)
    ensures
        digits_value(seq![c]) == digit_val(c),
{
    assert(seq![c].drop_last() =~= Seq::<char>::empty());
    assert(seq![c].last() == c);
    assert(digits_value(Seq::<char>::empty()) == 0);
}

/// Powers of ten multiply by adding exponents.
proof fn lemma_pow10_add(a: nat, b: nat)
    ensures
        pow10(a) * pow10(b) == pow10(a + b),
    decreases a,
{
    if a == 0 {
        assert(pow10(0) == 1);
    } else {
        lemma_pow10_add((a - 1) as nat, b);
        assert(pow10(a) == 10 * pow10((a - 1) as nat));
        assert(pow10(a + b) == 10 * pow10((a + b - 1) as nat));
        assert((10 * pow10((a - 1) as nat)) * pow10(b) == 10 * (pow10((a - 1) as nat) * pow10(b)))
            by (nonlinear_arith);
    }
}

/// Reading a concatenation of digit runs: the left run is shifted by the
/// length of the right one.
proof fn lemma_digits_value_concat(a: Seq<char>, b: Seq<char>)
    ensures
        digits_value(a + b) == digits_value(a) * pow10(b.len()) + digits_value(b),
    decreases b.len(),
{
    if b.len() == 0 {
        assert(a + b =~= a);
        assert(pow10(0) == 1);
    } else {
        assert((a + b).drop_last() =~= a + b.drop_last());
        lemma_digits_value_concat(a, b.drop_last());
        assert((a + b).last() == b.last());
        assert(pow10(b.len()) == 10 * pow10((b.len() - 1) as nat));
        let va = digits_value(a);
        let vd = digits_value(b.drop_last());
        let p = pow10((b.len() - 1) as nat);
        assert(10 * (va * p + vd) + digit_val(b.last()) == va * (10 * p) + (10 * vd + digit_val(
            b.last(),
        ))) by (nonlinear_arith);
    }
}

/// The decimal digits of `n`: at least one, all digits, reading back to `n`.
proof fn lemma_nat_digits_props(n: int)
    requires
        n >= 0,
    ensures
        spec_nat_digits(n).len() >= 1,
        forall|x: int|
            0 <= x < spec_nat_digits(n).len() ==> is_digit_char(#[trigger] spec_nat_digits(n)[x]),
        digits_value(spec_nat_digits(n)) == n,
    decreases n,
{
    if n <= 9 {
        lemma_digit_char_val(n);
        lemma_digits_value_single(digit_char(n));
    } else {
        lemma_nat_digits_props(n / 10);
        let s0 = spec_nat_digits(n / 10);
        let s = spec_nat_digits(n);
        assert(s == s0.push(digit_char(n % 10)));
        assert(s.drop_last() =~= s0);
        assert(s.last() == digit_char(n % 10));
        lemma_digit_char_val(n % 10);
        assert(n == 10 * (n / 10) + n % 10);
    }
}

/// A value below ten to the `m` takes at most `m` digits.
proof fn lemma_nat_digits_len(n: int, m: nat)
    requires
        0 <= n < pow10(m),
        m >= 1,
    ensures
        spec_nat_digits(n).len() <= m,
    decreases n,
{
    if n <= 9 {
    } else {
        assert(pow10(0) == 1);
        assert(pow10(1) == 10);
        if m == 1 {
            assert(false);
        }
        let p = pow10((m - 1) as nat);
        assert(pow10(m) == 10 * p);
        crate::parse::lemma_pow10_positive((m - 1) as nat);
        assert(n / 10 < p) by (nonlinear_arith)
            requires
                0 <= n < 10 * p,
                p >= 1,
        ;
        lemma_nat_digits_len(n / 10, (m - 1) as nat);
    }
}

/// A digit run that stops exactly at `j`.
proof fn lemma_digits_end_exact(s: Seq<char>, i: int, j: int)
    requires
        0 <= i <= j <= s.len(),
        forall|x: int| i <= x < j ==> is_digit_char(#[trigger] s[x]),
        j == s.len() || !is_digit_char(s[j]),
    ensures
        digits_end(s, i) == j,
    decreases j - i,
{
    if i < j {
        lemma_digits_end_exact(s, i + 1, j);
    }
}

/// The digits of a terminating decimal expansion read back as the scaled
/// remainder: `digits * den == rem * pow10(count)`. The denominator divides
/// `rem` times ten to the `j`, so the expansion ends within `j` digits — in
/// particular the fuel is never the cutoff.
proof fn lemma_frac_expansion(rem: int, den: int, j: nat, fuel: nat)
    requires
        1 <= den,
        0 < rem < den,
        (rem * pow10(j)) % den == 0,
        j <= fuel,
    ensures
        ({
            let f = spec_frac_expansion(rem, den, fuel);
            &&& 1 <= f.len() <= j
            &&& forall|x: int| 0 <= x < f.len() ==> is_digit_char(#[trigger] f[x])
            &&& digits_value(f) * den == rem * pow10(f.len())
        }),
    decreases j,
{
    if j == 0 {
        assert(pow10(0) == 1);
        assert(rem % den == rem) by (nonlinear_arith)
            requires
                0 <= rem < den,
        ;
        assert(false);
    }
    let scaled = rem * 10;
    let d = scaled / den;
    let rem2 = scaled % den;
    assert(0 <= d <= 9 && 0 <= rem2 < den && scaled == d * den + rem2) by (nonlinear_arith)
        requires
            0 < rem < den,
            den >= 1,
            scaled == rem * 10,
            d == scaled / den,
            rem2 == scaled % den,
    ;
    lemma_digit_char_val(d);
    lemma_digits_value_single(digit_char(d));
    let p1 = pow10((j - 1) as nat);
    assert(pow10(j) == 10 * p1);
    let q = (rem * pow10(j)) / den;
    assert(rem * pow10(j) == den * q) by (nonlinear_arith)
        requires
            den >= 1,
            (rem * pow10(j)) % den == 0,
            q == (rem * pow10(j)) / den,
    ;
    assert(rem2 * p1 == den * (q - d * p1)) by (nonlinear_arith)
        requires
            scaled == d * den + rem2,
            scaled == rem * 10,
            rem * (10 * p1) == den * q,
    ;
    crate::parse::lemma_pow10_positive((j - 1) as nat);
    assert((rem2 * p1) % den == 0) by (nonlinear_arith)
        requires
            rem2 * p1 == den * (q - d * p1),
            den >= 1,
            0 <= rem2 < den,
            p1 >= 0,
    ;
    let f = spec_frac_expansion(rem, den, fuel);
    if rem2 == 0 {
        assert(f =~= seq![digit_char(d)]);
        assert(pow10(0) == 1);
        assert(pow10(1) == 10);
        assert(digits_value(f) * den == rem * pow10(1)) by (nonlinear_arith)
            requires
                digits_value(f) == d,
                scaled == d * den + rem2,
                rem2 == 0,
                scaled == rem * 10,
                pow10(1) == 10,
        ;
    } else {
        lemma_frac_expansion(rem2, den, (j - 1) as nat, (fuel - 1) as nat);
        let f2 = spec_frac_expansion(rem2, den, (fuel - 1) as nat);
        assert(f == seq![digit_char(d)] + f2);
        lemma_digits_value_concat(seq![digit_char(d)], f2);
        let p2 = pow10(f2.len());
        assert(pow10(f.len()) == 10 * p2) by {
            assert(f.len() == f2.len() + 1);
        }
        assert(digits_value(f) * den == rem * (10 * p2)) by (nonlinear_arith)
            requires
                digits_value(f) == d * p2 + digits_value(f2),
                digits_value(f2) * den == rem2 * p2,
                scaled == d * den + rem2,
                scaled == rem * 10,
        ;
        assert(forall|x: int| 0 <= x < f.len() ==> is_digit_char(#[trigger] f[x])) by {
            assert(f[0] == digit_char(d));
            assert(forall|x: int| 1 <= x < f.len() ==> f[x] == f2[x - 1]);
        }
    }
}

/// Parse/format inverse: rendering a temperature whose value terminates in
/// decimal (its denominator is a power of ten) and has at most thirty
/// digits, then parsing the rendering, gives a valid literal of the same
/// unit that denotes exactly the same value. A value whose expansion does
/// not terminate (one whose denominator keeps a factor other than two and
/// five after reduction) renders cut off, and is outside this law.
#[verifier::rlimit(100)]
#[verifier::spinoff_prover]
pub proof fn lemma_render_parse(t: Temperature, k: nat)
    requires
        rat_wf(t.value@),
        t.value@.den == pow10(k),
        k <= 29,
        -pow10(30) < t.value@.num < pow10(30),
    ensures
        ({
            let s = spec_render(t);
            &&& valid_literal(s)
            &&& literal_digit_count(s) <= MAX_LITERAL_DIGITS
            &&& spec_literal_unit(s) == t.unit
            &&& rat_eq(spec_literal_value(s), t.value@)
        }),
{
    let v = t.value@;
    let s = spec_render(t);
    let neg = v.num < 0;
    let a = if neg { -v.num } else { v.num };
    let den = v.den;
    let q = a / den;
    let rem = a % den;
    assert(a == den * q + rem && 0 <= rem < den && q >= 0) by (nonlinear_arith)
        requires
            a >= 0,
            den >= 1,
            q == a / den,
            rem == a % den,
    ;
    let nd = spec_nat_digits(q);
    lemma_nat_digits_props(q);
    // q takes at most 30 - k digits.
    lemma_pow10_add(k, (30 - k) as nat);
    crate::parse::lemma_pow10_positive((30 - k) as nat);
    let phi = pow10((30 - k) as nat);
    assert(q < phi) by (nonlinear_arith)
        requires
            0 <= a < pow10(k as nat) * phi,
            den == pow10(k as nat),
            den >= 1,
            phi >= 1,
            q == a / den,
    ;
    assert(30 - k >= 1);
    lemma_nat_digits_len(q, (30 - k) as nat);
    let sym = t.unit.spec_symbol();
    let sl: int = if neg { 1int } else { 0int };
    let sign_seq: Seq<char> = if neg { seq!['-'] } else { Seq::empty() };
    if rem > 0 {
        assert((rem * pow10(k)) % den == 0) by (nonlinear_arith)
            requires
                den == pow10(k),
                den >= 1,
                rem >= 0,
        ;
        lemma_frac_expansion(rem, den, k, MAX_RENDER_FRAC_DIGITS as nat);
        let fr = spec_frac_expansion(rem, den, MAX_RENDER_FRAC_DIGITS as nat);
        assert(s =~= sign_seq + nd + seq!['.'] + fr + seq![' '] + sym);
        let ie = sl + nd.len();
        // Decomposition: sign, integer digits, dot, fraction digits, space, symbol.
        assert(sign_len(s) == sl);
        lemma_digits_end_exact(s, sl, ie);
        assert(int_end(s) == ie);
        assert(s[ie] == '.');
        lemma_digits_end_exact(s, ie + 1, ie + 1 + fr.len());
        assert(has_frac(s));
        assert(num_end(s) == ie + 1 + fr.len());
        assert(s[num_end(s)] == ' ');
        assert(unit_start(s) == num_end(s) + 1);
        assert(unit_part(s) =~= sym);
        assert(TemperatureUnit::spec_matched_unit(sym) == Some(t.unit));
        assert(valid_literal(s));
        assert(int_digits(s) =~= nd);
        assert(frac_digits(s) =~= fr);
        assert(literal_digit_count(s) == nd.len() + fr.len());
        assert(literal_digit_count(s) <= 30);
        // The denoted value.
        assert(is_negative(s) == neg);
        lemma_digits_value_concat(nd, fr);
        let mag = digits_value(nd + fr);
        let pfr = pow10(fr.len());
        assert(mag == q * pfr + digits_value(fr));
        assert(mag * den == a * pfr) by (nonlinear_arith)
            requires
                mag == q * pfr + digits_value(fr),
                digits_value(fr) * den == rem * pfr,
                a == den * q + rem,
        ;
        assert(spec_literal_value(s).num == if neg { -mag } else { mag });
        assert(spec_literal_value(s).den == pfr);
        if neg {
            assert((-mag) * den == (-a) * pfr) by (nonlinear_arith)
                requires
                    mag * den == a * pfr,
            ;
        }
        assert(rat_eq(spec_literal_value(s), v));
    } else {
        assert(s =~= sign_seq + nd + seq![' '] + sym);
        let ie = sl + nd.len();
        assert(sign_len(s) == sl);
        lemma_digits_end_exact(s, sl, ie);
        assert(int_end(s) == ie);
        assert(s[ie] == ' ');
        assert(!has_frac(s));
        assert(num_end(s) == ie);
        assert(unit_start(s) == ie + 1);
        assert(unit_part(s) =~= sym);
        assert(TemperatureUnit::spec_matched_unit(sym) == Some(t.unit));
        assert(valid_literal(s));
        assert(int_digits(s) =~= nd);
        assert(frac_digits(s) =~= Seq::<char>::empty());
        assert(int_digits(s) + frac_digits(s) =~= nd);
        assert(literal_digit_count(s) <= 30);
        assert(is_negative(s) == neg);
        let mag = digits_value(nd);
        assert(mag == q);
        assert(pow10(0) == 1);
        assert(spec_literal_value(s).den == 1);
        assert(mag * den == a * 1) by (nonlinear_arith)
            requires
                a == den * q + rem,
                rem == 0,
                mag == q,
        ;
        if neg {
            assert((-mag) * den == (-a) * 1) by (nonlinear_arith)
                requires
                    mag * den == a * 1,
            ;
        }
        assert(rat_eq(spec_literal_value(s), v));
    }
}

} // verus!
