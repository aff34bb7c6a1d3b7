//! Parsing of textual temperature literals.
//!
//! The accepted grammar, anchored to the whole string: an optional sign (the
//! ASCII hyphen-minus or the Unicode minus sign), one or more digits, an
//! optional fraction (a dot and one or more digits), an optional single
//! space, and a unit symbol recognized by the registry. The decomposition is
//! deterministic — digits are taken greedily, and no unit symbol contains a
//! digit, a dot or a space — so the spec functions below read the literal
//! positionally.

use vstd::prelude::*;
use vstd::string::StringExecFns;

use crate::convert::Temperature;
use crate::rational::{Rat, Rational};
use crate::units::TemperatureUnit;

verus! {

/// The most digits (integer and fraction parts together) a literal may carry:
/// enough for any magnitude the engine converts, and few enough that the
/// parsed numerator always fits the machine integer that holds it.
pub const MAX_LITERAL_DIGITS: usize = 30;

/// A parse failure. `Empty` and `Invalid` are distinct so that a caller can
/// tell "nothing typed" from "garbage typed"; `Parse` reports a literal that
/// matches the grammar but whose numeric part cannot be read (it carries more
/// digits than the engine's precision), and carries the offending substring.
#[derive(Clone, Debug, PartialEq, Eq)]
pub enum ParseTemperatureError {
    Empty,
    Invalid,
    Parse { value: String },
}

impl ParseTemperatureError {
    /// A human-readable description; the numeric variant embeds the
    /// offending substring.
    pub fn message(&self) -> (r: String)
        ensures
            self is Empty ==> r@ == "cannot parse temperature from empty string"@,
            self is Invalid ==> r@ == "invalid temperature literal"@,
            self matches ParseTemperatureError::Parse { value } ==> r@
                == "invalid temperature value: "@ + value@,
    {
        match self {
            ParseTemperatureError::Empty => String::from_str(
                "cannot parse temperature from empty string",
            ),
            ParseTemperatureError::Invalid => String::from_str("invalid temperature literal"),
            ParseTemperatureError::Parse { value } => String::from_str(
                "invalid temperature value: ",
            ).concat(value.as_str()),
        }
    }
}

/// A decimal digit.
pub open spec fn is_digit_char(c: char) -> bool {
    48 <= c as u32 && c as u32 <= 57
}

/// The numeric value of a decimal digit.
pub open spec fn digit_val(c: char) -> int {
    c as u32 - 48
}

/// A sign: the ASCII hyphen-minus or the Unicode minus sign.
pub open spec fn is_sign_char(c: char) -> bool {
    c == '-' || c == '\u{2212}'
}

/// The end of the run of digits that starts at `i`.
pub open spec fn digits_end(s: Seq<char>, i: int) -> int
    decreases s.len() - i,
        when 0 <= i <= s.len()
{
    if i < s.len() && is_digit_char(s[i]) {
        digits_end(s, i + 1)
    } else {
        i
    }
}

/// Number of characters the optional sign occupies.
pub open spec fn sign_len(s: Seq<char>) -> int {
    if s.len() > 0 && is_sign_char(s[0]) {
        1int
    } else {
        0int
    }
}

/// The end of the integer digits.
pub open spec fn int_end(s: Seq<char>) -> int {
    digits_end(s, sign_len(s))
}

/// Whether the literal carries a fraction: a dot directly after the integer
/// digits, followed by at least one digit.
pub open spec fn has_frac(s: Seq<char>) -> bool {
    int_end(s) < s.len() && s[int_end(s)] == '.' && digits_end(s, int_end(s) + 1) > int_end(s) + 1
}

/// The end of the numeric part (sign, integer digits, optional fraction).
pub open spec fn num_end(s: Seq<char>) -> int {
    if has_frac(s) {
        digits_end(s, int_end(s) + 1)
    } else {
        int_end(s)
    }
}

/// Where the unit symbol starts: directly after the numeric part, or after
/// one optional space.
pub open spec fn unit_start(s: Seq<char>) -> int {
    if num_end(s) < s.len() && s[num_end(s)] == ' ' {
        num_end(s) + 1
    } else {
        num_end(s)
    }
}

/// The characters that must denote the unit.
pub open spec fn unit_part(s: Seq<char>) -> Seq<char> {
    s.subrange(unit_start(s), s.len() as int)
}

/// The integer digits.
pub open spec fn int_digits(s: Seq<char>) -> Seq<char> {
    s.subrange(sign_len(s), int_end(s))
}

/// The fraction digits (empty without a fraction).
pub open spec fn frac_digits(s: Seq<char>) -> Seq<char> {
    if has_frac(s) {
        s.subrange(int_end(s) + 1, num_end(s))
    } else {
        Seq::empty()
    }
}

/// Whether the literal is negative: either minus sign means negative.
pub open spec fn is_negative(s: Seq<char>) -> bool {
    sign_len(s) == 1
}

/// Whether `s` matches the literal grammar: at least one integer digit, and a
/// recognized unit symbol after the numeric part.
pub open spec fn valid_literal(s: Seq<char>) -> bool {
    &&& int_end(s) > sign_len(s)
    &&& TemperatureUnit::spec_matched_unit(unit_part(s)) is Some
}

/// How many digits the literal carries, integer and fraction together.
pub open spec fn literal_digit_count(s: Seq<char>) -> int {
    (int_end(s) - sign_len(s)) + frac_digits(s).len()
}

/// The numeric part of the literal as written, sign included.
pub open spec fn number_part(s: Seq<char>) -> Seq<char> {
    s.subrange(0, num_end(s))
}

/// The value of a run of digits, read in base ten.
pub open spec fn digits_value(ds: Seq<char>) -> int
    decreases ds.len(),
{
    if ds.len() == 0 {
        0int
    } else {
        10 * digits_value(ds.drop_last()) + digit_val(ds.last())
    }
}

/// Ten to the `k`.
pub open spec fn pow10(k: nat) -> int
    decreases k,
{
    if k == 0 {
        1int
    } else {
        10 * pow10((k - 1) as nat)
    }
}

/// The exact value a valid literal denotes: all its digits over ten to the
/// number of fraction digits, negated when a minus sign is present.
pub open spec fn spec_literal_value(s: Seq<char>) -> Rat {
    let mag = digits_value(int_digits(s) + frac_digits(s));
    Rat {
        num: if is_negative(s) {
            -mag
        } else {
            mag
        },
        den: pow10(frac_digits(s).len() as nat),
    }
}

/// The unit a valid literal denotes.
pub open spec fn spec_literal_unit(s: Seq<char>) -> TemperatureUnit {
    TemperatureUnit::spec_matched_unit(unit_part(s)).unwrap()
}

/// Everything between `i` and the end of the digit run is a digit, and the
/// run stops either at the end of the string or at a non-digit.
pub proof fn lemma_digits_end(s: Seq<char>, i: int)
    requires
        0 <= i <= s.len(),
    ensures
        i <= digits_end(s, i) <= s.len(),
        forall|j: int| i <= j < digits_end(s, i) ==> is_digit_char(#[trigger] s[j]),
        digits_end(s, i) < s.len() ==> !is_digit_char(s[digits_end(s, i)]),
    decreases s.len() - i,
{
    if i < s.len() && is_digit_char(s[i]) {
        lemma_digits_end(s, i + 1);
    }
}

/// Ten to the power does not shrink as the exponent grows.
pub proof fn lemma_pow10_increases(a: nat, b: nat)
    requires
        a <= b,
    ensures
        pow10(a) <= pow10(b),
    decreases b,
{
    if a < b {
        lemma_pow10_increases(a, (b - 1) as nat);
        assert(pow10(b) == 10 * pow10((b - 1) as nat));
        assert(pow10(a) >= 1) by {
            lemma_pow10_positive(a);
        }
    }
}

/// Ten to any power is positive.
pub proof fn lemma_pow10_positive(k: nat)
    ensures
        pow10(k) >= 1,
    decreases k,
{
    if k > 0 {
        lemma_pow10_positive((k - 1) as nat);
    }
}

/// The concrete sizes of the powers of ten the parser's bounds rest on.
proof fn lemma_pow10_values()
    ensures
        pow10(29) == 100_000_000_000_000_000_000_000_000_000,
        pow10(30) == 1_000_000_000_000_000_000_000_000_000_000,
{
    reveal_with_fuel(pow10, 32);
}

/// The digit test, executable.
fn is_digit(c: char) -> (r: bool)
    ensures
        r == is_digit_char(c),
{
    let u = c as u32;
    48 <= u && u <= 57
}

/// Finds the end of the run of digits that starts at `start`.
fn find_digits_end(chars: &Vec<char>, start: usize) -> (r: usize)
    requires
        start <= chars@.len(),
    ensures
        r == digits_end(chars@, start as int),
        start <= r <= chars@.len(),
{
    let mut i = start;
    while i < chars.len() && is_digit(chars[i])
        invariant
            start <= i <= chars@.len(),
            digits_end(chars@, start as int) == digits_end(chars@, i as int),
        decreases chars@.len() - i,
    {
        i += 1;
    }
    proof {
        lemma_digits_end(chars@, start as int);
    }
    i
}

impl Temperature {
    /// Parses a temperature literal.
    ///
    /// An empty string is `Empty`; a non-empty string that does not match the
    /// grammar is `Invalid`; a literal that matches the grammar but carries
    /// more digits than the engine's precision is `Parse`, with the numeric
    /// part as written; anything else yields exactly the denoted value and
    /// unit, ready for conversion.
    #[verifier::rlimit(80)]
    pub fn from_str(s: &str) -> (r: Result<Temperature, ParseTemperatureError>)
        ensures
            s@.len() == 0 ==> r == Err::<Temperature, _>(ParseTemperatureError::Empty),
            s@.len() > 0 && !valid_literal(s@) ==> r == Err::<Temperature, _>(
                ParseTemperatureError::Invalid,
            ),
            valid_literal(s@) && literal_digit_count(s@) > MAX_LITERAL_DIGITS ==> (r matches Err(e)
                && e matches ParseTemperatureError::Parse { value } && value@ == number_part(s@)),
            valid_literal(s@) && literal_digit_count(s@) <= MAX_LITERAL_DIGITS ==> (r matches Ok(t)
                && t.unit == spec_literal_unit(s@) && t.value@ == spec_literal_value(s@)
                && t.convertible() && t.renderable()),
    {
        let n = s.unicode_len();
        if n == 0 {
            return Err(ParseTemperatureError::Empty);
        }
        let mut chars: Vec<char> = Vec::new();
        let mut i: usize = 0;
        while i < n
            invariant
                i <= n,
                n == s@.len(),
                chars@ == s@.subrange(0, i as int),
            decreases n - i,
        {
            let c = s.get_char(i);
            chars.push(c);
            proof {
                assert(chars@ =~= s@.subrange(0, i + 1));
            }
            i += 1;
        }
        proof {
            assert(chars@ =~= s@);
        }
        let slen = chars.len();

        // Optional sign.
        let first = chars[0];
        let sgn: usize = if first == '-' || first == '\u{2212}' {
            1
        } else {
            0
        };
        assert(sgn as int == sign_len(s@));

        // Integer digits: at least one is required.
        let i_end = find_digits_end(&chars, sgn);
        if i_end == sgn {
            return Err(ParseTemperatureError::Invalid);
        }

        // Optional fraction: a dot followed by at least one digit.
        let mut n_end = i_end;
        let mut f_start = i_end;
        if i_end < slen && chars[i_end] == '.' {
            let f_end = find_digits_end(&chars, i_end + 1);
            if f_end > i_end + 1 {
                n_end = f_end;
                f_start = i_end + 1;
            }
        }
        assert(n_end as int == num_end(s@));
        assert(f_start as int == if has_frac(s@) {
            int_end(s@) + 1
        } else {
            int_end(s@)
        });

        // Optional single space before the unit.
        let u_start = if n_end < slen && chars[n_end] == ' ' {
            n_end + 1
        } else {
            n_end
        };
        assert(u_start as int == unit_start(s@));

        // The unit symbol: first recognition match in registry order.
        let unit = match TemperatureUnit::matched_unit(&chars, u_start) {
            Some(u) => u,
            None => {
                return Err(ParseTemperatureError::Invalid);
            },
        };

        // Reject a numeric part beyond the engine's precision.
        let int_count = i_end - sgn;
        let frac_count = n_end - f_start;
        proof {
            assert(frac_digits(s@).len() == frac_count);
        }
        if int_count + frac_count > MAX_LITERAL_DIGITS {
            let raw = s.substring_char(0, n_end);
            return Err(ParseTemperatureError::Parse { value: raw.to_owned() });
        }

        // Read the digits, integer part then fraction part.
        proof {
            lemma_digits_end(s@, sgn as int);
            lemma_digits_end(s@, f_start as int);
            lemma_pow10_values();
        }
        let mut mag: i128 = 0;
        let mut j = sgn;
        while j < i_end
            invariant
                sgn <= j <= i_end,
                i_end <= s@.len(),
                chars@ == s@,
                i_end - sgn <= MAX_LITERAL_DIGITS,
                forall|k: int| sgn <= k < i_end ==> is_digit_char(#[trigger] s@[k]),
                mag == digits_value(s@.subrange(sgn as int, j as int)),
                0 <= mag < pow10((j - sgn) as nat),
                pow10(30) == 1_000_000_000_000_000_000_000_000_000_000,
            decreases i_end - j,
        {
            let c = chars[j];
            let d = (c as u32) - 48;
            proof {
                let prefix = s@.subrange(sgn as int, j as int);
                assert(s@.subrange(sgn as int, j + 1).drop_last() =~= prefix);
                assert(s@.subrange(sgn as int, j + 1).last() == s@[j as int]);
                assert(pow10((j + 1 - sgn) as nat) == 10 * pow10((j - sgn) as nat));
                lemma_pow10_increases((j + 1 - sgn) as nat, 30);
            }
            mag = mag * 10 + (d as i128);
            j += 1;
        }
        proof {
            assert(s@.subrange(sgn as int, i_end as int) =~= int_digits(s@));
        }
        let mut j = f_start;
        while j < n_end
            invariant
                f_start <= j <= n_end,
                n_end <= s@.len(),
                chars@ == s@,
                (i_end - sgn) + (n_end - f_start) <= MAX_LITERAL_DIGITS,
                sgn <= i_end <= f_start,
                int_digits(s@) == s@.subrange(sgn as int, i_end as int),
                forall|k: int| f_start <= k < n_end ==> is_digit_char(#[trigger] s@[k]),
                mag == digits_value(int_digits(s@) + s@.subrange(f_start as int, j as int)),
                0 <= mag < pow10(((i_end - sgn) + (j - f_start)) as nat),
                pow10(30) == 1_000_000_000_000_000_000_000_000_000_000,
            decreases n_end - j,
        {
            let c = chars[j];
            let d = (c as u32) - 48;
            proof {
                let prefix = int_digits(s@) + s@.subrange(f_start as int, j as int);
                assert((int_digits(s@) + s@.subrange(f_start as int, j + 1)).drop_last()
                    =~= prefix);
                assert((int_digits(s@) + s@.subrange(f_start as int, j + 1)).last() == s@[j as int]);
                let done = ((i_end - sgn) + (j - f_start)) as nat;
                assert(pow10((done + 1) as nat) == 10 * pow10(done));
                lemma_pow10_increases((done + 1) as nat, 30);
            }
            mag = mag * 10 + (d as i128);
            j += 1;
        }
        proof {
            if has_frac(s@) {
                assert(s@.subrange(f_start as int, n_end as int) =~= frac_digits(s@));
            } else {
                assert(s@.subrange(f_start as int, n_end as int) =~= frac_digits(s@));
                assert(int_digits(s@) + frac_digits(s@) =~= int_digits(s@)
                    + s@.subrange(f_start as int, n_end as int));
            }
            lemma_pow10_increases((literal_digit_count(s@)) as nat, 30);
        }

        // The denominator: ten to the number of fraction digits.
        let mut den: i128 = 1;
        let mut k: usize = 0;
        while k < frac_count
            invariant
                k <= frac_count,
                frac_count <= 29,
                den == pow10(k as nat),
                pow10(29) == 100_000_000_000_000_000_000_000_000_000,
            decreases frac_count - k,
        {
            proof {
                assert(pow10((k + 1) as nat) == 10 * pow10(k as nat));
                lemma_pow10_positive(k as nat);
                lemma_pow10_increases((k + 1) as nat, 29);
            }
            den = den * 10;
            k += 1;
        }
        proof {
            lemma_pow10_positive(frac_count as nat);
            lemma_pow10_increases(frac_count as nat, 29);
        }

        let num: i128 = if sgn == 1 {
            -mag
        } else {
            mag
        };
        Ok(Temperature { value: Rational { num, den }, unit })
    }
}

} // verus!
