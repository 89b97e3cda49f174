//! Unit parser: quota strings such as `"1tb"` to exact byte counts.

use vstd::prelude::*;
use vstd::string::StrSliceExecFns;

verus! {

/// Whether quota suffixes denote powers of 1000 (decimal/SI) or powers of
/// 1024 (binary/IEC). Fixed once at configuration load.
#[derive(Clone, Copy, Debug, PartialEq, Eq, Structural)]
pub enum UnitType {
    Decimal,
    Binary,
}

/// Why a quota string failed to parse.
#[derive(Clone, Copy, Debug, PartialEq, Eq, Structural)]
pub enum ParseError {
    /// The string does not begin with a decimal digit.
    NoDigits,
    /// The magnitude, or the magnitude scaled by the unit multiplier, does
    /// not fit in 64 bits.
    Overflow,
    /// The suffix after the digits is not one of b, kb, mb, gb, tb
    /// (matched case-insensitively).
    UnknownUnit,
}

pub open spec fn is_digit_char(c: char) -> bool {
    '0' <= c && c <= '9'
}

pub open spec fn digit_val(c: char) -> int {
    c as int - '0' as int
}

/// Length of the leading run of decimal digits.
pub open spec fn digit_run_len(s: Seq<char>) -> int
    decreases s.len(),
{
    if s.len() == 0 || !is_digit_char(s[0]) {
        0
    } else {
        1 + digit_run_len(s.subrange(1, s.len() as int))
    }
}

/// Numeric value of a sequence of decimal digits, most significant first.
pub open spec fn digits_val(s: Seq<char>) -> int
    decreases s.len(),
{
    if s.len() == 0 {
        0
    } else {
        digits_val(s.drop_last()) * 10 + digit_val(s.last())
    }
}

/// Case-insensitive match of one character.
pub open spec fn char_eqi(c: char, lo: char, up: char) -> bool {
    c == lo || c == up
}

/// The scaling factor one step up the unit ladder.
pub open spec fn spec_kilo(unit_type: UnitType) -> int {
    match unit_type {
        UnitType::Decimal => 1000,
        UnitType::Binary => 1024,
    }
}

/// Bytes per unit for a suffix, or None if the suffix is unknown.
pub open spec fn unit_multiplier(suffix: Seq<char>, unit_type: UnitType) -> Option<int> {
    let kilo = spec_kilo(unit_type);
    if suffix.len() == 1 && char_eqi(suffix[0], 'b', 'B') {
        Some(1)
    } else if suffix.len() == 2 && char_eqi(suffix[1], 'b', 'B') {
        if char_eqi(suffix[0], 'k', 'K') {
            Some(kilo)
        } else if char_eqi(suffix[0], 'm', 'M') {
            Some(kilo * kilo)
        } else if char_eqi(suffix[0], 'g', 'G') {
            Some(kilo * kilo * kilo)
        } else if char_eqi(suffix[0], 't', 'T') {
            Some(kilo * kilo * kilo * kilo)
        } else {
            None
        }
    } else {
        None
    }
}

/// The exact meaning of quota-string parsing: split off the leading digit
/// run, scale its value by the suffix's multiplier under the chosen unit
/// convention, and reject anything that does not fit in 64 bits.
pub open spec fn spec_parse_quota(s: Seq<char>, unit_type: UnitType) -> Result<u64, ParseError> {
    let k = digit_run_len(s);
    if k == 0 {
        Err(ParseError::NoDigits)
    } else if digits_val(s.take(k)) > u64::MAX {
        Err(ParseError::Overflow)
    } else {
        match unit_multiplier(s.skip(k), unit_type) {
            Option::None => Err(ParseError::UnknownUnit),
            Option::Some(m) => {
                if digits_val(s.take(k)) * m > u64::MAX {
                    Err(ParseError::Overflow)
                } else {
                    Ok((digits_val(s.take(k)) * m) as u64)
                }
            },
        }
    }
}

/// The digit run is exactly the longest digit prefix.
proof fn lemma_digit_run_len_is_prefix(s: Seq<char>, i: int)
    requires
        0 <= i <= s.len(),
        forall|j: int| 0 <= j < i ==> is_digit_char(s[j]),
        i == s.len() || !is_digit_char(s[i]),
    ensures
        digit_run_len(s) == i,
    decreases i,
{
    if i == 0 {
    } else {
        let t = s.subrange(1, s.len() as int);
        assert(forall|j: int| 0 <= j < i - 1 ==> s[j + 1] == t[j] && is_digit_char(s[j + 1]));
        lemma_digit_run_len_is_prefix(t, i - 1);
    }
}

/// A sequence of digits has a nonnegative value, and the value can only
/// grow as more digits are appended.
proof fn lemma_digits_val_monotone(s: Seq<char>, j: int, k: int)
    requires
        0 <= j <= k <= s.len(),
        forall|t: int| 0 <= t < k ==> is_digit_char(s[t]),
    ensures
        0 <= digits_val(s.take(j)),
        digits_val(s.take(j)) <= digits_val(s.take(k)),
    decreases k,
{
    if k == 0 {
        assert(s.take(0).len() == 0);
    } else if j == k {
        lemma_digits_val_monotone(s, k - 1, k - 1);
        assert(s.take(k).drop_last() =~= s.take(k - 1));
        assert(s.take(k).last() == s[k - 1]);
    } else {
        lemma_digits_val_monotone(s, j, k - 1);
        assert(s.take(k).drop_last() =~= s.take(k - 1));
        assert(s.take(k).last() == s[k - 1]);
        assert(digits_val(s.take(k)) == digits_val(s.take(k - 1)) * 10 + digit_val(s[k - 1]));
        assert(digits_val(s.take(k - 1)) * 10 >= digits_val(s.take(k - 1))) by {
            lemma_digits_val_monotone(s, k - 1, k - 1);
        }
    }
}

/// Parse a quota string into a byte count.
///
/// The string must be a run of decimal digits followed by a unit suffix in
/// {b, kb, mb, gb, tb}, matched case-insensitively. Under `Decimal` the
/// suffixes scale by powers of 1000, under `Binary` by powers of 1024.
/// Deterministic and free of side effects, so repeated calls on the same
/// input return the same byte count.
pub fn parse_quota(s: &str, unit_type: UnitType) -> (r: Result<u64, ParseError>)
    ensures
        r == spec_parse_quota(s@, unit_type),
{
    let n = s.unicode_len();
    let ghost sv = s@;
    // Find the leading digit run.
    let mut k: usize = 0;
    loop
        invariant
            0 <= k <= n,
            n == sv.len(),
            sv == s@,
            forall|j: int| 0 <= j < k ==> is_digit_char(sv[j]),
        ensures
            0 <= k <= n,
            forall|j: int| 0 <= j < k ==> is_digit_char(sv[j]),
            k == n || !is_digit_char(sv[k as int]),
        decreases n - k,
    {
        if k == n {
            break;
        }
        let c = s.get_char(k);
        if !('0' <= c && c <= '9') {
            break;
        }
        k = k + 1;
    }
    proof {
        lemma_digit_run_len_is_prefix(sv, k as int);
    }
    if k == 0 {
        return Err(ParseError::NoDigits);
    }
    // Accumulate the magnitude, watching for 64-bit overflow.
    let mut value: u64 = 0;
    let mut i: usize = 0;
    while i < k
        invariant_except_break
            k > 0,
            0 <= i <= k <= n,
            n == sv.len(),
            sv == s@,
            forall|j: int| 0 <= j < k ==> is_digit_char(sv[j]),
            digit_run_len(sv) == k,
            value == digits_val(sv.take(i as int)),
        ensures
            sv == s@,
            digit_run_len(sv) == k,
            k > 0,
            if digits_val(sv.take(k as int)) > u64::MAX {
                i < k
            } else {
                i == k && value == digits_val(sv.take(k as int))
            },
        decreases k - i,
    {
        let c = s.get_char(i);
        let d: u64 = (c as u64) - ('0' as u64);
        proof {
            assert(is_digit_char(sv[i as int]));
            assert(d == digit_val(sv[i as int]));
            assert(sv.take(i + 1).drop_last() =~= sv.take(i as int));
            assert(sv.take(i + 1).last() == sv[i as int]);
        }
        if value > (u64::MAX - d) / 10 {
            proof {
                assert(digits_val(sv.take(i + 1)) > u64::MAX) by {
                    assert(digits_val(sv.take(i + 1)) == value * 10 + d);
                    assert(value * 10 + d > u64::MAX) by (nonlinear_arith)
                        requires
                            value > (u64::MAX - d) / 10,
                            0 <= d <= 9,
                            value <= u64::MAX,
                    ;
                }
                lemma_digits_val_monotone(sv, i + 1, k as int);
            }
            break;
        }
        proof {
            assert(value * 10 + d <= u64::MAX) by (nonlinear_arith)
                requires
                    value <= (u64::MAX - d) / 10,
                    0 <= d <= 9,
            ;
        }
        value = value * 10 + d;
        i = i + 1;
    }
    if i < k {
        return Err(ParseError::Overflow);
    }
    // Classify the suffix, case-insensitively.
    let suffix_len = n - k;
    let kilo: u64 = match unit_type {
        UnitType::Decimal => 1000,
        UnitType::Binary => 1024,
    };
    let multiplier: u64;
    if suffix_len == 1 && char_is(s.get_char(k), 'b', 'B') {
        multiplier = 1;
    } else if suffix_len == 2 && char_is(s.get_char(k + 1), 'b', 'B') {
        let c0 = s.get_char(k);
        if char_is(c0, 'k', 'K') {
            multiplier = kilo;
        } else if char_is(c0, 'm', 'M') {
            multiplier = kilo * kilo;
        } else if char_is(c0, 'g', 'G') {
            multiplier = kilo * kilo * kilo;
        } else if char_is(c0, 't', 'T') {
            multiplier = kilo * kilo * kilo * kilo;
        } else {
            proof { lemma_suffix_chars(sv, k as int); }
            return Err(ParseError::UnknownUnit);
        }
    } else {
        proof { lemma_suffix_chars(sv, k as int); }
        return Err(ParseError::UnknownUnit);
    }
    proof {
        lemma_suffix_chars(sv, k as int);
        assert(unit_multiplier(sv.skip(k as int), unit_type) == Some(multiplier as int));
    }
    // Scale, again watching for overflow.
    match value.checked_mul(multiplier) {
        Option::Some(total) => Ok(total),
        Option::None => Err(ParseError::Overflow),
    }
}

/// The view of the suffix of `s` from position `k` on, element by element.
proof fn lemma_suffix_chars(s: Seq<char>, k: int)
    requires
        0 <= k <= s.len(),
    ensures
        s.skip(k).len() == s.len() - k,
        forall|j: int| 0 <= j < s.len() - k ==> s.skip(k)[j] == s[k + j],
{
}

/// Case-insensitive match of one character, executable twin of `char_eqi`.
fn char_is(c: char, lo: char, up: char) -> (r: bool)
    ensures
        r == char_eqi(c, lo, up),
{
    c == lo || c == up
}

/// Parsing is pure: it depends on nothing but the string and the
/// convention, so parsing the same input twice under the same convention
/// yields the same byte count. `parse_quota` returns exactly
/// `spec_parse_quota` of its input, so any two of its calls on equal
/// inputs agree.
pub proof fn lemma_parse_quota_deterministic(
    s1: Seq<char>,
    s2: Seq<char>,
    unit_type1: UnitType,
    unit_type2: UnitType,
)
    requires
        s1 == s2,
        unit_type1 == unit_type2,
    ensures
        spec_parse_quota(s1, unit_type1) == spec_parse_quota(s2, unit_type2),
{
}

/// Parse a quota string, collapsing all parse failures to `None`.
///
/// Same split and multiplier table as [`parse_quota`]; this is the
/// lookup-table entry point used while loading a configuration.
pub fn byte_conversion(s: &str, unit_type: &UnitType) -> (r: Option<u64>)
    ensures
        r == spec_parse_quota(s@, *unit_type).ok(),
        r is Some <==> spec_parse_quota(s@, *unit_type) is Ok,
{
    match parse_quota(s, *unit_type) {
        Ok(v) => Some(v),
        Err(_) => None,
    }
}

} // verus!
