//! Parsing of human-readable size thresholds such as `100MB` or `1.5GiB`,
//! and the measurement of directory snapshots.
//!
//! A size is a decimal numeral, optionally with a fractional part of up to
//! nine digits, optionally followed by one of the units `KB`, `MB`, `GB`
//! (powers of 1000) or `KiB`, `MiB`, `GiB` (powers of 1024), written in any
//! letter case.

use vstd::prelude::*;
use vstd::string::StrSliceExecFns;
use crate::text::{
    ascii_lower, chars_of, find_char, first_index_of, lemma_first_index_of, slice_of,
    to_ascii_lower,
};

verus! {
/// Why a size string was rejected.
#[derive(Clone, Copy, Debug, PartialEq, Eq, Structural)]
pub enum SizeError {
    /// The text is not a size: a numeral is missing or malformed, there is
    /// more than one decimal point, or the fraction has more than nine digits.
    InvalidFormat,
    /// The numeral, or the byte count it stands for, does not fit in 64 bits.
    Overflow,
}

/// Whether `c` is one of the ten decimal digits.
pub open spec fn is_digit(c: char) -> bool {
    '0' <= c && c <= '9'
}

/// The number a decimal digit stands for.
pub open spec fn digit_value(c: char) -> nat {
    (c as u32 - '0' as u32) as nat
}

/// Whether `s` is a non-empty run of decimal digits.
pub open spec fn is_numeral(s: Seq<char>) -> bool {
    s.len() > 0 && forall|i: int| 0 <= i < s.len() ==> is_digit(#[trigger] s[i])
}

/// The number that a run of decimal digits denotes.
pub open spec fn decimal_value(s: Seq<char>) -> nat
    decreases s.len(),
{
    if s.len() == 0 {
        0
    } else {
        decimal_value(s.drop_last()) * 10 + digit_value(s.last())
    }
}

/// Ten to the power `n`.
pub open spec fn pow10(n: nat) -> nat
    decreases n,
{
    if n == 0 {
        1
    } else {
        10 * pow10((n - 1) as nat)
    }
}

/// The number of nano-units in one unit: the scale of a fractional part.
pub open spec fn nanos_per_unit() -> int {
    1_000_000_000
}

/// The three-letter binary unit, in lower case, whose multiplier is `m`.
pub open spec fn binary_unit_name(m: u64) -> Seq<char> {
    if m == 1_073_741_824 {
        seq!['g', 'i', 'b']
    } else if m == 1_048_576 {
        seq!['m', 'i', 'b']
    } else {
        seq!['k', 'i', 'b']
    }
}

/// The two-letter decimal unit, in lower case, whose multiplier is `m`.
pub open spec fn decimal_unit_name(m: u64) -> Seq<char> {
    if m == 1_000_000_000 {
        seq!['g', 'b']
    } else if m == 1_000_000 {
        seq!['m', 'b']
    } else {
        seq!['k', 'b']
    }
}

/// Whether `s` ends with `unit`, whatever the case of its letters.
pub open spec fn has_unit(s: Seq<char>, unit: Seq<char>) -> bool {
    s.len() >= unit.len() && ascii_lower(s.skip(s.len() - unit.len())) == unit
}

/// The length of the unit suffix of `s` and its multiplier. Binary units are
/// recognised before decimal ones; without a unit the multiplier is 1.
pub open spec fn unit_of(s: Seq<char>) -> (nat, u64) {
    if has_unit(s, binary_unit_name(1_073_741_824)) {
        (3, 1_073_741_824)
    } else if has_unit(s, binary_unit_name(1_048_576)) {
        (3, 1_048_576)
    } else if has_unit(s, binary_unit_name(1_024)) {
        (3, 1_024)
    } else if has_unit(s, decimal_unit_name(1_000_000_000)) {
        (2, 1_000_000_000)
    } else if has_unit(s, decimal_unit_name(1_000_000)) {
        (2, 1_000_000)
    } else if has_unit(s, decimal_unit_name(1_000)) {
        (2, 1_000)
    } else {
        (0, 1)
    }
}

/// The part of `s` in front of its unit suffix.
pub open spec fn number_part(s: Seq<char>) -> Seq<char> {
    s.take(s.len() - unit_of(s).0)
}

/// The product of two byte counts, or `Overflow` beyond 64 bits.
pub open spec fn checked_product(a: int, b: int) -> Result<u64, SizeError> {
    if a * b > u64::MAX {
        Err(SizeError::Overflow)
    } else {
        Ok((a * b) as u64)
    }
}

/// The sum of two byte counts, or `Overflow` beyond 64 bits.
pub open spec fn checked_sum(a: int, b: int) -> Result<u64, SizeError> {
    if a + b > u64::MAX {
        Err(SizeError::Overflow)
    } else {
        Ok((a + b) as u64)
    }
}

/// The value of a numeral as a 64-bit number.
pub open spec fn numeral_value(s: Seq<char>) -> Result<u64, SizeError> {
    if !is_numeral(s) {
        Err(SizeError::InvalidFormat)
    } else if decimal_value(s) > u64::MAX {
        Err(SizeError::Overflow)
    } else {
        Ok(decimal_value(s) as u64)
    }
}

/// The size that a numeral without a fraction denotes under `multiplier`.
pub open spec fn integer_size(number: Seq<char>, multiplier: u64) -> Result<u64, SizeError> {
    match numeral_value(number) {
        Ok(n) => checked_product(n as int, multiplier as int),
        Err(e) => Err(e),
    }
}

/// The nano-units that the digits after a decimal point denote: between one
/// and nine digits, scaled so that `5` is a half.
pub open spec fn fraction_nanos(digits: Seq<char>) -> Result<u64, SizeError> {
    if digits.len() > 9 || !is_numeral(digits) {
        Err(SizeError::InvalidFormat)
    } else {
        Ok((decimal_value(digits) * pow10((9 - digits.len()) as nat)) as u64)
    }
}

/// The size that a numeral with a fraction denotes under `multiplier`: the
/// whole part times the multiplier, plus the fraction's share of the
/// multiplier rounded down.
pub open spec fn decimal_size(number: Seq<char>, multiplier: u64) -> Result<u64, SizeError> {
    match first_index_of(number, '.') {
        None => Err(SizeError::InvalidFormat),
        Some(dot) => {
            let whole = number.take(dot);
            let fraction = number.skip(dot + 1);
            if !is_numeral(whole) {
                Err(SizeError::InvalidFormat)
            } else {
                match fraction_nanos(fraction) {
                    Err(e) => Err(e),
                    Ok(nanos) => {
                        if decimal_value(whole) > u64::MAX {
                            Err(SizeError::Overflow)
                        } else if decimal_value(whole) * multiplier > u64::MAX {
                            Err(SizeError::Overflow)
                        } else if nanos * multiplier > u64::MAX {
                            Err(SizeError::Overflow)
                        } else {
                            checked_sum(
                                decimal_value(whole) * multiplier,
                                (nanos * multiplier) / nanos_per_unit(),
                            )
                        }
                    },
                }
            }
        },
    }
}

/// The number of bytes that a size string denotes.
pub open spec fn size_of_text(s: Seq<char>) -> Result<u64, SizeError> {
    if s == seq!['0'] {
        Ok(0)
    } else {
        let number = number_part(s);
        let multiplier = unit_of(s).1;
        if number.contains('.') {
            decimal_size(number, multiplier)
        } else {
            integer_size(number, multiplier)
        }
    }
}

/// Multiply two values with overflow checking.
pub fn multiply_with_overflow_check(a: u64, b: u64) -> (r: Result<u64, SizeError>)
    ensures
        r == checked_product(a as int, b as int),
{
    match a.checked_mul(b) {
        Some(v) => Ok(v),
        None => Err(SizeError::Overflow),
    }
}

/// Add two values with overflow checking.
pub fn add_with_overflow_check(a: u64, b: u64) -> (r: Result<u64, SizeError>)
    ensures
        r == checked_sum(a as int, b as int),
{
    match a.checked_add(b) {
        Some(v) => Ok(v),
        None => Err(SizeError::Overflow),
    }
}

/// The value of a numeral grows with each digit appended to it.
pub proof fn lemma_decimal_value_prefix(s: Seq<char>, i: int)
    requires
        0 <= i <= s.len(),
    ensures
        decimal_value(s.take(i)) <= decimal_value(s),
    decreases s.len(),
{
    if i < s.len() {
        lemma_decimal_value_prefix(s.drop_last(), i);
        assert(s.drop_last().take(i) =~= s.take(i));
        assert(decimal_value(s.drop_last()) <= decimal_value(s)) by (nonlinear_arith)
            requires
                decimal_value(s) == decimal_value(s.drop_last()) * 10 + digit_value(s.last()),
        ;
    } else {
        assert(s.take(i) =~= s);
    }
}

/// A numeral of `n` digits is less than ten to the `n`.
pub proof fn lemma_decimal_value_bound(s: Seq<char>)
    requires
        forall|i: int| 0 <= i < s.len() ==> is_digit(#[trigger] s[i]),
    ensures
        decimal_value(s) < pow10(s.len()),
    decreases s.len(),
{
    if s.len() > 0 {
        lemma_decimal_value_bound(s.drop_last());
    }
}

/// Multiplying powers of ten adds their exponents.
pub proof fn lemma_pow10_add(a: nat, b: nat)
    ensures
        pow10(a) * pow10(b) == pow10(a + b),
    decreases a,
{
    if a > 0 {
        lemma_pow10_add((a - 1) as nat, b);
        assert(10 * pow10((a - 1) as nat) * pow10(b) == 10 * (pow10((a - 1) as nat) * pow10(b)))
            by (nonlinear_arith);
    } else {
        assert(pow10(0) == 1);
    }
}

/// Ten to the ninth is the number of nano-units in a unit.
pub proof fn lemma_pow10_nine()
    ensures
        pow10(9) == nanos_per_unit(),
{
    reveal_with_fuel(pow10, 10);
}

/// The number of a digit character.
fn digit_of(c: char) -> (d: u64)
    requires
        is_digit(c),
    ensures
        d == digit_value(c),
        d <= 9,
{
    (c as u32 - '0' as u32) as u64
}

/// Whether `s` is a non-empty run of decimal digits.
fn check_numeral(s: &Vec<char>) -> (r: bool)
    ensures
        r == is_numeral(s@),
{
    if s.len() == 0 {
        return false;
    }
    let mut i: usize = 0;
    while i < s.len()
        invariant
            i <= s.len(),
            forall|k: int| 0 <= k < i ==> is_digit(#[trigger] s@[k]),
        decreases s.len() - i,
    {
        let c = s[i];
        if !('0' <= c && c <= '9') {
            return false;
        }
        i += 1;
    }
    true
}

/// The value of a numeral as a 64-bit number.
fn parse_numeral(s: &Vec<char>) -> (r: Result<u64, SizeError>)
    ensures
        r == numeral_value(s@),
{
    if !check_numeral(s) {
        return Err(SizeError::InvalidFormat);
    }
    let mut acc: u64 = 0;
    let mut i: usize = 0;
    while i < s.len()
        invariant
            i <= s.len(),
            is_numeral(s@),
            acc == decimal_value(s@.take(i as int)),
        decreases s.len() - i,
    {
        let d = digit_of(s[i]);
        proof {
            assert(s@.take(i + 1).drop_last() =~= s@.take(i as int));
            lemma_decimal_value_prefix(s@, i + 1);
        }
        let shifted = match acc.checked_mul(10) {
            Some(v) => v,
            None => {
                return Err(SizeError::Overflow);
            },
        };
        acc = match shifted.checked_add(d) {
            Some(v) => v,
            None => {
                return Err(SizeError::Overflow);
            },
        };
        i += 1;
    }
    assert(s@.take(s@.len() as int) =~= s@);
    Ok(acc)
}

/// Parse the fractional part of a decimal number into nano-units.
pub fn parse_fractional_part(fractional_str: &str) -> (r: Result<u64, SizeError>)
    ensures
        r == fraction_nanos(fractional_str@),
{
    let digits = chars_of(fractional_str);
    fraction_of(&digits)
}

/// The nano-units that the digits after a decimal point denote.
fn fraction_of(digits: &Vec<char>) -> (r: Result<u64, SizeError>)
    ensures
        r == fraction_nanos(digits@),
        r matches Ok(n) ==> n < nanos_per_unit(),
{
    if digits.len() > 9 || !check_numeral(digits) {
        return Err(SizeError::InvalidFormat);
    }
    let mut acc: u64 = 0;
    let mut i: usize = 0;
    proof {
        lemma_pow10_nine();
    }
    while i < digits.len()
        invariant
            i <= digits.len() <= 9,
            is_numeral(digits@),
            acc == decimal_value(digits@.take(i as int)),
            acc < pow10(i as nat),
            pow10(9) == 1_000_000_000,
        decreases digits.len() - i,
    {
        let d = digit_of(digits[i]);
        proof {
            assert(digits@.take(i + 1).drop_last() =~= digits@.take(i as int));
            lemma_decimal_value_bound(digits@.take(i + 1));
            lemma_pow10_add((i + 1) as nat, (9 - (i + 1)) as nat);
            assert(pow10((i + 1) as nat) <= pow10(9)) by (nonlinear_arith)
                requires
                    pow10((i + 1) as nat) * pow10((9 - (i + 1)) as nat) == pow10(9),
                    pow10((9 - (i + 1)) as nat) >= 1,
            ;
        }
        acc = acc * 10 + d;
        i += 1;
    }
    assert(digits@.take(digits@.len() as int) =~= digits@);
    let ghost value = acc as nat;
    let mut k: usize = digits.len();
    proof {
        assert((k - digits.len()) as nat == 0);
    }
    while k < 9
        invariant
            digits.len() <= k <= 9,
            acc == value * pow10((k - digits.len()) as nat),
            value < pow10(digits@.len()),
            acc < pow10(k as nat),
            pow10(9) == 1_000_000_000,
        decreases 9 - k,
    {
        proof {
            lemma_pow10_add((k + 1) as nat, (9 - (k + 1)) as nat);
            assert(pow10((k + 1) as nat) <= pow10(9)) by (nonlinear_arith)
                requires
                    pow10((k + 1) as nat) * pow10((9 - (k + 1)) as nat) == pow10(9),
                    pow10((9 - (k + 1)) as nat) >= 1,
            ;
            assert(value * pow10((k - digits.len()) as nat) * 10 == value * (10 * pow10(
                (k - digits.len()) as nat,
            ))) by (nonlinear_arith);
        }
        acc = acc * 10;
        k += 1;
    }
    Ok(acc)
}

/// Parse an integer size value.
pub fn parse_integer_size(number_str: &str, multiplier: u64) -> (r: Result<u64, SizeError>)
    ensures
        r == integer_size(number_str@, multiplier),
{
    let number = chars_of(number_str);
    match parse_numeral(&number) {
        Ok(n) => multiply_with_overflow_check(n, multiplier),
        Err(e) => Err(e),
    }
}

/// Parse a decimal size value (e.g., "1.5").
pub fn parse_decimal_size(number_str: &str, multiplier: u64) -> (r: Result<u64, SizeError>)
    ensures
        r == decimal_size(number_str@, multiplier),
{
    let number = chars_of(number_str);
    let dot = match find_char(&number, '.') {
        Some(i) => i,
        None => {
            return Err(SizeError::InvalidFormat);
        },
    };
    let whole = slice_of(&number, 0, dot);
    let fraction = slice_of(&number, dot + 1, number.len());
    if !check_numeral(&whole) {
        return Err(SizeError::InvalidFormat);
    }
    let nanos = match fraction_of(&fraction) {
        Ok(n) => n,
        Err(e) => {
            return Err(e);
        },
    };
    let integer_part = match parse_numeral(&whole) {
        Ok(n) => n,
        Err(e) => {
            return Err(e);
        },
    };
    let integer_bytes = match multiply_with_overflow_check(integer_part, multiplier) {
        Ok(n) => n,
        Err(e) => {
            return Err(e);
        },
    };
    let scaled = match multiply_with_overflow_check(nanos, multiplier) {
        Ok(n) => n,
        Err(e) => {
            return Err(e);
        },
    };
    let fractional_bytes: u64 = scaled / 1_000_000_000;
    add_with_overflow_check(integer_bytes, fractional_bytes)
}

/// Whether the `n` last characters of `s` spell `unit`, whatever their case.
fn ends_with_unit(s: &Vec<char>, unit: &Vec<char>) -> (r: bool)
    ensures
        r == has_unit(s@, unit@),
{
    if s.len() < unit.len() {
        return false;
    }
    let base: usize = s.len() - unit.len();
    let ghost tail = s@.skip(s@.len() - unit@.len());
    let mut i: usize = 0;
    while i < unit.len()
        invariant
            i <= unit.len() <= s.len(),
            base == s.len() - unit.len(),
            tail == s@.skip(s@.len() - unit@.len()),
            forall|k: int| 0 <= k < i ==> ascii_lower(tail)[k] == unit@[k],
        decreases unit.len() - i,
    {
        if to_ascii_lower(s[base + i]) != unit[i] {
            return false;
        }
        i += 1;
    }
    assert(ascii_lower(tail) =~= unit@);
    true
}

/// Parse the unit suffix and return the numeric part with its multiplier.
pub fn parse_size_unit(size_str: &str) -> (r: (&str, u64))
    ensures
        r.0@ == number_part(size_str@),
        r.1 == unit_of(size_str@).1,
{
    let s = chars_of(size_str);
    let mut suffix: usize = 0;
    let mut multiplier: u64 = 1;
    if ends_with_unit(&s, &vec!['g', 'i', 'b']) {
        suffix = 3;
        multiplier = 1_073_741_824;
    } else if ends_with_unit(&s, &vec!['m', 'i', 'b']) {
        suffix = 3;
        multiplier = 1_048_576;
    } else if ends_with_unit(&s, &vec!['k', 'i', 'b']) {
        suffix = 3;
        multiplier = 1_024;
    } else if ends_with_unit(&s, &vec!['g', 'b']) {
        suffix = 2;
        multiplier = 1_000_000_000;
    } else if ends_with_unit(&s, &vec!['m', 'b']) {
        suffix = 2;
        multiplier = 1_000_000;
    } else if ends_with_unit(&s, &vec!['k', 'b']) {
        suffix = 2;
        multiplier = 1_000;
    }
    let number = size_str.substring_char(0, s.len() - suffix);
    (number, multiplier)
}

/// Parse a human-readable size string into bytes.
///
/// `"0"` is zero. Otherwise the text is a numeral, optionally with a
/// fraction of up to nine digits, optionally followed by a unit; the result
/// is the number of bytes it denotes, `InvalidFormat` when the text is not
/// of that form, and `Overflow` when a number on the way exceeds 64 bits.
pub fn parse_size(size_str: &str) -> (r: Result<u64, SizeError>)
    ensures
        r == size_of_text(size_str@),
{
    let s = chars_of(size_str);
    if s.len() == 1 && s[0] == '0' {
        assert(s@ =~= seq!['0']);
        return Ok(0);
    }
    let (number_str, multiplier) = parse_size_unit(size_str);
    let number = chars_of(number_str);
    proof {
        lemma_first_index_of(number@, '.');
    }
    if find_char(&number, '.').is_some() {
        parse_decimal_size(number_str, multiplier)
    } else {
        parse_integer_size(number_str, multiplier)
    }
}

/// The multiplier of a unit is at least 1.
pub proof fn lemma_unit_is_positive(s: Seq<char>)
    ensures
        unit_of(s).1 >= 1,
        unit_of(s).0 <= s.len(),
{
}

/// A size without a fraction is exact: it is the numeral times the
/// multiplier, and where that product does not fit in 64 bits the result
/// is `Overflow`, never a number that wrapped around.
pub proof fn lemma_integer_size_is_exact(number: Seq<char>, multiplier: u64)
    requires
        multiplier >= 1,
    ensures
        match integer_size(number, multiplier) {
            Ok(v) => is_numeral(number) && v == decimal_value(number) * multiplier,
            Err(SizeError::Overflow) => is_numeral(number) && decimal_value(number) * multiplier
                > u64::MAX,
            Err(SizeError::InvalidFormat) => !is_numeral(number),
        },
{
    if is_numeral(number) && decimal_value(number) > u64::MAX {
        assert(decimal_value(number) * multiplier > u64::MAX) by (nonlinear_arith)
            requires
                decimal_value(number) > u64::MAX,
                multiplier >= 1,
        ;
    }
}

/// A size with a fraction is exact: it is the whole part times the
/// multiplier plus the fraction's share of the multiplier, rounded down;
/// it is `Overflow` exactly where a number on the way does not fit in 64
/// bits.
pub proof fn lemma_decimal_size_is_exact(number: Seq<char>, multiplier: u64)
    ensures
        match decimal_size(number, multiplier) {
            Ok(v) => first_index_of(number, '.') matches Some(dot) && fraction_nanos(
                number.skip(dot + 1),
            ) matches Ok(nanos) && v == decimal_value(number.take(dot)) * multiplier + (nanos
                * multiplier) / nanos_per_unit(),
            Err(_) => true,
        },
{
}

/// A size string is accepted only in the form of a numeral, an optional
/// fraction of one to nine digits, and an optional unit.
pub proof fn lemma_accepted_sizes_are_well_formed(s: Seq<char>)
    requires
        size_of_text(s).is_ok(),
    ensures
        s == seq!['0'] || is_numeral(number_part(s)) || (first_index_of(number_part(s), '.')
            matches Some(dot) && is_numeral(number_part(s).take(dot)) && is_numeral(
            number_part(s).skip(dot + 1),
        ) && number_part(s).skip(dot + 1).len() <= 9),
{
    if s != seq!['0'] {
        lemma_first_index_of(number_part(s), '.');
    }
}

} // verus!
