//! Decimal numerals: what a run of ASCII digits denotes, and how it is read
//! into a machine integer.

use vstd::prelude::*;
use vstd::string::*;

verus! {

/// Why a text is not a decimal numeral within a bound.
#[derive(Clone, Copy, PartialEq, Eq, Debug, Structural)]
pub enum DecimalError {
    /// The text is empty or holds something else than the digits `0` to `9`.
    NotNumeric,
    /// The text is a numeral, but its value is above the bound.
    TooLarge,
}

pub open spec fn is_digit(c: char) -> bool {
    '0' <= c && c <= '9'
}

pub open spec fn digit_value(c: char) -> nat {
    (c as u32 - 48) as nat
}

pub open spec fn all_digits(s: Seq<char>) -> bool {
    forall|i: int| 0 <= i < s.len() ==> is_digit(#[trigger] s[i])
}

/// The number that a sequence of digits denotes, most significant digit first.
pub open spec fn decimal_value(s: Seq<char>) -> nat
    decreases s.len(),
{
    if s.len() == 0 {
        0
    } else {
        decimal_value(s.drop_last()) * 10 + digit_value(s.last())
    }
}

/// What reading `s` as a numeral of at most `max` gives.
pub open spec fn parse_decimal(s: Seq<char>, max: nat) -> Result<nat, DecimalError> {
    if s.len() == 0 || !all_digits(s) {
        Err(DecimalError::NotNumeric)
    } else if decimal_value(s) > max {
        Err(DecimalError::TooLarge)
    } else {
        Ok(decimal_value(s))
    }
}

/// A numeral is worth at least as much as each of its prefixes.
pub proof fn lemma_prefix_value(s: Seq<char>, n: int)
    requires
        0 <= n <= s.len(),
    ensures
        decimal_value(s.take(n)) <= decimal_value(s),
    decreases s.len() - n,
{
    if n == s.len() {
        assert(s.take(n) =~= s);
    } else {
        lemma_prefix_value(s, n + 1);
        assert(s.take(n + 1).drop_last() =~= s.take(n));
    }
}

/// Reads a decimal numeral into a `u64`.
pub fn parse_u64(text: &str) -> (r: Result<u64, DecimalError>)
    ensures
        match r {
            Ok(v) => parse_decimal(text@, u64::MAX as nat) == Ok::<nat, DecimalError>(v as nat),
            Err(e) => parse_decimal(text@, u64::MAX as nat) == Err::<nat, DecimalError>(e),
        },
{
    let len: usize = text.unicode_len();
    if len == 0 {
        return Err(DecimalError::NotNumeric);
    }
    let mut i: usize = 0;
    while i < len
        invariant
            len == text@.len(),
            i <= len,
            all_digits(text@.take(i as int)),
        decreases len - i,
    {
        let c = text.get_char(i);
        if !('0' <= c && c <= '9') {
            return Err(DecimalError::NotNumeric);
        }
        proof {
            assert forall|k: int| 0 <= k < i + 1 implies is_digit(#[trigger] text@.take(i + 1)[k]) by {
                if k < i {
                    assert(text@.take(i as int)[k] == text@[k]);
                }
            }
        }
        i = i + 1;
    }
    assert(text@.take(len as int) =~= text@);
    let mut value: u64 = 0;
    let mut j: usize = 0;
    while j < len
        invariant
            len == text@.len(),
            j <= len,
            all_digits(text@),
            value as nat == decimal_value(text@.take(j as int)),
        decreases len - j,
    {
        let c = text.get_char(j);
        assert(is_digit(text@[j as int]));
        let d: u64 = (c as u32 - 48) as u64;
        proof {
            assert(text@.take(j + 1).drop_last() =~= text@.take(j as int));
            assert(text@.take(j + 1).last() == c);
            lemma_prefix_value(text@, j + 1);
        }
        if value > (u64::MAX - d) / 10 {
            return Err(DecimalError::TooLarge);
        }
        value = value * 10 + d;
        j = j + 1;
    }
    Ok(value)
}

/// Reads a decimal numeral into a `u8`.
pub fn parse_u8(text: &str) -> (r: Result<u8, DecimalError>)
    ensures
        match r {
            Ok(v) => parse_decimal(text@, u8::MAX as nat) == Ok::<nat, DecimalError>(v as nat),
            Err(e) => parse_decimal(text@, u8::MAX as nat) == Err::<nat, DecimalError>(e),
        },
{
    match parse_u64(text) {
        Ok(v) => {
            if v > 255 {
                Err(DecimalError::TooLarge)
            } else {
                Ok(v as u8)
            }
        },
        Err(DecimalError::TooLarge) => Err(DecimalError::TooLarge),
        Err(DecimalError::NotNumeric) => Err(DecimalError::NotNumeric),
    }
}

} // verus!
