//! Conversion of an assembled readout string into a typed number.
//!
//! The recognized textual form of an unsigned integer is a non-empty run of
//! decimal digits; the minus sign is stripped by the caller before parsing,
//! so a stray `-` (or a `.`) inside the string is an invalid digit here.

use vstd::prelude::*;

verus! {

/// Why an assembled string could not be converted to the requested type.
#[derive(Clone, Copy, Debug, PartialEq, Eq, Structural)]
pub enum ParseError {
    /// The string (after sign stripping) is empty.
    Empty,
    /// The string holds a character that is not a decimal digit.
    InvalidDigit,
    /// The denoted value does not fit in the requested type.
    Overflow,
}

/// Whether `c` is a decimal digit.
pub open spec fn spec_is_digit(c: char) -> bool {
    c == '0' || c == '1' || c == '2' || c == '3' || c == '4' || c == '5' || c == '6' || c == '7'
        || c == '8' || c == '9'
}

/// The value of the decimal digit `c` (zero for a non-digit).
pub open spec fn spec_digit_value(c: char) -> nat {
    if c == '1' {
        1
    } else if c == '2' {
        2
    } else if c == '3' {
        3
    } else if c == '4' {
        4
    } else if c == '5' {
        5
    } else if c == '6' {
        6
    } else if c == '7' {
        7
    } else if c == '8' {
        8
    } else if c == '9' {
        9
    } else {
        0
    }
}

/// Whether every character of `s` is a decimal digit.
pub open spec fn spec_all_digits(s: Seq<char>) -> bool {
    forall|i: int| 0 <= i < s.len() ==> spec_is_digit(s[i])
}

/// The number denoted by the digit string `s`, most significant digit first.
pub open spec fn spec_digits_value(s: Seq<char>) -> nat
    decreases s.len(),
{
    if s.len() == 0 {
        0
    } else {
        spec_digits_value(s.drop_last()) * 10 + spec_digit_value(s.last())
    }
}

/// A digit string denotes at least as much as any of its prefixes.
pub proof fn lemma_digits_value_prefix(s: Seq<char>, i: int)
    requires
        0 <= i <= s.len(),
    ensures
        spec_digits_value(s.take(i)) <= spec_digits_value(s),
    decreases s.len() - i,
{
    if i == s.len() {
        assert(s.take(i) =~= s);
    } else {
        assert(s.take(i + 1).drop_last() =~= s.take(i));
        assert(spec_digits_value(s.take(i)) <= spec_digits_value(s.take(i)) * 10
            + spec_digit_value(s.take(i + 1).last()));
        lemma_digits_value_prefix(s, i + 1);
    }
}

/// A numeric type the parser can target: `spec_parse` fixes, for every
/// string, whether parsing succeeds and with which value or error, and
/// `parse_decimal` computes exactly that.
pub trait ParseDecimal: Sized {
    /// The outcome of parsing `s` into this type.
    spec fn spec_parse(s: Seq<char>) -> Result<Self, ParseError>;

    /// Parses `s` into this type.
    fn parse_decimal(s: &str) -> (r: Result<Self, ParseError>)
        ensures
            r == Self::spec_parse(s@),
    ;
}

/// The digit of `c`, or `None` when `c` is no decimal digit.
fn char_digit(c: char) -> (r: Option<u8>)
    ensures
        r.is_some() <==> spec_is_digit(c),
        match r {
            Some(d) => d as nat == spec_digit_value(c) && d < 10,
            None => true,
        },
{
    if c == '0' {
        Some(0)
    } else if c == '1' {
        Some(1)
    } else if c == '2' {
        Some(2)
    } else if c == '3' {
        Some(3)
    } else if c == '4' {
        Some(4)
    } else if c == '5' {
        Some(5)
    } else if c == '6' {
        Some(6)
    } else if c == '7' {
        Some(7)
    } else if c == '8' {
        Some(8)
    } else if c == '9' {
        Some(9)
    } else {
        None
    }
}

/// The outcome of parsing `s` as an unsigned integer no greater than `max`:
/// empty input, a non-digit and a too-large value are rejected, in that
/// order of precedence.
pub open spec fn spec_parse_unsigned(s: Seq<char>, max: nat) -> Result<nat, ParseError> {
    if s.len() == 0 {
        Err(ParseError::Empty)
    } else if !spec_all_digits(s) {
        Err(ParseError::InvalidDigit)
    } else if spec_digits_value(s) > max {
        Err(ParseError::Overflow)
    } else {
        Ok(spec_digits_value(s))
    }
}

impl ParseDecimal for u64 {
    open spec fn spec_parse(s: Seq<char>) -> Result<u64, ParseError> {
        match spec_parse_unsigned(s, u64::MAX as nat) {
            Ok(v) => Ok(v as u64),
            Err(e) => Err(e),
        }
    }

    #[verifier::loop_isolation(false)]
    fn parse_decimal(s: &str) -> (r: Result<u64, ParseError>) {
        let n = s.unicode_len();
        if n == 0 {
            return Err(ParseError::Empty);
        }
        let mut i: usize = 0;
        while i < n
            invariant
                i <= n,
                spec_all_digits(s@.take(i as int)),
            decreases n - i,
        {
            let c = s.get_char(i);
            if char_digit(c).is_none() {
                return Err(ParseError::InvalidDigit);
            }
            proof {
                assert(s@.take(i + 1) =~= s@.take(i as int).push(c));
            }
            i = i + 1;
        }
        proof {
            assert(s@.take(n as int) =~= s@);
        }
        let mut acc: u64 = 0;
        i = 0;
        while i < n
            invariant
                i <= n,
                acc as nat == spec_digits_value(s@.take(i as int)),
            decreases n - i,
        {
            let c = s.get_char(i);
            let d: u64 = match char_digit(c) {
                Some(d) => d as u64,
                None => 0,
            };
            proof {
                assert(s@.take(i + 1).drop_last() =~= s@.take(i as int));
            }
            if acc > (u64::MAX - d) / 10 {
                proof {
                    assert(acc * 10 + d > u64::MAX) by (nonlinear_arith)
                        requires
                            acc > (u64::MAX - d) / 10,
                            d <= 9,
                    ;
                    lemma_digits_value_prefix(s@, i + 1);
                }
                return Err(ParseError::Overflow);
            }
            proof {
                assert(acc * 10 + d <= u64::MAX) by (nonlinear_arith)
                    requires
                        acc <= (u64::MAX - d) / 10,
                        d <= 9,
                ;
            }
            acc = acc * 10 + d;
            i = i + 1;
        }
        Ok(acc)
    }
}

impl ParseDecimal for u32 {
    open spec fn spec_parse(s: Seq<char>) -> Result<u32, ParseError> {
        match spec_parse_unsigned(s, u32::MAX as nat) {
            Ok(v) => Ok(v as u32),
            Err(e) => Err(e),
        }
    }

    fn parse_decimal(s: &str) -> (r: Result<u32, ParseError>) {
        match u64::parse_decimal(s) {
            Ok(v) => if v <= u32::MAX as u64 {
                Ok(v as u32)
            } else {
                Err(ParseError::Overflow)
            },
            Err(e) => Err(e),
        }
    }
}

impl ParseDecimal for u8 {
    open spec fn spec_parse(s: Seq<char>) -> Result<u8, ParseError> {
        match spec_parse_unsigned(s, u8::MAX as nat) {
            Ok(v) => Ok(v as u8),
            Err(e) => Err(e),
        }
    }

    fn parse_decimal(s: &str) -> (r: Result<u8, ParseError>) {
        match u64::parse_decimal(s) {
            Ok(v) => if v <= u8::MAX as u64 {
                Ok(v as u8)
            } else {
                Err(ParseError::Overflow)
            },
            Err(e) => Err(e),
        }
    }
}

} // verus!
