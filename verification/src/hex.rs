//! Parsing a 16-bit number from a command-line style string: a `0x` prefix
//! selects hexadecimal, anything else is read as decimal.

use vstd::prelude::*;

verus! {

/// Why a numeric string did not parse.
#[derive(Clone, Copy, Debug, PartialEq, Eq, Structural)]
pub enum NumberError {
    /// The input is empty.
    Empty,
    /// A character is no digit of the selected radix, or nothing follows a
    /// leading `+`.
    InvalidDigit,
    /// The value does not fit in 16 bits.
    Overflow,
}

/// The value of one digit character, or 16 where the character is no
/// hexadecimal digit.
pub open spec fn digit_value(c: char) -> int {
    if '0' as int <= c as int <= '9' as int {
        c as int - '0' as int
    } else if 'a' as int <= c as int <= 'f' as int {
        c as int - 'a' as int + 10
    } else if 'A' as int <= c as int <= 'F' as int {
        c as int - 'A' as int + 10
    } else {
        16
    }
}

/// Whether a character is a digit of the given radix.
pub open spec fn is_radix_digit(c: char, radix: int) -> bool {
    digit_value(c) < radix
}

/// The number a digit string denotes in the given radix, most significant
/// digit first.
pub open spec fn radix_value(digits: Seq<char>, radix: int) -> int
    decreases digits.len(),
{
    if digits.len() == 0 {
        0
    } else {
        radix_value(digits.drop_last(), radix) * radix + digit_value(digits.last())
    }
}

/// The digit part of a numeric string: everything after an optional leading
/// `+`.
pub open spec fn strip_plus(s: Seq<char>) -> Seq<char> {
    if s.len() > 0 && s[0] == '+' {
        s.drop_first()
    } else {
        s
    }
}

/// What parsing a string in the given radix yields: the denoted value, or
/// `Empty` for an empty input, `InvalidDigit` where a character is no digit
/// of the radix (or nothing follows a leading `+`), and `Overflow` where the
/// digits denote a value above `u16::MAX`.
pub open spec fn parse_radix_result(s: Seq<char>, radix: int) -> Result<u16, NumberError> {
    let d = strip_plus(s);
    if s.len() == 0 {
        Result::Err(NumberError::Empty)
    } else if d.len() == 0 || !(forall|i: int| 0 <= i < d.len() ==> is_radix_digit(#[trigger] d[i], radix)) {
        Result::Err(NumberError::InvalidDigit)
    } else if radix_value(d, radix) > u16::MAX {
        Result::Err(NumberError::Overflow)
    } else {
        Result::Ok(radix_value(d, radix) as u16)
    }
}

/// What parsing a 16-bit number from a command-line string yields: with a
/// `0x` prefix, the rest read as hexadecimal; otherwise the whole string
/// read as decimal.
pub open spec fn parse_hex_16_result(s: Seq<char>) -> Result<u16, NumberError> {
    if s.len() >= 2 && s[0] == '0' && s[1] == 'x' {
        parse_radix_result(s.skip(2), 16)
    } else {
        parse_radix_result(s, 10)
    }
}

/// A value kept above `u16::MAX` stays above it when another digit is
/// appended.
proof fn lemma_value_grows(v: int, radix: int, d: int)
    requires
        v > u16::MAX,
        radix >= 1,
        d >= 0,
    ensures
        v * radix + d > u16::MAX,
{
    vstd::arithmetic::mul::lemma_mul_inequality(1, radix, v);
    vstd::arithmetic::mul::lemma_mul_is_commutative(v, radix);
    vstd::arithmetic::mul::lemma_mul_basics(v);
}

/// Parses the digit part of a numeric string in the given radix, starting at
/// character `start`.
fn parse_radix(input: &str, start: usize, radix: u32) -> (r: Result<u16, NumberError>)
    requires
        start <= input@.len(),
        radix == 10 || radix == 16,
    ensures
        input@.skip(start as int).len() > 0 ==> r == parse_radix_result(
            input@.skip(start as int),
            radix as int,
        ),
        input@.skip(start as int).len() == 0 ==> r == Result::<u16, NumberError>::Err(
            NumberError::Empty,
        ),
{
    let ghost s = input@.skip(start as int);
    let n: usize = input.unicode_len();
    if n == start {
        return Result::Err(NumberError::Empty);
    }
    let mut i: usize = start;
    if input.get_char(i) == '+' {
        i = i + 1;
    }
    let ghost d = strip_plus(s);
    proof {
        assert(d =~= input@.skip(i as int));
    }
    if i == n {
        return Result::Err(NumberError::InvalidDigit);
    }
    let mut acc: u32 = 0;
    let mut overflowed: bool = false;
    let ghost dstart = i as int;
    #[verifier::loop_isolation(false)]
    while i < n
        invariant
            dstart <= i <= n,
            acc <= 0xFFFF,
            forall|k: int| 0 <= k < i - dstart ==> is_radix_digit(#[trigger] d[k], radix as int),
            overflowed <==> radix_value(d.take(i - dstart), radix as int) > u16::MAX,
            !overflowed ==> acc == radix_value(d.take(i - dstart), radix as int),
        decreases n - i,
    {
        let c = input.get_char(i);
        let cv: u32 = c as u32;
        let dv: u32 = if cv >= '0' as u32 && cv <= '9' as u32 {
            cv - '0' as u32
        } else if cv >= 'a' as u32 && cv <= 'f' as u32 {
            cv - 'a' as u32 + 10
        } else if cv >= 'A' as u32 && cv <= 'F' as u32 {
            cv - 'A' as u32 + 10
        } else {
            16
        };
        proof {
            assert(c == d[i - dstart]);
            assert(dv as int == digit_value(c));
        }
        if dv >= radix {
            proof {
                assert(!is_radix_digit(d[i - dstart], radix as int));
            }
            return Result::Err(NumberError::InvalidDigit);
        }
        proof {
            assert(d.take(i - dstart + 1).drop_last() =~= d.take(i - dstart));
            assert(d.take(i - dstart + 1).last() == d[i - dstart]);
            if overflowed {
                lemma_value_grows(
                    radix_value(d.take(i - dstart), radix as int),
                    radix as int,
                    digit_value(d[i - dstart]),
                );
            }
        }
        if !overflowed {
            acc = acc * radix + dv;
            if acc > 0xFFFF {
                overflowed = true;
                acc = 0;
            }
        }
        i = i + 1;
    }
    proof {
        assert(d.take(n - dstart) =~= d);
    }
    if overflowed {
        Result::Err(NumberError::Overflow)
    } else {
        Result::Ok(acc as u16)
    }
}

/// Parses a 16-bit number from a command-line string: a `0x` prefix selects
/// hexadecimal, anything else is read as decimal. An optional `+` may lead
/// the digits.
pub fn parse_hex_16(input: &str) -> (r: Result<u16, NumberError>)
    ensures
        r == parse_hex_16_result(input@),
{
    let n: usize = input.unicode_len();
    if n >= 2 && input.get_char(0) == '0' && input.get_char(1) == 'x' {
        parse_radix(input, 2, 16)
    } else {
        let r = parse_radix(input, 0, 10);
        proof {
            assert(input@.skip(0) =~= input@);
        }
        r
    }
}

} // verus!
