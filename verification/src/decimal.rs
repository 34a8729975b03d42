//! Decimal text for integers: rendering and parsing, with the same
//! acceptance rules as the standard library's integer `FromStr`.
use vstd::prelude::*;

verus! {

/// The ASCII digit for a value below ten.
pub open spec fn digit_char(d: nat) -> char
    recommends
        d < 10,
{
    if d == 0 {
        '0'
    } else if d == 1 {
        '1'
    } else if d == 2 {
        '2'
    } else if d == 3 {
        '3'
    } else if d == 4 {
        '4'
    } else if d == 5 {
        '5'
    } else if d == 6 {
        '6'
    } else if d == 7 {
        '7'
    } else if d == 8 {
        '8'
    } else {
        '9'
    }
}

/// Decimal digits of a natural number, most significant first, no leading zeros.
pub open spec fn nat_digits(n: nat) -> Seq<char>
    decreases n,
{
    if n < 10 {
        seq![digit_char(n)]
    } else {
        nat_digits(n / 10).push(digit_char(n % 10))
    }
}

/// Decimal text of an integer, with a leading '-' for negative values.
pub open spec fn int_text(i: int) -> Seq<char> {
    if i < 0 {
        seq!['-'] + nat_digits((-i) as nat)
    } else {
        nat_digits(i as nat)
    }
}

pub open spec fn is_digit(c: char) -> bool {
    '0' <= c && c <= '9'
}

/// Value of a decimal digit character.
pub open spec fn digit_val(c: char) -> nat {
    (c as int - '0' as int) as nat
}

/// Why a decimal text is not an integer of the requested type.
#[derive(Clone, Copy, Debug, PartialEq, Eq, Structural)]
pub enum IntParseError {
    Empty,
    InvalidDigit,
    PosOverflow,
    NegOverflow,
}

/// Splits an optional leading sign from the digits: `(negative, digits)`.
pub open spec fn split_sign(s: Seq<char>) -> (bool, Seq<char>) {
    if s.len() > 0 && s[0] == '-' {
        (true, s.drop_first())
    } else if s.len() > 0 && s[0] == '+' {
        (false, s.drop_first())
    } else {
        (false, s)
    }
}

/// Reads the digits of `body` from position `i` on, the magnitude read so
/// far being `acc`, one character at a time and left to right: the first
/// character that is not a digit, or the first digit that takes the
/// magnitude past `limit`, decides the error.
pub open spec fn scan_digits(body: Seq<char>, i: nat, acc: nat, limit: nat, neg: bool) -> Result<nat, IntParseError>
    decreases body.len() - i,
{
    if i >= body.len() {
        Ok(acc)
    } else if !is_digit(body[i as int]) {
        Err(IntParseError::InvalidDigit)
    } else {
        let a: nat = acc * 10 + digit_val(body[i as int]);
        if a > limit {
            Err(if neg { IntParseError::NegOverflow } else { IntParseError::PosOverflow })
        } else {
            scan_digits(body, i + 1, a, limit, neg)
        }
    }
}

/// The sign and magnitude a decimal text denotes, the magnitude bounded by
/// `pos_limit` for positive and `neg_limit` for negative values.
pub open spec fn parse_magnitude(s: Seq<char>, pos_limit: nat, neg_limit: nat) -> Result<(bool, nat), IntParseError> {
    let (neg, body) = split_sign(s);
    if s.len() == 0 {
        Err(IntParseError::Empty)
    } else if body.len() == 0 {
        Err(IntParseError::InvalidDigit)
    } else {
        match scan_digits(body, 0, 0, if neg { neg_limit } else { pos_limit }, neg) {
            Ok(m) => Ok((neg, m)),
            Err(e) => Err(e),
        }
    }
}

/// The integer a decimal text denotes, or why it denotes none, for a signed
/// type with bounds `lo..=hi`.
pub open spec fn parse_signed(s: Seq<char>, lo: int, hi: int) -> Result<int, IntParseError> {
    match parse_magnitude(s, hi as nat, (-lo) as nat) {
        Ok((neg, m)) => Ok(if neg { -(m as int) } else { m as int }),
        Err(e) => Err(e),
    }
}

pub open spec fn parse_i64_spec(s: Seq<char>) -> Result<int, IntParseError> {
    parse_signed(s, i64::MIN as int, i64::MAX as int)
}

pub open spec fn parse_i32_spec(s: Seq<char>) -> Result<int, IntParseError> {
    parse_signed(s, i32::MIN as int, i32::MAX as int)
}

fn push_digits(n: u128, out: &mut Vec<char>)
    ensures
        final(out)@ == old(out)@ + nat_digits(n as nat),
    decreases n,
{
    if n >= 10 {
        push_digits(n / 10, out);
    }
    let d: u128 = n % 10;
    let c: char = if d == 0 {
        '0'
    } else if d == 1 {
        '1'
    } else if d == 2 {
        '2'
    } else if d == 3 {
        '3'
    } else if d == 4 {
        '4'
    } else if d == 5 {
        '5'
    } else if d == 6 {
        '6'
    } else if d == 7 {
        '7'
    } else if d == 8 {
        '8'
    } else {
        '9'
    };
    out.push(c);
    proof {
        if n < 10 {
        }
    }
}

/// Appends the decimal text of `v` to `out`.
pub fn push_int_text(v: i128, out: &mut Vec<char>)
    requires
        v > i128::MIN,
    ensures
        final(out)@ == old(out)@ + int_text(v as int),
{
    if v < 0 {
        out.push('-');
        let m: u128 = (-v) as u128;
        push_digits(m, out);
    } else {
        push_digits(v as u128, out);
    }
}

/// Builds a `String` holding exactly the given characters, through
/// `String::from_iter`, which collects the characters in order.
#[verifier::external_body]
pub(crate) fn string_from_chars(chars: &Vec<char>) -> (s: String)
    ensures
        s@ == chars@,
{
    String::from_iter(chars.iter())
}

/// The characters of a string slice, in order.
pub fn str_chars(s: &str) -> (v: Vec<char>)
    ensures
        v@ == s@,
{
    broadcast use vstd::string::axiom_spec_iter;
    let mut out: Vec<char> = Vec::new();
    for c in it: s.chars()
        invariant
            out@ == it.seq().take(it.index() as int),
            it.seq() == s@,
    {
        out.push(c);
    }
    out
}

/// Decimal text of a 64-bit integer.
pub fn i64_text(v: i64) -> (s: String)
    ensures
        s@ == int_text(v as int),
{
    let mut out: Vec<char> = Vec::new();
    push_int_text(v as i128, &mut out);
    string_from_chars(&out)
}

fn digit_value(c: char) -> (d: u64)
    requires
        is_digit(c),
    ensures
        d == c as int - '0' as int,
{
    (c as u32 - '0' as u32) as u64
}

/// Reads an optional sign and then the digits, left to right, as the
/// standard library's integer parsing does, the magnitude bounded by
/// `pos_limit` for positive and `neg_limit` for negative values.
fn parse_magnitude_chars(s: &Vec<char>, pos_limit: u64, neg_limit: u64) -> (r: Result<(bool, u64), IntParseError>)
    requires
        9 <= pos_limit,
        9 <= neg_limit,
    ensures
        match r {
            Ok((neg, m)) => parse_magnitude(s@, pos_limit as nat, neg_limit as nat) == Ok::<(bool, nat), IntParseError>((neg, m as nat)),
            Err(e) => parse_magnitude(s@, pos_limit as nat, neg_limit as nat) == Err::<(bool, nat), IntParseError>(e),
        },
        r matches Ok((neg, m)) ==> m <= (if neg { neg_limit } else { pos_limit }),
{
    let len: usize = s.len();
    if len == 0 {
        return Err(IntParseError::Empty);
    }
    let mut start: usize = 0;
    let mut neg: bool = false;
    if s[0] == '-' {
        neg = true;
        start = 1;
    } else if s[0] == '+' {
        start = 1;
    }
    let ghost body: Seq<char> = s@.subrange(start as int, len as int);
    proof {
        assert(split_sign(s@).1 =~= body);
    }
    if start == len {
        return Err(IntParseError::InvalidDigit);
    }
    let limit: u64 = if neg { neg_limit } else { pos_limit };
    let mut acc: u64 = 0;
    let mut i: usize = start;
    while i < len
        invariant
            start <= i <= len,
            len == s@.len(),
            start < len,
            body == s@.subrange(start as int, len as int),
            split_sign(s@) == (neg, body),
            limit == (if neg { neg_limit } else { pos_limit }),
            9 <= limit,
            acc <= limit,
            scan_digits(body, 0, 0, limit as nat, neg) == scan_digits(body, (i - start) as nat, acc as nat, limit as nat, neg),
        decreases len - i,
    {
        let c: char = s[i];
        assert(body[i - start] == c);
        if !('0' <= c && c <= '9') {
            return Err(IntParseError::InvalidDigit);
        }
        let d: u64 = digit_value(c);
        if acc > (limit - d) / 10 {
            proof {
                assert(acc * 10 + d > limit) by (nonlinear_arith)
                    requires
                        acc > (limit - d) / 10,
                        d <= 9,
                        limit >= 9,
                ;
            }
            if neg {
                return Err(IntParseError::NegOverflow);
            } else {
                return Err(IntParseError::PosOverflow);
            }
        }
        proof {
            assert(acc * 10 + d <= limit) by (nonlinear_arith)
                requires
                    acc <= (limit - d) / 10,
                    d <= 9,
                    limit >= 9,
            ;
        }
        acc = acc * 10 + d;
        i = i + 1;
    }
    Ok((neg, acc))
}

/// Parses decimal text as an `i64` exactly as `str::parse::<i64>` does:
/// an optional `+` or `-`, then one or more ASCII digits, read left to
/// right, the first offending character deciding the error.
pub fn parse_i64_chars(s: &Vec<char>) -> (r: Result<i64, IntParseError>)
    ensures
        match r {
            Ok(v) => parse_i64_spec(s@) == Ok::<int, IntParseError>(v as int),
            Err(e) => parse_i64_spec(s@) == Err::<int, IntParseError>(e),
        },
{
    match parse_magnitude_chars(s, 9223372036854775807u64, 9223372036854775808u64) {
        Ok((neg, m)) => {
            if neg {
                if m == 9223372036854775808u64 {
                    Ok(i64::MIN)
                } else {
                    Ok(-(m as i64))
                }
            } else {
                Ok(m as i64)
            }
        },
        Err(e) => Err(e),
    }
}

/// Parses decimal text as an `i32` exactly as `str::parse::<i32>` does.
pub fn parse_i32_chars(s: &Vec<char>) -> (r: Result<i32, IntParseError>)
    ensures
        match r {
            Ok(v) => parse_i32_spec(s@) == Ok::<int, IntParseError>(v as int),
            Err(e) => parse_i32_spec(s@) == Err::<int, IntParseError>(e),
        },
{
    match parse_magnitude_chars(s, 2147483647u64, 2147483648u64) {
        Ok((neg, m)) => {
            if neg {
                if m == 2147483648u64 {
                    Ok(i32::MIN)
                } else {
                    Ok(-(m as i32))
                }
            } else {
                Ok(m as i32)
            }
        },
        Err(e) => Err(e),
    }
}

} // verus!
