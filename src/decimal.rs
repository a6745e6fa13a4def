use vstd::prelude::*;

verus! {

/// Why a piece of text is not an unsigned decimal number.
#[derive(Clone, Copy, Debug, PartialEq, Eq, Structural)]
pub enum NumberError {
    /// The text is empty.
    Empty,
    /// A character other than an ASCII digit (a lone sign included).
    InvalidDigit,
    /// The digits denote a value above the largest one allowed.
    Overflow,
}

pub open spec fn is_digit(c: char) -> bool {
    '0' <= c && c <= '9'
}

pub open spec fn digit_value(c: char) -> nat {
    (c as int - '0' as int) as nat
}

pub open spec fn digit_char(d: nat) -> char {
    ((d + '0' as nat) as u32) as char
}

/// Reads `s` digit by digit from the left, stopping at the first character
/// that is no digit or at the first prefix whose value exceeds `max`.
pub open spec fn scan_digits(s: Seq<char>, max: nat) -> Result<nat, NumberError>
    decreases s.len(),
{
    if s.len() == 0 {
        Ok(0)
    } else {
        match scan_digits(s.drop_last(), max) {
            Err(e) => Err(e),
            Ok(v) => if !is_digit(s.last()) {
                Err(NumberError::InvalidDigit)
            } else if v * 10 + digit_value(s.last()) > max {
                Err(NumberError::Overflow)
            } else {
                Ok(v * 10 + digit_value(s.last()))
            },
        }
    }
}

/// An unsigned number in decimal: an optional leading `+`, then at least one
/// digit, with a value of at most `max`.
pub open spec fn parse_unsigned(s: Seq<char>, max: nat) -> Result<nat, NumberError> {
    if s.len() == 0 {
        Err(NumberError::Empty)
    } else if s[0] == '+' {
        if s.len() == 1 {
            Err(NumberError::InvalidDigit)
        } else {
            scan_digits(s.drop_first(), max)
        }
    } else {
        scan_digits(s, max)
    }
}

/// The shortest decimal writing of `n`.
pub open spec fn decimal_digits(n: nat) -> Seq<char>
    decreases n,
{
    if n < 10 {
        seq![digit_char(n)]
    } else {
        decimal_digits(n / 10).push(digit_char(n % 10))
    }
}

/// Parses `s` as an unsigned decimal number of at most `max`.
pub fn parse_bounded(s: &str, max: u64) -> (r: Result<u64, NumberError>)
    ensures
        match parse_unsigned(s@, max as nat) {
            Ok(v) => r == Ok::<u64, NumberError>(v as u64),
            Err(e) => r == Err::<u64, NumberError>(e),
        },
{
    let n = s.unicode_len();
    if n == 0 {
        return Err(NumberError::Empty);
    }
    let mut start: usize = 0;
    if s.get_char(0) == '+' {
        if n == 1 {
            return Err(NumberError::InvalidDigit);
        }
        start = 1;
        assert(s@.drop_first() =~= s@.subrange(1, n as int));
    } else {
        assert(s@ =~= s@.subrange(0, n as int));
    }
    let mut value: u64 = 0;
    let mut i: usize = start;
    assert(s@.subrange(start as int, start as int) =~= Seq::<char>::empty());
    while i < n
        invariant
            n == s@.len(),
            start <= i <= n,
            value <= max,
            parse_unsigned(s@, max as nat) == scan_digits(
                s@.subrange(start as int, n as int),
                max as nat,
            ),
            scan_digits(s@.subrange(start as int, i as int), max as nat) == Ok::<nat, NumberError>(
                value as nat,
            ),
        ensures
            scan_digits(s@.subrange(start as int, n as int), max as nat) == Ok::<nat, NumberError>(
                value as nat,
            ),
        decreases n - i,
    {
        let c = s.get_char(i);
        let ghost prefix = s@.subrange(start as int, i as int + 1);
        assert(prefix.drop_last() =~= s@.subrange(start as int, i as int));
        assert(prefix.last() == c);
        if c < '0' || c > '9' {
            assert(scan_digits(s@.subrange(start as int, n as int), max as nat) == Err::<
                nat,
                NumberError,
            >(NumberError::InvalidDigit)) by {
                assert(s@.subrange(start as int, n as int).take((i - start) as int + 1) =~= prefix);
                assert(scan_digits(prefix, max as nat) == Err::<nat, NumberError>(
                    NumberError::InvalidDigit,
                ));
                lemma_scan_error_persists(
                    s@.subrange(start as int, n as int),
                    (i - start) as nat,
                    max as nat,
                );
            }
            return Err(NumberError::InvalidDigit);
        }
        let d: u64 = (c as u32 - '0' as u32) as u64;
        assert(d == digit_value(c));
        let next: u128 = value as u128 * 10 + d as u128;
        if next > max as u128 {
            assert(scan_digits(s@.subrange(start as int, n as int), max as nat) == Err::<
                nat,
                NumberError,
            >(NumberError::Overflow)) by {
                assert(s@.subrange(start as int, n as int).take((i - start) as int + 1) =~= prefix);
                assert(scan_digits(prefix, max as nat) == Err::<nat, NumberError>(
                    NumberError::Overflow,
                ));
                lemma_scan_error_persists(
                    s@.subrange(start as int, n as int),
                    (i - start) as nat,
                    max as nat,
                );
            }
            return Err(NumberError::Overflow);
        }
        value = next as u64;
        i = i + 1;
    }
    Ok(value)
}

/// Once a prefix of `s` fails to scan, `s` fails with the same error.
proof fn lemma_scan_error_persists(s: Seq<char>, k: nat, max: nat)
    requires
        k < s.len(),
        scan_digits(s.take(k as int + 1), max) is Err,
    ensures
        scan_digits(s, max) == scan_digits(s.take(k as int + 1), max),
    decreases s.len(),
{
    if k + 1 < s.len() {
        assert(s.drop_last().take(k as int + 1) =~= s.take(k as int + 1));
        lemma_scan_error_persists(s.drop_last(), k, max);
    } else {
        assert(s.take(k as int + 1) =~= s);
    }
}

/// Parses a port number: a decimal of at most 65535.
pub fn parse_port(s: &str) -> (r: Result<u16, NumberError>)
    ensures
        match parse_unsigned(s@, u16::MAX as nat) {
            Ok(v) => r == Ok::<u16, NumberError>(v as u16),
            Err(e) => r == Err::<u16, NumberError>(e),
        },
{
    match parse_bounded(s, u16::MAX as u64) {
        Ok(v) => Ok(v as u16),
        Err(e) => Err(e),
    }
}

/// The one-character text of a decimal digit.
fn digit_text(d: u8) -> (r: &'static str)
    requires
        d < 10,
    ensures
        r@ == seq![digit_char(d as nat)],
{
    proof {
        reveal_strlit("0");
        reveal_strlit("1");
        reveal_strlit("2");
        reveal_strlit("3");
        reveal_strlit("4");
        reveal_strlit("5");
        reveal_strlit("6");
        reveal_strlit("7");
        reveal_strlit("8");
        reveal_strlit("9");
    }
    let r = match d {
        0 => "0",
        1 => "1",
        2 => "2",
        3 => "3",
        4 => "4",
        5 => "5",
        6 => "6",
        7 => "7",
        8 => "8",
        _ => "9",
    };
    assert(r@ =~= seq![digit_char(d as nat)]);
    r
}

/// Writes `n` in decimal.
pub fn decimal_string(n: u128) -> (r: String)
    ensures
        r@ == decimal_digits(n as nat),
    decreases n,
{
    if n < 10 {
        String::from_str(digit_text(n as u8))
    } else {
        let mut r = decimal_string(n / 10);
        r.append(digit_text((n % 10) as u8));
        r
    }
}

/// Reading back the decimal writing of a number gives the number, whatever
/// bound the number respects.
pub proof fn lemma_parse_decimal_digits(n: nat, max: nat)
    requires
        n <= max,
    ensures
        parse_unsigned(decimal_digits(n), max) == Ok::<nat, NumberError>(n),
{
    lemma_scan_decimal_digits(n, max);
    lemma_decimal_digits_nonempty_leading_digit(n);
}

proof fn lemma_scan_decimal_digits(n: nat, max: nat)
    requires
        n <= max,
    ensures
        scan_digits(decimal_digits(n), max) == Ok::<nat, NumberError>(n),
    decreases n,
{
    if n < 10 {
        lemma_digit_char(n);
        let s = decimal_digits(n);
        assert(s.drop_last() =~= Seq::<char>::empty());
        assert(scan_digits(s.drop_last(), max) == Ok::<nat, NumberError>(0));
        assert(s.last() == digit_char(n));
    } else {
        lemma_digit_char(n % 10);
        let s = decimal_digits(n);
        assert(n / 10 <= max && (n / 10) * 10 + n % 10 == n) by (nonlinear_arith)
            requires
                n <= max,
        ;
        lemma_scan_decimal_digits(n / 10, max);
        assert(s.drop_last() =~= decimal_digits(n / 10));
    }
}

proof fn lemma_decimal_digits_nonempty_leading_digit(n: nat)
    ensures
        decimal_digits(n).len() > 0,
        is_digit(decimal_digits(n)[0]),
    decreases n,
{
    if n >= 10 {
        lemma_decimal_digits_nonempty_leading_digit(n / 10);
    } else {
        lemma_digit_char(n);
    }
}

proof fn lemma_digit_char(d: nat)
    requires
        d < 10,
    ensures
        is_digit(digit_char(d)),
        digit_value(digit_char(d)) == d,
{
    assert(digit_char(d) as int == d + 48);
}

} // verus!
