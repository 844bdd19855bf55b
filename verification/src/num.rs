//! Decimal integers: verified parsing of 16-bit unsigned and 32-bit signed
//! values, and formatting back to digit strings.

use vstd::prelude::*;
use vstd::arithmetic::div_mod::lemma_fundamental_div_mod;
use vstd::string::{StrSliceExecFns, StringExecFns};
use crate::error::IntError;

verus! {

/// Tells a decimal digit character apart from every other character.
pub open spec fn is_digit_char(c: char) -> bool {
    c == '0' || c == '1' || c == '2' || c == '3' || c == '4' || c == '5' || c == '6' || c == '7'
        || c == '8' || c == '9'
}

/// The numeric value of a decimal digit character.
pub open spec fn digit_val(c: char) -> int {
    if c == '0' {
        0
    } else if c == '1' {
        1
    } else if c == '2' {
        2
    } else if c == '3' {
        3
    } else if c == '4' {
        4
    } else if c == '5' {
        5
    } else if c == '6' {
        6
    } else if c == '7' {
        7
    } else if c == '8' {
        8
    } else {
        9
    }
}

/// The digit character of a value below ten.
pub open spec fn digit_char(d: int) -> char {
    if d == 0 {
        '0'
    } else if d == 1 {
        '1'
    } else if d == 2 {
        '2'
    } else if d == 3 {
        '3'
    } else if d == 4 {
        '4'
    } else if d == 5 {
        '5'
    } else if d == 6 {
        '6'
    } else if d == 7 {
        '7'
    } else if d == 8 {
        '8'
    } else {
        '9'
    }
}

/// A left-to-right scan of a digit string, the value read so far being
/// `acc`: the first non-digit stops the scan with `InvalidDigit`, and a
/// value beyond `bound` stops it with `over`.
pub open spec fn spec_scan_digits(t: Seq<char>, acc: int, bound: int, over: IntError) -> Result<
    int,
    IntError,
>
    decreases t.len(),
{
    if t.len() == 0 {
        Ok(acc)
    } else if !is_digit_char(t[0]) {
        Err(IntError::InvalidDigit)
    } else if acc * 10 + digit_val(t[0]) > bound {
        Err(over)
    } else {
        spec_scan_digits(t.skip(1), acc * 10 + digit_val(t[0]), bound, over)
    }
}

/// What a text parses to as a 16-bit unsigned integer: an optional leading
/// plus sign, then decimal digits, their value at most 65535.
pub open spec fn spec_parse_u16(s: Seq<char>) -> Result<u16, IntError> {
    if s.len() == 0 {
        Err(IntError::Empty)
    } else {
        let body = if s[0] == '+' {
            s.skip(1)
        } else {
            s
        };
        if body.len() == 0 {
            Err(IntError::InvalidDigit)
        } else {
            match spec_scan_digits(body, 0, 0xffff, IntError::PosOverflow) {
                Ok(v) => Ok(v as u16),
                Err(e) => Err(e),
            }
        }
    }
}

/// What a text parses to as a 32-bit signed integer: an optional leading
/// sign, then decimal digits, the signed value fitting in 32 bits.
pub open spec fn spec_parse_i32(s: Seq<char>) -> Result<i32, IntError> {
    if s.len() == 0 {
        Err(IntError::Empty)
    } else {
        let body = if s[0] == '-' || s[0] == '+' {
            s.skip(1)
        } else {
            s
        };
        if body.len() == 0 {
            Err(IntError::InvalidDigit)
        } else if s[0] == '-' {
            match spec_scan_digits(body, 0, 0x8000_0000, IntError::NegOverflow) {
                Ok(v) => Ok((-v) as i32),
                Err(e) => Err(e),
            }
        } else {
            match spec_scan_digits(body, 0, 0x7fff_ffff, IntError::PosOverflow) {
                Ok(v) => Ok(v as i32),
                Err(e) => Err(e),
            }
        }
    }
}

/// Whether `c` is a decimal digit.
pub fn digit_test(c: char) -> (r: bool)
    ensures
        r == is_digit_char(c),
{
    c == '0' || c == '1' || c == '2' || c == '3' || c == '4' || c == '5' || c == '6' || c == '7'
        || c == '8' || c == '9'
}

/// The numeric value of the digit `c`.
pub fn digit_value(c: char) -> (d: u64)
    requires
        is_digit_char(c),
    ensures
        d == digit_val(c),
        d <= 9,
{
    if c == '0' {
        0
    } else if c == '1' {
        1
    } else if c == '2' {
        2
    } else if c == '3' {
        3
    } else if c == '4' {
        4
    } else if c == '5' {
        5
    } else if c == '6' {
        6
    } else if c == '7' {
        7
    } else if c == '8' {
        8
    } else {
        9
    }
}

/// Scans the digits of `s` from `start` to the end, stopping at the first
/// non-digit or at the first value beyond `bound`.
fn scan_digits(s: &str, start: usize, bound: u64, over: IntError) -> (r: Result<u64, IntError>)
    requires
        start <= s@.len(),
        bound <= 0x8000_0000,
    ensures
        (match r {
            Ok(v) => v <= bound && spec_scan_digits(s@.skip(start as int), 0, bound as int, over)
                == Ok::<int, IntError>(v as int),
            Err(e) => spec_scan_digits(s@.skip(start as int), 0, bound as int, over) == Err::<
                int,
                IntError,
            >(e),
        }),
{
    let n = s.unicode_len();
    let mut i = start;
    let mut acc: u64 = 0;
    while i < n
        invariant
            start <= i <= n,
            n == s@.len(),
            acc <= bound,
            bound <= 0x8000_0000,
            spec_scan_digits(s@.skip(start as int), 0, bound as int, over) == spec_scan_digits(
                s@.skip(i as int),
                acc as int,
                bound as int,
                over,
            ),
        decreases n - i,
    {
        let c = s.get_char(i);
        proof {
            assert(s@.skip(i as int)[0] == s@[i as int]);
        }
        if !digit_test(c) {
            return Err(IntError::InvalidDigit);
        }
        let d = digit_value(c);
        let v = acc * 10 + d;
        if v > bound {
            return Err(over);
        }
        proof {
            assert(s@.skip(i as int).skip(1) =~= s@.skip(i as int + 1));
        }
        acc = v;
        i = i + 1;
    }
    Ok(acc)
}

/// Parses a 16-bit unsigned integer from the whole of `s`.
pub fn parse_u16(s: &str) -> (r: Result<u16, IntError>)
    ensures
        (match r {
            Ok(v) => spec_parse_u16(s@) == Ok::<u16, IntError>(v),
            Err(e) => spec_parse_u16(s@) == Err::<u16, IntError>(e),
        }),
{
    let n = s.unicode_len();
    if n == 0 {
        return Err(IntError::Empty);
    }
    let c0 = s.get_char(0);
    let start: usize = if c0 == '+' {
        1
    } else {
        0
    };
    proof {
        if c0 != '+' {
            assert(s@.skip(0) =~= s@);
        }
    }
    if start == n {
        return Err(IntError::InvalidDigit);
    }
    match scan_digits(s, start, 0xffff, IntError::PosOverflow) {
        Ok(v) => Ok(v as u16),
        Err(e) => Err(e),
    }
}

/// Parses a 32-bit signed integer from the whole of `s`.
pub fn parse_i32(s: &str) -> (r: Result<i32, IntError>)
    ensures
        (match r {
            Ok(v) => spec_parse_i32(s@) == Ok::<i32, IntError>(v),
            Err(e) => spec_parse_i32(s@) == Err::<i32, IntError>(e),
        }),
{
    let n = s.unicode_len();
    if n == 0 {
        return Err(IntError::Empty);
    }
    let c0 = s.get_char(0);
    let start: usize = if c0 == '-' || c0 == '+' {
        1
    } else {
        0
    };
    proof {
        if start == 0 {
            assert(s@.skip(0) =~= s@);
        }
    }
    if start == n {
        return Err(IntError::InvalidDigit);
    }
    if c0 == '-' {
        match scan_digits(s, start, 0x8000_0000, IntError::NegOverflow) {
            Ok(v) => {
                let m: i64 = -(v as i64);
                Ok(m as i32)
            },
            Err(e) => Err(e),
        }
    } else {
        match scan_digits(s, start, 0x7fff_ffff, IntError::PosOverflow) {
            Ok(v) => Ok(v as i32),
            Err(e) => Err(e),
        }
    }
}

/// The decimal digit string of a non-negative value.
pub open spec fn spec_decimal(n: int) -> Seq<char>
    decreases n,
{
    if n < 10 {
        seq![digit_char(n)]
    } else {
        spec_decimal(n / 10) + seq![digit_char(n % 10)]
    }
}

/// The string of one digit.
fn digit_str(d: u64) -> (r: &'static str)
    requires
        d <= 9,
    ensures
        r@ == seq![digit_char(d as int)],
{
    let r: &'static str = if d == 0 {
        "0"
    } else if d == 1 {
        "1"
    } else if d == 2 {
        "2"
    } else if d == 3 {
        "3"
    } else if d == 4 {
        "4"
    } else if d == 5 {
        "5"
    } else if d == 6 {
        "6"
    } else if d == 7 {
        "7"
    } else if d == 8 {
        "8"
    } else {
        "9"
    };
    proof {
        reveal_strlit("0");
        reveal_strlit("1");
        reveal_strlit("2");
        reveal_strlit("3");
        reveal_strlit("4");
        reveal_strlit("5");
        reveal_strlit("6");
        reveal_strlit("7");
        reveal_strlit("8");
        reveal_strlit("9");
        assert(r@ =~= seq![digit_char(d as int)]);
    }
    r
}

/// Formats `n` as its decimal digit string.
pub fn format_u16(n: u16) -> (r: String)
    ensures
        r@ == spec_decimal(n as int),
    decreases n,
{
    if n < 10 {
        String::from_str(digit_str(n as u64))
    } else {
        let mut s = format_u16(n / 10);
        s.append(digit_str((n % 10) as u64));
        s
    }
}

/// Appending a digit to the scanned text multiplies the value by ten and
/// adds the digit, as long as the result stays within `bound`.
pub proof fn lemma_scan_append(t: Seq<char>, c: char, acc: int, bound: int, over: IntError)
    requires
        is_digit_char(c),
        0 <= acc <= bound,
    ensures
        spec_scan_digits(t.push(c), acc, bound, over) == (match spec_scan_digits(
            t,
            acc,
            bound,
            over,
        ) {
            Ok(m) => if m * 10 + digit_val(c) <= bound {
                Ok::<int, IntError>(m * 10 + digit_val(c))
            } else {
                Err::<int, IntError>(over)
            },
            Err(e) => Err::<int, IntError>(e),
        }),
    decreases t.len(),
{
    if t.len() == 0 {
        assert(t.push(c) =~= seq![c]);
        assert(seq![c].skip(1) =~= Seq::<char>::empty());
        assert(spec_scan_digits(t, acc, bound, over) == Ok::<int, IntError>(acc));
        if acc * 10 + digit_val(c) <= bound {
            assert(spec_scan_digits(seq![c], acc, bound, over) == spec_scan_digits(
                seq![c].skip(1),
                acc * 10 + digit_val(c),
                bound,
                over,
            ));
            assert(spec_scan_digits(Seq::<char>::empty(), acc * 10 + digit_val(c), bound, over)
                == Ok::<int, IntError>(acc * 10 + digit_val(c)));
        } else {
            assert(spec_scan_digits(seq![c], acc, bound, over) == Err::<int, IntError>(over));
        }
    } else {
        assert(t.push(c).len() > 0);
        assert(t.push(c)[0] == t[0]);
        if !is_digit_char(t[0]) {
            assert(spec_scan_digits(t.push(c), acc, bound, over) == Err::<int, IntError>(
                IntError::InvalidDigit,
            ));
            assert(spec_scan_digits(t, acc, bound, over) == Err::<int, IntError>(
                IntError::InvalidDigit,
            ));
        } else if acc * 10 + digit_val(t[0]) > bound {
            assert(spec_scan_digits(t.push(c), acc, bound, over) == Err::<int, IntError>(over));
            assert(spec_scan_digits(t, acc, bound, over) == Err::<int, IntError>(over));
        } else {
            lemma_scan_append(t.skip(1), c, acc * 10 + digit_val(t[0]), bound, over);
            assert(t.push(c).skip(1) =~= t.skip(1).push(c));
            assert(spec_scan_digits(t.push(c), acc, bound, over) == spec_scan_digits(
                t.push(c).skip(1),
                acc * 10 + digit_val(t[0]),
                bound,
                over,
            ));
            assert(spec_scan_digits(t, acc, bound, over) == spec_scan_digits(
                t.skip(1),
                acc * 10 + digit_val(t[0]),
                bound,
                over,
            ));
        }
    }
}

/// The decimal digit string of `n` is nonempty and made of digits alone.
pub proof fn lemma_decimal_digits(n: int)
    requires
        0 <= n,
    ensures
        spec_decimal(n).len() >= 1,
        forall|i: int| 0 <= i < spec_decimal(n).len() ==> is_digit_char(#[trigger] spec_decimal(n)[i]),
    decreases n,
{
    if n >= 10 {
        lemma_decimal_digits(n / 10);
    }
}

/// Scanning the decimal digit string of `n` reads back exactly `n`.
pub proof fn lemma_scan_decimal(n: int, bound: int, over: IntError)
    requires
        0 <= n <= bound,
    ensures
        spec_scan_digits(spec_decimal(n), 0, bound, over) == Ok::<int, IntError>(n),
    decreases n,
{
    if n < 10 {
        assert(spec_decimal(n) == seq![digit_char(n)]);
        assert(seq![digit_char(n)].skip(1) =~= Seq::<char>::empty());
        assert(digit_val(digit_char(n)) == n);
        assert(spec_scan_digits(seq![digit_char(n)], 0, bound, over) == spec_scan_digits(
            seq![digit_char(n)].skip(1),
            n,
            bound,
            over,
        ));
        assert(spec_scan_digits(Seq::<char>::empty(), n, bound, over) == Ok::<int, IntError>(n));
    } else {
        lemma_fundamental_div_mod(n, 10);
        assert(0 <= n % 10 < 10);
        assert(n == 10 * (n / 10) + n % 10);
        assert(0 <= n / 10 <= n) by (nonlinear_arith)
            requires
                n >= 10,
                n == 10 * (n / 10) + n % 10,
                0 <= n % 10 < 10,
        ;
        lemma_scan_decimal(n / 10, bound, over);
        lemma_scan_append(spec_decimal(n / 10), digit_char(n % 10), 0, bound, over);
        assert(spec_decimal(n) =~= spec_decimal(n / 10).push(digit_char(n % 10)));
        assert(digit_val(digit_char(n % 10)) == n % 10);
        assert((n / 10) * 10 + n % 10 == n);
    }
}

/// Parsing the decimal digit string of a 16-bit value reads back that value.
pub proof fn lemma_parse_decimal_u16(n: u16)
    ensures
        spec_parse_u16(spec_decimal(n as int)) == Ok::<u16, IntError>(n),
{
    lemma_decimal_digits(n as int);
    lemma_scan_decimal(n as int, 0xffff, IntError::PosOverflow);
    assert(spec_decimal(n as int)[0] != '+');
}

} // verus!
