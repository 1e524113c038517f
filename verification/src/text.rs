//! Decimal and hexadecimal rendering of unsigned integers, as `{}` and `{:X}`
//! print them.
use vstd::prelude::*;

verus! {

/// The character for digit `d` (0-15), upper-case for 10-15.
pub open spec fn digit_char(d: nat) -> char {
    if d == 0 {
        '0'
    } else if d == 1 {
        '1'
    } else if d == 2 {
        '2'
    } else if d == 3 {
        '3'
    } else if d == 4 {
        '4'
    } else if d == 5 {
        '5'
    } else if d == 6 {
        '6'
    } else if d == 7 {
        '7'
    } else if d == 8 {
        '8'
    } else if d == 9 {
        '9'
    } else if d == 10 {
        'A'
    } else if d == 11 {
        'B'
    } else if d == 12 {
        'C'
    } else if d == 13 {
        'D'
    } else if d == 14 {
        'E'
    } else {
        'F'
    }
}

/// `n` written in base `b` (2..=16) without leading zeros ("0" for zero).
pub open spec fn digits(n: nat, b: nat) -> Seq<char>
    recommends
        2 <= b <= 16,
    decreases n,
{
    if n < b || b < 2 {
        seq![digit_char(n)]
    } else {
        proof {
            assert(n / b < n) by (nonlinear_arith)
                requires
                    n >= b,
                    b >= 2,
            ;
        }
        digits(n / b, b) + seq![digit_char(n % b)]
    }
}

/// `n` in decimal.
pub open spec fn decimal(n: nat) -> Seq<char> {
    digits(n, 10)
}

/// `n` in upper-case hexadecimal.
pub open spec fn hex_upper(n: nat) -> Seq<char> {
    digits(n, 16)
}

fn digit_str(d: u64) -> (r: &'static str)
    requires
        d < 16,
    ensures
        r@ == seq![digit_char(d as nat)],
{
    proof {
        reveal_strlit("0");
        reveal_strlit("1");
        reveal_strlit("2");
        reveal_strlit("3");
        reveal_strlit("4");
        reveal_strlit("5");
        reveal_strlit("6");
        reveal_strlit("7");
        reveal_strlit("8");
        reveal_strlit("9");
        reveal_strlit("A");
        reveal_strlit("B");
        reveal_strlit("C");
        reveal_strlit("D");
        reveal_strlit("E");
        reveal_strlit("F");
    }
    if d == 0 {
        "0"
    } else if d == 1 {
        "1"
    } else if d == 2 {
        "2"
    } else if d == 3 {
        "3"
    } else if d == 4 {
        "4"
    } else if d == 5 {
        "5"
    } else if d == 6 {
        "6"
    } else if d == 7 {
        "7"
    } else if d == 8 {
        "8"
    } else if d == 9 {
        "9"
    } else if d == 10 {
        "A"
    } else if d == 11 {
        "B"
    } else if d == 12 {
        "C"
    } else if d == 13 {
        "D"
    } else if d == 14 {
        "E"
    } else {
        "F"
    }
}

/// Append `n` written in base `b` to `out`.
pub fn push_digits(out: &mut String, n: u64, b: u64)
    requires
        2 <= b <= 16,
    ensures
        final(out)@ == old(out)@ + digits(n as nat, b as nat),
    decreases n,
{
    let ghost o = out@;
    if n >= b {
        assert(n / b < n) by (nonlinear_arith)
            requires
                n >= b,
                b >= 2,
        ;
        push_digits(out, n / b, b);
    }
    let d = n % b;
    out.append(digit_str(d));
    proof {
        if n >= b {
            assert(digits(n as nat, b as nat) == digits((n / b) as nat, b as nat) + seq![
                digit_char((n % b) as nat),
            ]);
            assert(out@ =~= o + digits(n as nat, b as nat));
        } else {
            assert(n % b == n) by (nonlinear_arith)
                requires
                    n < b,
                    b >= 2,
            ;
            assert(digits(n as nat, b as nat) == seq![digit_char(n as nat)]);
            assert(out@ =~= o + digits(n as nat, b as nat));
        }
    }
}

/// `n` in decimal, as `{}` prints it.
pub fn u64_to_decimal(n: u64) -> (r: String)
    ensures
        r@ == decimal(n as nat),
{
    let mut s = String::new();
    push_digits(&mut s, n, 10);
    s
}

/// `n` in upper-case hexadecimal, as `{:X}` prints it.
pub fn u32_to_hex_upper(n: u32) -> (r: String)
    ensures
        r@ == hex_upper(n as nat),
{
    let mut s = String::new();
    push_digits(&mut s, n as u64, 16);
    s
}

/// The bytes of a string of ASCII characters.
pub open spec fn ascii_bytes(s: Seq<char>) -> Seq<u8> {
    s.map_values(|c: char| c as u8)
}

fn digit_byte(d: u64) -> (r: u8)
    requires
        d < 16,
    ensures
        r == digit_char(d as nat) as u8,
{
    if d < 10 {
        (48 + d) as u8
    } else {
        (55 + d) as u8
    }
}

/// Append the ASCII bytes of `n` written in base `b` to `out`.
pub fn push_digit_bytes(out: &mut Vec<u8>, n: u64, b: u64)
    requires
        2 <= b <= 16,
    ensures
        final(out)@ == old(out)@ + ascii_bytes(digits(n as nat, b as nat)),
    decreases n,
{
    let ghost o = out@;
    if n >= b {
        assert(n / b < n) by (nonlinear_arith)
            requires
                n >= b,
                b >= 2,
        ;
        push_digit_bytes(out, n / b, b);
    }
    let d = n % b;
    out.push(digit_byte(d));
    proof {
        if n >= b {
            assert(digits(n as nat, b as nat) == digits((n / b) as nat, b as nat) + seq![
                digit_char((n % b) as nat),
            ]);
        } else {
            assert(n % b == n) by (nonlinear_arith)
                requires
                    n < b,
                    b >= 2,
            ;
            assert(digits(n as nat, b as nat) == seq![digit_char(n as nat)]);
        }
        assert(out@ =~= o + ascii_bytes(digits(n as nat, b as nat)));
    }
}

/// `n` in decimal with a leading `-` if negative, as `{}` prints a signed integer.
pub open spec fn signed_decimal(n: int) -> Seq<char> {
    if n < 0 {
        "-"@ + decimal((-n) as nat)
    } else {
        decimal(n as nat)
    }
}

/// Append `n` in decimal (with its sign) to `out`.
pub fn push_i32_decimal(out: &mut String, n: i32)
    ensures
        final(out)@ == old(out)@ + signed_decimal(n as int),
{
    if n < 0 {
        out.append("-");
        let m: u64 = (0 - (n as i64)) as u64;
        push_digits(out, m, 10);
    } else {
        push_digits(out, n as u64, 10);
    }
}

} // verus!
