//! Exact fixed-point numbers.
//!
//! Every real-valued quantity in this crate (a coordinate, a tool diameter,
//! a configuration threshold) is an `i64` counting millionths of an inch:
//! the value `v` stands for the real number `v / SCALE`. Arithmetic on such
//! values is exact integer arithmetic, and rendering one as decimal text is
//! an exact operation specified here.

use vstd::prelude::*;

verus! {

/// Number of fixed-point units in one inch.
pub const SCALE: i64 = 1000000;

/// Number of decimal places carried by the fixed-point representation.
pub const PLACES: u64 = 6;

/// Clamp an unbounded integer into the `i64` range.
pub open spec fn clamp64(v: int) -> i64 {
    if v > i64::MAX {
        i64::MAX
    } else if v < i64::MIN {
        i64::MIN
    } else {
        v as i64
    }
}

/// Integer division truncating toward zero (the convention of Rust's `/` on
/// machine integers), for a positive divisor.
pub open spec fn div_trunc(a: int, b: int) -> int
    recommends
        b > 0,
{
    if a >= 0 {
        a / b
    } else {
        -((-a) / b)
    }
}

/// The character for one decimal digit.
pub open spec fn digit_char(d: int) -> char {
    if d == 1 {
        '1'
    } else if d == 2 {
        '2'
    } else if d == 3 {
        '3'
    } else if d == 4 {
        '4'
    } else if d == 5 {
        '5'
    } else if d == 6 {
        '6'
    } else if d == 7 {
        '7'
    } else if d == 8 {
        '8'
    } else if d == 9 {
        '9'
    } else {
        '0'
    }
}

/// Decimal digits of `n`, most significant first, no leading zeros
/// (`0` renders as `"0"`).
pub open spec fn dec_digits(n: nat) -> Seq<char>
    decreases n,
{
    if n < 10 {
        seq![digit_char(n as int)]
    } else {
        dec_digits(n / 10).push(digit_char((n % 10) as int))
    }
}

/// The last `places` decimal digits of `n`, with leading zeros kept.
pub open spec fn pad_digits(n: nat, places: nat) -> Seq<char>
    decreases places,
{
    if places == 0 {
        Seq::<char>::empty()
    } else {
        pad_digits(n / 10, (places - 1) as nat).push(digit_char((n % 10) as int))
    }
}

/// A fractional part of `places` digits with its trailing zeros removed:
/// `frac_chars(150000, 6)` is `"15"`.
pub open spec fn frac_chars(f: nat, places: nat) -> Seq<char>
    decreases places,
{
    if places == 0 {
        Seq::<char>::empty()
    } else if f % 10 == 0 {
        frac_chars(f / 10, (places - 1) as nat)
    } else {
        pad_digits(f, places)
    }
}

/// Exact decimal rendering of the fixed-point value `v`: optional minus
/// sign, integer part, and, when the fractional part is not zero, a point
/// and the fractional digits with trailing zeros removed.
pub open spec fn fixed_chars(v: int) -> Seq<char> {
    let m = (if v < 0 {
        -v
    } else {
        v
    }) as nat;
    let ip = m / (SCALE as nat);
    let fp = m % (SCALE as nat);
    let digits = if fp == 0 {
        dec_digits(ip)
    } else {
        dec_digits(ip) + "."@ + frac_chars(fp, PLACES as nat)
    };
    if v < 0 {
        "-"@ + digits
    } else {
        digits
    }
}

/// The one-character string for a decimal digit.
pub fn digit_str(d: u64) -> (r: &'static str)
    requires
        d < 10,
    ensures
        r@ == seq![digit_char(d as int)],
{
    proof {
        reveal_strlit("0");
        reveal_strlit("1");
        reveal_strlit("2");
        reveal_strlit("3");
        reveal_strlit("4");
        reveal_strlit("5");
        reveal_strlit("6");
        reveal_strlit("7");
        reveal_strlit("8");
        reveal_strlit("9");
    }
    let r = if d == 1 {
        "1"
    } else if d == 2 {
        "2"
    } else if d == 3 {
        "3"
    } else if d == 4 {
        "4"
    } else if d == 5 {
        "5"
    } else if d == 6 {
        "6"
    } else if d == 7 {
        "7"
    } else if d == 8 {
        "8"
    } else if d == 9 {
        "9"
    } else {
        "0"
    };
    proof {
        assert(r@ =~= seq![digit_char(d as int)]);
    }
    r
}

/// Decimal rendering of an unsigned integer.
pub fn u64_string(n: u64) -> (r: String)
    ensures
        r@ == dec_digits(n as nat),
    decreases n,
{
    if n < 10 {
        let r = digit_str(n).to_owned();
        proof {
            assert(r@ =~= dec_digits(n as nat));
        }
        r
    } else {
        let mut s = u64_string(n / 10);
        s.append(digit_str(n % 10));
        proof {
            assert(s@ =~= dec_digits(n as nat));
        }
        s
    }
}

/// The last `places` decimal digits of `n`, with leading zeros kept.
pub fn pad_string(n: u64, places: u64) -> (r: String)
    ensures
        r@ == pad_digits(n as nat, places as nat),
    decreases places,
{
    if places == 0 {
        String::new()
    } else {
        let mut s = pad_string(n / 10, places - 1);
        s.append(digit_str(n % 10));
        proof {
            assert(s@ =~= pad_digits(n as nat, places as nat));
        }
        s
    }
}

/// A fractional part of `places` digits with its trailing zeros removed.
pub fn frac_string(f: u64, places: u64) -> (r: String)
    ensures
        r@ == frac_chars(f as nat, places as nat),
    decreases places,
{
    if places == 0 {
        String::new()
    } else if f % 10 == 0 {
        frac_string(f / 10, places - 1)
    } else {
        pad_string(f, places)
    }
}

/// Exact decimal rendering of the fixed-point value whose sign is `neg` and
/// whose magnitude is `mag`.
pub fn fixed_string(neg: bool, mag: u64) -> (r: String)
    ensures
        r@ == fixed_chars(
            if neg {
                -(mag as int)
            } else {
                mag as int
            },
        ),
{
    let ip = mag / 1000000;
    let fp = mag % 1000000;
    let mut s = if neg && mag > 0 {
        String::from_str("-")
    } else {
        String::new()
    };
    let int_part = u64_string(ip);
    s.append(int_part.as_str());
    if fp != 0 {
        s.append(".");
        let frac_part = frac_string(fp, PLACES);
        s.append(frac_part.as_str());
    }
    proof {
        let v: int = if neg {
            -(mag as int)
        } else {
            mag as int
        };
        assert(s@ =~= fixed_chars(v));
    }
    s
}

/// Exact decimal rendering of a fixed-point `i64`.
pub fn fixed_i64_string(v: i64) -> (r: String)
    ensures
        r@ == fixed_chars(v as int),
{
    if v >= 0 {
        fixed_string(false, v as u64)
    } else {
        let mag = (-(v as i128)) as u64;
        fixed_string(true, mag)
    }
}

/// Quotient of `v` by one thousand, truncated toward zero.
pub fn div_trunc_1000(v: i64) -> (r: i64)
    ensures
        r == div_trunc(v as int, 1000),
{
    if v >= 0 {
        ((v as u64) / 1000) as i64
    } else {
        let m = (-(v as i128)) as u64;
        -((m / 1000) as i64)
    }
}


/// Exact decimal rendering of a fixed-point difference of two `i64`
/// values, whose magnitude therefore fits in a `u64`.
pub fn fixed_i128_string(v: i128) -> (r: String)
    requires
        -0xffffffffffffffff <= v <= 0xffffffffffffffff,
    ensures
        r@ == fixed_chars(v as int),
{
    if v >= 0 {
        fixed_string(false, v as u64)
    } else {
        fixed_string(true, (-v) as u64)
    }
}

} // verus!
