//! Human-readable byte sizes: `"{} B"`, or the size in KB, MB (or GB)
//! with two decimals, as `format!("{:.2} KB", bytes as f64 / 1024.0)`
//! prints it, computed exactly in integers.
//!
//! The float path is reproduced step by step: `bytes as f64` rounds to the
//! nearest value with 53 significant bits (ties to even), division by a
//! power of two is exact, and `{:.2}` prints the exact decimal value rounded
//! to two places, ties to even.
use vstd::prelude::*;
use vstd::string::StringExecFns;

verus! {

/// The character of a decimal digit.
pub open spec fn digit_char(d: nat) -> char {
    (48 + d) as char
}

/// The decimal digits of `n`, most significant first, without leading zeros.
pub open spec fn decimal(n: nat) -> Seq<char>
    decreases n,
{
    if n < 10 {
        seq![digit_char(n)]
    } else {
        decimal(n / 10).push(digit_char(n % 10))
    }
}

/// `num / den` rounded to the nearest integer, ties to the even one.
pub open spec fn round_half_even_div(num: nat, den: nat) -> nat {
    let q = num / den;
    let r = num % den;
    if 2 * r > den || (2 * r == den && q % 2 == 1) {
        q + 1
    } else {
        q
    }
}

pub open spec fn pow2(e: nat) -> nat
    decreases e,
{
    if e == 0 {
        1
    } else {
        2 * pow2((e - 1) as nat)
    }
}

/// `2^53`: integers below it are exact as `f64`.
pub open spec fn f64_exact_limit() -> nat {
    0x20_0000_0000_0000
}

/// How many low bits of `n` an `f64` cannot hold.
pub open spec fn excess_bits(n: nat) -> nat
    decreases n,
{
    if n < f64_exact_limit() {
        0
    } else {
        1 + excess_bits(n / 2)
    }
}

/// The integer value of `n as f64`: `n` rounded to a multiple of
/// `2^excess_bits(n)`, ties to the even multiple.
pub open spec fn nearest_f64(n: nat) -> nat {
    let u = pow2(excess_bits(n));
    round_half_even_div(n, u) * u
}

/// A number of hundredths written with two decimals.
pub open spec fn fixed2(q: nat) -> Seq<char> {
    decimal(q / 100) + seq!['.', digit_char((q / 10) % 10), digit_char(q % 10)]
}

/// `{:.2}` of the exact value `num / den`.
pub open spec fn two_decimals(num: nat, den: nat) -> Seq<char> {
    fixed2(round_half_even_div(num * 100, den))
}

pub open spec fn unit_suffix(u: char) -> Seq<char> {
    seq![' ', u, 'B']
}

/// The text for a size in bytes, with units up to MB.
pub open spec fn format_size_spec(bytes: nat) -> Seq<char> {
    if bytes < 1024 {
        decimal(bytes) + seq![' ', 'B']
    } else if bytes < 1024 * 1024 {
        two_decimals(nearest_f64(bytes), 1024) + unit_suffix('K')
    } else {
        two_decimals(nearest_f64(bytes), 1024 * 1024) + unit_suffix('M')
    }
}

/// The text for a size in bytes, with units up to GB.
pub open spec fn format_size_gb_spec(bytes: nat) -> Seq<char> {
    if bytes < 1024 * 1024 * 1024 {
        format_size_spec(bytes)
    } else {
        two_decimals(nearest_f64(bytes), 1024 * 1024 * 1024) + unit_suffix('G')
    }
}

fn digit_str(d: u128) -> (s: &'static str)
    requires
        d < 10,
    ensures
        s@ == seq![digit_char(d as nat)],
{
    if d == 0 {
        proof {
            reveal_strlit("0");
        }
        "0"
    } else if d == 1 {
        proof {
            reveal_strlit("1");
        }
        "1"
    } else if d == 2 {
        proof {
            reveal_strlit("2");
        }
        "2"
    } else if d == 3 {
        proof {
            reveal_strlit("3");
        }
        "3"
    } else if d == 4 {
        proof {
            reveal_strlit("4");
        }
        "4"
    } else if d == 5 {
        proof {
            reveal_strlit("5");
        }
        "5"
    } else if d == 6 {
        proof {
            reveal_strlit("6");
        }
        "6"
    } else if d == 7 {
        proof {
            reveal_strlit("7");
        }
        "7"
    } else if d == 8 {
        proof {
            reveal_strlit("8");
        }
        "8"
    } else {
        proof {
            reveal_strlit("9");
        }
        "9"
    }
}

/// Appends the decimal digits of `n`.
pub fn push_decimal(out: &mut String, n: u128)
    ensures
        final(out)@ == old(out)@ + decimal(n as nat),
    decreases n,
{
    if n >= 10 {
        push_decimal(out, n / 10);
    }
    let ghost mid = out@;
    out.append(digit_str(n % 10));
    proof {
        if n >= 10 {
            assert(out@ =~= old(out)@ + decimal(n as nat));
        } else {
            assert(out@ =~= old(out)@ + decimal(n as nat));
        }
    }
}

/// `num / den` rounded to the nearest integer, ties to even.
fn div_round_half_even(num: u128, den: u128) -> (r: u128)
    requires
        0 < den <= 0x1_0000_0000,
        num <= 0x1_0000_0000_0000_0000_0000,
    ensures
        r == round_half_even_div(num as nat, den as nat),
        r <= num / den + 1,
{
    let q = num / den;
    let r = num % den;
    if 2 * r > den || (2 * r == den && q % 2 == 1) {
        q + 1
    } else {
        q
    }
}

/// The integer value of `n as f64`.
fn nearest_f64_exec(n: u64) -> (r: u128)
    ensures
        r == nearest_f64(n as nat),
        r <= 0x2_0000_0000_0000_0000,
{
    let mut m: u64 = n;
    let mut unit: u128 = 1;
    let ghost mut e: nat = 0;
    while m >= 0x20_0000_0000_0000
        invariant
            unit == pow2(e),
            unit >= 1,
            m == n as nat / pow2(e),
            m * unit <= n,
            unit <= 0x1000,
            excess_bits(n as nat) == e + excess_bits(m as nat),
        decreases m,
    {
        proof {
            assert(unit < 0x800) by (nonlinear_arith)
                requires
                    m >= 0x20_0000_0000_0000,
                    m * unit <= n,
                    n <= 0xffff_ffff_ffff_ffff,
            ;
            vstd::arithmetic::div_mod::lemma_div_denominator(n as int, pow2(e) as int, 2);
            assert(pow2(e + 1) == pow2(e) * 2);
            assert((m / 2) * (unit * 2) <= m * unit) by (nonlinear_arith)
                requires
                    unit >= 0,
            ;
        }
        m = m / 2;
        unit = unit * 2;
        proof {
            e = e + 1;
        }
    }
    proof {
        assert(excess_bits(m as nat) == 0);
    }
    let q = div_round_half_even(n as u128, unit);
    proof {
        assert(q * unit <= 0x2_0000_0000_0000_0000) by (nonlinear_arith)
            requires
                q <= m + 1,
                m < 0x20_0000_0000_0000,
                unit <= 0x1000,
                unit >= 1,
        ;
    }
    q * unit
}

/// Appends `num / den` written with two decimals, as `{:.2}` does.
fn push_two_decimals(out: &mut String, num: u128, den: u128)
    requires
        0 < den <= 0x1_0000_0000,
        num <= 0x2_0000_0000_0000_0000,
    ensures
        final(out)@ == old(out)@ + two_decimals(num as nat, den as nat),
{
    let q = div_round_half_even(num * 100, den);
    push_decimal(out, q / 100);
    proof {
        reveal_strlit(".");
    }
    out.append(".");
    out.append(digit_str((q / 10) % 10));
    out.append(digit_str(q % 10));
    assert(out@ =~= old(out)@ + two_decimals(num as nat, den as nat));
}

/// Formats a size in bytes as `"N B"`, `"x.xx KB"` or `"x.xx MB"`.
pub fn format_size(bytes: u64) -> (s: String)
    ensures
        s@ == format_size_spec(bytes as nat),
{
    let mut s = String::new();
    if bytes < 1024 {
        push_decimal(&mut s, bytes as u128);
        proof {
            reveal_strlit(" B");
        }
        s.append(" B");
    } else if bytes < 1024 * 1024 {
        push_two_decimals(&mut s, nearest_f64_exec(bytes), 1024);
        proof {
            reveal_strlit(" KB");
        }
        s.append(" KB");
    } else {
        push_two_decimals(&mut s, nearest_f64_exec(bytes), 1024 * 1024);
        proof {
            reveal_strlit(" MB");
        }
        s.append(" MB");
    }
    assert(s@ =~= format_size_spec(bytes as nat));
    s
}

/// Formats a size in bytes with units up to GB (`"x.xx GB"`).
pub fn format_size_gb(bytes: u64) -> (s: String)
    ensures
        s@ == format_size_gb_spec(bytes as nat),
{
    if bytes < 1024 * 1024 * 1024 {
        format_size(bytes)
    } else {
        let mut s = String::new();
        push_two_decimals(&mut s, nearest_f64_exec(bytes), 1024 * 1024 * 1024);
        proof {
            reveal_strlit(" GB");
        }
        s.append(" GB");
        assert(s@ =~= format_size_gb_spec(bytes as nat));
        s
    }
}

} // verus!
