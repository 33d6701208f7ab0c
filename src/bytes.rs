//! Human-readable byte sizes: `1536` is `"1.50 kB"`.
use vstd::prelude::*;
use vstd::arithmetic::div_mod::lemma_fundamental_div_mod_converse;
use crate::number::{decimal, hundredths, round_half_even, push_decimal, push_hundredths, div_round_half_even};
use crate::text::{push_str, string_of};

verus! {

pub open spec fn pow1024(e: nat) -> nat
    decreases e,
{
    if e == 0 {
        1
    } else {
        1024 * pow1024((e - 1) as nat)
    }
}

/// The label of the unit `1024^e` bytes, for `e <= 4`.
pub open spec fn unit_name(e: nat) -> Seq<char> {
    if e == 0 {
        "B"@
    } else if e == 1 {
        "kB"@
    } else if e == 2 {
        "MB"@
    } else if e == 3 {
        "GB"@
    } else {
        "TB"@
    }
}

/// The largest `e <= 4` with `1024^e <= m`: the power of 1024 that a
/// magnitude is shown in (terabytes at most).
pub open spec fn byte_exponent(m: nat) -> nat {
    if m >= pow1024(4) {
        4
    } else if m >= pow1024(3) {
        3
    } else if m >= pow1024(2) {
        2
    } else if m >= pow1024(1) {
        1
    } else {
        0
    }
}

/// A non-negative magnitude in bytes as text. Below one byte the value is
/// shown as it is, in bytes; otherwise it is divided by its unit and shown
/// with two decimals.
pub open spec fn magnitude_text(m: nat) -> Seq<char> {
    if m < 1 {
        decimal(m) + seq![' '] + unit_name(0)
    } else {
        let e = byte_exponent(m);
        hundredths(round_half_even(m * 100, pow1024(e))) + seq![' '] + unit_name(e)
    }
}

/// A signed byte count as text: a `-` for negative counts, then the
/// magnitude.
pub open spec fn bytes_text(num: int) -> Seq<char> {
    if num < 0 {
        seq!['-'] + magnitude_text((-num) as nat)
    } else {
        magnitude_text(num as nat)
    }
}

fn unit_label(e: u32) -> (r: &'static str)
    requires
        e <= 4,
    ensures
        r@ == unit_name(e as nat),
{
    if e == 0 {
        "B"
    } else if e == 1 {
        "kB"
    } else if e == 2 {
        "MB"
    } else if e == 3 {
        "GB"
    } else {
        "TB"
    }
}

proof fn lemma_pow1024_values()
    ensures
        pow1024(0) == 1,
        pow1024(1) == 1024,
        pow1024(2) == 1048576,
        pow1024(3) == 1073741824,
        pow1024(4) == 1099511627776,
{
    reveal_with_fuel(pow1024, 5);
}

/// Rounding `m * 100 / d` can be done on the remainder of `m / d` alone,
/// since the whole part contributes an even quotient.
proof fn lemma_round_split(m: nat, d: nat)
    requires
        d > 0,
    ensures
        round_half_even(m * 100, d) == (m / d) * 100 + round_half_even((m % d) * 100, d),
{
    let a = m / d;
    let b = m % d;
    let q1 = (b * 100) / d;
    let r1 = (b * 100) % d;
    assert(m == a * d + b) by (nonlinear_arith)
        requires
            a == m / d,
            b == m % d,
            d > 0,
    ;
    assert(b * 100 == q1 * d + r1 && 0 <= r1 < d) by (nonlinear_arith)
        requires
            q1 == (b * 100) / d,
            r1 == (b * 100) % d,
            d > 0,
    ;
    assert(m * 100 == (a * 100 + q1) * d + r1) by (nonlinear_arith)
        requires
            m == a * d + b,
            b * 100 == q1 * d + r1,
    ;
    lemma_fundamental_div_mod_converse((m * 100) as int, d as int, (a * 100 + q1) as int, r1 as int);
    assert((a * 100 + q1) % 2 == q1 % 2);
}

/// The byte count `num` in human-readable form: two decimals and the
/// largest unit among B, kB, MB, GB and TB that does not exceed it
/// (`1536` is `"1.50 kB"`, `-2048` is `"-2.00 kB"`, `0` is `"0 B"`).
/// Rounding is to the nearest hundredth, ties to even.
pub fn pretty_bytes(num: i128) -> (r: String)
    ensures
        r@ == bytes_text(num as int),
{
    let negative = num < 0;
    let m: u128 = if negative {
        (-(num + 1)) as u128 + 1
    } else {
        num as u128
    };
    let ghost mag: nat = if num < 0 {
        (-num) as nat
    } else {
        num as nat
    };
    assert(m == mag);
    let mut out: Vec<char> = Vec::new();
    if negative {
        out.push('-');
    }
    let ghost start = out@;
    if m < 1 {
        push_decimal(&mut out, m);
        out.push(' ');
        push_str(&mut out, unit_label(0));
    } else {
        proof {
            lemma_pow1024_values();
        }
        let (e, d): (u32, u128) = if m >= 1099511627776 {
            (4, 1099511627776)
        } else if m >= 1073741824 {
            (3, 1073741824)
        } else if m >= 1048576 {
            (2, 1048576)
        } else if m >= 1024 {
            (1, 1024)
        } else {
            (0, 1)
        };
        assert(e as nat == byte_exponent(mag) && d as nat == pow1024(e as nat));
        let whole = m / d;
        let part = m % d;
        assert(part < d);
        let rounded = div_round_half_even(part * 100, d);
        assert(rounded <= 100) by {
            assert((part * 100) as nat / (d as nat) <= 99) by (nonlinear_arith)
                requires
                    part < d,
                    d > 0,
            ;
        }
        assert(whole <= 154742504910672534362390528) by {
            assert(m as nat / (d as nat) <= m as nat) by (nonlinear_arith)
                requires
                    d >= 1,
            ;
            if e < 4 {
                assert(m < 1024 * d);
                assert(m as nat / (d as nat) <= 1024) by (nonlinear_arith)
                    requires
                        m < 1024 * d,
                        d >= 1,
                ;
            } else {
                assert(m as nat / 1099511627776 <= 154742504910672534362390528) by (nonlinear_arith)
                    requires
                        m <= 170141183460469231731687303715884105728,
                ;
            }
        }
        let q = whole * 100 + rounded;
        proof {
            lemma_round_split(mag, d as nat);
        }
        push_hundredths(&mut out, q);
        out.push(' ');
        push_str(&mut out, unit_label(e));
    }
    assert(out@ =~= bytes_text(num as int));
    string_of(&out)
}

/// Magnitudes of a terabyte and above stay in terabytes: the unit never
/// grows past TB, and the value is the magnitude divided by `1024^4`.
pub proof fn lemma_large_magnitudes_in_terabytes(m: int)
    requires
        m >= pow1024(4),
    ensures
        bytes_text(m) == hundredths(round_half_even((m * 100) as nat, pow1024(4))) + seq![' ']
            + "TB"@,
{
    lemma_pow1024_values();
}

/// A magnitude below one byte is shown as its raw value, in bytes, without
/// two decimals.
pub proof fn lemma_below_one_byte(m: int)
    requires
        0 <= m < 1,
    ensures
        bytes_text(m) == decimal(m as nat) + seq![' '] + "B"@,
{
}

/// A negative count is shown as `-` followed by the text of its magnitude.
pub proof fn lemma_negative_is_signed_magnitude(m: int)
    requires
        m < 0,
    ensures
        bytes_text(m) == seq!['-'] + bytes_text(-m),
{
}

} // verus!
