//! Fixed-point helpers: rounding division and decimal rendering of tenths.

use vstd::prelude::*;
use vstd::string::*;
use vstd::arithmetic::div_mod::{lemma_fundamental_div_mod, lemma_fundamental_div_mod_converse};

verus! {

/// The absolute value of `v`.
pub open spec fn magnitude(v: int) -> nat {
    if v < 0 {
        (-v) as nat
    } else {
        v as nat
    }
}

/// `n / d` rounded to the nearest integer, a tie rounded to the even one.
pub open spec fn round_div(n: int, d: int) -> int
    recommends
        d > 0,
{
    let below = n / d;
    let rest = n % d;
    if 2 * rest < d {
        below
    } else if 2 * rest > d {
        below + 1
    } else if below % 2 == 0 {
        below
    } else {
        below + 1
    }
}

/// No integer is closer to `n / d` than `round_div(n, d)`: the two differ by
/// at most one half, by nothing where `d` divides `n`, and where they differ
/// by one half the result is even. The result has the sign of `n`, or is zero.
pub proof fn lemma_round_div_nearest(n: int, d: int)
    requires
        d > 0,
    ensures
        -d <= 2 * (n - round_div(n, d) * d) <= d,
        n % d == 0 ==> round_div(n, d) * d == n,
        2 * (n - round_div(n, d) * d) == d || 2 * (n - round_div(n, d) * d) == -d ==> round_div(
            n,
            d,
        ) % 2 == 0,
        n >= 0 ==> round_div(n, d) >= 0,
        n <= 0 ==> round_div(n, d) <= 0,
{
    lemma_fundamental_div_mod(n, d);
    let q = n / d;
    assert((q + 1) * d == d * q + d) by (nonlinear_arith);
    assert(q * d == d * q) by (nonlinear_arith);
    let r = n % d;
    if n >= 0 {
        assert(q >= 0) by (nonlinear_arith)
            requires
                n >= 0,
                d > 0,
                n == d * q + r,
                0 <= r < d,
        ;
    } else {
        assert(q < 0) by (nonlinear_arith)
            requires
                n < 0,
                d > 0,
                n == d * q + r,
                0 <= r < d,
        ;
    }
}

/// Rounding keeps a quotient between any two integer bounds of the exact one.
pub proof fn lemma_round_div_bounds(n: int, d: int, lo: int, hi: int)
    requires
        d > 0,
        lo * d <= n <= hi * d,
    ensures
        lo <= round_div(n, d) <= hi,
{
    lemma_round_div_nearest(n, d);
    let q = round_div(n, d);
    assert(lo <= q) by (nonlinear_arith)
        requires
            d > 0,
            lo * d <= n,
            2 * (n - q * d) <= d,
    ;
    assert(q <= hi) by (nonlinear_arith)
        requires
            d > 0,
            n <= hi * d,
            -d <= 2 * (n - q * d),
    ;
}

/// Rounding to the nearest with ties to even is symmetric about zero.
pub proof fn lemma_round_div_negation(n: int, d: int)
    requires
        d > 0,
    ensures
        round_div(-n, d) == -round_div(n, d),
{
    lemma_fundamental_div_mod(n, d);
    let q = n / d;
    let r = n % d;
    if r == 0 {
        assert(-n == d * (-q) + 0) by (nonlinear_arith)
            requires
                n == d * q + r,
                r == 0,
        ;
        lemma_fundamental_div_mod_converse(-n, d, -q, 0);
    } else {
        assert(-n == d * (-q - 1) + (d - r)) by (nonlinear_arith)
            requires
                n == d * q + r,
        ;
        lemma_fundamental_div_mod_converse(-n, d, -q - 1, d - r);
    }
}

/// Divides `n` by `d`, rounding to the nearest integer and a tie to the even
/// one.
pub fn div_round(n: i128, d: u64) -> (q: i128)
    requires
        d > 0,
    ensures
        q == round_div(n as int, d as int),
{
    let m: u128 = if n < 0 {
        (-(n + 1)) as u128 + 1
    } else {
        n as u128
    };
    let dd: u128 = d as u128;
    let whole: u128 = m / dd;
    let rest: u128 = m % dd;
    proof {
        lemma_fundamental_div_mod(m as int, dd as int);
        assert(m >= whole + rest) by (nonlinear_arith)
            requires
                m == dd * whole + rest,
                dd >= 1,
        ;
    }
    // The nearest integer to m / d.
    let near: u128 = if rest > dd - rest {
        whole + 1
    } else if rest < dd - rest {
        whole
    } else if whole % 2 == 0 {
        whole
    } else {
        whole + 1
    };
    proof {
        assert(near as int == round_div(m as int, d as int));
        assert(near <= m);
        if n < 0 {
            lemma_round_div_negation(m as int, d as int);
        }
    }
    if n >= 0 {
        near as i128
    } else if near > i128::MAX as u128 {
        i128::MIN
    } else {
        -(near as i128)
    }
}

/// The character that writes the digit `d`.
pub open spec fn digit_char(d: int) -> char
    recommends
        0 <= d < 10,
{
    if d == 0 {
        '0'
    } else if d == 1 {
        '1'
    } else if d == 2 {
        '2'
    } else if d == 3 {
        '3'
    } else if d == 4 {
        '4'
    } else if d == 5 {
        '5'
    } else if d == 6 {
        '6'
    } else if d == 7 {
        '7'
    } else if d == 8 {
        '8'
    } else {
        '9'
    }
}

/// The decimal numeral of `n`, without leading zeros.
pub open spec fn digits(n: nat) -> Seq<char>
    decreases n,
{
    if n < 10 {
        seq![digit_char(n as int)]
    } else {
        digits(n / 10).push(digit_char((n % 10) as int))
    }
}

/// A minus sign for a negative number, nothing otherwise.
pub open spec fn sign(v: int) -> Seq<char> {
    if v < 0 {
        seq!['-']
    } else {
        Seq::empty()
    }
}

/// `tenths` written with exactly one digit after the point: `-5` is `-0.5`.
pub open spec fn one_decimal(tenths: int) -> Seq<char> {
    sign(tenths) + digits(magnitude(tenths) / 10) + seq![
        '.',
        digit_char((magnitude(tenths) % 10) as int),
    ]
}

/// `tenths` written as briefly as possible: the digit after the point is left
/// out, with the point, where it is zero.
pub open spec fn plain_decimal(tenths: int) -> Seq<char> {
    if magnitude(tenths) % 10 == 0 {
        sign(tenths) + digits(magnitude(tenths) / 10)
    } else {
        one_decimal(tenths)
    }
}

/// The digit `d` as a text of one character.
fn digit_text(d: u64) -> (text: &'static str)
    requires
        d < 10,
    ensures
        text@ == seq![digit_char(d as int)],
{
    proof {
        reveal_strlit("0");
        reveal_strlit("1");
        reveal_strlit("2");
        reveal_strlit("3");
        reveal_strlit("4");
        reveal_strlit("5");
        reveal_strlit("6");
        reveal_strlit("7");
        reveal_strlit("8");
        reveal_strlit("9");
    }
    let text = if d == 0 {
        "0"
    } else if d == 1 {
        "1"
    } else if d == 2 {
        "2"
    } else if d == 3 {
        "3"
    } else if d == 4 {
        "4"
    } else if d == 5 {
        "5"
    } else if d == 6 {
        "6"
    } else if d == 7 {
        "7"
    } else if d == 8 {
        "8"
    } else {
        "9"
    };
    assert(text@ =~= seq![digit_char(d as int)]);
    text
}

/// Appends the decimal numeral of `n` to `out`.
pub fn push_digits(out: &mut String, n: u64)
    ensures
        final(out)@ == old(out)@ + digits(n as nat),
    decreases n,
{
    if n >= 10 {
        push_digits(out, n / 10);
    }
    out.append(digit_text(n % 10));
    proof {
        assert(out@ =~= old(out)@ + digits(n as nat));
    }
}

fn magnitude_of(v: i64) -> (m: u64)
    ensures
        m == magnitude(v as int),
{
    if v < 0 {
        (-(v as i128)) as u64
    } else {
        v as u64
    }
}

/// Appends `tenths` to `out` with exactly one digit after the point.
pub fn push_one_decimal(out: &mut String, tenths: i64)
    ensures
        final(out)@ == old(out)@ + one_decimal(tenths as int),
{
    let m: u64 = magnitude_of(tenths);
    if tenths < 0 {
        proof {
            reveal_strlit("-");
        }
        out.append("-");
    }
    push_digits(out, m / 10);
    proof {
        reveal_strlit(".");
    }
    out.append(".");
    out.append(digit_text(m % 10));
    proof {
        assert(out@ =~= old(out)@ + one_decimal(tenths as int));
    }
}

/// Appends `tenths` to `out` in its briefest form.
pub fn push_plain_decimal(out: &mut String, tenths: i64)
    ensures
        final(out)@ == old(out)@ + plain_decimal(tenths as int),
{
    let m: u64 = magnitude_of(tenths);
    if m % 10 == 0 {
        if tenths < 0 {
            proof {
            reveal_strlit("-");
        }
        out.append("-");
        }
        push_digits(out, m / 10);
        proof {
            assert(out@ =~= old(out)@ + plain_decimal(tenths as int));
        }
    } else {
        push_one_decimal(out, tenths);
    }
}

} // verus!
