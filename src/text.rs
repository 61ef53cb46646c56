//! Exact decimal rendering of integers and of one-decimal fixed-point values,
//! used to build human-readable messages.
use vstd::prelude::*;

verus! {

/// The character of the decimal digit `d` (`0 <= d < 10`).
pub open spec fn digit_char(d: int) -> char {
    if d == 0 {
        '0'
    } else if d == 1 {
        '1'
    } else if d == 2 {
        '2'
    } else if d == 3 {
        '3'
    } else if d == 4 {
        '4'
    } else if d == 5 {
        '5'
    } else if d == 6 {
        '6'
    } else if d == 7 {
        '7'
    } else if d == 8 {
        '8'
    } else {
        '9'
    }
}

/// The decimal digits of `n`, most significant first, without leading zeros.
pub open spec fn decimal(n: nat) -> Seq<char>
    decreases n,
{
    if n < 10 {
        seq![digit_char(n as int)]
    } else {
        decimal(n / 10).push(digit_char((n % 10) as int))
    }
}

/// `n` in decimal, with a leading `-` when negative.
pub open spec fn signed_decimal(n: int) -> Seq<char> {
    if n < 0 {
        seq!['-'] + decimal((-n) as nat)
    } else {
        decimal(n as nat)
    }
}

/// A count of tenths written with one decimal place (`-12` is `-1.2`).
pub open spec fn tenths_text(t: int) -> Seq<char> {
    let a: nat = if t < 0 { (-t) as nat } else { t as nat };
    (if t < 0 { seq!['-'] } else { Seq::empty() }) + decimal(a / 10) + seq!['.'] + seq![digit_char((a % 10) as int)]
}

/// `a / b` rounded down, for a positive `b`.
pub fn floor_div(a: i128, b: i128) -> (q: i128)
    requires
        b > 0,
        a > i128::MIN,
    ensures
        q == a as int / b as int,
        a >= 0 ==> 0 <= q <= a,
        a < 0 ==> a <= q < 0,
{
    if a >= 0 {
        let q = ((a as u128) / (b as u128)) as i128;
        assert(q <= a) by (nonlinear_arith)
            requires
                q == a / b,
                b >= 1,
                a >= 0,
        ;
        q
    } else {
        let m: u128 = (-a - 1) as u128;
        let t: u128 = m / (b as u128);
        let r: u128 = m % (b as u128);
        proof {
            vstd::arithmetic::div_mod::lemma_fundamental_div_mod(m as int, b as int);
            assert(a as int == (-(t as int) - 1) * (b as int) + (b - 1 - r)) by (nonlinear_arith)
                requires
                    m as int == (b as int) * (t as int) + r as int,
                    a as int == -(m as int) - 1,
            ;
            vstd::arithmetic::div_mod::lemma_fundamental_div_mod_converse(
                a as int,
                b as int,
                -(t as int) - 1,
                b - 1 - r,
            );
            assert(t as int <= m as int) by (nonlinear_arith)
                requires
                    m as int == (b as int) * (t as int) + r as int,
                    b >= 1,
                    r >= 0,
            ;
        }
        -(t as i128) - 1
    }
}

/// The one-character string of the digit `d`.
fn digit_str(d: u64) -> (r: &'static str)
    requires
        d < 10,
    ensures
        r@ == seq![digit_char(d as int)],
{
    if d == 0 {
        proof { reveal_strlit("0"); }
        "0"
    } else if d == 1 {
        proof { reveal_strlit("1"); }
        "1"
    } else if d == 2 {
        proof { reveal_strlit("2"); }
        "2"
    } else if d == 3 {
        proof { reveal_strlit("3"); }
        "3"
    } else if d == 4 {
        proof { reveal_strlit("4"); }
        "4"
    } else if d == 5 {
        proof { reveal_strlit("5"); }
        "5"
    } else if d == 6 {
        proof { reveal_strlit("6"); }
        "6"
    } else if d == 7 {
        proof { reveal_strlit("7"); }
        "7"
    } else if d == 8 {
        proof { reveal_strlit("8"); }
        "8"
    } else {
        proof { reveal_strlit("9"); }
        "9"
    }
}

/// Append the decimal digits of `n`.
pub fn push_decimal(s: &mut String, n: u128)
    ensures
        final(s)@ == old(s)@ + decimal(n as nat),
    decreases n,
{
    if n >= 10 {
        push_decimal(s, n / 10);
    }
    s.append(digit_str((n % 10) as u64));
    assert(final(s)@ =~= old(s)@ + decimal(n as nat));
}

/// Append `n` in decimal, with a leading `-` when negative.
pub fn push_signed_decimal(s: &mut String, n: i128)
    requires
        n > i128::MIN,
    ensures
        final(s)@ == old(s)@ + signed_decimal(n as int),
{
    if n < 0 {
        proof { reveal_strlit("-"); }
        s.append("-");
        push_decimal(s, (-n) as u128);
        assert(final(s)@ =~= old(s)@ + signed_decimal(n as int));
    } else {
        push_decimal(s, n as u128);
    }
}

/// Append a count of tenths with one decimal place.
pub fn push_tenths(s: &mut String, t: i128)
    requires
        t > i128::MIN,
    ensures
        final(s)@ == old(s)@ + tenths_text(t as int),
{
    let ghost start = s@;
    let a: u128 = if t < 0 {
        proof { reveal_strlit("-"); }
        s.append("-");
        (-t) as u128
    } else {
        t as u128
    };
    push_decimal(s, a / 10);
    proof { reveal_strlit("."); }
    s.append(".");
    s.append(digit_str((a % 10) as u64));
    assert(final(s)@ =~= start + tenths_text(t as int));
}

} // verus!
