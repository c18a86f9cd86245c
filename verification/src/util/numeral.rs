//! Decimal numerals: what the text of a natural number is, how to write it,
//! and how a quotient is rounded to a count of tenths or hundredths.

use vstd::arithmetic::div_mod::{
    lemma_div_nonincreasing, lemma_fundamental_div_mod, lemma_mod_bound,
};
use vstd::prelude::*;

verus! {

/// The character that stands for a single decimal digit.
pub open spec fn digit_char(d: nat) -> char {
    if d == 0 {
        '0'
    } else if d == 1 {
        '1'
    } else if d == 2 {
        '2'
    } else if d == 3 {
        '3'
    } else if d == 4 {
        '4'
    } else if d == 5 {
        '5'
    } else if d == 6 {
        '6'
    } else if d == 7 {
        '7'
    } else if d == 8 {
        '8'
    } else {
        '9'
    }
}

/// The decimal numeral of `n`, most significant digit first, without leading zeros.
pub open spec fn decimal(n: nat) -> Seq<char>
    decreases n,
{
    if n < 10 {
        seq![digit_char(n)]
    } else {
        decimal(n / 10).push(digit_char(n % 10))
    }
}

/// `n` written with exactly two digits; meant for `n < 100`.
pub open spec fn two_digits(n: nat) -> Seq<char> {
    seq![digit_char(n / 10), digit_char(n % 10)]
}

/// The one-character text of a decimal digit.
pub fn digit_str(d: u8) -> (s: &'static str)
    requires
        d < 10,
    ensures
        s@ == seq![digit_char(d as nat)],
{
    proof {
        reveal_strlit("0");
        reveal_strlit("1");
        reveal_strlit("2");
        reveal_strlit("3");
        reveal_strlit("4");
        reveal_strlit("5");
        reveal_strlit("6");
        reveal_strlit("7");
        reveal_strlit("8");
        reveal_strlit("9");
    }
    let s = if d == 0 {
        "0"
    } else if d == 1 {
        "1"
    } else if d == 2 {
        "2"
    } else if d == 3 {
        "3"
    } else if d == 4 {
        "4"
    } else if d == 5 {
        "5"
    } else if d == 6 {
        "6"
    } else if d == 7 {
        "7"
    } else if d == 8 {
        "8"
    } else {
        "9"
    };
    assert(s@ =~= seq![digit_char(d as nat)]);
    s
}

/// Appends the decimal numeral of `n` to `out`.
pub fn push_decimal(out: &mut String, n: u128)
    ensures
        final(out)@ == old(out)@ + decimal(n as nat),
    decreases n,
{
    if n >= 10 {
        push_decimal(out, n / 10);
    }
    let d: u8 = (n % 10) as u8;
    out.append(digit_str(d));
    assert(final(out)@ =~= old(out)@ + decimal(n as nat));
}

/// Appends `n` as exactly two digits to `out`.
pub fn push_two_digits(out: &mut String, n: u8)
    requires
        n < 100,
    ensures
        final(out)@ == old(out)@ + two_digits(n as nat),
{
    out.append(digit_str(n / 10));
    out.append(digit_str(n % 10));
    assert(final(out)@ =~= old(out)@ + two_digits(n as nat));
}

/// `num / den` rounded to the nearest integer; a tie goes to the even neighbour.
pub open spec fn round_half_even(num: nat, den: nat) -> nat
    recommends
        den > 0,
{
    let q = num / den;
    let r = num % den;
    if 2 * r > den || (2 * r == den && q % 2 == 1) {
        q + 1
    } else {
        q
    }
}

/// `num / den` rounded to the nearest integer; a tie goes away from zero.
pub open spec fn round_half_up(num: nat, den: nat) -> nat
    recommends
        den > 0,
{
    let q = num / den;
    let r = num % den;
    if 2 * r >= den {
        q + 1
    } else {
        q
    }
}

/// Rounding gives a nearest whole number: the result times `den` lies within
/// half of `den` of `num`. Half-way between two whole numbers, `round_half_up`
/// takes the greater and `round_half_even` the even one.
pub proof fn lemma_rounds_to_nearest(num: nat, den: nat)
    requires
        den > 0,
    ensures
        2 * num - den < 2 * (round_half_up(num, den) * den) <= 2 * num + den,
        2 * num - den <= 2 * (round_half_even(num, den) * den) <= 2 * num + den,
        2 * (num % den) == den ==> round_half_even(num, den) % 2 == 0,
        num % den == 0 ==> round_half_up(num, den) == num / den && round_half_even(num, den) == num
            / den,
{
    let q = num / den;
    let r = num % den;
    lemma_fundamental_div_mod(num as int, den as int);
    lemma_mod_bound(num as int, den as int);
    assert(num == den * q + r);
    assert(den * q == q * den && (q + 1) * den == q * den + den) by (nonlinear_arith);
}

/// Computes [`round_half_even`].
pub fn div_round_half_even(num: u128, den: u128) -> (q: u128)
    requires
        den > 0,
        num < u128::MAX,
    ensures
        q == round_half_even(num as nat, den as nat),
{
    let q = num / den;
    let r = num % den;
    proof {
        lemma_mod_bound(num as int, den as int);
        lemma_div_nonincreasing(num as int, den as int);
    }
    if r > den - r || (r == den - r && q % 2 == 1) {
        q + 1
    } else {
        q
    }
}

/// Computes [`round_half_up`].
pub fn div_round_half_up(num: u128, den: u128) -> (q: u128)
    requires
        den > 0,
        num < u128::MAX,
    ensures
        q == round_half_up(num as nat, den as nat),
{
    let q = num / den;
    let r = num % den;
    proof {
        lemma_mod_bound(num as int, den as int);
        lemma_div_nonincreasing(num as int, den as int);
    }
    if r >= den - r {
        q + 1
    } else {
        q
    }
}

/// A count of tenths as text with one decimal place: `123` reads `12.3`.
pub open spec fn tenths_text(tenths: nat) -> Seq<char> {
    decimal(tenths / 10) + seq!['.', digit_char(tenths % 10)]
}

/// A count of hundredths as text with two decimal places: `3126` reads `31.26`.
pub open spec fn hundredths_text(hundredths: nat) -> Seq<char> {
    decimal(hundredths / 100) + seq!['.'] + two_digits(hundredths % 100)
}

/// Appends [`tenths_text`] to `out`.
pub fn push_tenths(out: &mut String, tenths: u128)
    ensures
        final(out)@ == old(out)@ + tenths_text(tenths as nat),
{
    push_decimal(out, tenths / 10);
    out.append(".");
    out.append(digit_str((tenths % 10) as u8));
    proof {
        reveal_strlit(".");
        assert(final(out)@ =~= old(out)@ + tenths_text(tenths as nat));
    }
}

/// Appends [`hundredths_text`] to `out`.
pub fn push_hundredths(out: &mut String, hundredths: u128)
    ensures
        final(out)@ == old(out)@ + hundredths_text(hundredths as nat),
{
    push_decimal(out, hundredths / 100);
    out.append(".");
    push_two_digits(out, (hundredths % 100) as u8);
    proof {
        reveal_strlit(".");
        assert(final(out)@ =~= old(out)@ + hundredths_text(hundredths as nat));
    }
}

} // verus!
