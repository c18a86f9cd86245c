//! Natural numbers of any size, held as decimal digits, least significant
//! first. They serve to write out magnitudes that no machine integer holds.

use crate::util::numeral::{decimal, digit_char, digit_str};
use vstd::arithmetic::power2::{lemma_pow2_unfold, pow2};
use vstd::prelude::*;

verus! {

/// The number that a sequence of digits stands for, least significant first.
pub open spec fn digits_value(digits: Seq<u8>) -> nat
    decreases digits.len(),
{
    if digits.len() == 0 {
        0
    } else {
        digits[0] as nat + 10 * digits_value(digits.drop_first())
    }
}

/// Every entry is a decimal digit.
pub open spec fn all_digits(digits: Seq<u8>) -> bool {
    forall|i: int| 0 <= i < digits.len() ==> #[trigger] digits[i] < 10
}

/// The digits of a number in its one canonical form: decimal digits without
/// a zero in the most significant place. Zero is the empty sequence.
pub open spec fn canonical(digits: Seq<u8>) -> bool {
    all_digits(digits) && (digits.len() > 0 ==> digits.last() != 0)
}

/// The digits as text, most significant first.
pub open spec fn digits_text(digits: Seq<u8>) -> Seq<char>
    decreases digits.len(),
{
    if digits.len() == 0 {
        Seq::empty()
    } else {
        digits_text(digits.drop_first()).push(digit_char(digits[0] as nat))
    }
}

/// The text of canonical digits is the decimal numeral of their value, and
/// that value is not zero.
pub proof fn lemma_digits_text(digits: Seq<u8>)
    requires
        canonical(digits),
        digits.len() > 0,
    ensures
        digits_value(digits) >= 1,
        digits_text(digits) == decimal(digits_value(digits)),
    decreases digits.len(),
{
    let rest = digits.drop_first();
    if rest.len() == 0 {
        assert(digits[0] == digits.last());
        assert(digits_value(rest) == 0);
        assert(digits_text(rest) =~= Seq::<char>::empty());
        assert(digits_text(digits) =~= seq![digit_char(digits[0] as nat)]);
    } else {
        assert(rest.last() == digits.last());
        assert(forall|i: int| 0 <= i < rest.len() ==> rest[i] == digits[i + 1]);
        lemma_digits_text(rest);
        let n = digits_value(digits);
        assert(n == digits[0] as nat + 10 * digits_value(rest));
        assert(n / 10 == digits_value(rest));
        assert(n % 10 == digits[0] as nat);
    }
}

/// Doubles the number held in the places from `from` upward and adds `carry`
/// there; the places below `from` stay as they are.
pub fn double_from(digits: &mut Vec<u8>, from: usize, carry: u8)
    requires
        from <= old(digits)@.len(),
        carry <= 1,
        all_digits(old(digits)@),
        old(digits)@.len() > 0 ==> old(digits)@.last() != 0 || (from == old(digits)@.len() && carry
            == 1),
    ensures
        canonical(final(digits)@),
        final(digits)@.len() >= old(digits)@.len(),
        final(digits)@.take(from as int) == old(digits)@.take(from as int),
        digits_value(final(digits)@.skip(from as int)) == 2 * digits_value(
            old(digits)@.skip(from as int),
        ) + carry,
    decreases old(digits)@.len() - from,
{
    let ghost before = digits@;
    if from == digits.len() {
        if carry > 0 {
            digits.push(carry);
            assert(digits@.skip(from as int) =~= seq![carry]);
            assert(seq![carry].drop_first() =~= Seq::<u8>::empty());
            assert(digits_value(seq![carry]) == carry as nat + 10 * digits_value(
                Seq::<u8>::empty(),
            ));
        }
        assert(before.skip(from as int) =~= Seq::<u8>::empty());
        assert(digits@.take(from as int) =~= before.take(from as int));
    } else {
        let sum: u8 = 2 * digits[from] + carry;
        digits.set(from, sum % 10);
        let ghost middle = digits@;
        double_from(digits, from + 1, sum / 10);
        proof {
            let after = digits@;
            assert(after.take(from as int) =~= before.take(from as int)) by {
                assert(after.take(from + 1).take(from as int) =~= after.take(from as int));
                assert(middle.take(from + 1).take(from as int) =~= middle.take(from as int));
            }
            assert(after[from as int] == middle[from as int]) by {
                assert(after.take(from + 1)[from as int] == middle.take(from + 1)[from as int]);
            }
            assert(after.skip(from as int).drop_first() =~= after.skip(from + 1));
            assert(before.skip(from as int).drop_first() =~= before.skip(from + 1));
            assert(middle.skip(from + 1) =~= before.skip(from + 1));
        }
    }
}

/// Sets `digits` to the digits of `n`.
pub fn load(digits: &mut Vec<u8>, n: u64)
    ensures
        canonical(final(digits)@),
        digits_value(final(digits)@) == n,
    decreases n,
{
    if n == 0 {
        digits.clear();
    } else {
        load(digits, n / 2);
        let ghost half = digits@;
        double_from(digits, 0, (n % 2) as u8);
        assert(digits@.skip(0) =~= digits@);
        assert(half.skip(0) =~= half);
    }
}

/// Gives the digits of `mantissa` times two to the power `exponent`.
pub fn scaled_digits(mantissa: u64, exponent: u32) -> (digits: Vec<u8>)
    ensures
        canonical(digits@),
        digits_value(digits@) == mantissa * pow2(exponent as nat),
{
    let mut digits: Vec<u8> = Vec::new();
    load(&mut digits, mantissa);
    let mut done: u32 = 0;
    proof {
        lemma_pow2_unfold(1);
        assert(pow2(0) == 1) by {
            vstd::arithmetic::power2::lemma2_to64();
        }
    }
    while done < exponent
        invariant
            done <= exponent,
            canonical(digits@),
            digits_value(digits@) == mantissa * pow2(done as nat),
        decreases exponent - done,
    {
        let ghost before = digits@;
        double_from(&mut digits, 0, 0);
        proof {
            assert(digits@.skip(0) =~= digits@);
            assert(before.skip(0) =~= before);
            lemma_pow2_unfold((done + 1) as nat);
            assert(mantissa * (2 * pow2(done as nat)) == 2 * (mantissa * pow2(done as nat)))
                by (nonlinear_arith);
        }
        done += 1;
    }
    digits
}

/// Appends the digits to `out`, most significant first.
pub fn push_digits(out: &mut String, digits: &Vec<u8>)
    requires
        all_digits(digits@),
    ensures
        final(out)@ == old(out)@ + digits_text(digits@),
{
    let n = digits.len();
    let mut i: usize = n;
    assert(digits@.skip(n as int) =~= Seq::<u8>::empty());
    assert(out@ =~= old(out)@ + digits_text(digits@.skip(n as int)));
    while i > 0
        invariant
            n == digits@.len(),
            i <= n,
            all_digits(digits@),
            out@ == old(out)@ + digits_text(digits@.skip(i as int)),
        decreases i,
    {
        i -= 1;
        let ghost shown = out@;
        out.append(digit_str(digits[i]));
        proof {
            assert(digits@.skip(i as int).drop_first() =~= digits@.skip(i + 1));
            assert(out@ =~= old(out)@ + digits_text(digits@.skip(i as int)));
        }
    }
    assert(digits@.skip(0) =~= digits@);
}

/// Appends the decimal numeral of `mantissa` times two to the power
/// `exponent` to `out`.
pub fn push_scaled(out: &mut String, mantissa: u64, exponent: u32)
    ensures
        final(out)@ == old(out)@ + decimal(mantissa as nat * pow2(exponent as nat)),
{
    let digits = scaled_digits(mantissa, exponent);
    if digits.len() == 0 {
        out.append("0");
        proof {
            reveal_strlit("0");
            assert(digits_value(digits@) == 0);
            assert(final(out)@ =~= old(out)@ + decimal(0));
        }
    } else {
        push_digits(out, &digits);
        proof {
            lemma_digits_text(digits@);
        }
    }
}

} // verus!
