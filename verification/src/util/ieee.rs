//! Binary floating-point values, taken by their bit patterns and read exactly.
//!
//! A provider reports utilisation and charge in binary floating point. Such a
//! value crosses into this crate as the 64 bits of its double-precision form,
//! and everything derived from it is computed from the exact number that the
//! bits stand for, with a single rounding at the end.

use crate::util::digits::push_scaled;
use crate::util::numeral::{decimal, div_round_half_up, push_tenths, round_half_up, tenths_text};
use vstd::arithmetic::div_mod::{
    lemma_basic_div, lemma_div_basics, lemma_div_nonincreasing, lemma_small_mod,
};
use vstd::arithmetic::power2::{
    lemma2_to64, lemma2_to64_rest, lemma_pow2_pos, lemma_pow2_strictly_increases,
    lemma_pow2_unfold, pow2,
};
use vstd::prelude::*;

verus! {

/// The lowest bit pattern with the sign bit set.
pub const SIGN_BIT: u64 = 0x8000_0000_0000_0000;

/// Two to the power 52: the span of the fraction field, and the leading bit
/// that a normal value's mantissa has without storing it.
pub const HIDDEN_BIT: u64 = 0x10_0000_0000_0000;

/// The exponent field of infinities and of values that are no number.
pub const SPECIAL_FIELD: u64 = 0x7FF;

/// A double-precision value, held as its bit pattern. Every pattern is one.
#[derive(Clone, Copy, Debug, PartialEq, Eq)]
pub struct Binary64 {
    pub bits: u64,
}

/// What kind of value a bit pattern is.
#[derive(Clone, Copy, Debug, PartialEq, Eq)]
pub enum Kind {
    /// No number at all.
    Nan,
    /// An infinity.
    Infinite,
    /// A number: zero, subnormal or normal.
    Finite,
}

/// `x` where it is positive, else zero.
pub open spec fn positive_part(x: int) -> nat {
    if x > 0 {
        x as nat
    } else {
        0
    }
}

/// The smaller of two numbers.
pub open spec fn at_most(limit: nat, n: nat) -> nat {
    if n > limit {
        limit
    } else {
        n
    }
}

impl Binary64 {
    /// Whether the sign bit is set. Zero has a sign too.
    pub open spec fn negative(self) -> bool {
        self.bits >= SIGN_BIT
    }

    /// The eleven bits of the exponent field.
    pub open spec fn exponent_field(self) -> nat {
        ((self.bits / HIDDEN_BIT) % 0x800) as nat
    }

    /// The 52 bits of the fraction field.
    pub open spec fn fraction_field(self) -> nat {
        (self.bits % HIDDEN_BIT) as nat
    }

    /// The kind of the value.
    pub open spec fn kind(self) -> Kind {
        if self.exponent_field() != SPECIAL_FIELD {
            Kind::Finite
        } else if self.fraction_field() == 0 {
            Kind::Infinite
        } else {
            Kind::Nan
        }
    }

    /// The mantissa of a finite value: its magnitude is `mantissa()` times two
    /// to the power `exponent()`.
    pub open spec fn mantissa(self) -> nat {
        if self.exponent_field() == 0 {
            self.fraction_field()
        } else {
            self.fraction_field() + HIDDEN_BIT as nat
        }
    }

    /// The power of two that scales the mantissa of a finite value.
    pub open spec fn exponent(self) -> int {
        if self.exponent_field() == 0 {
            -1074
        } else {
            self.exponent_field() - 1075
        }
    }

    /// The numerator of a finite value's magnitude as a fraction.
    pub open spec fn numerator(self) -> nat {
        self.mantissa() * pow2(positive_part(self.exponent()))
    }

    /// The denominator of a finite value's magnitude as a fraction.
    pub open spec fn denominator(self) -> nat {
        pow2(positive_part(-self.exponent()))
    }

    /// The magnitude of a finite value times `scale`, rounded to the nearest
    /// whole number, a tie away from zero.
    pub open spec fn scaled(self, scale: nat) -> nat {
        round_half_up(self.numerator() * scale, self.denominator())
    }

    /// The whole part of a finite value's magnitude.
    pub open spec fn whole(self) -> nat {
        self.numerator() / self.denominator()
    }

    /// Whether the value is greater than zero. What is no number is not.
    pub open spec fn is_positive(self) -> bool {
        match self.kind() {
            Kind::Nan => false,
            Kind::Infinite => !self.negative(),
            Kind::Finite => !self.negative() && self.mantissa() > 0,
        }
    }

    /// A ratio as a whole percentage: scaled by 100, brought into 0 to 100 and
    /// rounded to the nearest whole number, a tie away from zero. What is no
    /// number counts as zero.
    pub open spec fn ratio_percent(self) -> nat {
        match self.kind() {
            Kind::Nan => 0,
            Kind::Infinite => if self.negative() {
                0
            } else {
                100
            },
            Kind::Finite => if self.negative() {
                0
            } else {
                at_most(100, self.scaled(100))
            },
        }
    }

    /// The value cut down to a whole number that 64 bits hold: its whole part,
    /// zero for what is negative or no number, and the largest such number
    /// for what lies above it.
    pub open spec fn truncated(self) -> nat {
        match self.kind() {
            Kind::Nan => 0,
            Kind::Infinite => if self.negative() {
                0
            } else {
                u64::MAX as nat
            },
            Kind::Finite => if self.negative() {
                0
            } else {
                at_most(u64::MAX as nat, self.whole())
            },
        }
    }

    /// Reads the sign.
    pub fn sign(&self) -> (negative: bool)
        ensures
            negative == self.negative(),
    {
        self.bits >= SIGN_BIT
    }

    /// Tells the kind of the value.
    pub fn classify(&self) -> (kind: Kind)
        ensures
            kind == self.kind(),
    {
        if (self.bits / HIDDEN_BIT) % 0x800 != SPECIAL_FIELD {
            Kind::Finite
        } else if self.bits % HIDDEN_BIT == 0 {
            Kind::Infinite
        } else {
            Kind::Nan
        }
    }

    /// Takes a finite value apart into mantissa and exponent.
    pub fn split(&self) -> (parts: (u64, i32))
        ensures
            parts.0 == self.mantissa(),
            parts.1 == self.exponent(),
            parts.0 < 2 * HIDDEN_BIT,
            -1074 <= parts.1 <= 972,
            parts.1 > -1074 ==> parts.0 >= HIDDEN_BIT,
    {
        let field = (self.bits / HIDDEN_BIT) % 0x800;
        let fraction = self.bits % HIDDEN_BIT;
        if field == 0 {
            (fraction, -1074)
        } else {
            (fraction + HIDDEN_BIT, field as i32 - 1075)
        }
    }

    /// Tells whether the value is greater than zero.
    pub fn exceeds_zero(&self) -> (positive: bool)
        ensures
            positive == self.is_positive(),
    {
        match self.classify() {
            Kind::Nan => false,
            Kind::Infinite => !self.sign(),
            Kind::Finite => !self.sign() && self.split().0 > 0,
        }
    }

    /// Turns a ratio into a whole percentage between 0 and 100.
    pub fn percent_of_ratio(&self) -> (percent: u8)
        ensures
            percent == self.ratio_percent(),
            percent <= 100,
    {
        let negative = self.sign();
        match self.classify() {
            Kind::Nan => 0,
            Kind::Infinite => if negative {
                0
            } else {
                100
            },
            Kind::Finite => {
                if negative {
                    return 0;
                }
                let (mantissa, exponent) = self.split();
                proof {
                    lemma_magnitude(*self, 100);
                }
                if exponent >= 0 {
                    if mantissa == 0 {
                        0
                    } else {
                        100
                    }
                } else {
                    let shift = (-exponent) as u32;
                    let rounded = round_shifted(mantissa * 100, shift);
                    if rounded > 100 {
                        100
                    } else {
                        rounded as u8
                    }
                }
            },
        }
    }

    /// Cuts the value down to a whole number of 64 bits, as a conversion of a
    /// floating-point value to an unsigned integer does.
    pub fn truncate(&self) -> (whole: u64)
        ensures
            whole == self.truncated(),
    {
        let negative = self.sign();
        match self.classify() {
            Kind::Nan => 0,
            Kind::Infinite => if negative {
                0
            } else {
                u64::MAX
            },
            Kind::Finite => {
                if negative {
                    return 0;
                }
                let (mantissa, exponent) = self.split();
                proof {
                    lemma_magnitude(*self, 1);
                    lemma2_to64();
                }
                if exponent >= 12 {
                    proof {
                        if exponent > 12 {
                            lemma_pow2_strictly_increases(12, exponent as nat);
                        }
                        let p = pow2(exponent as nat);
                        assert(mantissa as nat * p >= 0x1_0000_0000_0000_0000) by (nonlinear_arith)
                            requires
                                mantissa >= 0x10_0000_0000_0000,
                                p >= 0x1000,
                        ;
                    }
                    u64::MAX
                } else if exponent >= 0 {
                    let factor = power_of_two(exponent as u32);
                    proof {
                        if exponent < 11 {
                            lemma_pow2_strictly_increases(exponent as nat, 11);
                        }
                        assert(mantissa * factor < 0x1_0000_0000_0000_0000) by (nonlinear_arith)
                            requires
                                mantissa < 0x20_0000_0000_0000,
                                factor <= 0x800,
                        ;
                    }
                    mantissa * factor
                } else {
                    floor_shifted(mantissa, (-exponent) as u32)
                }
            },
        }
    }
}

/// What the scaled and the whole magnitude of a value come to. With an
/// exponent that is not negative the value is a whole number and nothing is
/// rounded; with a negative one its mantissa is divided by a power of two.
pub proof fn lemma_magnitude(value: Binary64, scale: nat)
    ensures
        value.exponent() >= 0 ==> {
            let n = value.mantissa() * pow2(value.exponent() as nat);
            &&& value.scaled(scale) == n * scale
            &&& value.whole() == n
            &&& value.mantissa() >= 1 ==> n >= 1
            &&& value.mantissa() == 0 ==> n == 0
        },
        value.exponent() < 0 ==> {
            let d = pow2((-value.exponent()) as nat);
            &&& value.scaled(scale) == round_half_up(value.mantissa() * scale, d)
            &&& value.whole() == value.mantissa() / d
        },
{
    lemma2_to64();
    let m = value.mantissa();
    if value.exponent() >= 0 {
        let p = pow2(value.exponent() as nat);
        lemma_pow2_pos(value.exponent() as nat);
        assert(value.denominator() == 1);
        assert(value.numerator() == m * p);
        assert(m >= 1 ==> m * p >= 1) by (nonlinear_arith)
            requires
                p >= 1,
        ;
        assert(m == 0 ==> m * p == 0) by (nonlinear_arith);
        lemma_div_basics((m * p) as int);
        lemma_div_basics((m * p * scale) as int);
    } else {
        assert(value.numerator() == m * 1);
        assert(m * 1 * scale == m * scale) by (nonlinear_arith);
    }
}

/// A number below two to the power 60, divided by two to the power 62 or
/// more, comes to nothing, rounded or not.
pub proof fn lemma_vanishes(n: nat, shift: nat)
    requires
        n < 0x1000_0000_0000_0000,
        shift >= 62,
    ensures
        round_half_up(n, pow2(shift)) == 0,
        n / pow2(shift) == 0,
{
    let d = pow2(shift);
    lemma2_to64_rest();
    if shift > 62 {
        lemma_pow2_strictly_increases(62, shift);
    }
    lemma_basic_div(n as int, d as int);
    lemma_small_mod(n, d);
}

/// Computes two to the power `k`.
pub fn power_of_two(k: u32) -> (p: u64)
    requires
        k <= 62,
    ensures
        p == pow2(k as nat),
        p >= 1,
{
    let mut p: u64 = 1;
    let mut i: u32 = 0;
    proof {
        lemma2_to64();
    }
    while i < k
        invariant
            i <= k <= 62,
            p == pow2(i as nat),
            p >= 1,
        decreases k - i,
    {
        proof {
            lemma2_to64();
            lemma_pow2_unfold((i + 1) as nat);
            lemma_pow2_strictly_increases(i as nat, 63);
            lemma2_to64_rest();
        }
        p = p * 2;
        i += 1;
    }
    p
}

/// Divides by two to the power `shift` and rounds to the nearest whole
/// number, a tie upward.
pub fn round_shifted(n: u64, shift: u32) -> (rounded: u64)
    requires
        n < 0x1000_0000_0000_0000,
    ensures
        rounded == round_half_up(n as nat, pow2(shift as nat)),
{
    if shift >= 62 {
        proof {
            lemma_vanishes(n as nat, shift as nat);
        }
        0
    } else {
        let d = power_of_two(shift);
        let rounded = div_round_half_up(n as u128, d as u128);
        proof {
            lemma_div_nonincreasing(n as int, d as int);
        }
        rounded as u64
    }
}

/// Divides by two to the power `shift` and drops the remainder.
pub fn floor_shifted(n: u64, shift: u32) -> (whole: u64)
    requires
        n < 0x1000_0000_0000_0000,
    ensures
        whole == n as nat / pow2(shift as nat),
{
    if shift >= 62 {
        proof {
            lemma_vanishes(n as nat, shift as nat);
        }
        0
    } else {
        n / power_of_two(shift)
    }
}

/// The text of a value with one decimal place: the magnitude rounded to the
/// nearest tenth, a tie away from zero, after a minus sign where the sign bit
/// is set. An infinity reads `inf`, and what is no number reads `NaN`.
pub open spec fn fixed1_text(value: Binary64) -> Seq<char> {
    let sign = if value.negative() {
        seq!['-']
    } else {
        Seq::<char>::empty()
    };
    match value.kind() {
        Kind::Nan => seq!['N', 'a', 'N'],
        Kind::Infinite => sign + seq!['i', 'n', 'f'],
        Kind::Finite => sign + tenths_text(value.scaled(10)),
    }
}

/// Appends [`fixed1_text`] to `out`.
pub fn push_fixed1(out: &mut String, value: Binary64)
    ensures
        final(out)@ == old(out)@ + fixed1_text(value),
{
    proof {
        reveal_strlit("NaN");
        reveal_strlit("-");
        reveal_strlit("inf");
        reveal_strlit(".0");
    }
    match value.classify() {
        Kind::Nan => {
            out.append("NaN");
            assert(final(out)@ =~= old(out)@ + fixed1_text(value));
        },
        Kind::Infinite => {
            if value.sign() {
                out.append("-");
            }
            out.append("inf");
            assert(final(out)@ =~= old(out)@ + fixed1_text(value));
        },
        Kind::Finite => {
            if value.sign() {
                out.append("-");
            }
            let (mantissa, exponent) = value.split();
            proof {
                lemma_magnitude(value, 10);
            }
            if exponent >= 0 {
                push_scaled(out, mantissa, exponent as u32);
                out.append(".0");
                proof {
                    let n = mantissa as nat * pow2(exponent as nat);
                    assert((n * 10) / 10 == n);
                    assert((n * 10) % 10 == 0);
                    assert(tenths_text(n * 10) =~= decimal(n) + seq!['.', '0']);
                    assert(final(out)@ =~= old(out)@ + fixed1_text(value));
                }
            } else {
                let tenths = round_shifted(mantissa * 10, (-exponent) as u32);
                push_tenths(out, tenths as u128);
                assert(final(out)@ =~= old(out)@ + fixed1_text(value));
            }
        },
    }
}

} // verus!
