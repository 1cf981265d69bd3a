//! IEEE 754 binary64 numbers held by their bit patterns.
//!
//! The library compares, negates and stores such numbers; it never rounds.

use vstd::arithmetic::power2::{lemma_pow2_pos, lemma_pow2_strictly_increases, lemma_pow2_unfold, pow2};
use vstd::prelude::*;

verus! {

/// A binary64 number by its bit pattern.
#[derive(Clone, Copy, Debug, PartialEq, Eq, Structural)]
pub struct Number {
    pub bits: u64,
}

/// The bit that holds the sign.
pub const SIGN: u64 = 0x8000_0000_0000_0000;

/// The bit pattern of positive infinity; magnitudes below it are finite.
pub const INFINITY: u64 = 0x7FF0_0000_0000_0000;

/// The bit pattern of one million.
pub const MILLION: u64 = 0x412E_8480_0000_0000;

/// What a magnitude pattern denotes, in units of the smallest positive number.
pub open spec fn units(magnitude: int) -> int {
    let exponent = magnitude / 0x10_0000_0000_0000;
    let fraction = magnitude % 0x10_0000_0000_0000;
    if exponent == 0 {
        fraction
    } else {
        (0x10_0000_0000_0000 + fraction) * pow2((exponent - 1) as nat)
    }
}

impl Number {
    pub open spec fn negative(self) -> bool {
        self.bits >= SIGN
    }

    /// The pattern without its sign.
    pub open spec fn magnitude(self) -> int {
        if self.negative() {
            self.bits - SIGN
        } else {
            self.bits as int
        }
    }

    pub open spec fn finite(self) -> bool {
        self.magnitude() < INFINITY
    }

    /// The value of a finite number, in units of the smallest positive number.
    pub open spec fn value(self) -> int {
        if self.negative() {
            -units(self.magnitude())
        } else {
            units(self.magnitude())
        }
    }

    pub open spec fn spec_negated(self) -> Number {
        Number {
            bits: (if self.negative() {
                self.bits - SIGN
            } else {
                self.bits + SIGN
            }) as u64,
        }
    }

    /// Positive zero.
    pub fn zero() -> (r: Number)
        ensures
            r.finite(),
            r.value() == 0,
            r == (Number { bits: 0 }),
    {
        Number { bits: 0 }
    }

    fn size(self) -> (r: u64)
        ensures
            r == self.magnitude(),
    {
        if self.bits >= SIGN {
            self.bits - SIGN
        } else {
            self.bits
        }
    }

    /// Neither infinite nor a NaN.
    pub fn is_finite(self) -> (r: bool)
        ensures
            r == self.finite(),
    {
        self.size() < INFINITY
    }

    /// The number with its sign flipped.
    pub fn negated(self) -> (r: Number)
        ensures
            r == self.spec_negated(),
            r.finite() == self.finite(),
            r.value() == -self.value(),
    {
        if self.bits >= SIGN {
            Number { bits: self.bits - SIGN }
        } else {
            Number { bits: self.bits + SIGN }
        }
    }

    /// Finite and within one million of zero.
    pub fn within_million(self) -> (r: bool)
        ensures
            r == (self.finite() && -1_000_000 * pow2(1074) <= self.value() <= 1_000_000 * pow2(
                1074,
            )),
    {
        proof {
            lemma_million();
            lemma_units_order(self.magnitude(), MILLION as int);
            lemma_units_order(MILLION as int, self.magnitude());
            lemma_units_order(0, self.magnitude());
        }
        self.size() <= MILLION
    }

    /// Whether two finite numbers are equal; the two zeros are.
    pub fn equals(self, other: Number) -> (r: bool)
        ensures
            self.finite() && other.finite() ==> r == (self.value() == other.value()),
            self == other ==> r,
    {
        proof {
            lemma_units_order(self.magnitude(), other.magnitude());
            lemma_units_order(other.magnitude(), self.magnitude());
            lemma_units_order(0, self.magnitude());
            lemma_units_order(0, other.magnitude());
            assert(units(0) == 0);
        }
        self.bits == other.bits || (self.size() == 0 && other.size() == 0)
    }
}

proof fn lemma_million()
    ensures
        units(MILLION as int) == 1_000_000 * pow2(1074),
{
    vstd::arithmetic::power2::lemma_pow2_adds(1041, 33);
    vstd::arithmetic::power2::lemma2_to64();
    lemma_pow2_unfold(33);
    assert(MILLION as int / 0x10_0000_0000_0000 == 1042);
    assert(MILLION as int % 0x10_0000_0000_0000 == 0xE_8480_0000_0000);
    let p = pow2(1041);
    assert(pow2(33) == 0x2_0000_0000);
    assert(0x1E_8480_0000_0000 == 1_000_000 * 0x2_0000_0000);
    assert((1_000_000 * 0x2_0000_0000) * p == 1_000_000 * (p * 0x2_0000_0000)) by (nonlinear_arith);
}

/// Larger patterns denote larger magnitudes.
pub proof fn lemma_units_order(a: int, b: int)
    requires
        0 <= a,
        0 <= b,
    ensures
        a < b ==> units(a) < units(b),
        a == b ==> units(a) == units(b),
        units(a) >= 0,
{
    let step: int = 0x10_0000_0000_0000;
    let ea = a / step;
    let eb = b / step;
    let fa = a % step;
    let fb = b % step;
    if ea > 0 {
        lemma_pow2_pos((ea - 1) as nat);
        let p = pow2((ea - 1) as nat) as int;
        assert((step + fa) * p >= 0) by (nonlinear_arith)
            requires
                p > 0,
                fa >= 0,
                step >= 0,
        ;
    }
    if a < b {
        if ea == eb {
            if ea > 0 {
                let p = pow2((ea - 1) as nat) as int;
                assert((step + fa) * p < (step + fb) * p) by (nonlinear_arith)
                    requires
                        p > 0,
                        fa < fb,
                ;
            }
        } else {
            assert(ea < eb);
            let q = pow2((eb - 1) as nat) as int;
            lemma_pow2_pos((eb - 1) as nat);
            assert((step + fb) * q >= step * q) by (nonlinear_arith)
                requires
                    q > 0,
                    fb >= 0,
            ;
            if ea == 0 {
                assert(step * q >= step) by (nonlinear_arith)
                    requires
                        q >= 1,
                        step >= 0,
                ;
            } else {
                let p = pow2((ea - 1) as nat) as int;
                lemma_pow2_unfold(ea as nat);
                if ea < eb - 1 {
                    lemma_pow2_strictly_increases(ea as nat, (eb - 1) as nat);
                }
                assert(q >= 2 * p);
                assert((step + fa) * p < step * q) by (nonlinear_arith)
                    requires
                        p > 0,
                        q >= 2 * p,
                        fa < step,
                        step > 0,
                ;
            }
        }
    }
}

/// A number with the sign turned has the opposite value, and turning it twice
/// gives it back.
pub proof fn negation_turns_the_sign(n: Number)
    ensures
        n.spec_negated().value() == -n.value(),
        n.spec_negated().spec_negated() == n,
        n.spec_negated().finite() == n.finite(),
{
}

/// One step of the exponent doubles what a pattern denotes, and one step of the
/// fraction adds as much all through an exponent.
pub proof fn patterns_count_in_powers_of_two(m: int)
    requires
        0x10_0000_0000_0000 <= m,
    ensures
        units(m + 0x10_0000_0000_0000) == 2 * units(m),
        (m + 1) % 0x10_0000_0000_0000 != 0 && (m + 2) % 0x10_0000_0000_0000 != 0 ==> units(m + 2)
            - units(m + 1) == units(m + 1) - units(m),
{
    let e = m / 0x10_0000_0000_0000;
    let f = m % 0x10_0000_0000_0000;
    let p = pow2((e - 1) as nat) as int;
    lemma_pow2_unfold(e as nat);
    assert((m + 0x10_0000_0000_0000) / 0x10_0000_0000_0000 == e + 1);
    assert((m + 0x10_0000_0000_0000) % 0x10_0000_0000_0000 == f);
    assert((0x10_0000_0000_0000 + f) * (2 * p) == 2 * ((0x10_0000_0000_0000 + f) * p))
        by (nonlinear_arith);
    if (m + 1) % 0x10_0000_0000_0000 != 0 && (m + 2) % 0x10_0000_0000_0000 != 0 {
        assert((m + 1) / 0x10_0000_0000_0000 == e && (m + 1) % 0x10_0000_0000_0000 == f + 1);
        assert((m + 2) / 0x10_0000_0000_0000 == e && (m + 2) % 0x10_0000_0000_0000 == f + 2);
        let a = 0x10_0000_0000_0000 + f;
        assert((a + 1) * p == a * p + p && (a + 2) * p == a * p + 2 * p) by (nonlinear_arith);
    }
}

/// Below the first exponent a pattern denotes itself, in units of the smallest
/// positive number; the pattern of one denotes 2^1074 of them.
pub proof fn patterns_have_their_unit(m: int)
    ensures
        0 <= m < 0x10_0000_0000_0000 ==> units(m) == m,
        m == 0x3FF0_0000_0000_0000 ==> units(m) == pow2(1074),
{
    if m == 0x3FF0_0000_0000_0000 {
        vstd::arithmetic::power2::lemma_pow2_adds(1022, 52);
        vstd::arithmetic::power2::lemma2_to64();
        assert(m / 0x10_0000_0000_0000 == 1023);
        assert(pow2(52) == 0x10_0000_0000_0000) by {
            vstd::arithmetic::power2::lemma2_to64_rest();
        }
        assert(0x10_0000_0000_0000 * pow2(1022) == pow2(1022) * pow2(52)) by (nonlinear_arith)
            requires
                pow2(52) == 0x10_0000_0000_0000,
        ;
    }
}

} // verus!
