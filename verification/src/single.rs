//! Rounding binary64 numbers to binary32, by bit patterns.

use crate::number::{units, Number, INFINITY, SIGN};
use vstd::arithmetic::power2::{
    lemma2_to64, lemma_pow2_adds, lemma_pow2_pos, lemma_pow2_strictly_increases, lemma_pow2_unfold,
    pow2,
};
use vstd::prelude::*;

verus! {

/// The binary32 pattern of positive infinity; magnitudes below it are finite.
pub const SINGLE_INFINITY: u32 = 0x7F80_0000;

/// What a binary32 magnitude pattern denotes, in units of the smallest positive
/// binary64 number. Infinity stands for the power of two that follows the
/// largest finite number.
pub open spec fn single_units(k: int) -> int {
    let exponent = k / 0x80_0000;
    let fraction = k % 0x80_0000;
    if exponent == 0 {
        fraction * pow2(925)
    } else {
        (0x80_0000 + fraction) * pow2((exponent + 924) as nat)
    }
}

pub open spec fn distance(v: int, k: int) -> int {
    if v < single_units(k) {
        single_units(k) - v
    } else {
        v - single_units(k)
    }
}

/// Of all magnitude patterns, `k` denotes the one nearest to `v`, and is even
/// where another one is as near.
pub open spec fn is_nearest(v: int, k: int) -> bool {
    &&& 0 <= k <= SINGLE_INFINITY
    &&& forall|j: int|
        0 <= j <= SINGLE_INFINITY ==> {
            &&& distance(v, k) <= #[trigger] distance(v, j)
            &&& distance(v, k) == distance(v, j) && j != k ==> k % 2 == 0
        }
}

proof fn lemma_single_order(a: int, b: int)
    requires
        0 <= a < b,
    ensures
        single_units(a) < single_units(b),
{
    let step: int = 0x80_0000;
    let ea = a / step;
    let eb = b / step;
    let fa = a % step;
    let fb = b % step;
    lemma_pow2_pos(925);
    lemma_pow2_pos((ea + 924) as nat);
    lemma_pow2_pos((eb + 924) as nat);
    let p0 = pow2(925) as int;
    let p = pow2((ea + 924) as nat) as int;
    let q = pow2((eb + 924) as nat) as int;
    if ea == eb {
        if ea == 0 {
            assert(fa * p0 < fb * p0) by (nonlinear_arith)
                requires
                    p0 > 0,
                    fa < fb,
            ;
        } else {
            assert((step + fa) * p < (step + fb) * p) by (nonlinear_arith)
                requires
                    p > 0,
                    fa < fb,
            ;
        }
    } else {
        assert((step + fb) * q >= step * q) by (nonlinear_arith)
            requires
                q > 0,
                fb >= 0,
        ;
        if ea == 0 {
            if eb > 1 {
                lemma_pow2_strictly_increases(925, (eb + 924) as nat);
            }
            assert(fa * p0 < step * q) by (nonlinear_arith)
                requires
                    0 <= fa < step,
                    0 < p0 <= q,
            ;
        } else {
            lemma_pow2_unfold((ea + 925) as nat);
            if ea + 1 < eb {
                lemma_pow2_strictly_increases((ea + 925) as nat, (eb + 924) as nat);
            }
            assert((step + fa) * p < step * q) by (nonlinear_arith)
                requires
                    p > 0,
                    q >= 2 * p,
                    0 <= fa < step,
            ;
        }
    }
}

/// `v` lies between the neighbours `k` and `k + 1`, which denote `q` and `q + 1`
/// steps of `g`, with `rest` of a step above the lower one.
proof fn lemma_between(v: int, k: int, q: int, g: int, rest: int)
    requires
        0 <= k < SINGLE_INFINITY,
        g > 0,
        0 <= rest < g,
        v == q * g + rest,
        single_units(k) == q * g,
        single_units(k + 1) == (q + 1) * g,
        (k - q) % 2 == 0,
    ensures
        2 * rest < g ==> is_nearest(v, k),
        2 * rest > g ==> is_nearest(v, k + 1),
        2 * rest == g && q % 2 == 0 ==> is_nearest(v, k),
        2 * rest == g && q % 2 != 0 ==> is_nearest(v, k + 1),
{
    assert((q + 1) * g == q * g + g) by (nonlinear_arith);
    assert(distance(v, k) == rest);
    assert(distance(v, k + 1) == g - rest);
    assert forall|j: int| 0 <= j <= SINGLE_INFINITY implies (j <= k ==> #[trigger] distance(v, j)
        >= rest && (j != k ==> distance(v, j) > rest)) && (j >= k + 1 ==> distance(v, j) >= g - rest
        && (j != k + 1 ==> distance(v, j) > g - rest)) by {
        if j < k {
            lemma_single_order(j, k);
        }
        if j > k + 1 {
            lemma_single_order(k + 1, j);
        }
    }
}

proof fn lemma_grid_normal(e: int, q: int)
    requires
        897 <= e,
        0x80_0000 <= q <= 0x100_0000,
    ensures
        single_units((e - 897) * 0x80_0000 + q) == q * pow2((e + 28) as nat),
{
    let k = (e - 897) * 0x80_0000 + q;
    if q < 0x100_0000 {
        assert(k / 0x80_0000 == e - 896);
        assert(k % 0x80_0000 == q - 0x80_0000);
    } else {
        assert(k / 0x80_0000 == e - 895);
        assert(k % 0x80_0000 == 0);
        lemma_pow2_unfold((e + 29) as nat);
        let p = pow2((e + 28) as nat) as int;
        assert(0x80_0000 * (2 * p) == 0x100_0000 * p);
    }
}

proof fn lemma_grid_small(q: int)
    requires
        0 <= q <= 0x80_0000,
    ensures
        single_units(q) == q * pow2(925),
{
    if q == 0x80_0000 {
        assert(q / 0x80_0000 == 1);
        assert(q % 0x80_0000 == 0);
    }
}

fn power(s: u32) -> (r: u64)
    requires
        s <= 53,
    ensures
        r == pow2(s as nat),
        1 <= r <= 0x20_0000_0000_0000,
{
    proof {
        lemma2_to64();
        lemma_pow2_pos(s as nat);
        lemma_pow2_53();
        if s < 53 {
            lemma_pow2_strictly_increases(s as nat, 53);
        }
    }
    let mut r: u64 = 1;
    let mut i: u32 = 0;
    while i < s
        invariant
            i <= s <= 53,
            r == pow2(i as nat),
            r >= 1,
            pow2(s as nat) <= pow2(53),
            pow2(53) == 0x20_0000_0000_0000,
            i < s ==> 2 * r <= pow2(53),
        decreases s - i,
    {
        proof {
            lemma_pow2_unfold((i + 1) as nat);
            if i + 2 < 53 {
                lemma_pow2_strictly_increases((i + 2) as nat, 53);
            }
            lemma_pow2_unfold((i + 2) as nat);
        }
        r = 2 * r;
        i = i + 1;
    }
    r
}

/// `m` over a power of two, to the nearest integer, ties to even.
fn shift_round(m: u64, step: u64) -> (r: u64)
    requires
        step >= 2,
        step % 2 == 0,
        m < 0x20_0000_0000_0000,
    ensures
        ({
            let q = m / step;
            let rest = m % step;
            r == (if 2 * rest > step || (2 * rest == step && q % 2 != 0) {
                q + 1
            } else {
                q as int
            })
        }),
{
    let q: u64 = m / step;
    let rest: u64 = m % step;
    let half: u64 = step / 2;
    assert(q <= m) by (nonlinear_arith)
        requires
            q == m / step,
            step >= 2,
    ;
    if rest > half || (rest == half && q % 2 != 0) {
        q + 1
    } else {
        q
    }
}

impl Number {
    /// The nearest binary32 number, by its bit pattern; `None` where that is
    /// infinite or the number is not finite.
    pub fn to_single(self) -> (r: Option<u32>)
        ensures
            match r {
                Some(bits) => {
                    let k = if bits >= 0x8000_0000 {
                        bits - 0x8000_0000
                    } else {
                        bits as int
                    };
                    &&& self.finite()
                    &&& (bits >= 0x8000_0000) == self.negative()
                    &&& k < SINGLE_INFINITY
                    &&& is_nearest(units(self.magnitude()), k)
                },
                None => !self.finite() || is_nearest(
                    units(self.magnitude()),
                    SINGLE_INFINITY as int,
                ),
            },
    {
        let negative = self.bits >= SIGN;
        let size: u64 = if negative {
            self.bits - SIGN
        } else {
            self.bits
        };
        if size >= INFINITY {
            return None;
        }
        let k: u32 = round_magnitude(size);
        if k >= SINGLE_INFINITY {
            return None;
        }
        if negative {
            Some(k + 0x8000_0000)
        } else {
            Some(k)
        }
    }
}

fn round_magnitude(size: u64) -> (k: u32)
    requires
        size < INFINITY,
    ensures
        is_nearest(units(size as int), k as int),
{
    let exponent: u64 = size / 0x10_0000_0000_0000;
    let fraction: u64 = size % 0x10_0000_0000_0000;
    let ghost v = units(size as int);
    let ghost e = exponent as int;
    if exponent < 873 {
        proof {
            lemma_tiny(size as int);
        }
        return 0;
    }
    let m: u64 = 0x10_0000_0000_0000 + fraction;
    let ghost u = pow2((e - 1) as nat) as int;
    proof {
        lemma_pow2_pos((e - 1) as nat);
        assert(v == m * u);
    }
    if exponent > 1150 {
        proof {
            lemma_huge(size as int);
        }
        return SINGLE_INFINITY;
    }
    if exponent >= 897 {
        let step: u64 = 0x2000_0000;
        let q: u64 = m / step;
        let rounded: u64 = shift_round(m, step);
        let base: u64 = (exponent - 897) * 0x80_0000;
        proof {
            lemma2_to64();
            lemma_pow2_adds(29, (e - 1) as nat);
            lemma_grid_normal(e, q as int);
            lemma_grid_normal(e, q + 1);
            let g = step * u;
            let rest = (m % step) * u;
            lemma_scaled(m as int, step as int, u);
            lemma_between(v, base + q, q as int, g, rest);
            lemma_halves((m % step) as int, step as int, u);
        }
        return (base + rounded) as u32;
    }
    let s: u32 = (926 - exponent) as u32;
    let step: u64 = power(s);
    let q: u64 = m / step;
    let rounded: u64 = shift_round_small(m, step, s);
    proof {
        lemma_pow2_adds(s as nat, (e - 1) as nat);
        lemma_small_quotient(m as int, step as int, s as nat);
        lemma_grid_small(q as int);
        lemma_grid_small(q + 1);
        let g = step * u;
        let rest = (m % step) * u;
        lemma_scaled(m as int, step as int, u);
        lemma_between(v, q as int, q as int, g, rest);
        lemma_halves((m % step) as int, step as int, u);
    }
    rounded as u32
}

fn shift_round_small(m: u64, step: u64, s: u32) -> (r: u64)
    requires
        30 <= s <= 53,
        step == pow2(s as nat),
        m < 0x20_0000_0000_0000,
    ensures
        ({
            let q = m / step;
            let rest = m % step;
            r == (if 2 * rest > step || (2 * rest == step && q % 2 != 0) {
                q + 1
            } else {
                q as int
            })
        }),
{
    proof {
        lemma_pow2_unfold(s as nat);
        lemma_pow2_pos((s - 1) as nat);
    }
    shift_round(m, step)
}

proof fn lemma_scaled(m: int, step: int, u: int)
    requires
        m >= 0,
        step > 0,
        u > 0,
    ensures
        m * u == (m / step) * (step * u) + (m % step) * u,
        0 <= (m % step) * u < step * u,
        step * u > 0,
{
    let q = m / step;
    let r = m % step;
    assert(m == q * step + r) by (nonlinear_arith)
        requires
            step > 0,
            q == m / step,
            r == m % step,
    ;
    assert(m * u == q * (step * u) + r * u) by (nonlinear_arith)
        requires
            m == q * step + r,
    ;
    assert(0 <= r * u < step * u) by (nonlinear_arith)
        requires
            0 <= r < step,
            u > 0,
    ;
}

proof fn lemma_halves(rest: int, step: int, u: int)
    requires
        u > 0,
    ensures
        2 * rest < step <==> 2 * (rest * u) < step * u,
        2 * rest > step <==> 2 * (rest * u) > step * u,
        2 * rest == step <==> 2 * (rest * u) == step * u,
{
    let d = 2 * rest - step;
    assert(2 * (rest * u) - step * u == d * u) by (nonlinear_arith)
        requires
            d == 2 * rest - step,
    ;
    assert((d < 0 <==> d * u < 0) && (d > 0 <==> d * u > 0)) by (nonlinear_arith)
        requires
            u > 0,
    ;
}

proof fn lemma_small_quotient(m: int, step: int, s: nat)
    requires
        30 <= s <= 53,
        step == pow2(s),
        0 <= m < 0x20_0000_0000_0000,
    ensures
        0 <= m / step < 0x80_0000,
{
    lemma2_to64();
    if s > 30 {
        lemma_pow2_strictly_increases(30, s);
    }
    assert(0 <= m / step < 0x80_0000) by (nonlinear_arith)
        requires
            step >= 0x4000_0000,
            0 <= m < 0x20_0000_0000_0000,
    ;
}

/// Numbers far below the smallest binary32 number round to zero.
proof fn lemma_tiny(size: int)
    requires
        0 <= size,
        size / 0x10_0000_0000_0000 < 873,
    ensures
        is_nearest(units(size), 0),
{
    let e = size / 0x10_0000_0000_0000;
    let f = size % 0x10_0000_0000_0000;
    let v = units(size);
    lemma2_to64();
    lemma_pow2_unfold(33);
    lemma_pow2_pos(871);
    lemma_pow2_53();
    lemma_pow2_adds(53, 871);
    lemma_pow2_unfold(925);
    let top = pow2(871) as int;
    assert(pow2(53) * top == pow2(924));
    if e == 0 {
        assert(v < 0x20_0000_0000_0000);
        assert(0x20_0000_0000_0000 <= 0x20_0000_0000_0000 * top) by (nonlinear_arith)
            requires
                top >= 1,
        ;
    } else {
        lemma_pow2_pos((e - 1) as nat);
        if e - 1 < 871 {
            lemma_pow2_strictly_increases((e - 1) as nat, 871);
        }
        let p = pow2((e - 1) as nat) as int;
        assert(0 <= (0x10_0000_0000_0000 + f) * p < 0x20_0000_0000_0000 * top) by (nonlinear_arith)
            requires
                0 <= f < 0x10_0000_0000_0000,
                0 < p <= top,
        ;
    }
    assert(0 <= v < pow2(924));
    lemma_grid_small(0);
    lemma_grid_small(1);
    assert(0 * pow2(925) == 0);
    assert(1 * pow2(925) == pow2(925));
    lemma_between(v, 0, 0, pow2(925) as int, v);
}

proof fn lemma_pow2_53()
    ensures
        pow2(53) == 0x20_0000_0000_0000,
{
    lemma2_to64();
    lemma_pow2_adds(32, 21);
}

/// Numbers from 2^128 on round to infinity.
proof fn lemma_huge(size: int)
    requires
        1150 < size / 0x10_0000_0000_0000,
    ensures
        is_nearest(units(size), SINGLE_INFINITY as int),
{
    let e = size / 0x10_0000_0000_0000;
    let f = size % 0x10_0000_0000_0000;
    let v = units(size);
    let k = SINGLE_INFINITY as int;
    assert(k / 0x80_0000 == 255);
    assert(k % 0x80_0000 == 0);
    lemma2_to64();
    lemma_pow2_adds(29, 1150);
    lemma_pow2_pos(1150);
    let base = pow2(1150) as int;
    assert(single_units(k) == 0x80_0000 * pow2(1179));
    assert(0x80_0000 * (0x2000_0000 * base) == 0x10_0000_0000_0000 * base);
    if e - 1 > 1150 {
        lemma_pow2_strictly_increases(1150, (e - 1) as nat);
    }
    let p = pow2((e - 1) as nat) as int;
    assert((0x10_0000_0000_0000 + f) * p >= 0x10_0000_0000_0000 * base) by (nonlinear_arith)
        requires
            f >= 0,
            p >= base,
            base > 0,
    ;
    assert(v >= single_units(k));
    assert forall|j: int| 0 <= j <= SINGLE_INFINITY implies distance(v, k) <= #[trigger] distance(
        v,
        j,
    ) && (distance(v, k) == distance(v, j) && j != k ==> k % 2 == 0) by {
        if j < k {
            lemma_single_order(j, k);
        }
    }
}

/// Of two magnitudes, the larger one never rounds to the smaller one.
pub proof fn rounding_is_monotone(a: int, b: int, j: int, k: int)
    requires
        a < b,
        is_nearest(a, j),
        is_nearest(b, k),
    ensures
        j <= k,
{
    if k < j {
        lemma_single_order(k, j);
        assert(distance(a, j) <= distance(a, k));
        assert(distance(b, k) <= distance(b, j));
    }
}

/// A magnitude rounds to one pattern only.
pub proof fn rounding_is_a_function(v: int, j: int, k: int)
    requires
        is_nearest(v, j),
        is_nearest(v, k),
    ensures
        j == k,
{
    if j < k {
        lemma_apart(v, j, k);
    } else if k < j {
        lemma_apart(v, k, j);
    }
}

proof fn lemma_apart(v: int, j: int, k: int)
    requires
        is_nearest(v, j),
        j < k,
    ensures
        !is_nearest(v, k),
{
    if is_nearest(v, k) {
        assert(distance(v, j) == distance(v, k));
        lemma_single_order(j, k);
        assert(j % 2 == 0 && k % 2 == 0);
        lemma_single_order(j, j + 1);
        lemma_single_order(j + 1, k);
        assert(distance(v, j) <= distance(v, j + 1));
    }
}

/// One step of the exponent of a binary32 pattern doubles what it denotes, and the
/// patterns of one denote the same in both formats.
pub proof fn single_patterns_count_in_powers_of_two(k: int)
    requires
        0x80_0000 <= k,
    ensures
        single_units(k + 0x80_0000) == 2 * single_units(k),
        k == 0x3F80_0000 ==> single_units(k) == pow2(1074),
{
    let e = k / 0x80_0000;
    let f = k % 0x80_0000;
    let p = pow2((e + 924) as nat) as int;
    lemma_pow2_unfold((e + 925) as nat);
    assert((k + 0x80_0000) / 0x80_0000 == e + 1);
    assert((k + 0x80_0000) % 0x80_0000 == f);
    assert((0x80_0000 + f) * (2 * p) == 2 * ((0x80_0000 + f) * p)) by (nonlinear_arith);
    if k == 0x3F80_0000 {
        lemma_pow2_adds(1051, 23);
        lemma2_to64();
        assert(e == 127 && f == 0);
        assert(0x80_0000 * pow2(1051) == pow2(1051) * pow2(23)) by (nonlinear_arith)
            requires
                pow2(23) == 0x80_0000,
        ;
    }
}

/// A number that a binary32 pattern denotes exactly is rounded to that pattern.
pub proof fn exact_numbers_keep_their_value(j: int, k: int)
    requires
        0 <= j <= SINGLE_INFINITY,
        is_nearest(single_units(j), k),
    ensures
        k == j,
{
    if j < k {
        lemma_single_order(j, k);
    } else if k < j {
        lemma_single_order(k, j);
    }
    assert(distance(single_units(j), k) <= distance(single_units(j), j));
}

/// No binary32 pattern lies nearer to a number than the one that it is rounded to.
pub proof fn no_pattern_is_nearer(v: int, k: int, j: int)
    requires
        is_nearest(v, k),
        0 <= j <= SINGLE_INFINITY,
    ensures
        (single_units(k) - v) * (single_units(k) - v) <= (single_units(j) - v) * (single_units(j)
            - v),
{
    assert(distance(v, k) <= distance(v, j));
    let a = distance(v, k);
    let b = distance(v, j);
    let x = single_units(k) - v;
    let y = single_units(j) - v;
    assert(a * a == x * x) by (nonlinear_arith)
        requires
            a == x || a == -x,
    ;
    assert(b * b == y * y) by (nonlinear_arith)
        requires
            b == y || b == -y,
    ;
    assert(a * a <= b * b) by (nonlinear_arith)
        requires
            0 <= a <= b,
    ;
}

} // verus!
