//! Fixed-point scalars: an `i64` holds a real value scaled by `ONE` = 2^16.
//!
//! Multiplication and division round toward negative infinity (floor), so in
//! specifications they are exactly Euclidean `/` by a positive divisor.

use vstd::prelude::*;
use vstd::arithmetic::div_mod::{lemma_fundamental_div_mod, lemma_fundamental_div_mod_converse};

verus! {

/// The fixed-point scale: this integer stands for the real number 1.
pub const ONE: i64 = 65536;

/// Largest magnitude a world coordinate may have (4096 real units, scaled).
pub const COORD_MAX: i64 = 0x10000000;

/// Floor division, total in its divisor's sign: `fdiv(a, b)` is the floor of
/// the rational a/b whenever `b != 0`.
pub open spec fn fdiv(a: int, b: int) -> int {
    if b >= 0 {
        a / b
    } else {
        (-a) / (-b)
    }
}

/// The fixed-point product: real value (a/2^16)*(b/2^16), scaled and floored.
pub open spec fn fx_mul(a: int, b: int) -> int {
    (a * b) / 65536
}

/// The fixed-point quotient: real value (a/2^16)/(b/2^16), scaled and floored.
pub open spec fn fx_div(a: int, b: int) -> int {
    fdiv(a * 65536, b)
}

/// `r` is the integer square root of `n`.
pub open spec fn is_sqrt(n: int, r: int) -> bool {
    0 <= r && r * r <= n && n < (r + 1) * (r + 1)
}

/// The integer square root (meaningful for `n >= 0`).
pub open spec fn sqrt_i(n: int) -> int {
    choose|r: int| #[trigger] is_sqrt(n, r)
}

/// The fixed-point square root: real value sqrt(v/2^16), scaled and floored.
pub open spec fn fx_sqrt(v: int) -> int {
    sqrt_i(v * 65536)
}

/// An integer square root exists for every nonnegative integer.
pub proof fn lemma_sqrt_exists(n: nat)
    ensures
        exists|r: int| is_sqrt(n as int, r),
    decreases n,
{
    if n == 0 {
        assert(is_sqrt(0, 0));
    } else {
        lemma_sqrt_exists((n - 1) as nat);
        let r = choose|r: int| #[trigger] is_sqrt(n - 1, r);
        if n < (r + 1) * (r + 1) {
            assert(is_sqrt(n as int, r));
        } else {
            assert((r + 1) * (r + 1) <= n);
            assert(n - 1 < (r + 1) * (r + 1));
            assert(is_sqrt(n as int, r + 1)) by (nonlinear_arith)
                requires
                    0 <= r,
                    (r + 1) * (r + 1) <= n,
                    n <= (r + 1) * (r + 1),
            ;
        }
    }
}

/// The integer square root is unique.
pub proof fn lemma_sqrt_unique(n: int, r1: int, r2: int)
    requires
        is_sqrt(n, r1),
        is_sqrt(n, r2),
    ensures
        r1 == r2,
{
    assert(r1 == r2) by (nonlinear_arith)
        requires
            0 <= r1 && r1 * r1 <= n && n < (r1 + 1) * (r1 + 1),
            0 <= r2 && r2 * r2 <= n && n < (r2 + 1) * (r2 + 1),
    ;
}

/// Pins `sqrt_i(n)` to any witness of `is_sqrt`.
pub proof fn lemma_sqrt_i_is(n: int, r: int)
    requires
        is_sqrt(n, r),
    ensures
        sqrt_i(n) == r,
{
    let w = choose|w: int| #[trigger] is_sqrt(n, w);
    assert(is_sqrt(n, w));
    lemma_sqrt_unique(n, w, r);
}

/// Basic facts about `sqrt_i` of a nonnegative argument.
pub proof fn lemma_sqrt_i_bounds(n: int)
    requires
        0 <= n,
    ensures
        0 <= sqrt_i(n),
        sqrt_i(n) * sqrt_i(n) <= n,
        n < (sqrt_i(n) + 1) * (sqrt_i(n) + 1),
{
    lemma_sqrt_exists(n as nat);
    let r = choose|r: int| #[trigger] is_sqrt(n, r);
    lemma_sqrt_i_is(n, r);
}

/// Floor division by a positive divisor agrees with the negated ceiling of
/// the negated dividend: for n >= 0, d > 0, `(-n) / d == -((n + d - 1) / d)`.
proof fn lemma_neg_div(n: int, d: int)
    requires
        0 <= n,
        0 < d,
    ensures
        (-n) / d == -((n + d - 1) / d),
{
    let q = n / d;
    let r = n % d;
    lemma_fundamental_div_mod(n, d);
    vstd::arithmetic::div_mod::lemma_mod_bound(n, d);
    assert(n == q * d + r) by (nonlinear_arith)
        requires
            n == d * q + r,
    ;
    if r == 0 {
        lemma_fundamental_div_mod_converse(n + d - 1, d, q, d - 1);
        assert(-n == (-q) * d + 0) by (nonlinear_arith)
            requires
                n == q * d,
        ;
        lemma_fundamental_div_mod_converse(-n, d, -q, 0);
    } else {
        assert(n + d - 1 == (q + 1) * d + (r - 1)) by (nonlinear_arith)
            requires
                n == q * d + r,
        ;
        lemma_fundamental_div_mod_converse(n + d - 1, d, q + 1, r - 1);
        assert(-n == (-(q + 1)) * d + (d - r)) by (nonlinear_arith)
            requires
                n == q * d + r,
        ;
        lemma_fundamental_div_mod_converse(-n, d, -(q + 1), d - r);
    }
}

/// A floored quotient of a nonpositive dividend by a positive divisor is no
/// smaller than the dividend.
pub proof fn lemma_neg_div_lower(m: int, d: int)
    requires
        m <= 0,
        0 < d,
    ensures
        m <= m / d,
{
    let q = m / d;
    let r = m % d;
    lemma_fundamental_div_mod(m, d);
    vstd::arithmetic::div_mod::lemma_mod_bound(m, d);
    assert(m <= q) by (nonlinear_arith)
        requires
            m == d * q + r,
            0 <= r < d,
            0 < d,
            m <= 0,
    ;
}

/// A floored quotient by a positive divisor lies between the dividend and
/// zero.
pub proof fn lemma_fdiv_range(a: int, b: int)
    requires
        1 <= b,
    ensures
        0 <= a ==> 0 <= fdiv(a, b) <= a,
        a < 0 ==> a <= fdiv(a, b) <= 0,
{
    if a >= 0 {
        vstd::arithmetic::div_mod::lemma_div_nonincreasing(a, b);
        vstd::arithmetic::div_mod::lemma_div_pos_is_pos(a, b);
    } else {
        lemma_neg_div_lower(a, b);
        vstd::arithmetic::div_mod::lemma_div_is_ordered(a, 0, b);
        vstd::arithmetic::div_mod::lemma_div_of0(b);
    }
}

/// A quotient of a bounded nonnegative value stays under any cap the exact
/// quotient respects.
pub proof fn lemma_div_le_cap(x: int, d: int, cap: int)
    requires
        0 <= x,
        1 <= d,
        0 <= cap,
        x <= d * cap,
    ensures
        x / d <= cap,
{
    vstd::arithmetic::mul::lemma_mul_is_commutative(d, cap);
    vstd::arithmetic::div_mod::lemma_multiply_divide_le(x, d, cap);
}

/// Filtering a nonnegative value by a factor within the unit scale can only
/// shrink it.
pub proof fn lemma_fx_filter(a: int, c: int)
    requires
        0 <= a <= 65536,
        0 <= c,
    ensures
        0 <= fx_mul(a, c) <= c,
        0 <= fx_mul(c, a) <= c,
{
    assert(0 <= a * c <= 65536 * c) by (nonlinear_arith)
        requires
            0 <= a <= 65536,
            0 <= c,
    ;
    vstd::arithmetic::div_mod::lemma_div_pos_is_pos(a * c, 65536);
    vstd::arithmetic::div_mod::lemma_div_is_ordered(a * c, 65536 * c, 65536);
    vstd::arithmetic::div_mod::lemma_div_multiples_vanish(c, 65536);
    assert(a * c == c * a) by (nonlinear_arith);
}

/// A fixed-point product of values with known magnitudes has a known
/// magnitude.
pub proof fn lemma_fx_mul_fits(a: int, b: int, ca: int, cb: int)
    requires
        -ca <= a <= ca,
        -cb <= b <= cb,
        0 <= ca,
        0 <= cb,
    ensures
        -((ca * cb) / 65536) - 1 <= fx_mul(a, b) <= (ca * cb) / 65536,
{
    assert(-(ca * cb) <= a * b <= ca * cb) by (nonlinear_arith)
        requires
            -ca <= a <= ca,
            -cb <= b <= cb,
            0 <= ca,
            0 <= cb,
    ;
    vstd::arithmetic::div_mod::lemma_div_is_ordered(a * b, ca * cb, 65536);
    vstd::arithmetic::div_mod::lemma_div_is_ordered(-(ca * cb), a * b, 65536);
    let m = ca * cb;
    lemma_neg_div(m, 65536);
    vstd::arithmetic::div_mod::lemma_div_is_ordered(m + 65535, m + 65536, 65536);
    vstd::arithmetic::div_mod::lemma_div_plus_one(m, 65536);
}

/// Floor division of an `i128` by a positive `i128`.
pub fn floor_div_i128(p: i128, d: i128) -> (r: i128)
    requires
        0 < d,
        -0x7fffffffffffffffffffffffffffffff <= p,
    ensures
        r == fdiv(p as int, d as int),
{
    if p >= 0 {
        let q = (p as u128) / (d as u128);
        proof {
            vstd::arithmetic::div_mod::lemma_div_nonincreasing(p as int, d as int);
        }
        q as i128
    } else {
        let n = (-p) as u128;
        let du = d as u128;
        let q = (n + (du - 1)) / du;
        proof {
            lemma_neg_div(n as int, d as int);
            lemma_neg_div_lower(p as int, d as int);
            assert(q == (n + (du - 1)) as int / (du as int));
            assert(fdiv(p as int, d as int) == -(q as int));
        }
        -(q as i128)
    }
}

/// Fixed-point product with floor rounding.
pub fn mul_fx(a: i64, b: i64) -> (r: i64)
    requires
        -0x7fffffffffffffff <= fx_mul(a as int, b as int) <= 0x7fffffffffffffff,
    ensures
        r == fx_mul(a as int, b as int),
{
    let p: i128 = (a as i128) * (b as i128);
    proof {
        assert((a as i128) * (b as i128) == (a as int) * (b as int));
        assert(fx_mul(a as int, b as int) == fdiv(p as int, 65536));
    }
    let q = floor_div_i128(p, 65536);
    q as i64
}

/// Fixed-point quotient with floor rounding; the divisor must be nonzero.
pub fn div_fx(a: i64, b: i64) -> (r: i64)
    requires
        b != 0,
        -0x7fffffffffffffff <= fx_div(a as int, b as int) <= 0x7fffffffffffffff,
    ensures
        r == fx_div(a as int, b as int),
{
    let p: i128 = (a as i128) * 65536;
    let q = if b > 0 {
        floor_div_i128(p, b as i128)
    } else {
        proof {
            assert(fdiv(p as int, b as int) == fdiv(-(p as int), -(b as int)));
        }
        floor_div_i128(-p, -(b as i128))
    };
    q as i64
}

/// Integer square root of a `u128`.
pub fn isqrt_u128(n: u128) -> (r: u128)
    ensures
        is_sqrt(n as int, r as int),
        r < 0x10000000000000000,
{
    let mut lo: u128 = 0;
    let mut hi: u128 = 0xffffffffffffffff;
    proof {
        assert((hi + 1) * (hi + 1) > n) by (nonlinear_arith)
            requires
                hi == 0xffffffffffffffffu128,
                n <= 0xffffffffffffffffffffffffffffffffu128,
        ;
    }
    while lo < hi
        invariant
            0 <= lo <= hi <= 0xffffffffffffffff,
            lo * lo <= n,
            n < (hi + 1) * (hi + 1),
        decreases hi - lo,
    {
        let mid = lo + (hi - lo + 1) / 2;
        proof {
            assert(lo < mid <= hi);
            assert(mid * mid <= 0xffffffffffffffffffffffffffffffffu128) by (nonlinear_arith)
                requires
                    mid <= 0xffffffffffffffffu128,
            ;
        }
        if mid * mid <= n {
            lo = mid;
        } else {
            hi = mid - 1;
        }
    }
    lo
}

/// Fixed-point square root with floor rounding.
pub fn sqrt_fx(v: i64) -> (r: i64)
    requires
        0 <= v,
    ensures
        r == fx_sqrt(v as int),
        0 <= r < 0x10000000000,
{
    let n: u128 = (v as u128) * 65536;
    let s = isqrt_u128(n);
    proof {
        lemma_sqrt_i_is(n as int, s as int);
        assert(s < 0x10000000000) by (nonlinear_arith)
            requires
                (s as int) * (s as int) <= (v as int) * 65536,
                v <= 0x7fffffffffffffffi64,
                0 <= s,
        ;
    }
    s as i64
}

} // verus!
