//! 3D vectors over fixed-point scalars, with exact contracts for the
//! arithmetic, the dot product, lengths and normalization.

use vstd::prelude::*;
use crate::fx::{COORD_MAX, fx_mul, fx_div, fx_sqrt, mul_fx, div_fx, sqrt_fx, fdiv,
    lemma_sqrt_i_bounds, lemma_sqrt_i_is, is_sqrt};

verus! {

/// A point or direction in world space; each field is a fixed-point scalar.
#[derive(Clone, Copy, PartialEq, Eq, Structural, Debug)]
pub struct Vector {
    pub x: i64,
    pub y: i64,
    pub z: i64,
}

/// Directions that come out of `normalized` stay within twice the unit scale.
pub const DIR_MAX: i64 = 0x20000;

impl Vector {
    /// Every component's magnitude is at most `b`.
    pub open spec fn bounded(self, b: int) -> bool {
        -b <= self.x <= b && -b <= self.y <= b && -b <= self.z <= b
    }

    /// A vector that may stand in the world: components within `COORD_MAX`.
    pub open spec fn wf(self) -> bool {
        self.bounded(COORD_MAX as int)
    }

    /// The fixed-point dot product, floored once on the exact integer sum.
    pub open spec fn dot_spec(self, other: Vector) -> int {
        (self.x * other.x + self.y * other.y + self.z * other.z) / 65536
    }

    /// The fixed-point squared length.
    pub open spec fn length_sq_spec(self) -> int {
        self.dot_spec(self)
    }

    /// The fixed-point length.
    pub open spec fn length_spec(self) -> int {
        fx_sqrt(self.length_sq_spec())
    }

    /// The componentwise sum.
    pub open spec fn add_spec(self, o: Vector) -> Vector {
        Vector { x: (self.x + o.x) as i64, y: (self.y + o.y) as i64, z: (self.z + o.z) as i64 }
    }

    /// The componentwise difference.
    pub open spec fn sub_spec(self, o: Vector) -> Vector {
        Vector { x: (self.x - o.x) as i64, y: (self.y - o.y) as i64, z: (self.z - o.z) as i64 }
    }

    /// The scaling by a fixed-point scalar.
    pub open spec fn mul_spec(self, s: int) -> Vector {
        Vector {
            x: fx_mul(self.x as int, s) as i64,
            y: fx_mul(self.y as int, s) as i64,
            z: fx_mul(self.z as int, s) as i64,
        }
    }

    /// The componentwise negation.
    pub open spec fn neg_spec(self) -> Vector {
        Vector { x: (-self.x) as i64, y: (-self.y) as i64, z: (-self.z) as i64 }
    }

    /// The normalized copy; a degenerate vector (squared length flooring to
    /// zero) normalizes to the zero vector, a defined sentinel.
    pub open spec fn normalized_spec(self) -> Vector {
        if self.length_sq_spec() <= 0 {
            Vector { x: 0, y: 0, z: 0 }
        } else {
            let len = self.length_spec();
            Vector {
                x: fx_div(self.x as int, len) as i64,
                y: fx_div(self.y as int, len) as i64,
                z: fx_div(self.z as int, len) as i64,
            }
        }
    }

    /// Whether this vector lies in the world, as executable code.
    pub fn in_world(&self) -> (b: bool)
        ensures
            b == self.wf(),
    {
        -COORD_MAX <= self.x && self.x <= COORD_MAX && -COORD_MAX <= self.y && self.y <= COORD_MAX
            && -COORD_MAX <= self.z && self.z <= COORD_MAX
    }

    /// The zero vector.
    pub fn new() -> (v: Vector)
        ensures
            v == (Vector { x: 0i64, y: 0i64, z: 0i64 }),
    {
        Vector { x: 0, y: 0, z: 0 }
    }

    /// Componentwise sum.
    pub fn add(&self, other: &Vector) -> (r: Vector)
        requires
            self.bounded(0x1000000000000000),
            other.bounded(0x1000000000000000),
        ensures
            r.x == self.x + other.x,
            r.y == self.y + other.y,
            r.z == self.z + other.z,
            r == self.add_spec(*other),
    {
        Vector { x: self.x + other.x, y: self.y + other.y, z: self.z + other.z }
    }

    /// Componentwise difference.
    pub fn sub(&self, other: &Vector) -> (r: Vector)
        requires
            self.bounded(0x1000000000000000),
            other.bounded(0x1000000000000000),
        ensures
            r.x == self.x - other.x,
            r.y == self.y - other.y,
            r.z == self.z - other.z,
            r == self.sub_spec(*other),
    {
        Vector { x: self.x - other.x, y: self.y - other.y, z: self.z - other.z }
    }

    /// Scale by a fixed-point scalar.
    pub fn mul(&self, s: i64) -> (r: Vector)
        requires
            -0x7fffffffffffffff <= fx_mul(self.x as int, s as int) <= 0x7fffffffffffffff,
            -0x7fffffffffffffff <= fx_mul(self.y as int, s as int) <= 0x7fffffffffffffff,
            -0x7fffffffffffffff <= fx_mul(self.z as int, s as int) <= 0x7fffffffffffffff,
        ensures
            r.x == fx_mul(self.x as int, s as int),
            r.y == fx_mul(self.y as int, s as int),
            r.z == fx_mul(self.z as int, s as int),
            r == self.mul_spec(s as int),
    {
        Vector { x: mul_fx(self.x, s), y: mul_fx(self.y, s), z: mul_fx(self.z, s) }
    }

    /// Componentwise (Hadamard) product.
    pub fn component_mul(&self, other: &Vector) -> (r: Vector)
        requires
            -0x7fffffffffffffff <= fx_mul(self.x as int, other.x as int) <= 0x7fffffffffffffff,
            -0x7fffffffffffffff <= fx_mul(self.y as int, other.y as int) <= 0x7fffffffffffffff,
            -0x7fffffffffffffff <= fx_mul(self.z as int, other.z as int) <= 0x7fffffffffffffff,
        ensures
            r.x == fx_mul(self.x as int, other.x as int),
            r.y == fx_mul(self.y as int, other.y as int),
            r.z == fx_mul(self.z as int, other.z as int),
    {
        Vector {
            x: mul_fx(self.x, other.x),
            y: mul_fx(self.y, other.y),
            z: mul_fx(self.z, other.z),
        }
    }

    /// Divide by a nonzero fixed-point scalar.
    pub fn div(&self, s: i64) -> (r: Vector)
        requires
            s != 0,
            -0x7fffffffffffffff <= fx_div(self.x as int, s as int) <= 0x7fffffffffffffff,
            -0x7fffffffffffffff <= fx_div(self.y as int, s as int) <= 0x7fffffffffffffff,
            -0x7fffffffffffffff <= fx_div(self.z as int, s as int) <= 0x7fffffffffffffff,
        ensures
            r.x == fx_div(self.x as int, s as int),
            r.y == fx_div(self.y as int, s as int),
            r.z == fx_div(self.z as int, s as int),
    {
        Vector { x: div_fx(self.x, s), y: div_fx(self.y, s), z: div_fx(self.z, s) }
    }

    /// Componentwise sum in place.
    pub fn add_assign(&mut self, other: &Vector)
        requires
            old(self).bounded(0x1000000000000000),
            other.bounded(0x1000000000000000),
        ensures
            final(self).x == old(self).x + other.x,
            final(self).y == old(self).y + other.y,
            final(self).z == old(self).z + other.z,
    {
        self.x = self.x + other.x;
        self.y = self.y + other.y;
        self.z = self.z + other.z;
    }

    /// Componentwise difference in place.
    pub fn sub_assign(&mut self, other: &Vector)
        requires
            old(self).bounded(0x1000000000000000),
            other.bounded(0x1000000000000000),
        ensures
            final(self).x == old(self).x - other.x,
            final(self).y == old(self).y - other.y,
            final(self).z == old(self).z - other.z,
    {
        self.x = self.x - other.x;
        self.y = self.y - other.y;
        self.z = self.z - other.z;
    }

    /// Scale in place.
    pub fn mul_assign(&mut self, s: i64)
        requires
            -0x7fffffffffffffff <= fx_mul(old(self).x as int, s as int) <= 0x7fffffffffffffff,
            -0x7fffffffffffffff <= fx_mul(old(self).y as int, s as int) <= 0x7fffffffffffffff,
            -0x7fffffffffffffff <= fx_mul(old(self).z as int, s as int) <= 0x7fffffffffffffff,
        ensures
            final(self).x == fx_mul(old(self).x as int, s as int),
            final(self).y == fx_mul(old(self).y as int, s as int),
            final(self).z == fx_mul(old(self).z as int, s as int),
    {
        self.x = mul_fx(self.x, s);
        self.y = mul_fx(self.y, s);
        self.z = mul_fx(self.z, s);
    }

    /// Divide in place by a nonzero fixed-point scalar.
    pub fn div_assign(&mut self, s: i64)
        requires
            s != 0,
            -0x7fffffffffffffff <= fx_div(old(self).x as int, s as int) <= 0x7fffffffffffffff,
            -0x7fffffffffffffff <= fx_div(old(self).y as int, s as int) <= 0x7fffffffffffffff,
            -0x7fffffffffffffff <= fx_div(old(self).z as int, s as int) <= 0x7fffffffffffffff,
        ensures
            final(self).x == fx_div(old(self).x as int, s as int),
            final(self).y == fx_div(old(self).y as int, s as int),
            final(self).z == fx_div(old(self).z as int, s as int),
    {
        self.x = div_fx(self.x, s);
        self.y = div_fx(self.y, s);
        self.z = div_fx(self.z, s);
    }

    /// The fixed-point dot product.
    pub fn dot(&self, other: &Vector) -> (r: i64)
        requires
            self.bounded(0x100000000),
            other.bounded(0x100000000),
        ensures
            r == self.dot_spec(*other),
    {
        proof {
            lemma_dot_bound(*self, *other, 0x100000000);
        }
        let p: i128 = (self.x as i128) * (other.x as i128) + (self.y as i128) * (other.y as i128)
            + (self.z as i128) * (other.z as i128);
        let q = crate::fx::floor_div_i128(p, 65536);
        q as i64
    }

    /// The fixed-point squared length; never negative.
    pub fn length_squared(&self) -> (r: i64)
        requires
            self.bounded(0x100000000),
        ensures
            r == self.length_sq_spec(),
            0 <= r,
    {
        proof {
            lemma_length_sq_nonneg(*self);
        }
        self.dot(self)
    }

    /// The fixed-point length; never negative.
    pub fn length(&self) -> (r: i64)
        requires
            self.bounded(0x100000000),
        ensures
            r == self.length_spec(),
            0 <= r,
    {
        proof {
            lemma_length_sq_nonneg(*self);
        }
        let ls = self.length_squared();
        sqrt_fx(ls)
    }

    /// Normalize in place; a degenerate vector becomes the zero sentinel.
    pub fn normalize(&mut self)
        requires
            old(self).bounded(0x100000000),
        ensures
            *final(self) == old(self).normalized_spec(),
    {
        let ls = self.length_squared();
        if ls <= 0 {
            self.x = 0;
            self.y = 0;
            self.z = 0;
        } else {
            let len = sqrt_fx(ls);
            proof {
                lemma_length_positive(*self);
                crate::fx::lemma_fdiv_range(self.x * 65536, len as int);
                crate::fx::lemma_fdiv_range(self.y * 65536, len as int);
                crate::fx::lemma_fdiv_range(self.z * 65536, len as int);
            }
            self.div_assign(len);
        }
    }

    /// The normalized copy; a degenerate vector yields the zero sentinel.
    pub fn normalized(&self) -> (r: Vector)
        requires
            self.bounded(0x100000000),
        ensures
            r == self.normalized_spec(),
    {
        let mut v = *self;
        v.normalize();
        v
    }
}

/// Relies on rand::random: a uniformly distributed `u64`. Nothing is
/// promised of the value, so every caller must cope with any outcome.
#[verifier::external_body]
fn random_u64() -> u64 {
    rand::random::<u64>()
}

impl Vector {
    /// A random direction of (approximately) unit length: the components are
    /// drawn from a uniform random source, draws too close to the zero vector
    /// are rejected, and an accepted draw is normalized. After a bounded
    /// number of degenerate rounds the x axis stands in, so the result is
    /// always the normalization of some clearly non-degenerate vector.
    pub fn random_norm() -> (r: Vector)
        ensures
            exists|v: Vector| r == #[trigger] v.normalized_spec() && v.length_sq_spec() >= 16384,
            r.bounded(DIR_MAX as int),
    {
        let mut tries: u64 = 0;
        while tries < 64
            decreases 64 - tries,
        {
            let bits = random_u64();
            proof {
                assert(bits & 0x1ffff < 0x20000) by (bit_vector);
                assert((bits >> 17) & 0x1ffff < 0x20000) by (bit_vector);
                assert((bits >> 34) & 0x1ffff < 0x20000) by (bit_vector);
            }
            let x = ((bits & 0x1ffff) as i64) - 65536;
            let y = (((bits >> 17) & 0x1ffff) as i64) - 65536;
            let z = (((bits >> 34) & 0x1ffff) as i64) - 65536;
            let v = Vector { x, y, z };
            let ls = v.length_squared();
            if ls >= 16384 {
                proof {
                    lemma_normalized_bounded(v);
                }
                return v.normalized();
            }
            tries = tries + 1;
        }
        let axis = Vector { x: 65536, y: 0, z: 0 };
        proof {
            lemma_normalized_bounded(axis);
        }
        axis.normalized()
    }
}

/// The dot product of vectors with components bounded by `b` is bounded by
/// `3 * b * b` before the scale division, so it fits comfortably.
pub proof fn lemma_dot_bound(a: Vector, b: Vector, bound: int)
    requires
        0 <= bound,
        a.bounded(bound),
        b.bounded(bound),
    ensures
        -(bound * bound) <= a.x * b.x <= bound * bound,
        -(bound * bound) <= a.y * b.y <= bound * bound,
        -(bound * bound) <= a.z * b.z <= bound * bound,
        -(3 * (bound * bound)) <= a.x * b.x + a.y * b.y + a.z * b.z <= 3 * (bound * bound),
        (-(3 * (bound * bound))) / 65536 <= a.dot_spec(b) <= (3 * (bound * bound)) / 65536,
{
    assert(-(bound * bound) <= a.x * b.x <= bound * bound) by (nonlinear_arith)
        requires
            -bound <= a.x <= bound,
            -bound <= b.x <= bound,
    ;
    assert(-(bound * bound) <= a.y * b.y <= bound * bound) by (nonlinear_arith)
        requires
            -bound <= a.y <= bound,
            -bound <= b.y <= bound,
    ;
    assert(-(bound * bound) <= a.z * b.z <= bound * bound) by (nonlinear_arith)
        requires
            -bound <= a.z <= bound,
            -bound <= b.z <= bound,
    ;
    vstd::arithmetic::div_mod::lemma_div_is_ordered(
        a.x * b.x + a.y * b.y + a.z * b.z,
        3 * (bound * bound),
        65536,
    );
    vstd::arithmetic::div_mod::lemma_div_is_ordered(
        -(3 * (bound * bound)),
        a.x * b.x + a.y * b.y + a.z * b.z,
        65536,
    );
}

/// The dot product of vectors with componentwise bounds `ba` and `bb` is
/// bounded by `3 * ba * bb` before the scale division.
pub proof fn lemma_dot_bound2(a: Vector, b: Vector, ba: int, bb: int)
    requires
        0 <= ba,
        0 <= bb,
        a.bounded(ba),
        b.bounded(bb),
    ensures
        -(ba * bb) <= a.x * b.x <= ba * bb,
        -(ba * bb) <= a.y * b.y <= ba * bb,
        -(ba * bb) <= a.z * b.z <= ba * bb,
        -(3 * (ba * bb)) <= a.x * b.x + a.y * b.y + a.z * b.z <= 3 * (ba * bb),
        (-(3 * (ba * bb))) / 65536 <= a.dot_spec(b) <= (3 * (ba * bb)) / 65536,
{
    assert(-(ba * bb) <= a.x * b.x <= ba * bb) by (nonlinear_arith)
        requires
            -ba <= a.x <= ba,
            -bb <= b.x <= bb,
            0 <= ba,
    ;
    assert(-(ba * bb) <= a.y * b.y <= ba * bb) by (nonlinear_arith)
        requires
            -ba <= a.y <= ba,
            -bb <= b.y <= bb,
            0 <= ba,
    ;
    assert(-(ba * bb) <= a.z * b.z <= ba * bb) by (nonlinear_arith)
        requires
            -ba <= a.z <= ba,
            -bb <= b.z <= bb,
            0 <= ba,
    ;
    vstd::arithmetic::div_mod::lemma_div_is_ordered(
        a.x * b.x + a.y * b.y + a.z * b.z,
        3 * (ba * bb),
        65536,
    );
    vstd::arithmetic::div_mod::lemma_div_is_ordered(
        -(3 * (ba * bb)),
        a.x * b.x + a.y * b.y + a.z * b.z,
        65536,
    );
}

/// A squared length is never negative.
pub proof fn lemma_length_sq_nonneg(v: Vector)
    ensures
        0 <= v.length_sq_spec(),
        v.x * v.x + v.y * v.y + v.z * v.z >= 0,
{
    assert(v.x * v.x + v.y * v.y + v.z * v.z >= 0) by (nonlinear_arith);
    vstd::arithmetic::div_mod::lemma_div_pos_is_pos(v.x * v.x + v.y * v.y + v.z * v.z, 65536);
}

/// One component of a normalized vector stays within `DIR_MAX`.
proof fn lemma_norm_comp(x: int, s: int, ls: int, len: int)
    requires
        x * x <= s,
        s < 65536 * ls + 65536,
        len * len <= 65536 * ls,
        65536 * ls < (len + 1) * (len + 1),
        len >= 256,
    ensures
        -131072 <= fdiv(x * 65536, len) <= 131072,
{
    assert(x * x < 4 * (len * len)) by (nonlinear_arith)
        requires
            x * x <= s,
            s < 65536 * ls + 65536,
            65536 * ls < (len + 1) * (len + 1),
            len >= 256,
    ;
    assert(-(2 * len) + 1 <= x <= 2 * len - 1) by (nonlinear_arith)
        requires
            x * x < 4 * (len * len),
            len >= 1,
    ;
    assert(x * 65536 <= 131072 * len && -(131072 * len) <= x * 65536) by (nonlinear_arith)
        requires
            -(2 * len) + 1 <= x <= 2 * len - 1,
            len >= 1,
    ;
    vstd::arithmetic::div_mod::lemma_div_is_ordered(x * 65536, 131072 * len, len);
    vstd::arithmetic::div_mod::lemma_div_is_ordered(-(131072 * len), x * 65536, len);
    vstd::arithmetic::div_mod::lemma_div_multiples_vanish(131072, len);
    vstd::arithmetic::div_mod::lemma_div_multiples_vanish(-131072, len);
    assert(131072 * len == len * 131072);
    assert(-(131072 * len) == len * -131072);
}

/// A normalized vector's components stay within `DIR_MAX`, twice the unit
/// scale.
pub proof fn lemma_normalized_bounded(v: Vector)
    ensures
        v.normalized_spec().bounded(DIR_MAX as int),
{
    let ls = v.length_sq_spec();
    lemma_length_sq_nonneg(v);
    if ls <= 0 {
    } else {
        let s = v.x * v.x + v.y * v.y + v.z * v.z;
        vstd::arithmetic::div_mod::lemma_fundamental_div_mod(s, 65536);
        vstd::arithmetic::div_mod::lemma_mod_bound(s, 65536);
        let len = v.length_spec();
        lemma_sqrt_i_bounds(ls * 65536);
        lemma_length_positive(v);
        assert(v.x * v.x <= s && v.y * v.y <= s && v.z * v.z <= s) by (nonlinear_arith)
            requires
                s == v.x * v.x + v.y * v.y + v.z * v.z,
        ;
        assert(s < 65536 * ls + 65536);
        lemma_norm_comp(v.x as int, s, ls, len);
        lemma_norm_comp(v.y as int, s, ls, len);
        lemma_norm_comp(v.z as int, s, ls, len);
    }
}

/// A vector whose squared length does not floor to zero has length at
/// least 256 fixed-point units.
pub proof fn lemma_length_positive(v: Vector)
    requires
        v.length_sq_spec() >= 1,
    ensures
        v.length_spec() >= 256,
{
    let n = v.length_sq_spec() * 65536;
    lemma_sqrt_i_bounds(n);
    let r = crate::fx::sqrt_i(n);
    assert(r >= 256) by (nonlinear_arith)
        requires
            0 <= r,
            n < (r + 1) * (r + 1),
            n >= 65536,
    ;
}

} // verus!
