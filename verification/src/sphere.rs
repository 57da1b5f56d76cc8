//! Spheres and their ray intersection: the nearest nonnegative root of the
//! intersection quadratic, correct for any nonzero direction and for origins
//! inside the sphere.

use vstd::prelude::*;
use crate::fx::{COORD_MAX, fx_mul, fx_div, fx_sqrt, mul_fx, div_fx, sqrt_fx,
    lemma_fx_mul_fits, lemma_fdiv_range};
use crate::vector::{Vector, DIR_MAX, lemma_dot_bound2};
use crate::ray::Ray;
use crate::material::Material;

verus! {

/// A sphere with a precomputed squared radius.
#[derive(Clone, Copy, PartialEq, Eq, Structural, Debug)]
pub struct Sphere {
    pub center: Vector,
    pub radius: i64,
    pub radius_squared: i64,
    pub material: Material,
}

/// Where the intersection quadratic sends a ray: `None`, or the parametric
/// distance of the nearest intersection that lies ahead of the origin. The
/// distance is in the scale of the ray's own direction.
pub open spec fn sphere_hit(s: Sphere, ray: Ray) -> Option<int> {
    let ocx = s.center.x - ray.origin.x;
    let ocy = s.center.y - ray.origin.y;
    let ocz = s.center.z - ray.origin.z;
    let dx = ray.direction.x as int;
    let dy = ray.direction.y as int;
    let dz = ray.direction.z as int;
    let a = (dx * dx + dy * dy + dz * dz) / 65536;
    let b = (dx * ocx + dy * ocy + dz * ocz) / 65536;
    let cc = (ocx * ocx + ocy * ocy + ocz * ocz) / 65536 - s.radius_squared;
    if a <= 0 {
        None
    } else {
        let disc = fx_mul(b, b) - fx_mul(a, cc);
        if disc < 0 {
            None
        } else {
            let root = fx_sqrt(disc);
            let t0 = fx_div(b - root, a);
            let t1 = fx_div(b + root, a);
            if t0 >= 0 {
                Some(t0)
            } else if t1 >= 0 {
                Some(t1)
            } else {
                None
            }
        }
    }
}

/// The outward surface normal at a point: the direction from the center to
/// the point, normalized.
pub open spec fn sphere_normal(s: Sphere, point: Vector) -> Vector {
    (Vector {
        x: (point.x - s.center.x) as i64,
        y: (point.y - s.center.y) as i64,
        z: (point.z - s.center.z) as i64,
    }).normalized_spec()
}

/// A ray that starts clearly outside a sphere and does not point toward it
/// (the direction makes no acute angle with the line to the center) never
/// intersects the sphere. The margins ask for a direction of roughly unit
/// length and an origin at least one unit of squared distance outside.
pub proof fn lemma_sphere_ray_away(s: Sphere, ray: Ray)
    requires
        s.wf(),
        ray.wf(),
        (s.center.x - ray.origin.x) * ray.direction.x + (s.center.y - ray.origin.y)
            * ray.direction.y + (s.center.z - ray.origin.z) * ray.direction.z <= 0,
        (s.center.x - ray.origin.x) * (s.center.x - ray.origin.x) + (s.center.y - ray.origin.y)
            * (s.center.y - ray.origin.y) + (s.center.z - ray.origin.z) * (s.center.z
            - ray.origin.z) >= 65536 * (s.radius_squared + 65536),
        ray.direction.x * ray.direction.x + ray.direction.y * ray.direction.y + ray.direction.z
            * ray.direction.z >= 65536 * 32768,
    ensures
        sphere_hit(s, ray) == None::<int>,
{
    let ocx = s.center.x - ray.origin.x;
    let ocy = s.center.y - ray.origin.y;
    let ocz = s.center.z - ray.origin.z;
    let dx = ray.direction.x as int;
    let dy = ray.direction.y as int;
    let dz = ray.direction.z as int;
    let asum = dx * dx + dy * dy + dz * dz;
    let bsum = dx * ocx + dy * ocy + dz * ocz;
    let csum = ocx * ocx + ocy * ocy + ocz * ocz;
    let a = asum / 65536;
    let b = bsum / 65536;
    let cc = csum / 65536 - s.radius_squared;
    vstd::arithmetic::div_mod::lemma_div_is_ordered(65536int * 32768, asum, 65536);
    vstd::arithmetic::div_mod::lemma_div_multiples_vanish(32768, 65536);
    vstd::arithmetic::div_mod::lemma_div_is_ordered(
        65536 * (s.radius_squared + 65536),
        csum,
        65536,
    );
    vstd::arithmetic::div_mod::lemma_div_multiples_vanish(s.radius_squared + 65536, 65536);
    vstd::arithmetic::div_mod::lemma_div_is_ordered(bsum, 0, 65536);
    vstd::arithmetic::div_mod::lemma_div_of0(65536);
    assert(a >= 32768);
    assert(b <= 0);
    assert(cc >= 65536);
    let disc = fx_mul(b, b) - fx_mul(a, cc);
    assert(a * cc >= 32768int * 65536) by (nonlinear_arith)
        requires
            a >= 32768,
            cc >= 65536,
    ;
    vstd::arithmetic::div_mod::lemma_div_is_ordered(32768int * 65536, a * cc, 65536);
    assert(fx_mul(a, cc) >= 32768);
    if disc < 0 {
    } else {
        let root = fx_sqrt(disc);
        crate::fx::lemma_sqrt_i_bounds(disc * 65536);
        vstd::arithmetic::div_mod::lemma_fundamental_div_mod(b * b, 65536);
        vstd::arithmetic::div_mod::lemma_mod_bound(b * b, 65536);
        assert(disc * 65536 < b * b) by (nonlinear_arith)
            requires
                disc <= fx_mul(b, b) - 32768,
                fx_mul(b, b) == (b * b) / 65536,
                b * b == 65536 * ((b * b) / 65536) + (b * b) % 65536,
                0 <= (b * b) % 65536 < 65536,
        ;
        assert(root < -b) by (nonlinear_arith)
            requires
                0 <= root,
                root * root <= disc * 65536,
                disc * 65536 < b * b,
                b <= 0,
        ;
        let t0 = fx_div(b - root, a);
        let t1 = fx_div(b + root, a);
        lemma_fdiv_negative((b - root) * 65536, a);
        lemma_fdiv_negative((b + root) * 65536, a);
        assert(t0 < 0 && t1 < 0);
    }
}

/// A floored quotient of a negative dividend by a positive divisor is
/// negative.
proof fn lemma_fdiv_negative(m: int, d: int)
    requires
        m < 0,
        0 < d,
    ensures
        crate::fx::fdiv(m, d) < 0,
{
    let q = m / d;
    let r = m % d;
    vstd::arithmetic::div_mod::lemma_fundamental_div_mod(m, d);
    vstd::arithmetic::div_mod::lemma_mod_bound(m, d);
    assert(q < 0) by (nonlinear_arith)
        requires
            m == d * q + r,
            0 <= r < d,
            m < 0,
    ;
}

/// The fixed-point square root of a sphere's precomputed squared radius
/// recovers the radius, within one unit of the scale.
proof fn lemma_root_near_radius(s: Sphere)
    requires
        s.wf(),
        s.radius >= 32768,
    ensures
        s.radius - 1 <= fx_sqrt(s.radius_squared as int) <= s.radius,
{
    let rsq = s.radius_squared;
    assert(0 <= s.radius * s.radius) by (nonlinear_arith);
    vstd::arithmetic::div_mod::lemma_div_pos_is_pos(s.radius * s.radius, 65536);
    let root = fx_sqrt(rsq as int);
    crate::fx::lemma_sqrt_i_bounds(rsq * 65536);
    vstd::arithmetic::div_mod::lemma_fundamental_div_mod(s.radius * s.radius, 65536);
    vstd::arithmetic::div_mod::lemma_mod_bound(s.radius * s.radius, 65536);
    assert(root <= s.radius) by (nonlinear_arith)
        requires
            0 <= root,
            root * root <= rsq * 65536,
            rsq == (s.radius * s.radius) / 65536,
            s.radius * s.radius == 65536 * ((s.radius * s.radius) / 65536) + (s.radius * s.radius)
                % 65536,
            0 <= (s.radius * s.radius) % 65536 < 65536,
            s.radius >= 0,
    ;
    assert(root >= s.radius - 1) by (nonlinear_arith)
        requires
            rsq * 65536 < (root + 1) * (root + 1),
            rsq == (s.radius * s.radius) / 65536,
            s.radius * s.radius == 65536 * ((s.radius * s.radius) / 65536) + (s.radius * s.radius)
                % 65536,
            0 <= (s.radius * s.radius) % 65536 < 65536,
            s.radius >= 32768,
            0 <= root,
    ;
}

/// A ray of exactly unit direction, pointed straight at a sphere's center
/// from `k` whole units outside it, intersects at the distance to the
/// center less the radius, within one unit of the fixed-point scale.
pub proof fn lemma_sphere_ray_toward_center(s: Sphere, ray: Ray, k: int)
    requires
        s.wf(),
        ray.wf(),
        1 <= k,
        ray.direction.x * ray.direction.x + ray.direction.y * ray.direction.y + ray.direction.z
            * ray.direction.z == 65536 * 65536,
        s.center.x - ray.origin.x == k * ray.direction.x,
        s.center.y - ray.origin.y == k * ray.direction.y,
        s.center.z - ray.origin.z == k * ray.direction.z,
        s.radius < k * 65536,
        s.radius >= 32768,
    ensures
        sphere_hit(s, ray) matches Some(t) && k * 65536 - s.radius <= t <= k * 65536 - s.radius
            + 1,
{
    let dx = ray.direction.x as int;
    let dy = ray.direction.y as int;
    let dz = ray.direction.z as int;
    let asum = dx * dx + dy * dy + dz * dz;
    let bsum = dx * (k * dx) + dy * (k * dy) + dz * (k * dz);
    let csum = (k * dx) * (k * dx) + (k * dy) * (k * dy) + (k * dz) * (k * dz);
    vstd::arithmetic::div_mod::lemma_div_multiples_vanish(65536, 65536);
    assert(bsum == k * 65536 * 65536) by (nonlinear_arith)
        requires
            asum == 65536int * 65536,
            bsum == dx * (k * dx) + dy * (k * dy) + dz * (k * dz),
            asum == dx * dx + dy * dy + dz * dz,
    ;
    assert((k * dx) * (k * dx) == (k * k) * (dx * dx)) by (nonlinear_arith);
    assert((k * dy) * (k * dy) == (k * k) * (dy * dy)) by (nonlinear_arith);
    assert((k * dz) * (k * dz) == (k * k) * (dz * dz)) by (nonlinear_arith);
    assert(csum == (k * k) * (65536int * 65536)) by (nonlinear_arith)
        requires
            csum == (k * k) * (dx * dx) + (k * k) * (dy * dy) + (k * k) * (dz * dz),
            dx * dx + dy * dy + dz * dz == 65536int * 65536,
    ;
    let b = bsum / 65536;
    assert(b == k * 65536) by {
        vstd::arithmetic::div_mod::lemma_div_multiples_vanish(k * 65536, 65536);
        assert(k * 65536 * 65536 == 65536 * (k * 65536)) by (nonlinear_arith);
    }
    let c0 = csum / 65536;
    assert(c0 == k * k * 65536) by {
        vstd::arithmetic::div_mod::lemma_div_multiples_vanish(k * k * 65536, 65536);
        assert((k * k) * (65536int * 65536) == 65536 * (k * k * 65536)) by (nonlinear_arith);
    }
    let rsq = s.radius_squared;
    assert(0 <= s.radius * s.radius) by (nonlinear_arith);
    vstd::arithmetic::div_mod::lemma_div_pos_is_pos(s.radius * s.radius, 65536);
    let cc = c0 - rsq;
    assert(fx_mul(b, b) == k * k * 65536) by {
        vstd::arithmetic::div_mod::lemma_div_multiples_vanish(k * k * 65536, 65536);
        assert((k * 65536) * (k * 65536) == 65536 * (k * k * 65536)) by (nonlinear_arith);
    }
    assert(fx_mul(65536int, cc) == cc) by {
        vstd::arithmetic::div_mod::lemma_div_multiples_vanish(cc, 65536);
        assert(65536 * cc == cc * 65536) by (nonlinear_arith);
    }
    let disc = fx_mul(b, b) - fx_mul(65536int, cc);
    assert(disc == rsq);
    let root = fx_sqrt(rsq as int);
    lemma_root_near_radius(s);
    let t0 = fx_div(b - root, 65536int);
    assert(t0 == b - root) by {
        vstd::arithmetic::div_mod::lemma_div_multiples_vanish(b - root, 65536);
        assert((b - root) * 65536 == 65536 * (b - root)) by (nonlinear_arith);
    }
    assert(t0 >= 1);
}

/// A ray cast from a sphere's exact center, in any direction of exactly
/// unit length, intersects at the sphere's radius, within one unit of the
/// fixed-point scale.
pub proof fn lemma_sphere_center_origin(s: Sphere, ray: Ray)
    requires
        s.wf(),
        ray.wf(),
        ray.origin == s.center,
        ray.direction.x * ray.direction.x + ray.direction.y * ray.direction.y + ray.direction.z
            * ray.direction.z == 65536 * 65536,
        s.radius >= 32768,
    ensures
        sphere_hit(s, ray) matches Some(t) && s.radius - 1 <= t <= s.radius,
{
    let dx = ray.direction.x as int;
    let dy = ray.direction.y as int;
    let dz = ray.direction.z as int;
    let a = (dx * dx + dy * dy + dz * dz) / 65536;
    vstd::arithmetic::div_mod::lemma_div_multiples_vanish(65536, 65536);
    assert(a == 65536);
    vstd::arithmetic::div_mod::lemma_div_of0(65536);
    let rsq = s.radius_squared;
    let cc = 0 - rsq;
    assert(0 <= s.radius * s.radius) by (nonlinear_arith);
    vstd::arithmetic::div_mod::lemma_div_pos_is_pos(s.radius * s.radius, 65536);
    assert(fx_mul(65536int, cc) == cc) by {
        vstd::arithmetic::div_mod::lemma_div_multiples_vanish(cc, 65536);
        assert(65536 * cc == cc * 65536) by (nonlinear_arith);
    }
    assert(fx_mul(0, 0) == 0) by {
        vstd::arithmetic::div_mod::lemma_div_of0(65536);
    }
    let disc = fx_mul(0, 0) - fx_mul(65536int, cc);
    assert(disc == rsq);
    let root = fx_sqrt(rsq as int);
    lemma_root_near_radius(s);
    let t1 = fx_div(0 + root, 65536);
    assert(t1 == root) by {
        vstd::arithmetic::div_mod::lemma_div_multiples_vanish(root, 65536);
        assert(root * 65536 == 65536 * root) by (nonlinear_arith);
    }
    let t0 = fx_div(0 - root, 65536);
    lemma_fdiv_nonneg_le_zero(root);
    if root == 0 {
        assert(t0 == 0);
    }
}

/// The floored quotient of a nonpositive value by the unit scale stays
/// nonpositive, and is negative when the value is.
proof fn lemma_fdiv_nonneg_le_zero(root: int)
    requires
        0 <= root,
    ensures
        root > 0 ==> crate::fx::fdiv((0 - root) * 65536, 65536) < 0,
        root == 0 ==> crate::fx::fdiv((0 - root) * 65536, 65536) == 0,
{
    if root > 0 {
        lemma_fdiv_negative((0 - root) * 65536, 65536);
        assert((0 - root) * 65536 < 0) by (nonlinear_arith)
            requires
                root > 0,
        ;
    } else {
        vstd::arithmetic::div_mod::lemma_div_of0(65536);
        assert((0 - root) * 65536 == 0) by (nonlinear_arith)
            requires
                root == 0,
        ;
    }
}

impl Sphere {
    /// Center and radius lie in the world, the squared radius is what its
    /// name says, and the material keeps its parameters.
    pub open spec fn wf(self) -> bool {
        &&& self.center.wf()
        &&& 0 <= self.radius <= COORD_MAX
        &&& self.radius_squared == fx_mul(self.radius as int, self.radius as int)
        &&& self.material.wf()
    }

    /// Build a sphere, precomputing the squared radius.
    pub fn new(center: Vector, radius: i64, material: Material) -> (s: Sphere)
        requires
            center.wf(),
            0 <= radius <= COORD_MAX,
            material.wf(),
        ensures
            s.center == center,
            s.radius == radius,
            s.material == material,
            s.wf(),
    {
        proof {
            lemma_fx_mul_fits(radius as int, radius as int, COORD_MAX as int, COORD_MAX as int);
        }
        Sphere { center, radius, radius_squared: mul_fx(radius, radius), material }
    }

    /// The nearest intersection ahead of the ray's origin, if any: both
    /// roots of the quadratic are resolved, and the smallest nonnegative one
    /// is returned, so an origin inside the sphere still finds the forward
    /// exit point.
    pub fn intersects(&self, ray: &Ray) -> (r: Option<i64>)
        requires
            self.wf(),
            ray.wf(),
        ensures
            match r {
                Some(t) => sphere_hit(*self, *ray) == Some(t as int) && t >= 0,
                None => sphere_hit(*self, *ray) == None::<int>,
            },
    {
        let oc = self.center.sub(&ray.origin);
        let a = ray.direction.dot(&ray.direction);
        let b = ray.direction.dot(&oc);
        proof {
            lemma_dot_bound2(ray.direction, ray.direction, DIR_MAX as int, DIR_MAX as int);
            lemma_dot_bound2(ray.direction, oc, DIR_MAX as int, 2 * COORD_MAX as int);
            lemma_dot_bound2(oc, oc, 2 * COORD_MAX as int, 2 * COORD_MAX as int);
            lemma_fx_mul_fits(
                self.radius as int,
                self.radius as int,
                COORD_MAX as int,
                COORD_MAX as int,
            );
            assert(0 <= self.radius * self.radius) by (nonlinear_arith);
            vstd::arithmetic::div_mod::lemma_div_pos_is_pos(self.radius * self.radius, 65536);
        }
        let oc_len_sq = oc.dot(&oc);
        let cc = oc_len_sq - self.radius_squared;
        if a <= 0 {
            return None;
        }
        proof {
            assert(-0xc0000000000 <= oc_len_sq <= 0xc0000000000);
            assert(0 <= self.radius_squared <= 0x10000000000);
            assert(-0xd0000000000 <= cc <= 0xd0000000000);
            assert(-0xc0000000 <= b <= 0xc0000000);
            assert(0 < a <= 0xc0000);
            lemma_fx_mul_fits(b as int, b as int, 0xc0000000, 0xc0000000);
            lemma_fx_mul_fits(a as int, cc as int, 0xc0000, 0xd0000000000);
        }
        let disc = mul_fx(b, b) - mul_fx(a, cc);
        if disc < 0 {
            return None;
        }
        let root = sqrt_fx(disc);
        proof {
            lemma_fdiv_range((b - root) * 65536, a as int);
            lemma_fdiv_range((b + root) * 65536, a as int);
        }
        let t0 = div_fx(b - root, a);
        let t1 = div_fx(b + root, a);
        if t0 >= 0 {
            Some(t0)
        } else if t1 >= 0 {
            Some(t1)
        } else {
            None
        }
    }

    /// The outward surface normal at a point on (or near) the sphere.
    pub fn normal(&self, point: &Vector) -> (n: Vector)
        requires
            self.wf(),
            point.bounded(2 * COORD_MAX as int),
        ensures
            n == sphere_normal(*self, *point),
            n.bounded(DIR_MAX as int),
    {
        let v = point.sub(&self.center);
        proof {
            crate::vector::lemma_normalized_bounded(v);
        }
        v.normalized()
    }

    /// The material this sphere's surface carries.
    pub fn material(&self) -> (m: &Material)
        ensures
            *m == self.material,
    {
        &self.material
    }
}

} // verus!
