//! Infinite planes and their ray intersection, with the epsilon guards that
//! treat near-parallel rays and near-zero distances as misses.

use vstd::prelude::*;
use crate::fx::{COORD_MAX, fx_div, div_fx, lemma_fdiv_range};
use crate::vector::{Vector, DIR_MAX, lemma_dot_bound2, lemma_normalized_bounded};
use crate::ray::Ray;
use crate::material::Material;

verus! {

/// Below this magnitude a denominator counts as parallel and a distance as a
/// self-intersection; about 1e-4 in fixed-point units.
pub const PLANE_EPS: i64 = 7;

/// An infinite plane through `center` with unit surface normal `normal`.
#[derive(Clone, Copy, PartialEq, Eq, Structural, Debug)]
pub struct Plane {
    pub center: Vector,
    pub normal: Vector,
    pub material: Material,
}

/// Where the plane equation sends a ray: `None` when the ray runs parallel
/// to the plane (denominator below epsilon) or the intersection lies behind
/// the origin or too close to it; otherwise the parametric distance, in the
/// scale of the ray's own direction.
pub open spec fn plane_hit(p: Plane, ray: Ray) -> Option<int> {
    let den = p.normal.dot_spec(ray.direction);
    if -(PLANE_EPS as int) < den < PLANE_EPS as int {
        None
    } else {
        let num = ((p.center.x - ray.origin.x) * p.normal.x + (p.center.y - ray.origin.y)
            * p.normal.y + (p.center.z - ray.origin.z) * p.normal.z) / 65536;
        let t = fx_div(num, den);
        if t < PLANE_EPS as int {
            None
        } else {
            Some(t)
        }
    }
}

/// A ray whose direction is orthogonal to a plane's normal never intersects
/// the plane, wherever its origin lies: the parallel case is always a miss.
pub proof fn lemma_plane_parallel_never_hits(p: Plane, ray: Ray)
    requires
        p.normal.dot_spec(ray.direction) == 0,
    ensures
        plane_hit(p, ray) == None::<int>,
{
}

impl Plane {
    /// Center in the world, normal within a normalized direction's bounds,
    /// material parameters kept.
    pub open spec fn wf(self) -> bool {
        &&& self.center.wf()
        &&& self.normal.bounded(DIR_MAX as int)
        &&& self.material.wf()
    }

    /// Build a plane; the given normal is normalized once here.
    pub fn new(center: Vector, normal: Vector, material: Material) -> (p: Plane)
        requires
            center.wf(),
            normal.bounded(0x100000000),
            material.wf(),
        ensures
            p.center == center,
            p.normal == normal.normalized_spec(),
            p.material == material,
            p.wf(),
    {
        proof {
            lemma_normalized_bounded(normal);
        }
        Plane { center, normal: normal.normalized(), material }
    }

    /// The parametric distance at which the ray meets the plane, unless the
    /// ray is parallel (within epsilon) or the hit lies behind the origin.
    pub fn intersects(&self, ray: &Ray) -> (r: Option<i64>)
        requires
            self.wf(),
            ray.wf(),
        ensures
            match r {
                Some(t) => plane_hit(*self, *ray) == Some(t as int) && t >= PLANE_EPS,
                None => plane_hit(*self, *ray) == None::<int>,
            },
    {
        let den = self.normal.dot(&ray.direction);
        if -PLANE_EPS < den && den < PLANE_EPS {
            return None;
        }
        let oc = self.center.sub(&ray.origin);
        proof {
            lemma_dot_bound2(oc, self.normal, 2 * COORD_MAX as int, DIR_MAX as int);
        }
        let num = oc.dot(&self.normal);
        proof {
            if den >= 1 {
                lemma_fdiv_range(num * 65536, den as int);
            } else {
                lemma_fdiv_range(-(num * 65536), -(den as int));
            }
        }
        let t = div_fx(num, den);
        if t < PLANE_EPS {
            None
        } else {
            Some(t)
        }
    }

    /// The surface normal; a plane's normal does not depend on the point.
    pub fn normal(&self, _point: &Vector) -> (n: Vector)
        ensures
            n == self.normal,
    {
        self.normal
    }

    /// The material this plane's surface carries.
    pub fn material(&self) -> (m: &Material)
        ensures
            *m == self.material,
    {
        &self.material
    }
}

} // verus!
