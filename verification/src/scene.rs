//! The scene: primitives, lights, background and camera, with the single
//! `cast` query that finds the nearest intersection along a ray.

use vstd::prelude::*;
use crate::fx::COORD_MAX;
use crate::vector::{Vector, DIR_MAX};
use crate::ray::Ray;
use crate::camera::Camera;
use crate::material::{Material, HDRColor};
use crate::sphere::{Sphere, sphere_hit, sphere_normal};
use crate::plane::{Plane, plane_hit};

verus! {

/// A light source: a point light when `radius` is zero, a spherical area
/// light sampled stochastically when it is positive.
#[derive(Clone, Copy, PartialEq, Eq, Structural, Debug)]
pub struct Light {
    pub center: Vector,
    pub color: HDRColor,
    pub radius: i64,
}

impl Light {
    /// In the world, with nonnegative radiance and radius.
    pub open spec fn wf(self) -> bool {
        self.center.wf() && self.color.wf() && 0 <= self.radius <= COORD_MAX
    }
}

/// The closed set of primitives a scene may hold.
#[derive(Clone, Copy, PartialEq, Eq, Structural, Debug)]
pub enum Renderable {
    Sphere(Sphere),
    Plane(Plane),
}

impl Renderable {
    /// Whichever primitive stands here is well formed.
    pub open spec fn wf(self) -> bool {
        match self {
            Renderable::Sphere(s) => s.wf(),
            Renderable::Plane(p) => p.wf(),
        }
    }

    /// Where this primitive sends a ray.
    pub open spec fn hit_spec(self, ray: Ray) -> Option<int> {
        match self {
            Renderable::Sphere(s) => sphere_hit(s, ray),
            Renderable::Plane(p) => plane_hit(p, ray),
        }
    }

    /// The surface normal this primitive reports at a point.
    pub open spec fn normal_spec(self, point: Vector) -> Vector {
        match self {
            Renderable::Sphere(s) => sphere_normal(s, point),
            Renderable::Plane(p) => p.normal,
        }
    }

    /// The material this primitive's surface carries.
    pub open spec fn material_spec(self) -> Material {
        match self {
            Renderable::Sphere(s) => s.material,
            Renderable::Plane(p) => p.material,
        }
    }

    /// The nearest intersection ahead of the ray's origin, if any.
    pub fn intersects(&self, ray: &Ray) -> (r: Option<i64>)
        requires
            self.wf(),
            ray.wf(),
        ensures
            match r {
                Some(t) => self.hit_spec(*ray) == Some(t as int) && t >= 0,
                None => self.hit_spec(*ray) == None::<int>,
            },
    {
        match self {
            Renderable::Sphere(s) => s.intersects(ray),
            Renderable::Plane(p) => p.intersects(ray),
        }
    }

    /// The surface normal at a point on (or near) this primitive.
    pub fn normal(&self, point: &Vector) -> (n: Vector)
        requires
            self.wf(),
            point.bounded(2 * COORD_MAX as int),
        ensures
            n == self.normal_spec(*point),
            n.bounded(DIR_MAX as int),
    {
        match self {
            Renderable::Sphere(s) => s.normal(point),
            Renderable::Plane(p) => p.normal(point),
        }
    }

    /// The material this primitive's surface carries.
    pub fn material(&self) -> (m: &Material)
        ensures
            *m == self.material_spec(),
    {
        match self {
            Renderable::Sphere(s) => s.material(),
            Renderable::Plane(p) => p.material(),
        }
    }
}

/// A hit found by `cast`: which primitive, at what parametric distance, and
/// the recursion depth the query was made at (bookkeeping for shading).
#[derive(Clone, Copy, PartialEq, Eq, Structural, Debug)]
pub struct Intersection {
    pub renderable_idx: usize,
    pub t: i64,
    pub depth: u8,
}

/// Everything one frame reads: primitives, lights, background color and
/// camera. Read-only during rendering; an animation driver may rebuild or
/// mutate it strictly between frames.
pub struct Scene {
    pub cam: Camera,
    pub renderables: Vec<Renderable>,
    pub bg_color: HDRColor,
    pub lights: Vec<Light>,
}

/// What `cast` finds among the first `n` primitives: the index and distance
/// of the nearest hit, earliest index winning ties.
pub open spec fn cast_prefix_spec(scene: Scene, ray: Ray, n: int) -> Option<(int, int)>
    decreases n,
{
    if n <= 0 {
        None
    } else {
        let prev = cast_prefix_spec(scene, ray, n - 1);
        match scene.renderables@[n - 1].hit_spec(ray) {
            None => prev,
            Some(t) => match prev {
                None => Some((n - 1, t)),
                Some(p) => if p.1 > t {
                    Some((n - 1, t))
                } else {
                    prev
                },
            },
        }
    }
}

impl Scene {
    /// What `cast` finds: the nearest hit over all primitives.
    pub open spec fn cast_spec(self, ray: Ray) -> Option<(int, int)> {
        cast_prefix_spec(self, ray, self.renderables@.len() as int)
    }

    /// No primitive intersects this ray.
    pub open spec fn misses(self, ray: Ray) -> bool {
        forall|j: int|
            0 <= j < self.renderables@.len() ==> (#[trigger] self.renderables@[j]).hit_spec(ray)
                == None::<int>
    }

    /// Some primitive intersects this ray nearer than `dist`.
    pub open spec fn occludes(self, ray: Ray, dist: int) -> bool {
        exists|j: int|
            0 <= j < self.renderables@.len() && match (#[trigger] self.renderables@[j]).hit_spec(
                ray,
            ) {
                Some(tj) => tj < dist,
                None => false,
            }
    }

    /// Every light is a point light; shading is then deterministic.
    pub open spec fn point_lights_only(self) -> bool {
        forall|i: int| 0 <= i < self.lights@.len() ==> (#[trigger] self.lights@[i]).radius == 0
    }

    /// Every part of the scene is well formed.
    pub open spec fn wf(self) -> bool {
        &&& self.cam.wf()
        &&& self.bg_color.wf()
        &&& forall|i: int|
            0 <= i < self.renderables@.len() ==> (#[trigger] self.renderables@[i]).wf()
        &&& forall|i: int| 0 <= i < self.lights@.len() ==> (#[trigger] self.lights@[i]).wf()
    }

    /// A linear scan for the nearest intersection: the returned hit is the
    /// minimum distance over all primitives, and among equal distances the
    /// first-encountered primitive wins. `depth` is passed through untouched.
    pub fn cast(&self, ray: &Ray, depth: u8) -> (r: Option<Intersection>)
        requires
            self.wf(),
            ray.wf(),
        ensures
            match r {
                Some(h) => {
                    &&& 0 <= h.renderable_idx < self.renderables@.len()
                    &&& self.renderables@[h.renderable_idx as int].hit_spec(*ray) == Some(
                        h.t as int,
                    )
                    &&& h.t >= 0
                    &&& h.depth == depth
                    &&& self.cast_spec(*ray) == Some((h.renderable_idx as int, h.t as int))
                    &&& forall|j: int|
                        0 <= j < self.renderables@.len() ==> match (
                        #[trigger] self.renderables@[j]).hit_spec(*ray) {
                            Some(tj) => tj >= h.t,
                            None => true,
                        }
                    &&& forall|j: int|
                        0 <= j < h.renderable_idx ==> match (#[trigger] self.renderables@[j]).hit_spec(
                            *ray,
                        ) {
                            Some(tj) => tj > h.t,
                            None => true,
                        }
                },
                None => self.misses(*ray) && self.cast_spec(*ray) == None::<(int, int)>,
            },
    {
        let mut best: Option<Intersection> = None;
        let mut idx: usize = 0;
        while idx < self.renderables.len()
            invariant
                self.wf(),
                ray.wf(),
                0 <= idx <= self.renderables@.len(),
                match best {
                    Some(h) => {
                        &&& 0 <= h.renderable_idx < idx
                        &&& self.renderables@[h.renderable_idx as int].hit_spec(*ray) == Some(
                            h.t as int,
                        )
                        &&& h.t >= 0
                        &&& h.depth == depth
                        &&& cast_prefix_spec(*self, *ray, idx as int) == Some((
                            h.renderable_idx as int,
                            h.t as int,
                        ))
                        &&& forall|j: int|
                            0 <= j < idx ==> match (#[trigger] self.renderables@[j]).hit_spec(
                                *ray,
                            ) {
                                Some(tj) => tj >= h.t,
                                None => true,
                            }
                        &&& forall|j: int|
                            0 <= j < h.renderable_idx ==> match (
                            #[trigger] self.renderables@[j]).hit_spec(*ray) {
                                Some(tj) => tj > h.t,
                                None => true,
                            }
                    },
                    None => (forall|j: int|
                        0 <= j < idx ==> (#[trigger] self.renderables@[j]).hit_spec(*ray)
                            == None::<int>) && cast_prefix_spec(*self, *ray, idx as int)
                        == None::<(int, int)>,
                },
            decreases self.renderables@.len() - idx,
        {
            let object = &self.renderables[idx];
            match object.intersects(ray) {
                None => {},
                Some(t) => {
                    let replace = match best {
                        None => true,
                        Some(h) => h.t > t,
                    };
                    if replace {
                        best = Some(Intersection { renderable_idx: idx, t, depth });
                    }
                },
            }
            idx = idx + 1;
        }
        best
    }
}

} // verus!
