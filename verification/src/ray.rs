//! Rays: an origin paired with a direction.

use vstd::prelude::*;
use crate::vector::{Vector, DIR_MAX};
use crate::fx::{COORD_MAX, fx_mul, floor_div_i128};

verus! {

/// One coordinate of the point a parametric distance `t` along a ray.
pub open spec fn point_coord(o: int, d: int, t: int) -> int {
    o + fx_mul(d, t)
}

/// The product of two 64-bit values fits comfortably in 128 bits.
proof fn lemma_i64_product_fits(a: int, b: int)
    requires
        -0x8000000000000000 <= a <= 0x7fffffffffffffff,
        -0x8000000000000000 <= b <= 0x7fffffffffffffff,
    ensures
        -0x40000000000000000000000000000000 <= a * b <= 0x40000000000000000000000000000000,
{
    assert(-0x40000000000000000000000000000000 <= a * b <= 0x40000000000000000000000000000000)
        by (nonlinear_arith)
        requires
            -0x8000000000000000 <= a <= 0x7fffffffffffffff,
            -0x8000000000000000 <= b <= 0x7fffffffffffffff,
    ;
}

/// The universal query primitive: a ray from `origin` along `direction`.
/// Intersection distances are parametric in the direction's own scale.
#[derive(Clone, Copy, PartialEq, Eq, Structural, Debug)]
pub struct Ray {
    pub origin: Vector,
    pub direction: Vector,
}

impl Ray {
    /// A ray the caster accepts: the origin lies in the world and the
    /// direction is no longer than a normalized direction can be.
    pub open spec fn wf(self) -> bool {
        self.origin.wf() && self.direction.bounded(DIR_MAX as int)
    }

    /// Whether the point `t` along this ray lies safely inside the world,
    /// with margin left for surface offsets.
    pub open spec fn point_in_world(self, t: int) -> bool {
        &&& -(COORD_MAX - 65536) <= point_coord(self.origin.x as int, self.direction.x as int, t)
            <= COORD_MAX - 65536
        &&& -(COORD_MAX - 65536) <= point_coord(self.origin.y as int, self.direction.y as int, t)
            <= COORD_MAX - 65536
        &&& -(COORD_MAX - 65536) <= point_coord(self.origin.z as int, self.direction.z as int, t)
            <= COORD_MAX - 65536
    }

    /// The point a parametric distance `t` along the ray, or `None` when it
    /// falls outside the world: a hit that far away contributes nothing, a
    /// local failure that never aborts the frame.
    pub fn point_at(&self, t: i64) -> (r: Option<Vector>)
        ensures
            match r {
                Some(p) => {
                    &&& self.point_in_world(t as int)
                    &&& p.x == point_coord(self.origin.x as int, self.direction.x as int, t as int)
                    &&& p.y == point_coord(self.origin.y as int, self.direction.y as int, t as int)
                    &&& p.z == point_coord(self.origin.z as int, self.direction.z as int, t as int)
                    &&& p.wf()
                },
                None => !self.point_in_world(t as int),
            },
    {
        let limit: i128 = (COORD_MAX - 65536) as i128;
        proof {
            lemma_i64_product_fits(self.direction.x as int, t as int);
            lemma_i64_product_fits(self.direction.y as int, t as int);
            lemma_i64_product_fits(self.direction.z as int, t as int);
        }
        let px = (self.direction.x as i128) * (t as i128);
        let py = (self.direction.y as i128) * (t as i128);
        let pz = (self.direction.z as i128) * (t as i128);
        proof {
            crate::fx::lemma_fdiv_range(px as int, 65536);
            crate::fx::lemma_fdiv_range(py as int, 65536);
            crate::fx::lemma_fdiv_range(pz as int, 65536);
        }
        let xi = (self.origin.x as i128) + floor_div_i128(px, 65536);
        let yi = (self.origin.y as i128) + floor_div_i128(py, 65536);
        let zi = (self.origin.z as i128) + floor_div_i128(pz, 65536);
        if -limit <= xi && xi <= limit && -limit <= yi && yi <= limit && -limit <= zi && zi
            <= limit {
            Some(Vector { x: xi as i64, y: yi as i64, z: zi as i64 })
        } else {
            None
        }
    }
}

} // verus!
