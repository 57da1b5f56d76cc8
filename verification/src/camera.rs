//! The pinhole camera: per-pixel ray generation from constants precomputed
//! once at construction, with yaw-only orientation.

use vstd::prelude::*;
use crate::fx::{fx_mul, fdiv, mul_fx, lemma_fx_mul_fits};
use crate::vector::{Vector, DIR_MAX, lemma_normalized_bounded};
use crate::ray::Ray;

verus! {

/// Widest field of view a camera accepts, just under a half turn.
pub const FOV_MAX: i64 = 11730944;

/// Largest screen dimension a camera accepts.
pub const SCREEN_MAX: u32 = 4096;

/// Maps a pixel coordinate to a world-space ray. The stepping constants
/// `xstart`, `ystart`, `xmult` and `ymult` are derived once from the field
/// of view, so each ray costs only a few multiplications.
#[derive(Clone, Copy, PartialEq, Eq, Structural, Debug)]
pub struct Camera {
    pub eye: Vector,
    pub look: Vector,
    pub perp: Vector,
    pub screen_width: u32,
    pub screen_height: u32,
    pub xstart: i64,
    pub ystart: i64,
    pub xmult: i64,
    pub ymult: i64,
}

/// The derived horizontal field of view: the vertical one scaled by the
/// aspect ratio.
pub open spec fn fovx_spec(fovy: int, w: int, h: int) -> int {
    fdiv(fovy * w, h)
}

/// What a camera construction accepts: positive screen dimensions within the
/// limit, and a positive field of view under half a turn both vertically and,
/// after aspect scaling, horizontally; the eye must lie in the world.
pub open spec fn camera_valid(eye: Vector, fovy: int, w: int, h: int) -> bool {
    &&& eye.wf()
    &&& 1 <= w <= SCREEN_MAX
    &&& 1 <= h <= SCREEN_MAX
    &&& 0 < fovy <= FOV_MAX
    &&& fovx_spec(fovy, w, h) <= FOV_MAX
}

/// The direction a camera sends through pixel column `u`, row `v`.
pub open spec fn camera_dir_spec(cam: Camera, u: int, v: int) -> Vector {
    let sx = cam.xstart + u * cam.xmult;
    let px = cam.look.x - fx_mul(cam.perp.x as int, sx);
    let py = cam.ystart + v * cam.ymult;
    let pz = cam.look.z - fx_mul(cam.perp.z as int, sx);
    (Vector { x: px as i64, y: py as i64, z: pz as i64 }).normalized_spec()
}

impl Camera {
    /// The invariant construction establishes: stepping constants small
    /// enough that every per-pixel ray computation stays in range.
    pub open spec fn wf(self) -> bool {
        &&& self.eye.wf()
        &&& self.look.bounded(DIR_MAX as int)
        &&& self.perp.bounded(DIR_MAX as int)
        &&& 1 <= self.screen_width <= SCREEN_MAX
        &&& 1 <= self.screen_height <= SCREEN_MAX
        &&& -0x20000 <= self.xstart <= 0x20000
        &&& -0x20000 <= self.ystart <= 0x20000
        &&& -0x40000 <= self.xmult <= 0x40000
        &&& -0x40000 <= self.ymult <= 0x40000
    }

    /// Build a camera looking down the negative z axis, or refuse: a zero
    /// screen dimension or a degenerate field of view is a configuration
    /// error caught here, never a source of nonsense downstream.
    pub fn new(eye: Vector, fovy: i64, screen_width: u32, screen_height: u32) -> (c: Option<
        Camera,
    >)
        ensures
            match c {
                Some(cam) => {
                    &&& camera_valid(eye, fovy as int, screen_width as int, screen_height as int)
                    &&& cam.wf()
                    &&& cam.eye == eye
                    &&& cam.screen_width == screen_width
                    &&& cam.screen_height == screen_height
                    &&& cam.xstart == -fdiv(
                        fovx_spec(fovy as int, screen_width as int, screen_height as int),
                        90,
                    )
                    &&& cam.ystart == fdiv(fovy as int, 90)
                    &&& cam.xmult == fdiv(
                        fovx_spec(fovy as int, screen_width as int, screen_height as int),
                        45 * screen_width as int,
                    )
                    &&& cam.ymult == -fdiv(fovy as int, 45 * screen_height as int)
                    &&& cam.look == (Vector { x: 0i64, y: 0i64, z: -65536i64 }).normalized_spec()
                    &&& cam.perp == (Vector { x: -65536i64, y: 0i64, z: 0i64 }).normalized_spec()
                },
                None => !camera_valid(eye, fovy as int, screen_width as int, screen_height as int),
            },
    {
        if !(screen_width >= 1 && screen_width <= SCREEN_MAX && screen_height >= 1
            && screen_height <= SCREEN_MAX && fovy > 0 && fovy <= FOV_MAX && eye.in_world()) {
            return None;
        }
        proof {
            assert(0 <= fovy as int * screen_width as int <= 11730944int * 4096) by (nonlinear_arith)
                requires
                    0 < fovy <= 11730944,
                    1 <= screen_width <= 4096,
            ;
        }
        let num = (fovy as u64) * (screen_width as u64);
        proof {
            vstd::arithmetic::div_mod::lemma_div_nonincreasing(num as int, screen_height as int);
            vstd::arithmetic::div_mod::lemma_div_pos_is_pos(num as int, screen_height as int);
        }
        let fovx = (num / (screen_height as u64)) as i64;
        if fovx > FOV_MAX {
            return None;
        }
        let xstart = -((fovx as u64 / 90) as i64);
        let ystart = (fovy as u64 / 90) as i64;
        let xmult = (fovx as u64 / (45 * screen_width as u64)) as i64;
        let ymult = -((fovy as u64 / (45 * screen_height as u64)) as i64);
        proof {
            vstd::arithmetic::div_mod::lemma_div_nonincreasing(fovx as int, 90);
            vstd::arithmetic::div_mod::lemma_div_pos_is_pos(fovx as int, 90);
            vstd::arithmetic::div_mod::lemma_div_nonincreasing(fovy as int, 90);
            vstd::arithmetic::div_mod::lemma_div_pos_is_pos(fovy as int, 90);
            vstd::arithmetic::div_mod::lemma_div_pos_is_pos(fovx as int, 45 * screen_width as int);
            vstd::arithmetic::div_mod::lemma_div_pos_is_pos(fovy as int, 45 * screen_height as int);
            lemma_div_at_most(fovx as int, 45 * screen_width as int, 0x40000);
            lemma_div_at_most(fovy as int, 45 * screen_height as int, 0x40000);
            lemma_div_at_most(fovx as int, 90, 0x20000);
            lemma_div_at_most(fovy as int, 90, 0x20000);
        }
        let mut cam = Camera {
            eye,
            look: Vector { x: 0, y: 0, z: 0 },
            perp: Vector { x: 0, y: 0, z: 0 },
            screen_width,
            screen_height,
            xstart,
            ystart,
            xmult,
            ymult,
        };
        cam.set_angle(0, 65536);
        Some(cam)
    }

    /// Rotate the view in the horizontal plane: yaw only, by design. The
    /// angle enters as its sine and cosine, which must describe a direction
    /// (their squares may not both vanish at this scale).
    pub fn set_angle(&mut self, sin_a: i64, cos_a: i64)
        requires
            -65536 <= sin_a <= 65536,
            -65536 <= cos_a <= 65536,
            sin_a * sin_a + cos_a * cos_a >= 65536,
        ensures
            final(self).look == (Vector { x: (-sin_a) as i64, y: 0i64, z: (-cos_a) as i64 }).normalized_spec(),
            final(self).perp == (Vector { x: (-cos_a) as i64, y: 0i64, z: sin_a }).normalized_spec(),
            final(self).look.bounded(DIR_MAX as int),
            final(self).perp.bounded(DIR_MAX as int),
            final(self).eye == old(self).eye,
            final(self).screen_width == old(self).screen_width,
            final(self).screen_height == old(self).screen_height,
            final(self).xstart == old(self).xstart,
            final(self).ystart == old(self).ystart,
            final(self).xmult == old(self).xmult,
            final(self).ymult == old(self).ymult,
    {
        let look_v = Vector { x: -sin_a, y: 0, z: -cos_a };
        let perp_v = Vector { x: -cos_a, y: 0, z: sin_a };
        proof {
            lemma_normalized_bounded(look_v);
            lemma_normalized_bounded(perp_v);
        }
        self.look = look_v.normalized();
        self.perp = perp_v.normalized();
    }

    /// The world-space ray through pixel `(u, v)`: a pure function of the
    /// camera's precomputed constants, safe to call from many workers.
    pub fn get_ray_from_uv(&self, u: u32, v: u32) -> (r: Ray)
        requires
            self.wf(),
            u < self.screen_width,
            v < self.screen_height,
        ensures
            r.origin == self.eye,
            r.direction == camera_dir_spec(*self, u as int, v as int),
            r.wf(),
    {
        proof {
            assert(-0x40000000 <= u as int * self.xmult <= 0x40000000) by (nonlinear_arith)
                requires
                    0 <= u < 4096,
                    -0x40000 <= self.xmult <= 0x40000,
            ;
            assert(-0x40000000 <= v as int * self.ymult <= 0x40000000) by (nonlinear_arith)
                requires
                    0 <= v < 4096,
                    -0x40000 <= self.ymult <= 0x40000,
            ;
        }
        let sx = self.xstart + (u as i64) * self.xmult;
        proof {
            lemma_fx_mul_fits(self.perp.x as int, sx as int, DIR_MAX as int, 0x40020000);
            lemma_fx_mul_fits(self.perp.z as int, sx as int, DIR_MAX as int, 0x40020000);
        }
        let px = self.look.x - mul_fx(self.perp.x, sx);
        let py = self.ystart + (v as i64) * self.ymult;
        let pz = self.look.z - mul_fx(self.perp.z, sx);
        let dir = Vector { x: px, y: py, z: pz };
        proof {
            lemma_normalized_bounded(dir);
        }
        Ray { origin: self.eye, direction: dir.normalized() }
    }
}

/// A quotient of a bounded nonnegative value by a positive divisor stays
/// under any cap that the exact quotient respects.
proof fn lemma_div_at_most(x: int, d: int, cap: int)
    requires
        0 <= x,
        1 <= d,
        0 <= cap,
        x <= d * cap,
    ensures
        x / d <= cap,
{
    vstd::arithmetic::div_mod::lemma_multiply_divide_le(x, d, cap);
}

} // verus!
