//! The per-pixel render loop, the row helper that parallel drivers feed
//! from, and the demonstration scene.

use vstd::prelude::*;

use crate::vector::Vector;
use crate::ray::{Ray, point_coord};
use crate::camera::{Camera, camera_dir_spec};
use crate::material::{HDRColor, Rgba, Material, tone_channel, color_at_spec};
use crate::scene::{Scene, Light, Renderable};
use crate::sphere::Sphere;
use crate::plane::Plane;

verus! {

/// The fixed exposure the renderer applies: neutral.
pub const EXPOSURE: i64 = 65536;

/// The fixed gamma the renderer applies: neutral.
pub const GAMMA: i64 = 65536;

/// The primary ray through pixel `(x, y)`.
pub open spec fn primary_ray_spec(scene: Scene, x: int, y: int) -> Ray {
    Ray { origin: scene.cam.eye, direction: camera_dir_spec(scene.cam, x, y) }
}

/// A color tone-mapped at the renderer's neutral settings.
pub open spec fn tone_rgba(c: HDRColor) -> Rgba {
    Rgba {
        r: tone_channel(c.r as int, 65536, 65536) as u8,
        g: tone_channel(c.g as int, 65536, 65536) as u8,
        b: tone_channel(c.b as int, 65536, 65536) as u8,
        a: 255,
    }
}

/// What one pixel shows, in a point-light scene: the background where the
/// primary ray escapes (or the hit leaves the world), the tone-mapped
/// recursive shading of the nearest surface otherwise.
pub open spec fn render_pixel_spec(scene: Scene, x: int, y: int) -> Rgba {
    let ray = primary_ray_spec(scene, x, y);
    match scene.cast_spec(ray) {
        None => tone_rgba(scene.bg_color),
        Some((idx, t)) => {
            if !ray.point_in_world(t) {
                tone_rgba(scene.bg_color)
            } else {
                let p = Vector {
                    x: point_coord(ray.origin.x as int, ray.direction.x as int, t) as i64,
                    y: point_coord(ray.origin.y as int, ray.direction.y as int, t) as i64,
                    z: point_coord(ray.origin.z as int, ray.direction.z as int, t) as i64,
                };
                let obj = scene.renderables@[idx];
                tone_rgba(
                    color_at_spec(obj.material_spec(), p, obj.normal_spec(p), ray, scene, 0),
                )
            }
        },
    }
}

/// Render one pixel: primary ray, nearest hit, recursive shading, tone map.
/// A pixel whose ray escapes the scene shows exactly the background color.
pub fn render_pixel(scene: &Scene, x: u32, y: u32) -> (c: Rgba)
    requires
        scene.wf(),
        x < scene.cam.screen_width,
        y < scene.cam.screen_height,
    ensures
        c.a == 255,
        scene.misses(primary_ray_spec(*scene, x as int, y as int)) ==> c == tone_rgba(
            scene.bg_color,
        ),
        scene.point_lights_only() ==> c == render_pixel_spec(*scene, x as int, y as int),
{
    let pixel_ray = scene.cam.get_ray_from_uv(x, y);
    let hit = scene.cast(&pixel_ray, 0);
    match hit {
        None => scene.bg_color.into_display_rgb(EXPOSURE, GAMMA),
        Some(h) => {
            match pixel_ray.point_at(h.t) {
                None => scene.bg_color.into_display_rgb(EXPOSURE, GAMMA),
                Some(point) => {
                    let object = &scene.renderables[h.renderable_idx];
                    let normal = object.normal(&point);
                    let m = *object.material();
                    proof {
                        assert(m.wf());
                    }
                    let color = m.color_at(&point, &normal, &pixel_ray, scene, 0);
                    color.into_display_rgb(EXPOSURE, GAMMA)
                },
            }
        },
    }
}

/// The four bytes at pixel `(x, y)` of a row-major framebuffer, in the
/// order they are written: blue, green, red, alpha.
pub open spec fn pixel_rgba(s: Seq<u8>, w: int, x: int, y: int) -> Rgba {
    Rgba {
        r: s[4 * (y * w + x) + 2],
        g: s[4 * (y * w + x) + 1],
        b: s[4 * (y * w + x)],
        a: s[4 * (y * w + x) + 3],
    }
}

/// Render one row of pixels into fresh bytes, blue-green-red-alpha per
/// pixel: the unit a data-parallel driver hands to each worker.
pub fn render_row(scene: &Scene, y: u32) -> (row: Vec<u8>)
    requires
        scene.wf(),
        y < scene.cam.screen_height,
    ensures
        row@.len() == 4 * scene.cam.screen_width,
        forall|x: int|
            0 <= x < scene.cam.screen_width ==> #[trigger] pixel_rgba(row@, scene.cam.screen_width as int, x, 0).a
                == 255,
        forall|x: int|
            0 <= x < scene.cam.screen_width && scene.misses(primary_ray_spec(*scene, x, y as int))
                ==> #[trigger] pixel_rgba(row@, scene.cam.screen_width as int, x, 0) == tone_rgba(
                scene.bg_color,
            ),
        scene.point_lights_only() ==> forall|x: int|
            0 <= x < scene.cam.screen_width ==> #[trigger] pixel_rgba(
                row@,
                scene.cam.screen_width as int,
                x,
                0,
            ) == render_pixel_spec(*scene, x, y as int),
{
    let w = scene.cam.screen_width;
    let mut row: Vec<u8> = Vec::new();
    let mut x: u32 = 0;
    while x < w
        invariant
            scene.wf(),
            y < scene.cam.screen_height,
            w == scene.cam.screen_width,
            0 <= x <= w,
            row@.len() == 4 * x,
            forall|j: int|
                0 <= j < x ==> #[trigger] pixel_rgba(row@, w as int, j, 0).a == 255,
            forall|j: int|
                0 <= j < x && scene.misses(primary_ray_spec(*scene, j, y as int))
                    ==> #[trigger] pixel_rgba(row@, w as int, j, 0) == tone_rgba(scene.bg_color),
            scene.point_lights_only() ==> forall|j: int|
                0 <= j < x ==> #[trigger] pixel_rgba(row@, w as int, j, 0) == render_pixel_spec(
                    *scene,
                    j,
                    y as int,
                ),
        decreases w - x,
    {
        let c = render_pixel(scene, x, y);
        let ghost prev = row@;
        row.push(c.b);
        row.push(c.g);
        row.push(c.r);
        row.push(c.a);
        proof {
            assert(pixel_rgba(row@, w as int, x as int, 0) == c);
            assert forall|j: int| 0 <= j < x implies #[trigger] pixel_rgba(row@, w as int, j, 0)
                == pixel_rgba(prev, w as int, j, 0) by {
                assert(row@[4 * j] == prev[4 * j]);
                assert(row@[4 * j + 1] == prev[4 * j + 1]);
                assert(row@[4 * j + 2] == prev[4 * j + 2]);
                assert(row@[4 * j + 3] == prev[4 * j + 3]);
            }
        }
        x = x + 1;
    }
    row
}

/// Render the whole frame into `screen`, row-major, four bytes per pixel in
/// blue-green-red-alpha order. Every pixel whose primary ray escapes the
/// scene holds exactly the tone-mapped background color.
pub fn render(scene: &Scene, screen: &mut Vec<u8>)
    requires
        scene.wf(),
        old(screen)@.len() == 4 * scene.cam.screen_width * scene.cam.screen_height,
    ensures
        final(screen)@.len() == old(screen)@.len(),
        forall|x: int, y: int|
            0 <= x < scene.cam.screen_width && 0 <= y < scene.cam.screen_height
                ==> (#[trigger] pixel_rgba(final(screen)@, scene.cam.screen_width as int, x, y)).a
                == 255,
        forall|x: int, y: int|
            0 <= x < scene.cam.screen_width && 0 <= y < scene.cam.screen_height && scene.misses(
                primary_ray_spec(*scene, x, y),
            ) ==> #[trigger] pixel_rgba(final(screen)@, scene.cam.screen_width as int, x, y)
                == tone_rgba(scene.bg_color),
        scene.point_lights_only() ==> forall|x: int, y: int|
            0 <= x < scene.cam.screen_width && 0 <= y < scene.cam.screen_height
                ==> #[trigger] pixel_rgba(final(screen)@, scene.cam.screen_width as int, x, y)
                == render_pixel_spec(*scene, x, y),
{
    let w = scene.cam.screen_width;
    let h = scene.cam.screen_height;
    let mut out: Vec<u8> = Vec::new();
    let mut y: u32 = 0;
    while y < h
        invariant
            scene.wf(),
            w == scene.cam.screen_width,
            h == scene.cam.screen_height,
            0 <= y <= h,
            out@.len() == 4 * w * y,
            forall|px: int, py: int|
                0 <= px < w && 0 <= py < y ==> (#[trigger] pixel_rgba(out@, w as int, px, py)).a
                    == 255,
            forall|px: int, py: int|
                0 <= px < w && 0 <= py < y && scene.misses(primary_ray_spec(*scene, px, py))
                    ==> #[trigger] pixel_rgba(out@, w as int, px, py) == tone_rgba(scene.bg_color),
            scene.point_lights_only() ==> forall|px: int, py: int|
                0 <= px < w && 0 <= py < y ==> #[trigger] pixel_rgba(out@, w as int, px, py)
                    == render_pixel_spec(*scene, px, py),
        decreases h - y,
    {
        let ghost out_before = out@;
        let mut row = render_row(scene, y);
        let ghost row_seq = row@;
        out.append(&mut row);
        proof {
            assert(4 * (w as int) * (y as int) + 4 * (w as int) == 4 * (w as int) * (y as int + 1))
                by (nonlinear_arith);
            assert forall|px: int|
                0 <= px < w implies #[trigger] pixel_rgba(out@, w as int, px, y as int)
                == pixel_rgba(row_seq, w as int, px, 0) by {
                assert(4 * (y as int * w + px) == out_before.len() + 4 * (0 * (w as int) + px))
                    by (nonlinear_arith)
                    requires
                        out_before.len() == 4 * (w as int) * (y as int),
                ;
                assert(out@[4 * (y as int * w + px)] == row_seq[4 * px]);
                assert(out@[4 * (y as int * w + px) + 1] == row_seq[4 * px + 1]);
                assert(out@[4 * (y as int * w + px) + 2] == row_seq[4 * px + 2]);
                assert(out@[4 * (y as int * w + px) + 3] == row_seq[4 * px + 3]);
            }
            assert forall|px: int, py: int|
                0 <= px < w && 0 <= py < y implies #[trigger] pixel_rgba(out@, w as int, px, py)
                == pixel_rgba(out_before, w as int, px, py) by {
                assert(0 <= 4 * (py * w + px) && 4 * (py * w + px) + 3 < out_before.len())
                    by (nonlinear_arith)
                    requires
                        0 <= px < w,
                        0 <= py < y,
                        out_before.len() == 4 * w * y,
                ;
            }
        }
        y = y + 1;
    }
    *screen = out;
}

/// The demonstration scene: three spheres over a mirrored back wall inside
/// a colored box, lit by one white point light.
pub fn basic_scene() -> (s: Scene)
    ensures
        s.wf(),
        s.point_lights_only(),
        s.lights@.len() == 1,
        s.renderables@.len() == 9,
        s.cam.screen_width == 320,
        s.cam.screen_height == 320,
{
    let white = Material::diffuse(HDRColor { r: 65536, g: 65536, b: 65536 });
    let red = Material::diffuse(HDRColor { r: 60293, g: 13107, b: 6554 });
    let green = Material::diffuse(HDRColor { r: 13107, g: 60293, b: 6554 });
    let mirror = Material::mirror();

    let mut lights: Vec<Light> = Vec::new();
    lights.push(
        Light {
            color: HDRColor { r: 196608, g: 196608, b: 196608 },
            center: Vector { x: -196608, y: 327680, z: 524288 },
            radius: 0,
        },
    );

    let cam_opt = Camera::new(Vector { x: 0, y: 0, z: 0 }, 2949120, 320, 320);
    let cam = match cam_opt {
        Some(cam) => cam,
        None => {
            proof {
                assert(false);
            }
            vstd::pervasive::unreached()
        },
    };

    let mut renderables: Vec<Renderable> = Vec::new();
    renderables.push(
        Renderable::Sphere(
            Sphere::new(Vector { x: -131072, y: 65536, z: 786432 }, 65536, white),
        ),
    );
    renderables.push(
        Renderable::Sphere(Sphere::new(Vector { x: 0, y: 0, z: 524288 }, 65536, mirror)),
    );
    renderables.push(
        Renderable::Sphere(Sphere::new(Vector { x: 131072, y: 65536, z: 524288 }, 65536, white)),
    );
    renderables.push(
        Renderable::Plane(
            Plane::new(
                Vector { x: 0, y: -65536, z: 0 },
                Vector { x: 0, y: 65536, z: 0 },
                white,
            ),
        ),
    );
    renderables.push(
        Renderable::Plane(
            Plane::new(
                Vector { x: 0, y: 0, z: 917504 },
                Vector { x: 0, y: 0, z: -65536 },
                mirror,
            ),
        ),
    );
    renderables.push(
        Renderable::Plane(
            Plane::new(Vector { x: 262144, y: 0, z: 0 }, Vector { x: -65536, y: 0, z: 0 }, red),
        ),
    );
    renderables.push(
        Renderable::Plane(
            Plane::new(
                Vector { x: -262144, y: 0, z: 0 },
                Vector { x: 65536, y: 0, z: 0 },
                green,
            ),
        ),
    );
    renderables.push(
        Renderable::Plane(
            Plane::new(
                Vector { x: 0, y: 0, z: -262144 },
                Vector { x: 0, y: 0, z: 65536 },
                white,
            ),
        ),
    );
    renderables.push(
        Renderable::Plane(
            Plane::new(
                Vector { x: 0, y: 524288, z: 0 },
                Vector { x: 0, y: -65536, z: 0 },
                white,
            ),
        ),
    );
    Scene { cam, renderables, bg_color: HDRColor { r: 0, g: 0, b: 0 }, lights }
}

} // verus!
