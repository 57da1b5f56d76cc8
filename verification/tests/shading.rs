//! Shading, tone mapping and whole-frame rendering.

use racy::vector::Vector;
use racy::ray::Ray;
use racy::plane::Plane;
use racy::material::{HDRColor, Material, Rgba};
use racy::scene::{Scene, Light, Renderable};
use racy::camera::Camera;
use racy::render::{render, render_row, render_pixel, basic_scene};

fn camera_at_origin(w: u32, h: u32) -> Camera {
    Camera::new(Vector { x: 0, y: 0, z: 0 }, 2949120, w, h).expect("a sound configuration")
}

#[test]
fn tone_map_neutral_rounds_to_bytes() {
    let c = HDRColor { r: 65536, g: 32768, b: 16384 };
    let d = c.into_display_rgb(65536, 65536);
    assert_eq!(d, Rgba { r: 255, g: 128, b: 64, a: 255 });
}

#[test]
fn tone_map_clamps_above_one() {
    let c = HDRColor { r: 131072, g: 655360, b: 65537 };
    let d = c.into_display_rgb(65536, 65536);
    assert_eq!(d.r, 255);
    assert_eq!(d.g, 255);
    assert_eq!(d.b, 255);
}

#[test]
fn tone_map_applies_gamma() {
    // squaring 0.5 gives 0.25
    let c = HDRColor { r: 32768, g: 0, b: 0 };
    let d = c.into_display_rgb(65536, 131072);
    assert_eq!(d.r, 64);
}

#[test]
fn tone_map_applies_exposure() {
    let c = HDRColor { r: 32768, g: 0, b: 0 };
    let d = c.into_display_rgb(131072, 65536);
    assert_eq!(d.r, 255);
}

#[test]
fn background_pixels_show_the_background_exactly() {
    let scene = Scene {
        cam: camera_at_origin(8, 8),
        renderables: Vec::new(),
        bg_color: HDRColor { r: 32768, g: 16384, b: 65536 },
        lights: Vec::new(),
    };
    let mut screen = vec![0u8; 8 * 8 * 4];
    render(&scene, &mut screen);
    for px in screen.chunks(4) {
        // blue, green, red, alpha: the tone-mapped background
        assert_eq!(px, &[255, 64, 128, 255]);
    }
}

#[test]
fn two_facing_mirrors_render_finite_colors() {
    // two parallel mirrors facing each other: recursion must stop at the
    // depth limit and the frame must come out whole
    let scene = Scene {
        cam: camera_at_origin(16, 16),
        renderables: vec![
            Renderable::Plane(Plane::new(
                Vector { x: 0, y: 0, z: 131072 },
                Vector { x: 0, y: 0, z: -65536 },
                Material::mirror(),
            )),
            Renderable::Plane(Plane::new(
                Vector { x: 0, y: 0, z: -131072 },
                Vector { x: 0, y: 0, z: 65536 },
                Material::mirror(),
            )),
        ],
        bg_color: HDRColor { r: 6554, g: 6554, b: 6554 },
        lights: vec![Light {
            center: Vector { x: 0, y: 65536, z: 0 },
            color: HDRColor { r: 196608, g: 196608, b: 196608 },
            radius: 0,
        }],
    };
    let mut screen = vec![0u8; 16 * 16 * 4];
    render(&scene, &mut screen);
    for px in screen.chunks(4) {
        assert_eq!(px[3], 255);
    }
}

#[test]
fn diffuse_brighter_under_the_light_than_at_grazing_angle() {
    // one point light directly above a diffuse floor: the point under the
    // light, whose normal faces it, is lit strictly brighter than a point
    // whose surface meets the same light at a grazing angle
    let white = white_diffuse();
    let scene = Scene {
        cam: camera_at_origin(8, 8),
        renderables: vec![Renderable::Plane(Plane::new(
            Vector { x: 0, y: 0, z: 0 },
            Vector { x: 0, y: 65536, z: 0 },
            white,
        ))],
        bg_color: HDRColor { r: 0, g: 0, b: 0 },
        lights: vec![Light {
            center: Vector { x: 0, y: 262144, z: 0 },
            color: HDRColor { r: 196608, g: 196608, b: 196608 },
            radius: 0,
        }],
    };
    let point = Vector { x: 0, y: 0, z: 0 };
    let up = Vector { x: 0, y: 65536, z: 0 };
    let tilted = Vector { x: 65319, y: 5334, z: 0 };
    let ray = Ray { origin: Vector { x: 0, y: 131072, z: 0 }, direction: Vector { x: 0, y: -65536, z: 0 } };
    let facing = white.color_at(&point, &up, &ray, &scene, 0);
    let grazing = white.color_at(&point, &tilted, &ray, &scene, 0);
    assert!(facing.r > grazing.r);
    assert!(facing.g > grazing.g);
    assert!(facing.b > grazing.b);
    assert!(grazing.r >= 0 && grazing.g >= 0 && grazing.b >= 0);
}

fn white_diffuse() -> Material {
    Material::diffuse(HDRColor { r: 65536, g: 65536, b: 65536 })
}

#[test]
fn debug_normals_shows_the_normal() {
    let m = Material::debug_normals();
    let scene = Scene {
        cam: camera_at_origin(8, 8),
        renderables: Vec::new(),
        bg_color: HDRColor { r: 0, g: 0, b: 0 },
        lights: Vec::new(),
    };
    let point = Vector { x: 0, y: 0, z: 0 };
    let normal = Vector { x: 65536, y: -65536, z: 0 };
    let ray = Ray { origin: point, direction: Vector { x: 0, y: 0, z: 65536 } };
    let c = m.color_at(&point, &normal, &ray, &scene, 0);
    assert_eq!(c, HDRColor { r: 65536, g: 0, b: 32768 });
}

#[test]
fn mirror_returns_scaled_background_on_a_miss() {
    let scene = Scene {
        cam: camera_at_origin(8, 8),
        renderables: Vec::new(),
        bg_color: HDRColor { r: 65536, g: 32768, b: 16384 },
        lights: Vec::new(),
    };
    let m = Material::mirror();
    let point = Vector { x: 0, y: 0, z: 0 };
    let normal = Vector { x: 0, y: 65536, z: 0 };
    let ray = Ray { origin: Vector { x: 0, y: 131072, z: 0 }, direction: Vector { x: 0, y: -65536, z: 0 } };
    let c = m.color_at(&point, &normal, &ray, &scene, 0);
    // four fifths of the background: 0.8 is 52429 in fixed point
    assert_eq!(c.r, 52429);
    assert_eq!(c.g, 26214);
    assert_eq!(c.b, 13107);
}

#[test]
fn shading_past_the_depth_limit_is_black() {
    let scene = Scene {
        cam: camera_at_origin(8, 8),
        renderables: Vec::new(),
        bg_color: HDRColor { r: 65536, g: 65536, b: 65536 },
        lights: Vec::new(),
    };
    let point = Vector { x: 0, y: 0, z: 0 };
    let normal = Vector { x: 0, y: 65536, z: 0 };
    let ray = Ray { origin: point, direction: Vector { x: 0, y: -65536, z: 0 } };
    for m in [Material::mirror(), Material::glass(), white_diffuse()] {
        let c = m.color_at(&point, &normal, &ray, &scene, 16);
        assert_eq!(c, HDRColor { r: 0, g: 0, b: 0 });
    }
}

#[test]
fn refractor_passes_background_through_on_a_miss() {
    let scene = Scene {
        cam: camera_at_origin(8, 8),
        renderables: Vec::new(),
        bg_color: HDRColor { r: 65536, g: 32768, b: 16384 },
        lights: Vec::new(),
    };
    let m = Material::glass();
    let point = Vector { x: 0, y: 0, z: 0 };
    let normal = Vector { x: 0, y: 65536, z: 0 };
    let ray = Ray { origin: Vector { x: 0, y: 131072, z: 0 }, direction: Vector { x: 0, y: -65536, z: 0 } };
    let c = m.color_at(&point, &normal, &ray, &scene, 0);
    assert_eq!(c, HDRColor { r: 65536, g: 32768, b: 16384 });
}

#[test]
fn rows_agree_with_pixels() {
    let scene = basic_scene();
    let row = render_row(&scene, 160);
    for x in [0u32, 17, 160, 319] {
        let c = render_pixel(&scene, x, 160);
        let o = (x as usize) * 4;
        assert_eq!(&row[o..o + 4], &[c.b, c.g, c.r, c.a]);
    }
}

#[test]
fn demonstration_scene_renders_lit_pixels() {
    let mut scene = basic_scene();
    // turn the camera around to face the spheres, as the animation does:
    // sine 0 and cosine -1 is half a turn
    scene.cam.set_angle(0, -65536);
    let mut lit = false;
    for y in [80u32, 160, 240] {
        let row = render_row(&scene, y);
        assert_eq!(row.len(), 320 * 4);
        for px in row.chunks(4) {
            assert_eq!(px[3], 255);
            if px[0] > 0 || px[1] > 0 || px[2] > 0 {
                lit = true;
            }
        }
    }
    assert!(lit, "the demonstration scene renders to nothing");
}

#[test]
fn color_add_and_quick_conversion() {
    let a = HDRColor { r: 32768, g: 16384, b: 0 };
    let b = HDRColor { r: 32768, g: 16384, b: 131072 };
    let sum = a.add(&b);
    assert_eq!(sum, HDRColor { r: 65536, g: 32768, b: 131072 });
    // flooring conversion: 255, 127 (floor of 127.5), clamped 255
    let rgba = sum.into_rgb();
    assert_eq!(rgba, Rgba { r: 255, g: 127, b: 255, a: 255 });
}
