//! HDR colors, the displayable color they tone-map to, and the materials
//! that turn an intersection into radiance.

use vstd::prelude::*;
use crate::fx::{ONE, COORD_MAX, fx_mul, fx_div, fx_sqrt, mul_fx, div_fx, sqrt_fx,
    lemma_fx_mul_fits, lemma_fdiv_range, lemma_fx_filter, lemma_div_le_cap};
use crate::vector::{Vector, DIR_MAX, lemma_dot_bound2, lemma_normalized_bounded};
use crate::ray::{Ray, point_coord};
use crate::scene::{Scene, Light};
use vstd::arithmetic::power2::pow2;

verus! {

/// Channels above this cap are clamped during accumulation, so every HDR
/// value the library computes stays representable.
pub const CHAN_MAX: i64 = 0x10000000000;

/// Unclamped linear radiance, fixed-point per channel. Values may exceed
/// the unit scale before tone mapping.
#[derive(Clone, Copy, PartialEq, Eq, Structural, Debug)]
pub struct HDRColor {
    pub r: i64,
    pub g: i64,
    pub b: i64,
}

/// A displayable color: 8-bit channels plus alpha.
#[derive(Clone, Copy, PartialEq, Eq, Structural, Debug)]
pub struct Rgba {
    pub r: u8,
    pub g: u8,
    pub b: u8,
    pub a: u8,
}

impl HDRColor {
    /// Radiance the library computes: nonnegative and capped.
    pub open spec fn wf(self) -> bool {
        0 <= self.r <= CHAN_MAX && 0 <= self.g <= CHAN_MAX && 0 <= self.b <= CHAN_MAX
    }

    /// An albedo: reflectance per channel, within the unit scale.
    pub open spec fn albedo_wf(self) -> bool {
        0 <= self.r <= ONE && 0 <= self.g <= ONE && 0 <= self.b <= ONE
    }

    /// Zero radiance.
    pub fn black() -> (c: HDRColor)
        ensures
            c == (HDRColor { r: 0i64, g: 0i64, b: 0i64 }),
    {
        HDRColor { r: 0, g: 0, b: 0 }
    }

    /// Scale each channel by a fixed-point factor.
    pub fn scale(&self, s: i64) -> (c: HDRColor)
        requires
            -0x7fffffffffffffff <= fx_mul(self.r as int, s as int) <= 0x7fffffffffffffff,
            -0x7fffffffffffffff <= fx_mul(self.g as int, s as int) <= 0x7fffffffffffffff,
            -0x7fffffffffffffff <= fx_mul(self.b as int, s as int) <= 0x7fffffffffffffff,
        ensures
            c.r == fx_mul(self.r as int, s as int),
            c.g == fx_mul(self.g as int, s as int),
            c.b == fx_mul(self.b as int, s as int),
    {
        HDRColor { r: mul_fx(self.r, s), g: mul_fx(self.g, s), b: mul_fx(self.b, s) }
    }

    /// Componentwise (filter) product of two colors.
    pub fn mul(&self, o: &HDRColor) -> (c: HDRColor)
        requires
            -0x7fffffffffffffff <= fx_mul(self.r as int, o.r as int) <= 0x7fffffffffffffff,
            -0x7fffffffffffffff <= fx_mul(self.g as int, o.g as int) <= 0x7fffffffffffffff,
            -0x7fffffffffffffff <= fx_mul(self.b as int, o.b as int) <= 0x7fffffffffffffff,
        ensures
            c.r == fx_mul(self.r as int, o.r as int),
            c.g == fx_mul(self.g as int, o.g as int),
            c.b == fx_mul(self.b as int, o.b as int),
    {
        HDRColor { r: mul_fx(self.r, o.r), g: mul_fx(self.g, o.g), b: mul_fx(self.b, o.b) }
    }

    /// Componentwise sum.
    pub fn add(&self, o: &HDRColor) -> (c: HDRColor)
        requires
            -0x3fffffffffffffff <= self.r <= 0x3fffffffffffffff,
            -0x3fffffffffffffff <= self.g <= 0x3fffffffffffffff,
            -0x3fffffffffffffff <= self.b <= 0x3fffffffffffffff,
            -0x3fffffffffffffff <= o.r <= 0x3fffffffffffffff,
            -0x3fffffffffffffff <= o.g <= 0x3fffffffffffffff,
            -0x3fffffffffffffff <= o.b <= 0x3fffffffffffffff,
        ensures
            c.r == self.r + o.r,
            c.g == self.g + o.g,
            c.b == self.b + o.b,
    {
        HDRColor { r: self.r + o.r, g: self.g + o.g, b: self.b + o.b }
    }

    /// Componentwise sum, clamped to the channel cap; accumulation of light
    /// contributions keeps radiance well formed.
    pub fn add_clamped(&self, o: &HDRColor) -> (c: HDRColor)
        requires
            0 <= self.r <= CHAN_MAX && 0 <= self.g <= CHAN_MAX && 0 <= self.b <= CHAN_MAX,
            0 <= o.r <= 0x4000000000000000,
            0 <= o.g <= 0x4000000000000000,
            0 <= o.b <= 0x4000000000000000,
        ensures
            c.r == if self.r + o.r <= CHAN_MAX { self.r + o.r } else { CHAN_MAX as int },
            c.g == if self.g + o.g <= CHAN_MAX { self.g + o.g } else { CHAN_MAX as int },
            c.b == if self.b + o.b <= CHAN_MAX { self.b + o.b } else { CHAN_MAX as int },
            c.wf(),
    {
        let r = self.r + o.r;
        let g = self.g + o.g;
        let b = self.b + o.b;
        HDRColor {
            r: if r <= CHAN_MAX { r } else { CHAN_MAX },
            g: if g <= CHAN_MAX { g } else { CHAN_MAX },
            b: if b <= CHAN_MAX { b } else { CHAN_MAX },
        }
    }
}

/// Clamp a fixed-point value into the displayable unit range.
pub open spec fn clamp01(x: int) -> int {
    if x < 0 {
        0
    } else if x > 65536 {
        65536
    } else {
        x
    }
}

/// `x` raised to a whole exponent by repeated fixed-point multiplication.
pub open spec fn pow_int01(x: int, n: nat) -> int
    decreases n,
{
    if n == 0 {
        65536
    } else {
        fx_mul(pow_int01(x, (n - 1) as nat), x)
    }
}

/// The accumulator walk over the sixteen fractional exponent bits, most
/// significant first; `s` enters as the value whose square roots stand for
/// the halved exponents.
pub open spec fn pow_frac01(s: int, fr: int, i: int, acc: int) -> int
    decreases 16 - i,
{
    if i < 0 || i >= 16 {
        acc
    } else {
        let s2 = fx_sqrt(s);
        let acc2 = if fr / (pow2((15 - i) as nat) as int) % 2 == 1 {
            fx_mul(acc, s2)
        } else {
            acc
        };
        pow_frac01(s2, fr, i + 1, acc2)
    }
}

/// `x` in [0, 1] raised to the fixed-point exponent `g`: the whole part by
/// repeated multiplication, the fractional part by iterated square roots.
pub open spec fn pow01_spec(x: int, g: int) -> int {
    pow_frac01(x, g % 65536, 0, pow_int01(x, (g / 65536) as nat))
}

/// One tone-mapped channel: exposure scaling, clamping to the unit range,
/// the gamma power, then rounding to an 8-bit value.
pub open spec fn tone_channel(c: int, exposure: int, gamma: int) -> int {
    (255 * pow01_spec(clamp01(fx_mul(c, exposure)), gamma) + 32768) / 65536
}

/// A fixed-point product of unit-range values stays in the unit range.
pub proof fn lemma_fx_mul_unit(a: int, b: int)
    requires
        0 <= a <= 65536,
        0 <= b <= 65536,
    ensures
        0 <= fx_mul(a, b) <= 65536,
        fx_mul(a, b) <= a,
{
    assert(a * b <= a * 65536) by (nonlinear_arith)
        requires
            0 <= a,
            b <= 65536,
    ;
    assert(0 <= a * b) by (nonlinear_arith)
        requires
            0 <= a,
            0 <= b,
    ;
    vstd::arithmetic::div_mod::lemma_div_is_ordered(a * b, a * 65536, 65536);
    vstd::arithmetic::div_mod::lemma_div_multiples_vanish(a, 65536);
    vstd::arithmetic::div_mod::lemma_div_pos_is_pos(a * b, 65536);
    vstd::arithmetic::div_mod::lemma_div_is_ordered(a * 65536, 65536int * 65536, 65536);
}

/// A fixed-point square root of a unit-range value stays in the unit range.
pub proof fn lemma_fx_sqrt_unit(v: int)
    requires
        0 <= v <= 65536,
    ensures
        0 <= fx_sqrt(v) <= 65536,
{
    crate::fx::lemma_sqrt_i_bounds(v * 65536);
    let r = crate::fx::sqrt_i(v * 65536);
    assert(r <= 65536) by (nonlinear_arith)
        requires
            0 <= r,
            r * r <= v * 65536,
            v <= 65536,
    ;
}

/// `x` in [0, 1] raised to the fixed-point exponent `g`, with floor
/// rounding at every step.
pub fn pow01(x: i64, g: i64) -> (r: i64)
    requires
        0 <= x <= 65536,
        0 <= g <= 1048576,
    ensures
        r == pow01_spec(x as int, g as int),
        0 <= r <= 65536,
{
    let gu = g as u64;
    let gi = gu / 65536;
    let fr = gu % 65536;
    proof {
        assert(gi == g as int / 65536);
        assert(fr == g as int % 65536);
    }
    let mut result: i64 = 65536;
    let mut j: u64 = 0;
    while j < gi
        invariant
            0 <= x <= 65536,
            gi <= 16,
            0 <= j <= gi,
            result == pow_int01(x as int, j as nat),
            0 <= result <= 65536,
        decreases gi - j,
    {
        proof {
            lemma_fx_mul_unit(result as int, x as int);
        }
        result = mul_fx(result, x);
        j = j + 1;
    }
    let ghost int_part = pow_int01(x as int, gi as nat);
    let mut s: i64 = x;
    let mut p: u64 = 0x8000;
    let mut i: u64 = 0;
    proof {
        vstd::arithmetic::power2::lemma2_to64();
    }
    while i < 16
        invariant
            0 <= x <= 65536,
            0 <= s <= 65536,
            0 <= result <= 65536,
            0 <= i <= 16,
            fr < 65536,
            i < 16 ==> p == pow2((15 - i) as nat),
            pow_frac01(s as int, fr as int, i as int, result as int) == pow_frac01(
                x as int,
                fr as int,
                0,
                int_part,
            ),
        decreases 16 - i,
    {
        proof {
            vstd::arithmetic::power2::lemma_pow2_pos((15 - i) as nat);
            lemma_fx_sqrt_unit(s as int);
        }
        let s2 = sqrt_fx(s);
        let bit = (fr / p) % 2;
        let result2 = if bit == 1 {
            proof {
                lemma_fx_mul_unit(result as int, s2 as int);
            }
            mul_fx(result, s2)
        } else {
            result
        };
        proof {
            assert(pow_frac01(s as int, fr as int, i as int, result as int) == pow_frac01(
                s2 as int,
                fr as int,
                i as int + 1,
                result2 as int,
            ));
            if i < 15 {
                vstd::arithmetic::power2::lemma_pow2_adds(1, (14 - i) as nat);
                vstd::arithmetic::power2::lemma2_to64();
            }
        }
        s = s2;
        result = result2;
        p = p / 2;
        i = i + 1;
    }
    result
}

/// When no fractional exponent bit is set, the walk leaves its accumulator
/// alone.
pub proof fn lemma_pow_frac01_zero(s: int, i: int, acc: int)
    ensures
        pow_frac01(s, 0, i, acc) == acc,
    decreases 16 - i,
{
    if i < 0 || i >= 16 {
    } else {
        vstd::arithmetic::power2::lemma_pow2_pos((15 - i) as nat);
        vstd::arithmetic::div_mod::lemma_div_of0(pow2((15 - i) as nat) as int);
        lemma_pow_frac01_zero(fx_sqrt(s), i + 1, acc);
    }
}

/// Raising to the neutral exponent changes nothing: `x^1 == x` exactly.
pub proof fn lemma_pow01_neutral(x: int)
    requires
        0 <= x <= 65536,
    ensures
        pow01_spec(x, 65536) == x,
{
    assert(pow_int01(x, 0) == 65536);
    assert(pow_int01(x, 1) == fx_mul(65536, x));
    assert(fx_mul(65536, x) == x) by {
        vstd::arithmetic::div_mod::lemma_div_multiples_vanish(x, 65536);
    }
    lemma_pow_frac01_zero(x, 0, x);
}

/// Tone mapping at neutral settings is plain 8-bit quantization: a
/// nonnegative channel within the unit range maps to `round(255 * value)`
/// exactly, and anything above the unit range clamps to 255.
pub proof fn lemma_tone_map_neutral(c: int)
    requires
        0 <= c,
    ensures
        c <= 65536 ==> tone_channel(c, 65536, 65536) == (255 * c + 32768) / 65536,
        c > 65536 ==> tone_channel(c, 65536, 65536) == 255,
{
    assert(fx_mul(c, 65536) == c) by {
        vstd::arithmetic::div_mod::lemma_div_multiples_vanish(c, 65536);
        assert(c * 65536 == 65536 * c) by (nonlinear_arith);
    }
    lemma_pow01_neutral(clamp01(c));
}

impl HDRColor {
    /// Tone-map to a displayable color: exposure scaling, the gamma power
    /// over the clamped unit range, rounding to 8 bits; alpha is opaque.
    pub fn into_display_rgb(&self, exposure: i64, gamma: i64) -> (c: Rgba)
        requires
            self.wf(),
            0 <= exposure <= 0x4000000,
            0 <= gamma <= 1048576,
        ensures
            c.r == tone_channel(self.r as int, exposure as int, gamma as int),
            c.g == tone_channel(self.g as int, exposure as int, gamma as int),
            c.b == tone_channel(self.b as int, exposure as int, gamma as int),
            c.a == 255,
    {
        Rgba {
            r: tone_map_channel(self.r, exposure, gamma),
            g: tone_map_channel(self.g, exposure, gamma),
            b: tone_map_channel(self.b, exposure, gamma),
            a: 255,
        }
    }
}

/// Shading stops past this recursion depth and returns black: the base case
/// that bounds reflection and refraction between facing mirrors.
pub const MAX_DEPTH: u8 = 15;

/// Lambertian shading with a fixed albedo, lit by every light of the scene.
#[derive(Clone, Copy, PartialEq, Eq, Structural, Debug)]
pub struct DiffuseColor {
    pub color: HDRColor,
}

/// Shades by the surface normal alone; no recursion, meant for debugging.
#[derive(Clone, Copy, PartialEq, Eq, Structural, Debug)]
pub struct DebugNormals;

/// Specular reflection with a fixed energy loss per bounce.
#[derive(Clone, Copy, PartialEq, Eq, Structural, Debug)]
pub struct Mirror {
    pub reflectivity: i64,
}

/// A dielectric bending rays by Snell's law, falling back to the mirror
/// direction under total internal reflection.
#[derive(Clone, Copy, PartialEq, Eq, Structural, Debug)]
pub struct Refractor {
    pub refractive_index: i64,
}

/// The closed set of materials a surface may carry.
#[derive(Clone, Copy, PartialEq, Eq, Structural, Debug)]
pub enum Material {
    Diffuse(DiffuseColor),
    Mirror(Mirror),
    Refractor(Refractor),
    DebugNormals(DebugNormals),
}

impl Material {
    /// The parameters every material must keep: albedos and reflectivities
    /// within the unit scale, refractive indices at least that of vacuum.
    pub open spec fn wf(self) -> bool {
        match self {
            Material::Diffuse(d) => d.color.albedo_wf(),
            Material::Mirror(m) => 0 <= m.reflectivity <= ONE,
            Material::Refractor(r) => ONE <= r.refractive_index <= 4 * 65536,
            Material::DebugNormals(_) => true,
        }
    }

    /// The classic mirror: four fifths of the energy per bounce.
    pub fn mirror() -> (m: Material)
        ensures
            m == Material::Mirror(Mirror { reflectivity: 52429i64 }),
            m.wf(),
    {
        Material::Mirror(Mirror { reflectivity: 52429 })
    }

    /// Glass, refractive index 1.52.
    pub fn glass() -> (m: Material)
        ensures
            m == Material::Refractor(Refractor { refractive_index: 99615i64 }),
            m.wf(),
    {
        Material::Refractor(Refractor { refractive_index: 99615 })
    }

    /// Water, refractive index 1.33.
    pub fn water() -> (m: Material)
        ensures
            m == Material::Refractor(Refractor { refractive_index: 87163i64 }),
            m.wf(),
    {
        Material::Refractor(Refractor { refractive_index: 87163 })
    }

    /// The normal-shading debug material.
    pub fn debug_normals() -> (m: Material)
        ensures
            m == Material::DebugNormals(DebugNormals),
            m.wf(),
    {
        Material::DebugNormals(DebugNormals)
    }

    /// A diffuse material over the given albedo.
    pub fn diffuse(color: HDRColor) -> (m: Material)
        requires
            color.albedo_wf(),
        ensures
            m == Material::Diffuse(DiffuseColor { color }),
            m.wf(),
    {
        Material::Diffuse(DiffuseColor { color })
    }
}

/// One channel scaled straight to 8 bits: flooring, not rounding, clamped
/// into the displayable range.
pub open spec fn byte_channel(c: int) -> int {
    if c < 0 {
        0
    } else if (c * 255) / 65536 > 255 {
        255
    } else {
        (c * 255) / 65536
    }
}

impl HDRColor {
    /// The quick conversion to a displayable color, without exposure or
    /// gamma: each channel scaled by 255 with flooring and clamped.
    pub fn into_rgb(&self) -> (c: Rgba)
        requires
            -0x10000000000000 <= self.r <= 0x10000000000000,
            -0x10000000000000 <= self.g <= 0x10000000000000,
            -0x10000000000000 <= self.b <= 0x10000000000000,
        ensures
            c.r == byte_channel(self.r as int),
            c.g == byte_channel(self.g as int),
            c.b == byte_channel(self.b as int),
            c.a == 255,
    {
        Rgba {
            r: byte_of(self.r),
            g: byte_of(self.g),
            b: byte_of(self.b),
            a: 255,
        }
    }
}

/// One channel of the quick conversion.
fn byte_of(c: i64) -> (v: u8)
    requires
        -0x10000000000000 <= c <= 0x10000000000000,
    ensures
        v == byte_channel(c as int),
{
    if c < 0 {
        return 0;
    }
    proof {
        vstd::arithmetic::div_mod::lemma_div_nonincreasing(c * 255, 65536);
        vstd::arithmetic::div_mod::lemma_div_pos_is_pos(c * 255, 65536);
    }
    let scaled = ((c as u64 * 255) / 65536) as i64;
    if scaled > 255 {
        255
    } else {
        scaled as u8
    }
}

/// One channel of the tone map, as an executable function.
fn tone_map_channel(c: i64, exposure: i64, gamma: i64) -> (v: u8)
    requires
        0 <= c <= CHAN_MAX,
        0 <= exposure <= 0x4000000,
        0 <= gamma <= 1048576,
    ensures
        v == tone_channel(c as int, exposure as int, gamma as int),
{
    proof {
        assert(0 <= c * exposure) by (nonlinear_arith)
            requires
                0 <= c,
                0 <= exposure,
        ;
        assert(c * exposure <= 0x10000000000int * 0x4000000) by (nonlinear_arith)
            requires
                0 <= c <= 0x10000000000,
                0 <= exposure <= 0x4000000,
        ;
        vstd::arithmetic::div_mod::lemma_div_pos_is_pos(c * exposure, 65536);
        vstd::arithmetic::div_mod::lemma_div_is_ordered(
            c * exposure,
            0x10000000000int * 0x4000000,
            65536,
        );
    }
    let e = mul_fx(c, exposure);
    let cl = if e < 0 {
        0
    } else if e > 65536 {
        65536
    } else {
        e
    };
    let v = pow01(cl, gamma);
    ((255 * v + 32768) / 65536) as u8
}

/// Zero radiance, the color of exhausted recursion and absent light.
pub open spec fn hdr_black() -> HDRColor {
    HDRColor { r: 0, g: 0, b: 0 }
}

/// A color scaled channelwise by a fixed-point factor.
pub open spec fn hdr_scaled(c: HDRColor, s: int) -> HDRColor {
    HDRColor {
        r: fx_mul(c.r as int, s) as i64,
        g: fx_mul(c.g as int, s) as i64,
        b: fx_mul(c.b as int, s) as i64,
    }
}

/// A color filtered channelwise by an albedo.
pub open spec fn hdr_filtered(albedo: HDRColor, c: HDRColor) -> HDRColor {
    HDRColor {
        r: fx_mul(albedo.r as int, c.r as int) as i64,
        g: fx_mul(albedo.g as int, c.g as int) as i64,
        b: fx_mul(albedo.b as int, c.b as int) as i64,
    }
}

impl HDRColor {
    /// The clamped channelwise sum `add_clamped` computes.
    pub open spec fn add_clamped_spec(self, o: HDRColor) -> HDRColor {
        HDRColor {
            r: if self.r + o.r <= CHAN_MAX {
                (self.r + o.r) as i64
            } else {
                CHAN_MAX
            },
            g: if self.g + o.g <= CHAN_MAX {
                (self.g + o.g) as i64
            } else {
                CHAN_MAX
            },
            b: if self.b + o.b <= CHAN_MAX {
                (self.b + o.b) as i64
            } else {
                CHAN_MAX
            },
        }
    }
}

/// Zero where negative: debug channels and cosine terms never go below zero.
pub open spec fn max0(x: int) -> int {
    if x < 0 {
        0
    } else {
        x
    }
}

/// What the debug material shows: the normal's components mapped into
/// color channels, floored at zero.
pub open spec fn debug_normals_spec(normal: Vector) -> HDRColor {
    HDRColor {
        r: (max0(65536 + normal.x) / 2) as i64,
        g: (max0(65536 + normal.y) / 2) as i64,
        b: max0(32768 - normal.z) as i64,
    }
}

/// The point a shadow or reflection ray starts from: the surface point
/// nudged along the normal to escape its own surface.
pub open spec fn offset_origin_spec(point: Vector, normal: Vector, eps: int) -> Vector {
    point.add_spec(normal.mul_spec(eps))
}

/// How many stochastic samples an area light of this radius receives.
pub open spec fn samples_for(radius: int) -> int {
    1 + (5 * radius + 32768) / 65536
}

/// One shadow sample toward `target` on a light: black when the target is
/// degenerate, occluded, or behind the surface; otherwise the light's color
/// under the inverse-square law and the Lambertian cosine, averaged over
/// `samples`.
pub open spec fn light_sample_spec(
    scene: Scene,
    point: Vector,
    normal: Vector,
    so: Vector,
    lcolor: HDRColor,
    target: Vector,
    samples: int,
) -> HDRColor {
    let to_light = target.sub_spec(point);
    let ls = to_light.length_sq_spec();
    if ls < 1 {
        hdr_black()
    } else {
        let dist = fx_sqrt(ls);
        let sray = Ray { origin: so, direction: to_light.normalized_spec() };
        if scene.occludes(sray, dist) {
            hdr_black()
        } else {
            let ndl = to_light.normalized_spec().dot_spec(normal);
            if ndl <= 0 {
                hdr_black()
            } else {
                let intensity = fx_div(65536, ls * samples);
                let cs = fx_mul(intensity, ndl);
                hdr_scaled(lcolor, cs)
            }
        }
    }
}

/// The lit color gathered from the first `n` lights of a point-light scene,
/// clamped accumulation per light.
pub open spec fn diffuse_gather_spec(
    scene: Scene,
    point: Vector,
    normal: Vector,
    so: Vector,
    n: int,
) -> HDRColor
    decreases n,
{
    if n <= 0 {
        hdr_black()
    } else {
        let light = scene.lights@[n - 1];
        diffuse_gather_spec(scene, point, normal, so, n - 1).add_clamped_spec(
            light_sample_spec(
                scene,
                point,
                normal,
                so,
                light.color,
                light.center,
                samples_for(light.radius as int),
            ),
        )
    }
}

/// What a diffuse surface shows in a point-light scene: the gathered light
/// filtered by the albedo.
pub open spec fn diffuse_spec(albedo: HDRColor, scene: Scene, point: Vector, normal: Vector) -> HDRColor {
    hdr_filtered(
        albedo,
        diffuse_gather_spec(
            scene,
            point,
            normal,
            offset_origin_spec(point, normal, 7),
            scene.lights@.len() as int,
        ),
    )
}

/// The mirror direction: the incoming direction reflected about the normal
/// and renormalized.
pub open spec fn mirror_dir_spec(d: Vector, n: Vector) -> Vector {
    let k = d.dot_spec(n);
    d.sub_spec(n.mul_spec(2 * k)).normalized_spec()
}

/// The ray a mirror bounces: offset origin, reflected direction.
pub open spec fn reflect_ray_spec(point: Vector, normal: Vector, ray: Ray) -> Ray {
    Ray {
        origin: offset_origin_spec(point, normal, 66),
        direction: mirror_dir_spec(ray.direction, normal),
    }
}

/// The normal a refractor works against: flipped when the ray exits the
/// material.
pub open spec fn refract_normal_spec(d: Vector, n: Vector) -> Vector {
    if d.dot_spec(n) > 0 {
        n.neg_spec()
    } else {
        n
    }
}

/// The magnitude of the incoming cosine against the (possibly flipped)
/// normal.
pub open spec fn refract_cos_spec(d: Vector, n: Vector) -> int {
    let k = d.dot_spec(n);
    if k > 0 {
        k
    } else {
        -k
    }
}

/// The refracted direction by Snell's law; under total internal reflection
/// the mirror direction against the working normal stands in.
pub open spec fn refract_dir_spec(d: Vector, n: Vector, index: int) -> Vector {
    let rdn = refract_cos_spec(d, n);
    let nl = refract_normal_spec(d, n);
    let entering = d.dot_spec(n) <= 0;
    let mu = if entering {
        fx_div(65536, index)
    } else {
        fx_div(index, 65536)
    };
    let k = 65536 - fx_mul(fx_mul(mu, mu), 65536 - fx_mul(rdn, rdn));
    if k < 0 {
        mirror_dir_spec(d, nl)
    } else {
        d.mul_spec(mu).add_spec(nl.mul_spec(fx_mul(mu, rdn) - fx_sqrt(k))).normalized_spec()
    }
}

/// The ray a refractor continues along: origin nudged through the surface,
/// refracted direction.
pub open spec fn refract_ray_spec(point: Vector, normal: Vector, ray: Ray, index: int) -> Ray {
    Ray {
        origin: point.sub_spec(refract_normal_spec(ray.direction, normal).mul_spec(7)),
        direction: refract_dir_spec(ray.direction, normal, index),
    }
}

/// What a secondary ray comes back with, in a point-light scene: the
/// background on a miss, black on a hit that leaves the world, and the hit
/// surface's own color otherwise.
pub open spec fn cast_color_spec(secondary: Ray, scene: Scene, depth: u8) -> HDRColor
    decreases 271 - depth as int, 0int, 0int,
{
    if depth > MAX_DEPTH {
        hdr_black()
    } else {
        match scene.cast_spec(secondary) {
            None => scene.bg_color,
            Some((idx, t)) => {
                if !secondary.point_in_world(t) {
                    hdr_black()
                } else {
                    let p2 = Vector {
                        x: point_coord(secondary.origin.x as int, secondary.direction.x as int, t) as i64,
                        y: point_coord(secondary.origin.y as int, secondary.direction.y as int, t) as i64,
                        z: point_coord(secondary.origin.z as int, secondary.direction.z as int, t) as i64,
                    };
                    let obj = scene.renderables@[idx];
                    color_at_spec(
                        obj.material_spec(),
                        p2,
                        obj.normal_spec(p2),
                        secondary,
                        scene,
                        (depth + 1) as u8,
                    )
                }
            },
        }
    }
}

/// What shading computes, in a point-light scene: the full recursive light
/// transport, depth-limited.
pub open spec fn color_at_spec(
    m: Material,
    point: Vector,
    normal: Vector,
    ray: Ray,
    scene: Scene,
    depth: u8,
) -> HDRColor
    decreases 271 - depth as int, 1int, 0int,
{
    match m {
        Material::DebugNormals(_) => debug_normals_spec(normal),
        Material::Diffuse(d) => if depth > MAX_DEPTH {
            hdr_black()
        } else {
            diffuse_spec(d.color, scene, point, normal)
        },
        Material::Mirror(mi) => if depth > MAX_DEPTH {
            hdr_black()
        } else {
            hdr_scaled(
                cast_color_spec(reflect_ray_spec(point, normal, ray), scene, depth),
                mi.reflectivity as int,
            )
        },
        Material::Refractor(rf) => if depth > MAX_DEPTH {
            hdr_black()
        } else {
            cast_color_spec(
                refract_ray_spec(point, normal, ray, rf.refractive_index as int),
                scene,
                depth,
            )
        },
    }
}

/// One shadow sample toward `target`: casts the shadow ray, tests occlusion
/// against the distance to the target, and applies the inverse-square law
/// with the Lambertian cosine. Deterministic in its arguments, so its result
/// is pinned exactly however the target was drawn.
pub fn sample_contribution(
    scene: &Scene,
    point: &Vector,
    normal: &Vector,
    shadow_origin: &Vector,
    lcolor: HDRColor,
    target: &Vector,
    samples: i64,
    depth: u8,
) -> (c: HDRColor)
    requires
        scene.wf(),
        point.bounded(COORD_MAX - 65536),
        normal.bounded(DIR_MAX as int),
        shadow_origin.wf(),
        lcolor.wf(),
        target.bounded(0x40000000),
        1 <= samples <= 20482,
        depth <= MAX_DEPTH,
    ensures
        c == light_sample_spec(*scene, *point, *normal, *shadow_origin, lcolor, *target, samples as int),
        0 <= c.r <= 0x1000000000000000,
        0 <= c.g <= 0x1000000000000000,
        0 <= c.b <= 0x1000000000000000,
{
    let to_light = target.sub(point);
    let ls = to_light.length_squared();
    proof {
        lemma_dot_bound2(to_light, to_light, 0x50000000, 0x50000000);
    }
    if ls < 1 {
        return HDRColor::black();
    }
    let dist = sqrt_fx(ls);
    proof {
        lemma_normalized_bounded(to_light);
    }
    let sdir = to_light.normalized();
    let sray = Ray { origin: *shadow_origin, direction: sdir };
    let hit = scene.cast(&sray, depth + 1);
    let occluded = match hit {
        None => false,
        Some(h) => h.t < dist,
    };
    proof {
        match hit {
            None => {
                assert(!scene.occludes(sray, dist as int));
            },
            Some(h) => {
                if h.t < dist {
                    assert(scene.occludes(sray, dist as int));
                } else {
                    assert(!scene.occludes(sray, dist as int));
                }
            },
        }
    }
    if occluded {
        return HDRColor::black();
    }
    let ndl = sdir.dot(normal);
    proof {
        lemma_dot_bound2(sdir, *normal, DIR_MAX as int, DIR_MAX as int);
    }
    if ndl <= 0 {
        return HDRColor::black();
    }
    proof {
        assert(1 <= ls * samples <= 0x4b0000000000 * 20482) by (nonlinear_arith)
            requires
                1 <= ls <= 0x4b0000000000,
                1 <= samples <= 20482,
        ;
        lemma_fdiv_range(65536int * 65536, ls * samples);
    }
    let denom = ls * samples;
    let intensity = div_fx(65536, denom);
    proof {
        lemma_fx_mul_fits(intensity as int, ndl as int, 0x100000000, 0xc0000);
        assert(0 <= intensity * ndl) by (nonlinear_arith)
            requires
                0 <= intensity,
                0 <= ndl,
        ;
        vstd::arithmetic::div_mod::lemma_div_pos_is_pos(intensity * ndl, 65536);
    }
    let cs = mul_fx(intensity, ndl);
    proof {
        lemma_fx_mul_fits(lcolor.r as int, cs as int, 0x10000000000, 0xc00000000);
        lemma_fx_mul_fits(lcolor.g as int, cs as int, 0x10000000000, 0xc00000000);
        lemma_fx_mul_fits(lcolor.b as int, cs as int, 0x10000000000, 0xc00000000);
        assert(0 <= lcolor.r * cs) by (nonlinear_arith)
            requires
                0 <= lcolor.r,
                0 <= cs,
        ;
        assert(0 <= lcolor.g * cs) by (nonlinear_arith)
            requires
                0 <= lcolor.g,
                0 <= cs,
        ;
        assert(0 <= lcolor.b * cs) by (nonlinear_arith)
            requires
                0 <= lcolor.b,
                0 <= cs,
        ;
        vstd::arithmetic::div_mod::lemma_div_pos_is_pos(lcolor.r * cs, 65536);
        vstd::arithmetic::div_mod::lemma_div_pos_is_pos(lcolor.g * cs, 65536);
        vstd::arithmetic::div_mod::lemma_div_pos_is_pos(lcolor.b * cs, 65536);
    }
    lcolor.scale(cs)
}

/// Accumulate every stochastic sample of one light into `acc`. For a point
/// light the single sample aims at the light's center exactly, so the
/// result is pinned; for an area light each sample is jittered by a random
/// unit direction scaled by the radius.
fn gather_light(
    scene: &Scene,
    point: &Vector,
    normal: &Vector,
    shadow_origin: &Vector,
    light: &Light,
    depth: u8,
    acc: HDRColor,
) -> (c: HDRColor)
    requires
        scene.wf(),
        light.wf(),
        point.bounded(COORD_MAX - 65536),
        normal.bounded(DIR_MAX as int),
        shadow_origin.wf(),
        acc.wf(),
        depth <= MAX_DEPTH,
    ensures
        c.wf(),
        light.radius == 0 ==> c == acc.add_clamped_spec(
            light_sample_spec(
                *scene,
                *point,
                *normal,
                *shadow_origin,
                light.color,
                light.center,
                1,
            ),
        ),
{
    proof {
        lemma_div_le_cap(5 * light.radius + 32768, 65536, 20481);
        vstd::arithmetic::div_mod::lemma_div_pos_is_pos(5 * light.radius + 32768, 65536);
    }
    let samples = 1 + (((5 * light.radius + 32768) as u64 / 65536) as i64);
    let mut acc2 = acc;
    let mut si: i64 = 0;
    while si < samples
        invariant
            scene.wf(),
            light.wf(),
            point.bounded(COORD_MAX - 65536),
            normal.bounded(DIR_MAX as int),
            shadow_origin.wf(),
            depth <= MAX_DEPTH,
            acc2.wf(),
            acc.wf(),
            0 <= si <= samples,
            1 <= samples <= 20482,
            samples as int == samples_for(light.radius as int),
            light.radius == 0 ==> samples == 1,
            light.radius == 0 && si == 0 ==> acc2 == acc,
            light.radius == 0 && si >= 1 ==> acc2 == acc.add_clamped_spec(
                light_sample_spec(
                    *scene,
                    *point,
                    *normal,
                    *shadow_origin,
                    light.color,
                    light.center,
                    1,
                ),
            ),
        decreases samples - si,
    {
        let jitter_dir = Vector::random_norm();
        proof {
            lemma_fx_mul_fits(jitter_dir.x as int, light.radius as int, DIR_MAX as int, COORD_MAX as int);
            lemma_fx_mul_fits(jitter_dir.y as int, light.radius as int, DIR_MAX as int, COORD_MAX as int);
            lemma_fx_mul_fits(jitter_dir.z as int, light.radius as int, DIR_MAX as int, COORD_MAX as int);
        }
        let jitter = jitter_dir.mul(light.radius);
        let target = light.center.add(&jitter);
        proof {
            if light.radius == 0 {
                assert(jitter == (Vector { x: 0i64, y: 0i64, z: 0i64 })) by {
                    vstd::arithmetic::div_mod::lemma_div_of0(65536);
                }
                assert(target == light.center);
            }
        }
        let c1 = sample_contribution(
            scene,
            point,
            normal,
            shadow_origin,
            light.color,
            &target,
            samples,
            depth,
        );
        acc2 = acc2.add_clamped(&c1);
        si = si + 1;
    }
    acc2
}

impl DiffuseColor {
    /// Lambertian shading: for every light, shadow samples toward the light
    /// decide occlusion, and unoccluded samples contribute the light's color
    /// under the inverse-square law and the cosine term, averaged over the
    /// samples and filtered by the albedo. In a point-light scene the result
    /// is the exact gathered sum; never a negative channel.
    pub fn color_at(
        &self,
        point: &Vector,
        normal: &Vector,
        _ray: &Ray,
        scene: &Scene,
        depth: u8,
    ) -> (c: HDRColor)
        requires
            self.color.albedo_wf(),
            scene.wf(),
            point.bounded(COORD_MAX - 65536),
            normal.bounded(DIR_MAX as int),
        ensures
            c.wf(),
            depth > MAX_DEPTH ==> c == hdr_black(),
            depth <= MAX_DEPTH && scene.point_lights_only() ==> c == diffuse_spec(
                self.color,
                *scene,
                *point,
                *normal,
            ),
    {
        if depth > MAX_DEPTH {
            return HDRColor::black();
        }
        proof {
            lemma_fx_mul_fits(normal.x as int, 7, DIR_MAX as int, 7);
            lemma_fx_mul_fits(normal.y as int, 7, DIR_MAX as int, 7);
            lemma_fx_mul_fits(normal.z as int, 7, DIR_MAX as int, 7);
        }
        let shadow_origin = point.add(&normal.mul(7));
        let mut color = HDRColor::black();
        let mut li: usize = 0;
        while li < scene.lights.len()
            invariant
                scene.wf(),
                self.color.albedo_wf(),
                point.bounded(COORD_MAX - 65536),
                normal.bounded(DIR_MAX as int),
                depth <= MAX_DEPTH,
                shadow_origin == offset_origin_spec(*point, *normal, 7),
                shadow_origin.wf(),
                color.wf(),
                0 <= li <= scene.lights@.len(),
                scene.point_lights_only() ==> color == diffuse_gather_spec(
                    *scene,
                    *point,
                    *normal,
                    offset_origin_spec(*point, *normal, 7),
                    li as int,
                ),
            decreases scene.lights@.len() - li,
        {
            let light = scene.lights[li];
            color = gather_light(scene, point, normal, &shadow_origin, &light, depth, color);
            li = li + 1;
        }
        proof {
            lemma_fx_filter(self.color.r as int, color.r as int);
            lemma_fx_filter(self.color.g as int, color.g as int);
            lemma_fx_filter(self.color.b as int, color.b as int);
        }
        self.color.mul(&color)
    }
}

impl DebugNormals {
    /// Map the surface normal's components into color channels, floored at
    /// zero; a pure function of the normal with no recursion.
    pub fn color_at(
        &self,
        _point: &Vector,
        normal: &Vector,
        _ray: &Ray,
        _scene: &Scene,
        _depth: u8,
    ) -> (c: HDRColor)
        requires
            normal.bounded(DIR_MAX as int),
        ensures
            c == debug_normals_spec(*normal),
            c.wf(),
    {
        let r0 = 65536 + normal.x;
        let g0 = 65536 + normal.y;
        let b0 = 32768 - normal.z;
        HDRColor {
            r: if r0 <= 0 {
                0
            } else {
                ((r0 as u64) / 2) as i64
            },
            g: if g0 <= 0 {
                0
            } else {
                ((g0 as u64) / 2) as i64
            },
            b: if b0 <= 0 {
                0
            } else {
                b0
            },
        }
    }
}

/// Cast a secondary ray and shade whatever it hits: the background on a
/// miss, black for a hit outside the world, and the hit surface's own
/// recursive color otherwise, one level deeper.
fn cast_and_shade(secondary: &Ray, scene: &Scene, depth: u8) -> (c: HDRColor)
    requires
        scene.wf(),
        secondary.wf(),
        depth <= MAX_DEPTH,
    ensures
        c.wf(),
        scene.misses(*secondary) ==> c == scene.bg_color,
        scene.point_lights_only() ==> c == cast_color_spec(*secondary, *scene, depth),
    decreases 271 - depth as int, 0int,
{
    let hit = scene.cast(secondary, depth + 1);
    match hit {
        None => scene.bg_color,
        Some(h) => {
            match secondary.point_at(h.t) {
                None => HDRColor::black(),
                Some(p2) => {
                    let object = &scene.renderables[h.renderable_idx];
                    let n2 = object.normal(&p2);
                    let m2 = *object.material();
                    proof {
                        assert(m2.wf());
                    }
                    m2.color_at(&p2, &n2, secondary, scene, depth + 1)
                },
            }
        },
    }
}

impl Mirror {
    /// Specular reflection: the incoming direction is reflected about the
    /// normal, renormalized, cast one level deeper, and the returned color
    /// is scaled by the reflectivity; rays that escape the scene return the
    /// background color.
    pub fn color_at(
        &self,
        point: &Vector,
        normal: &Vector,
        ray: &Ray,
        scene: &Scene,
        depth: u8,
    ) -> (c: HDRColor)
        requires
            0 <= self.reflectivity <= ONE,
            scene.wf(),
            point.bounded(COORD_MAX - 65536),
            normal.bounded(DIR_MAX as int),
            ray.wf(),
        ensures
            c.wf(),
            depth > MAX_DEPTH ==> c == hdr_black(),
            depth <= MAX_DEPTH && scene.misses(reflect_ray_spec(*point, *normal, *ray)) ==> c
                == hdr_scaled(scene.bg_color, self.reflectivity as int),
            depth <= MAX_DEPTH && scene.point_lights_only() ==> c == hdr_scaled(
                cast_color_spec(reflect_ray_spec(*point, *normal, *ray), *scene, depth),
                self.reflectivity as int,
            ),
        decreases 271 - depth as int, 1int,
    {
        if depth > MAX_DEPTH {
            return HDRColor::black();
        }
        let k = ray.direction.dot(normal);
        proof {
            lemma_dot_bound2(ray.direction, *normal, DIR_MAX as int, DIR_MAX as int);
            lemma_fx_mul_fits(normal.x as int, 2 * k as int, DIR_MAX as int, 0x180000);
            lemma_fx_mul_fits(normal.y as int, 2 * k as int, DIR_MAX as int, 0x180000);
            lemma_fx_mul_fits(normal.z as int, 2 * k as int, DIR_MAX as int, 0x180000);
        }
        let md = ray.direction.sub(&normal.mul(2 * k));
        proof {
            lemma_normalized_bounded(md);
            lemma_fx_mul_fits(normal.x as int, 66, DIR_MAX as int, 66);
            lemma_fx_mul_fits(normal.y as int, 66, DIR_MAX as int, 66);
            lemma_fx_mul_fits(normal.z as int, 66, DIR_MAX as int, 66);
        }
        let mray = Ray { origin: point.add(&normal.mul(66)), direction: md.normalized() };
        let sub = cast_and_shade(&mray, scene, depth);
        proof {
            lemma_fx_filter(self.reflectivity as int, sub.r as int);
            lemma_fx_filter(self.reflectivity as int, sub.g as int);
            lemma_fx_filter(self.reflectivity as int, sub.b as int);
            assert(sub.r * self.reflectivity == self.reflectivity * sub.r) by (nonlinear_arith);
            assert(sub.g * self.reflectivity == self.reflectivity * sub.g) by (nonlinear_arith);
            assert(sub.b * self.reflectivity == self.reflectivity * sub.b) by (nonlinear_arith);
        }
        sub.scale(self.reflectivity)
    }
}

impl Refractor {
    /// Dielectric transmission: Snell's law bends the ray, the normal is
    /// flipped when the ray exits the material, total internal reflection
    /// falls back to the mirror direction, and the continued ray's color is
    /// passed through unchanged.
    pub fn color_at(
        &self,
        point: &Vector,
        normal: &Vector,
        ray: &Ray,
        scene: &Scene,
        depth: u8,
    ) -> (c: HDRColor)
        requires
            ONE <= self.refractive_index <= 4 * 65536,
            scene.wf(),
            point.bounded(COORD_MAX - 65536),
            normal.bounded(DIR_MAX as int),
            ray.wf(),
        ensures
            c.wf(),
            depth > MAX_DEPTH ==> c == hdr_black(),
            depth <= MAX_DEPTH && scene.misses(
                refract_ray_spec(*point, *normal, *ray, self.refractive_index as int),
            ) ==> c == scene.bg_color,
            depth <= MAX_DEPTH && scene.point_lights_only() ==> c == cast_color_spec(
                refract_ray_spec(*point, *normal, *ray, self.refractive_index as int),
                *scene,
                depth,
            ),
        decreases 271 - depth as int, 1int,
    {
        if depth > MAX_DEPTH {
            return HDRColor::black();
        }
        let kdn = ray.direction.dot(normal);
        proof {
            lemma_dot_bound2(ray.direction, *normal, DIR_MAX as int, DIR_MAX as int);
        }
        let nl = if kdn > 0 {
            Vector { x: -normal.x, y: -normal.y, z: -normal.z }
        } else {
            *normal
        };
        let rdn = if kdn > 0 {
            kdn
        } else {
            -kdn
        };
        proof {
            vstd::arithmetic::div_mod::lemma_div_multiples_vanish(
                self.refractive_index as int,
                65536,
            );
            assert(self.refractive_index * 65536 == 65536 * self.refractive_index)
                by (nonlinear_arith);
            assert(65536int * 65536 <= self.refractive_index * 65536) by (nonlinear_arith)
                requires
                    self.refractive_index >= 65536,
            ;
            lemma_div_le_cap(65536int * 65536, self.refractive_index as int, 65536);
            vstd::arithmetic::div_mod::lemma_div_pos_is_pos(
                65536int * 65536,
                self.refractive_index as int,
            );
        }
        let mu = if kdn > 0 {
            div_fx(self.refractive_index, 65536)
        } else {
            div_fx(65536, self.refractive_index)
        };
        proof {
            lemma_fx_mul_fits(rdn as int, rdn as int, 0xc0000, 0xc0000);
            lemma_fx_mul_fits(mu as int, mu as int, 0x40000, 0x40000);
        }
        let inner = 65536 - mul_fx(rdn, rdn);
        proof {
            assert(0 <= mu * mu) by (nonlinear_arith);
            assert(0 <= rdn * rdn) by (nonlinear_arith);
            vstd::arithmetic::div_mod::lemma_div_pos_is_pos(mu * mu, 65536);
            vstd::arithmetic::div_mod::lemma_div_pos_is_pos(rdn * rdn, 65536);
            lemma_fx_mul_fits(fx_mul(mu as int, mu as int), inner as int, 0x100000, 0x910000);
        }
        let kk = 65536 - mul_fx(mul_fx(mu, mu), inner);
        let dir = if kk < 0 {
            let k2 = ray.direction.dot(&nl);
            proof {
                lemma_dot_bound2(ray.direction, nl, DIR_MAX as int, DIR_MAX as int);
                lemma_fx_mul_fits(nl.x as int, 2 * k2 as int, DIR_MAX as int, 0x180000);
                lemma_fx_mul_fits(nl.y as int, 2 * k2 as int, DIR_MAX as int, 0x180000);
                lemma_fx_mul_fits(nl.z as int, 2 * k2 as int, DIR_MAX as int, 0x180000);
            }
            let md = ray.direction.sub(&nl.mul(2 * k2));
            proof {
                lemma_normalized_bounded(md);
            }
            md.normalized()
        } else {
            let sq = sqrt_fx(kk);
            proof {
                lemma_fx_mul_fits(mu as int, rdn as int, 0x40000, 0xc0000);
                crate::fx::lemma_sqrt_i_bounds(kk as int * 65536);
                assert(sq <= 0x2000000) by (nonlinear_arith)
                    requires
                        0 <= sq,
                        sq * sq <= kk * 65536,
                        kk <= 0x10000000,
                ;
                lemma_fx_mul_fits(ray.direction.x as int, mu as int, DIR_MAX as int, 0x40000);
                lemma_fx_mul_fits(ray.direction.y as int, mu as int, DIR_MAX as int, 0x40000);
                lemma_fx_mul_fits(ray.direction.z as int, mu as int, DIR_MAX as int, 0x40000);
                lemma_fx_mul_fits(nl.x as int, fx_mul(mu as int, rdn as int) - sq, DIR_MAX as int, 0x4000000);
                lemma_fx_mul_fits(nl.y as int, fx_mul(mu as int, rdn as int) - sq, DIR_MAX as int, 0x4000000);
                lemma_fx_mul_fits(nl.z as int, fx_mul(mu as int, rdn as int) - sq, DIR_MAX as int, 0x4000000);
            }
            let scale2 = mul_fx(mu, rdn) - sq;
            let part = ray.direction.mul(mu).add(&nl.mul(scale2));
            proof {
                lemma_normalized_bounded(part);
            }
            part.normalized()
        };
        proof {
            lemma_fx_mul_fits(nl.x as int, 7, DIR_MAX as int, 7);
            lemma_fx_mul_fits(nl.y as int, 7, DIR_MAX as int, 7);
            lemma_fx_mul_fits(nl.z as int, 7, DIR_MAX as int, 7);
        }
        let rray = Ray { origin: point.sub(&nl.mul(7)), direction: dir };
        cast_and_shade(&rray, scene, depth)
    }
}

impl Material {
    /// Evaluate this material at an intersection: the one entry the caster
    /// and the renderer use, dispatching to the variant's own shading.
    pub fn color_at(
        &self,
        point: &Vector,
        normal: &Vector,
        ray: &Ray,
        scene: &Scene,
        depth: u8,
    ) -> (c: HDRColor)
        requires
            self.wf(),
            scene.wf(),
            point.bounded(COORD_MAX - 65536),
            normal.bounded(DIR_MAX as int),
            ray.wf(),
        ensures
            c.wf(),
            depth > MAX_DEPTH && !(self matches Material::DebugNormals(_)) ==> c == hdr_black(),
            scene.point_lights_only() ==> c == color_at_spec(
                *self,
                *point,
                *normal,
                *ray,
                *scene,
                depth,
            ),
        decreases 271 - depth as int, 2int,
    {
        match self {
            Material::Diffuse(d) => d.color_at(point, normal, ray, scene, depth),
            Material::Mirror(m) => m.color_at(point, normal, ray, scene, depth),
            Material::Refractor(r) => r.color_at(point, normal, ray, scene, depth),
            Material::DebugNormals(d) => d.color_at(point, normal, ray, scene, depth),
        }
    }
}

} // verus!
