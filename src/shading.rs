//! Direct lighting with hard shadows.
use vstd::prelude::*;
use crate::fixed::{floor_div, SCALE, T_INF};
use crate::hittable::{in_world, HitRecord};
use crate::hittable_list::{scene_hit, HittableList, Shape};
use crate::light::{Light, INTENSITY_MAX};
use crate::ray::Ray;
use crate::vec3::{bounded, dot, minus, unit, unit_color, unit_vector, Color, Point3, Vec3};

verus! {

/// Start of the interval of a query (about `0.001`), so that a surface does
/// not hit itself.
pub const SHADOW_EPS: i64 = 66;

/// Smallest diffuse factor (about `0.4`), so that faces turned away from the
/// light are not black.
pub const AMBIENT: i64 = 26214;

/// The color of a point that the light cannot see: `(0.4, 0.4, 0.4)`.
pub open spec fn shadow_color() -> Color {
    Vec3 { x: AMBIENT, y: AMBIENT, z: AMBIENT }
}

/// The sky's tint, `(0.5, 0.7, 1.0)`.
pub open spec fn sky() -> Color {
    Vec3 { x: 32768, y: 45875, z: 65536 }
}

/// Product of two non-negative fixed-point numbers.
pub open spec fn fmul(a: int, b: int) -> int {
    (a * b) / (SCALE as int)
}

/// Direction from `p` towards the light, of unit length.
pub open spec fn light_dir(light: Light, p: Point3) -> Vec3 {
    unit(minus(light.position, p))
}

/// An opaque primitive lies on the way from `p` to the light.
pub open spec fn shadowed(objs: Seq<Shape>, p: Point3, light: Light) -> bool {
    let l = light_dir(light, p);
    &&& l != (Vec3 { x: 0, y: 0, z: 0 })
    &&& scene_hit(objs, Ray { orig: p, dir: l }, SHADOW_EPS as int, T_INF as int) is Some
}

/// Cosine between the normal and the light direction, floored at `AMBIENT`.
pub open spec fn diffuse(normal: Vec3, l: Vec3) -> int {
    let c = floor_div(dot(normal, l), SCALE as int);
    if c > AMBIENT { c } else { AMBIENT as int }
}

/// `factor * light.color * light.intensity * surface`, channel by channel.
pub open spec fn lit(light: Light, factor: int, surface: Color) -> Color {
    Vec3 {
        x: fmul(fmul(fmul(factor, light.color.x as int), light.intensity as int), surface.x as int) as i64,
        y: fmul(fmul(fmul(factor, light.color.y as int), light.intensity as int), surface.y as int) as i64,
        z: fmul(fmul(fmul(factor, light.color.z as int), light.intensity as int), surface.z as int) as i64,
    }
}

/// The color seen at a hit: the shadow color when the light is hidden, else
/// the diffuse term times the light times the surface color.
pub open spec fn shade(objs: Seq<Shape>, rec: HitRecord, light: Light) -> Color {
    if shadowed(objs, rec.p, light) {
        shadow_color()
    } else {
        lit(light, diffuse(rec.normal, light_dir(light, rec.p)), rec.color)
    }
}

/// The color seen along a ray: the shaded nearest hit, else the sky tinted
/// by the light.
pub open spec fn ray_color_spec(objs: Seq<Shape>, ray: Ray, light: Light) -> Color {
    match scene_hit(objs, ray, SHADOW_EPS as int, T_INF as int) {
        Some(rec) => shade(objs, rec, light),
        None => lit(light, SCALE as int, sky()),
    }
}

/// Largest channel value that shading produces.
pub const CHANNEL_MAX: i64 = 274877906944;

/// Every channel of `c` lies in `[0, CHANNEL_MAX]`.
pub open spec fn channels_in_range(c: Color) -> bool {
    0 <= c.x <= CHANNEL_MAX && 0 <= c.y <= CHANNEL_MAX && 0 <= c.z <= CHANNEL_MAX
}

/// `fmul` on operands whose product fits.
fn mul_fx(a: i64, b: i64) -> (r: i64)
    requires
        0 <= a <= 4 * INTENSITY_MAX,
        0 <= b <= INTENSITY_MAX,
    ensures
        r == fmul(a as int, b as int),
        0 <= r <= 4 * INTENSITY_MAX * INTENSITY_MAX / (SCALE as int),
{
    proof {
        crate::fixed::lemma_mul_bound(a as int, b as int, 4 * INTENSITY_MAX, INTENSITY_MAX as int);
        assert(0 <= a * b) by (nonlinear_arith)
            requires
                0 <= a,
                0 <= b,
        ;
        vstd::arithmetic::div_mod::lemma_div_is_ordered(a * b, 4 * INTENSITY_MAX * INTENSITY_MAX, SCALE as int);
        vstd::arithmetic::div_mod::lemma_div_pos_is_pos(a * b, SCALE as int);
    }
    ((a as i128 * b as i128) / SCALE as i128) as i64
}

fn lit_channel(factor: i64, lc: i64, intensity: i64, surface: i64) -> (r: i64)
    requires
        0 <= factor <= 4 * SCALE,
        0 <= lc <= SCALE,
        0 <= intensity <= INTENSITY_MAX,
        0 <= surface <= SCALE,
    ensures
        r == fmul(fmul(fmul(factor as int, lc as int), intensity as int), surface as int),
        0 <= r <= CHANNEL_MAX,
{
    let a = mul_fx(factor, lc);
    assert(a <= 4 * SCALE) by {
        assert(factor * lc <= 4 * SCALE * SCALE) by (nonlinear_arith)
            requires
                0 <= factor <= 4 * SCALE,
                0 <= lc <= SCALE,
        ;
        vstd::arithmetic::div_mod::lemma_div_is_ordered(factor * lc, 4 * SCALE * SCALE, SCALE as int);
    }
    let b = mul_fx(a, intensity);
    assert(b <= 4 * INTENSITY_MAX) by {
        assert(a * intensity <= 4 * SCALE * INTENSITY_MAX) by (nonlinear_arith)
            requires
                0 <= a <= 4 * SCALE,
                0 <= intensity <= INTENSITY_MAX,
        ;
        vstd::arithmetic::div_mod::lemma_div_is_ordered(a * intensity, 4 * SCALE * INTENSITY_MAX, SCALE as int);
    }
    mul_fx(b, surface)
}

fn lit_exec(light: &Light, factor: i64, surface: Color) -> (r: Color)
    requires
        light.wf(),
        0 <= factor <= 4 * SCALE,
        unit_color(surface),
    ensures
        r == lit(*light, factor as int, surface),
        channels_in_range(r),
{
    Vec3 {
        x: lit_channel(factor, light.color.x, light.intensity, surface.x),
        y: lit_channel(factor, light.color.y, light.intensity, surface.y),
        z: lit_channel(factor, light.color.z, light.intensity, surface.z),
    }
}

/// The color seen at a hit point: casts a shadow ray towards the light.
pub fn compute_lighting(rec: &HitRecord, world: &HittableList, light: &Light) -> (r: Color)
    requires
        world.wf(),
        light.wf(),
        in_world((rec.p.x as int, rec.p.y as int, rec.p.z as int)),
        bounded(rec.normal, SCALE as int),
        unit_color(rec.color),
    ensures
        r == shade(world.objects@, *rec, *light),
        shadowed(world.objects@, rec.p, *light) ==> r == shadow_color(),
        channels_in_range(r),
{
    let p = rec.p;
    let to_light = Vec3 { x: light.position.x - p.x, y: light.position.y - p.y, z: light.position.z - p.z };
    assert(minus(light.position, p) == to_light);
    let l = unit_vector(to_light);
    if !(l.x == 0 && l.y == 0 && l.z == 0) {
        let shadow_ray = Ray::new(p, l);
        assert(dot(l, l) > 0) by (nonlinear_arith)
            requires
                !(l.x == 0 && l.y == 0 && l.z == 0),
        ;
        if world.hit(&shadow_ray, SHADOW_EPS, T_INF).is_some() {
            return Vec3 { x: AMBIENT, y: AMBIENT, z: AMBIENT };
        }
    }
    let n = rec.normal;
    proof {
        crate::fixed::lemma_mul_bound(n.x as int, l.x as int, SCALE as int, SCALE as int);
        crate::fixed::lemma_mul_bound(n.y as int, l.y as int, SCALE as int, SCALE as int);
        crate::fixed::lemma_mul_bound(n.z as int, l.z as int, SCALE as int, SCALE as int);
    }
    let dd: i128 = n.x as i128 * l.x as i128 + n.y as i128 * l.y as i128 + n.z as i128 * l.z as i128;
    let c: i128 = crate::fixed::div_floor(dd, SCALE as i128);
    proof {
        crate::fixed::lemma_div_bound(dd as int, SCALE as int, 3 * SCALE * SCALE);
    }
    let factor: i64 = if c > AMBIENT as i128 { c as i64 } else { AMBIENT };
    lit_exec(light, factor, rec.color)
}

/// The color seen along a primary ray.
pub fn ray_color(r: &Ray, world: &HittableList, light: &Light) -> (c: Color)
    requires
        world.wf(),
        light.wf(),
        r.wf(),
    ensures
        c == ray_color_spec(world.objects@, *r, *light),
        channels_in_range(c),
{
    match world.hit(r, SHADOW_EPS, T_INF) {
        Some(rec) => compute_lighting(&rec, world, light),
        None => lit_exec(light, SCALE, Vec3 { x: 32768, y: 45875, z: 65536 }),
    }
}

} // verus!
