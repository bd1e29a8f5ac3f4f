//! Properties of the intersection engine as a whole.
use vstd::prelude::*;
use crate::camera::Camera;
use crate::cube::Cube;
use crate::cylinder::Cylinder;
use crate::hittable::in_world;
use crate::plane::{plane_normal, Plane};
use crate::quadratic::root;
use crate::sphere::Sphere;
use crate::fixed::{SCALE, T_INF};
use crate::hittable_list::{scene_hit, Shape};
use crate::light::Light;
use crate::ray::Ray;
use crate::shading::{ray_color_spec, shadow_color, shadowed};
use crate::vec3::{dot, len_sq, Vec3};

verus! {

/// A primitive's hit lies in the queried interval.
pub proof fn lemma_shape_range(sh: Shape, ray: Ray, t_min: int, t_max: int)
    requires
        -T_INF <= t_min,
        t_max <= T_INF,
    ensures
        sh.hit_spec(ray, t_min, t_max) matches Some(h) ==> t_min <= h.t <= t_max,
{
}

/// Closing the interval just past a primitive's hit still finds that hit, or
/// one no farther.
pub proof fn lemma_shape_narrow(sh: Shape, ray: Ray, t_min: int, t_max: int, c: int)
    requires
        -T_INF <= t_min,
        t_max <= T_INF,
        c <= t_max,
        sh.hit_spec(ray, t_min, t_max) matches Some(h) && h.t < c,
    ensures
        sh.hit_spec(ray, t_min, c) matches Some(h2) && h2.t <= sh.hit_spec(ray, t_min, t_max)->Some_0.t,
{
    match sh {
        Shape::Sphere(s) => lemma_sphere_narrow(s, ray, t_min, t_max, c),
        Shape::Plane(p) => {},
        Shape::Cube(b) => lemma_cube_narrow(b, ray, t_min, t_max, c),
        Shape::Cylinder(y) => lemma_cylinder_narrow(y, ray, t_min, t_max, c),
    }
}

proof fn lemma_sphere_narrow(s: Sphere, ray: Ray, t_min: int, t_max: int, c: int)
    requires
        -T_INF <= t_min,
        t_max <= T_INF,
        c <= t_max,
        s.hit_spec(ray, t_min, t_max) matches Some(h) && h.t < c,
    ensures
        s.hit_spec(ray, t_min, c) == s.hit_spec(ray, t_min, t_max),
{
}

proof fn lemma_cube_narrow(b: Cube, ray: Ray, t_min: int, t_max: int, c: int)
    requires
        -T_INF <= t_min,
        t_max <= T_INF,
        c <= t_max,
        b.hit_spec(ray, t_min, t_max) matches Some(h) && h.t < c,
    ensures
        b.hit_spec(ray, t_min, c) == b.hit_spec(ray, t_min, t_max),
{
}

#[verifier::rlimit(50)]
proof fn lemma_cylinder_narrow(y: Cylinder, ray: Ray, t_min: int, t_max: int, c: int)
    requires
        -T_INF <= t_min,
        t_max <= T_INF,
        c <= t_max,
        y.hit_spec(ray, t_min, t_max) matches Some(h) && h.t < c,
    ensures
        y.hit_spec(ray, t_min, c) matches Some(h2) && h2.t <= y.hit_spec(ray, t_min, t_max)->Some_0.t,
{
}

/// The scene's hit lies in the queried interval.
pub proof fn lemma_scene_range(objs: Seq<Shape>, ray: Ray, t_min: int, t_max: int)
    requires
        -T_INF <= t_min,
        t_max <= T_INF,
    ensures
        scene_hit(objs, ray, t_min, t_max) matches Some(h) ==> t_min <= h.t <= t_max,
    decreases objs.len(),
{
    if objs.len() > 0 {
        lemma_scene_range(objs.drop_last(), ray, t_min, t_max);
        let prev = scene_hit(objs.drop_last(), ray, t_min, t_max);
        let closest = match prev {
            Some(r) => r.t as int,
            None => t_max,
        };
        lemma_shape_range(objs.last(), ray, t_min, closest);
    }
}

/// The scene reports the nearest hit: no primitive hits the ray, within the
/// same interval, nearer than the hit that the scene returns.
pub proof fn lemma_scene_nearest(objs: Seq<Shape>, ray: Ray, t_min: int, t_max: int, i: int)
    requires
        -T_INF <= t_min,
        t_max <= T_INF,
        0 <= i < objs.len(),
        objs[i].hit_spec(ray, t_min, t_max) is Some,
    ensures
        scene_hit(objs, ray, t_min, t_max) matches Some(r) && r.t <= objs[i].hit_spec(ray, t_min, t_max)->Some_0.t,
    decreases objs.len(),
{
    let h = objs[i].hit_spec(ray, t_min, t_max)->Some_0;
    let init = objs.drop_last();
    let prev = scene_hit(init, ray, t_min, t_max);
    let closest = match prev {
        Some(r) => r.t as int,
        None => t_max,
    };
    lemma_scene_range(init, ray, t_min, t_max);
    lemma_shape_range(objs.last(), ray, t_min, closest);
    if i == objs.len() - 1 {
        assert(objs.last() == objs[i]);
        if h.t < closest {
            lemma_shape_narrow(objs[i], ray, t_min, t_max, closest);
        }
    } else {
        assert(init[i] == objs[i]);
        lemma_scene_nearest(init, ray, t_min, t_max, i);
    }
}

/// A plane or a box reports a normal of exactly unit length, which opposes
/// the ray.
pub proof fn lemma_flat_normal_unit(sh: Shape, ray: Ray, t_min: int, t_max: int)
    requires
        sh is Plane || sh is Cube,
        sh.hit_spec(ray, t_min, t_max) is Some,
    ensures
        len_sq(sh.hit_spec(ray, t_min, t_max)->Some_0.normal) == SCALE * SCALE,
{
    let n = sh.hit_spec(ray, t_min, t_max)->Some_0.normal;
    assert(n == (Vec3 { x: 0, y: SCALE, z: 0 }) || n == (Vec3 { x: 0, y: -65536i64, z: 0 }) || n
        == (Vec3 { x: SCALE, y: 0, z: 0 }) || n == (Vec3 { x: -65536i64, y: 0, z: 0 }) || n == (Vec3 {
        x: 0,
        y: 0,
        z: SCALE,
    }) || n == (Vec3 { x: 0, y: 0, z: -65536i64 }));
}

/// A plane's reported normal is the unit up vector for a ray going down and
/// the unit down vector for a ray going up.
pub proof fn lemma_plane_normal(p: Plane, ray: Ray, t_min: int, t_max: int)
    requires
        p.hit_spec(ray, t_min, t_max) is Some,
    ensures
        p.hit_spec(ray, t_min, t_max)->Some_0.normal == (if ray.dir.y < 0 {
            Vec3 { x: 0, y: SCALE, z: 0 }
        } else {
            Vec3 { x: 0, y: -65536i64, z: 0 }
        }),
{
    assert(dot(ray.dir, plane_normal()) == ray.dir.y * SCALE);
}

/// A sphere reports its near root whenever that root lies in the interval
/// (and its point in the world), never the far one.
pub proof fn lemma_sphere_near_root(s: Sphere, ray: Ray, t_min: int, t_max: int)
    requires
        s.wf(),
        ray.wf(),
        -T_INF <= t_min,
        t_max <= T_INF,
        ({
            let (a, b, c) = s.coeffs(ray);
            &&& b * b - 4 * (a * c) >= 0
            &&& t_min <= root(a, b, c, -1) <= t_max
            &&& in_world(ray.at_spec(root(a, b, c, -1)))
        }),
    ensures
        s.hit_spec(ray, t_min, t_max) matches Some(h) && h.t == root(s.coeffs(ray).0, s.coeffs(ray).1, s.coeffs(ray).2, -1),
{
}

/// When an opaque primitive hides the light from the nearest hit, the color
/// seen is the shadow color, whatever the surface's color and normal.
pub proof fn lemma_shadow_color(objs: Seq<Shape>, ray: Ray, light: Light)
    requires
        scene_hit(objs, ray, crate::shading::SHADOW_EPS as int, T_INF as int) matches Some(rec)
            && shadowed(objs, rec.p, light),
    ensures
        ray_color_spec(objs, ray, light) == shadow_color(),
{
}

/// The rays through `(0, 0)` and `(1, 1)` point at the viewport's lower-left
/// corner and at the opposite corner.
pub proof fn lemma_camera_corners(cam: Camera)
    requires
        cam.wf(),
    ensures
        cam.ray_dir(0, 0) == (Vec3 {
            x: (cam.lower_left_corner.x - cam.origin.x) as i64,
            y: (cam.lower_left_corner.y - cam.origin.y) as i64,
            z: (cam.lower_left_corner.z - cam.origin.z) as i64,
        }),
        cam.ray_dir(SCALE as int, SCALE as int) == (Vec3 {
            x: (cam.lower_left_corner.x + cam.horizontal.x + cam.vertical.x - cam.origin.x) as i64,
            y: (cam.lower_left_corner.y + cam.horizontal.y + cam.vertical.y - cam.origin.y) as i64,
            z: (cam.lower_left_corner.z + cam.horizontal.z + cam.vertical.z - cam.origin.z) as i64,
        }),
{
    let s = SCALE as int;
    let h = cam.horizontal;
    let v = cam.vertical;
    vstd::arithmetic::div_mod::lemma_fundamental_div_mod_converse(h.x * s, s, h.x as int, 0);
    vstd::arithmetic::div_mod::lemma_fundamental_div_mod_converse(h.y * s, s, h.y as int, 0);
    vstd::arithmetic::div_mod::lemma_fundamental_div_mod_converse(h.z * s, s, h.z as int, 0);
    vstd::arithmetic::div_mod::lemma_fundamental_div_mod_converse(v.x * s, s, v.x as int, 0);
    vstd::arithmetic::div_mod::lemma_fundamental_div_mod_converse(v.y * s, s, v.y as int, 0);
    vstd::arithmetic::div_mod::lemma_fundamental_div_mod_converse(v.z * s, s, v.z as int, 0);
}

} // verus!
