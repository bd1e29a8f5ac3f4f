//! The result of a successful intersection query, and the front-face rule.
use vstd::prelude::*;
use crate::fixed::{DIR_MAX, SCALE, WORLD};
use crate::ray::Ray;
use crate::vec3::{bounded, unit_color, dot, neg, Color, Point3, Vec3};

verus! {

/// Where a ray met a surface, and what the surface looks like there.
#[derive(Clone, Copy, Debug, PartialEq, Eq, Structural)]
pub struct HitRecord {
    pub t: i64,
    pub p: Point3,
    pub normal: Vec3,
    pub front_face: bool,
    pub color: Color,
}

/// A point inside the world box.
pub open spec fn in_world(p: (int, int, int)) -> bool {
    -WORLD <= p.0 <= WORLD && -WORLD <= p.1 <= WORLD && -WORLD <= p.2 <= WORLD
}

/// Tests that a point lies inside the world box.
pub fn in_world_exec(p: Point3) -> (r: bool)
    ensures
        r == in_world((p.x as int, p.y as int, p.z as int)),
{
    -WORLD <= p.x && p.x <= WORLD && -WORLD <= p.y && p.y <= WORLD && -WORLD <= p.z && p.z <= WORLD
}

/// A point given by its three coordinates, as a vector.
pub open spec fn to_vec(p: (int, int, int)) -> Vec3 {
    Vec3 { x: p.0 as i64, y: p.1 as i64, z: p.2 as i64 }
}

/// The outward normal, flipped when it faces the same way as the ray.
pub open spec fn oriented(dir: Vec3, outward: Vec3) -> Vec3 {
    if dot(dir, outward) < 0 {
        outward
    } else {
        neg(outward)
    }
}

/// The record of a hit at parameter `t` on a surface with this outward
/// normal and color.
pub open spec fn record_at(ray: Ray, t: int, outward: Vec3, color: Color) -> HitRecord {
    HitRecord {
        t: t as i64,
        p: to_vec(ray.at_spec(t)),
        normal: oriented(ray.dir, outward),
        front_face: dot(ray.dir, outward) < 0,
        color,
    }
}

/// What every reported hit satisfies: its parameter lies in the queried
/// interval, its point lies in the world, and its normal opposes the ray.
pub open spec fn valid_hit(rec: HitRecord, ray: Ray, t_min: int, t_max: int) -> bool {
    &&& t_min <= rec.t <= t_max
    &&& in_world((rec.p.x as int, rec.p.y as int, rec.p.z as int))
    &&& dot(rec.normal, ray.dir) <= 0
    &&& bounded(rec.normal, SCALE as int)
    &&& unit_color(rec.color)
}

/// Builds the record of a hit at `t`, orienting the normal against the ray.
pub fn make_record(ray: &Ray, t: i64, p: Point3, outward: Vec3, color: Color) -> (rec: HitRecord)
    requires
        ray.wf(),
        bounded(outward, SCALE as int),
        unit_color(color),
        (p.x as int, p.y as int, p.z as int) == ray.at_spec(t as int),
    ensures
        rec == record_at(*ray, t as int, outward, color),
        dot(rec.normal, ray.dir) <= 0,
        bounded(rec.normal, SCALE as int),
        unit_color(rec.color),
{
    let d = ray.dir;
    proof {
        crate::fixed::lemma_mul_bound(d.x as int, outward.x as int, DIR_MAX as int, SCALE as int);
        crate::fixed::lemma_mul_bound(d.y as int, outward.y as int, DIR_MAX as int, SCALE as int);
        crate::fixed::lemma_mul_bound(d.z as int, outward.z as int, DIR_MAX as int, SCALE as int);
    }
    let dd: i128 = d.x as i128 * outward.x as i128 + d.y as i128 * outward.y as i128 + d.z as i128
        * outward.z as i128;
    let front_face = dd < 0;
    let normal = if front_face {
        outward
    } else {
        Vec3 { x: -outward.x, y: -outward.y, z: -outward.z }
    };
    proof {
        assert(dot(normal, d) <= 0) by (nonlinear_arith)
            requires
                dd == dot(d, outward),
                front_face == (dd < 0),
                front_face ==> normal == outward,
                !front_face ==> (normal.x == -outward.x && normal.y == -outward.y && normal.z
                    == -outward.z),
        ;
    }
    HitRecord { t, p, normal, front_face, color }
}

} // verus!
