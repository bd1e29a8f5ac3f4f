//! A bounded rectangle in a horizontal plane.
use vstd::prelude::*;
use crate::fixed::{floor_div, SCALE, T_INF, WORLD};
use crate::hittable::{in_world, make_record, record_at, valid_hit, HitRecord};
use crate::ray::Ray;
use crate::vec3::{valid_color, valid_point, bounded, unit_color, Color, Point3, Vec3};

verus! {

/// The rectangle `[origine.x, origine.x + width] x [origine.z, origine.z + height]`
/// at height `origine.y`, facing up.
#[derive(Clone, Copy, Debug, PartialEq, Eq, Structural)]
pub struct Plane {
    pub origine: Point3,
    pub width: i32,
    pub height: i32,
    pub color: Color,
}

/// How far (raw units) the computed crossing point may lie from the plane's
/// height; see `lemma_crossing`.
pub const PLANE_MARGIN: i64 = 4096;

/// The plane's fixed outward normal, `(0, 1, 0)`.
pub open spec fn plane_normal() -> Vec3 {
    Vec3 { x: 0, y: SCALE, z: 0 }
}

impl Plane {
    /// The whole rectangle lies in the world, with room on its height for the
    /// rounding of the crossing point (`PLANE_MARGIN`), and the color is in range.
    pub open spec fn wf(&self) -> bool {
        &&& bounded(self.origine, WORLD as int)
        &&& -(WORLD - PLANE_MARGIN) <= self.origine.y <= WORLD - PLANE_MARGIN
        &&& 0 <= self.width
        &&& 0 <= self.height
        &&& self.origine.x + self.width * SCALE <= WORLD
        &&& self.origine.z + self.height * SCALE <= WORLD
        &&& unit_color(self.color)
    }

    /// Parameter at which the ray crosses the plane's height.
    pub open spec fn t_spec(&self, ray: Ray) -> int {
        floor_div((self.origine.y - ray.orig.y) * SCALE, ray.dir.y as int)
    }

    /// The ray meets the rectangle within `[t_min, t_max]`.
    pub open spec fn hits(&self, ray: Ray, t_min: int, t_max: int) -> bool {
        let t = self.t_spec(ray);
        let p = ray.at_spec(t);
        &&& ray.dir.y != 0
        &&& t_min <= t <= t_max
        &&& 0 <= p.0 - self.origine.x <= self.width * SCALE
        &&& 0 <= p.2 - self.origine.z <= self.height * SCALE
    }

    pub open spec fn hit_spec(&self, ray: Ray, t_min: int, t_max: int) -> Option<HitRecord> {
        if self.hits(ray, t_min, t_max) {
            Some(record_at(ray, self.t_spec(ray), plane_normal(), self.color))
        } else {
            None
        }
    }

    /// Tests `wf`.
    pub fn is_valid(&self) -> (r: bool)
        ensures
            r == self.wf(),
    {
        let o = self.origine;
        valid_point(o) && -(WORLD - PLANE_MARGIN) <= o.y && o.y <= WORLD - PLANE_MARGIN && 0
            <= self.width && 0 <= self.height && o.x as i128 + self.width as i128 * SCALE as i128
            <= WORLD as i128 && o.z as i128 + self.height as i128 * SCALE as i128 <= WORLD as i128
            && valid_color(self.color)
    }

    pub fn new(origine: Point3, width: i32, height: i32, color: Color) -> (r: Plane)
        ensures
            r == (Plane { origine, width, height, color }),
    {
        Plane { origine, width, height, color }
    }

    /// A malformed plane is never hit.
    pub fn hit(&self, ray: &Ray, t_min: i64, t_max: i64) -> (r: Option<HitRecord>)
        requires
            ray.wf(),
            -T_INF <= t_min,
            t_max <= T_INF,
        ensures
            self.wf() ==> r == self.hit_spec(*ray, t_min as int, t_max as int),
            !self.wf() ==> r is None,
            r matches Some(rec) ==> valid_hit(rec, *ray, t_min as int, t_max as int),
    {
        if !self.is_valid() {
            return None;
        }
        let normal = Vec3 { x: 0, y: SCALE, z: 0 };
        if ray.dir.y == 0 {
            return None;
        }
        proof {
            crate::fixed::lemma_mul_bound(self.origine.y - ray.orig.y, SCALE as int, 2 * WORLD, SCALE as int);
        }
        let num: i128 = (self.origine.y as i128 - ray.orig.y as i128) * SCALE as i128;
        let t128: i128 = crate::fixed::div_floor(num, ray.dir.y as i128);
        if t128 < t_min as i128 || t128 > t_max as i128 {
            return None;
        }
        let t = t128 as i64;
        let p = ray.at(t);
        let lx: i128 = p.x as i128 - self.origine.x as i128;
        let lz: i128 = p.z as i128 - self.origine.z as i128;
        if lx < 0 || lx > self.width as i128 * SCALE as i128 || lz < 0 || lz > self.height as i128
            * SCALE as i128 {
            return None;
        }
        proof {
            crate::ray::lemma_crossing(ray.dir.y as int, self.origine.y - ray.orig.y);
        }
        assert(in_world((p.x as int, p.y as int, p.z as int)));
        Some(make_record(ray, t, p, normal, self.color))
    }
}

} // verus!
