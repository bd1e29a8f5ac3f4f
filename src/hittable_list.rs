//! Primitives of every kind, and the scene that finds the nearest hit.
use vstd::prelude::*;
use crate::cube::Cube;
use crate::cylinder::Cylinder;
use crate::fixed::T_INF;
use crate::hittable::{valid_hit, HitRecord};
use crate::param::{cubes_as_shapes, cylinders_as_shapes, kept, lemma_kept_wf, planes_as_shapes, spheres_as_shapes, Scene};
use crate::plane::Plane;
use crate::ray::Ray;
use crate::sphere::Sphere;

verus! {

/// A geometric primitive.
#[derive(Clone, Copy, Debug, PartialEq, Eq, Structural)]
pub enum Shape {
    Sphere(Sphere),
    Plane(Plane),
    Cube(Cube),
    Cylinder(Cylinder),
}

impl Shape {
    pub open spec fn wf(&self) -> bool {
        match self {
            Shape::Sphere(s) => s.wf(),
            Shape::Plane(s) => s.wf(),
            Shape::Cube(s) => s.wf(),
            Shape::Cylinder(s) => s.wf(),
        }
    }

    /// Tests `wf`.
    pub fn is_valid(&self) -> (r: bool)
        ensures
            r == self.wf(),
    {
        match self {
            Shape::Sphere(s) => s.is_valid(),
            Shape::Plane(s) => s.is_valid(),
            Shape::Cube(s) => s.is_valid(),
            Shape::Cylinder(s) => s.is_valid(),
        }
    }

    pub open spec fn hit_spec(&self, ray: Ray, t_min: int, t_max: int) -> Option<HitRecord> {
        match self {
            Shape::Sphere(s) => s.hit_spec(ray, t_min, t_max),
            Shape::Plane(s) => s.hit_spec(ray, t_min, t_max),
            Shape::Cube(s) => s.hit_spec(ray, t_min, t_max),
            Shape::Cylinder(s) => s.hit_spec(ray, t_min, t_max),
        }
    }

    /// This primitive's own closest hit in `[t_min, t_max]`; none for a
    /// malformed primitive.
    pub fn hit(&self, ray: &Ray, t_min: i64, t_max: i64) -> (r: Option<HitRecord>)
        requires
            ray.wf(),
            -T_INF <= t_min,
            t_max <= T_INF,
        ensures
            self.wf() ==> r == self.hit_spec(*ray, t_min as int, t_max as int),
            !self.wf() ==> r is None,
            r matches Some(rec) ==> valid_hit(rec, *ray, t_min as int, t_max as int),
    {
        match self {
            Shape::Sphere(s) => s.hit(ray, t_min, t_max),
            Shape::Plane(s) => s.hit(ray, t_min, t_max),
            Shape::Cube(s) => s.hit(ray, t_min, t_max),
            Shape::Cylinder(s) => s.hit(ray, t_min, t_max),
        }
    }
}

/// The result of scanning `objs` in order: each primitive is queried with the
/// interval closed at the nearest hit so far, and replaces it when it hits.
pub open spec fn scene_hit(objs: Seq<Shape>, ray: Ray, t_min: int, t_max: int) -> Option<HitRecord>
    decreases objs.len(),
{
    if objs.len() == 0 {
        None
    } else {
        let prev = scene_hit(objs.drop_last(), ray, t_min, t_max);
        let closest = match prev {
            Some(r) => r.t as int,
            None => t_max,
        };
        match objs.last().hit_spec(ray, t_min, closest) {
            Some(r) => Some(r),
            None => prev,
        }
    }
}

proof fn lemma_kept_len(s: Seq<Shape>)
    ensures
        kept(s).len() <= s.len(),
    decreases s.len(),
{
    if s.len() > 0 {
        lemma_kept_len(s.drop_last());
    }
}

/// An ordered collection of primitives.
pub struct HittableList {
    pub objects: Vec<Shape>,
}

impl HittableList {
    pub open spec fn wf(&self) -> bool {
        forall|i: int| 0 <= i < self.objects@.len() ==> (#[trigger] self.objects@[i]).wf()
    }

    pub fn new() -> (r: HittableList)
        ensures
            r.objects@ == Seq::<Shape>::empty(),
    {
        HittableList { objects: Vec::new() }
    }

    pub fn add(&mut self, object: Shape)
        ensures
            final(self).objects@ == old(self).objects@.push(object),
    {
        self.objects.push(object);
    }

    /// Adds the scene's well-formed primitives (spheres, planes, boxes, then
    /// cylinders); a malformed one is left out, as it could never be hit.
    pub fn set_scene(&mut self, scene: Scene)
        requires
            old(self).wf(),
            old(self).objects@.len() + scene.shapes().len() <= usize::MAX,
        ensures
            final(self).wf(),
            final(self).objects@ == old(self).objects@ + kept(scene.shapes()),
    {
        let mut all: Vec<Shape> = Vec::new();
        let mut i: usize = 0;
        while i < scene.spheres.len()
            invariant
                0 <= i <= scene.spheres@.len(),
                all@ == spheres_as_shapes(scene.spheres@.take(i as int)),
            decreases scene.spheres@.len() - i,
        {
            all.push(Shape::Sphere(scene.spheres[i]));
            i += 1;
            assert(all@ =~= spheres_as_shapes(scene.spheres@.take(i as int)));
        }
        assert(scene.spheres@.take(i as int) =~= scene.spheres@);
        let ghost base = all@;
        i = 0;
        while i < scene.planes.len()
            invariant
                0 <= i <= scene.planes@.len(),
                all@ == base + planes_as_shapes(scene.planes@.take(i as int)),
            decreases scene.planes@.len() - i,
        {
            all.push(Shape::Plane(scene.planes[i]));
            i += 1;
            assert(all@ =~= base + planes_as_shapes(scene.planes@.take(i as int)));
        }
        assert(scene.planes@.take(i as int) =~= scene.planes@);
        let ghost base = all@;
        i = 0;
        while i < scene.cubes.len()
            invariant
                0 <= i <= scene.cubes@.len(),
                all@ == base + cubes_as_shapes(scene.cubes@.take(i as int)),
            decreases scene.cubes@.len() - i,
        {
            all.push(Shape::Cube(scene.cubes[i]));
            i += 1;
            assert(all@ =~= base + cubes_as_shapes(scene.cubes@.take(i as int)));
        }
        assert(scene.cubes@.take(i as int) =~= scene.cubes@);
        let ghost base = all@;
        i = 0;
        while i < scene.cylinders.len()
            invariant
                0 <= i <= scene.cylinders@.len(),
                all@ == base + cylinders_as_shapes(scene.cylinders@.take(i as int)),
            decreases scene.cylinders@.len() - i,
        {
            all.push(Shape::Cylinder(scene.cylinders[i]));
            i += 1;
            assert(all@ =~= base + cylinders_as_shapes(scene.cylinders@.take(i as int)));
        }
        assert(scene.cylinders@.take(i as int) =~= scene.cylinders@);
        assert(all@ =~= scene.shapes());
        let ghost start = self.objects@;
        let mut j: usize = 0;
        while j < all.len()
            invariant
                0 <= j <= all@.len(),
                all@ == scene.shapes(),
                start.len() + all@.len() <= usize::MAX,
                self.objects@ == start + kept(all@.take(j as int)),
                self.wf(),
                forall|k: int| 0 <= k < start.len() ==> (#[trigger] start[k]).wf(),
            decreases all@.len() - j,
        {
            assert(all@.take(j + 1).drop_last() =~= all@.take(j as int));
            proof {
                lemma_kept_len(all@.take(j as int));
            }
            if all[j].is_valid() {
                self.add(all[j]);
            }
            j += 1;
            proof {
                lemma_kept_wf(all@.take(j as int));
            }
            assert forall|k: int| 0 <= k < self.objects@.len() implies (#[trigger] self.objects@[k]).wf() by {
                if k >= start.len() {
                    assert(self.objects@[k] == kept(all@.take(j as int))[k - start.len()]);
                }
            }
        }
        assert(all@.take(j as int) =~= all@);
    }

    /// The nearest hit over all primitives in `[t_min, t_max]`.
    pub fn hit(&self, ray: &Ray, t_min: i64, t_max: i64) -> (r: Option<HitRecord>)
        requires
            self.wf(),
            ray.wf(),
            -T_INF <= t_min,
            t_max <= T_INF,
        ensures
            r == scene_hit(self.objects@, *ray, t_min as int, t_max as int),
            r matches Some(rec) ==> valid_hit(rec, *ray, t_min as int, t_max as int),
    {
        let mut best: Option<HitRecord> = None;
        let mut closest: i64 = t_max;
        let n = self.objects.len();
        let mut i: usize = 0;
        while i < n
            invariant
                self.wf(),
                ray.wf(),
                -T_INF <= t_min,
                t_max <= T_INF,
                n == self.objects@.len(),
                0 <= i <= n,
                best == scene_hit(self.objects@.take(i as int), *ray, t_min as int, t_max as int),
                closest == match best {
                    Some(rec) => rec.t,
                    None => t_max,
                },
                best matches Some(rec) ==> valid_hit(rec, *ray, t_min as int, t_max as int),
            decreases n - i,
        {
            assert(self.objects@.take(i + 1).drop_last() == self.objects@.take(i as int));
            assert(self.objects@.take(i + 1).last() == self.objects@[i as int]);
            match self.objects[i].hit(ray, t_min, closest) {
                Some(rec) => {
                    closest = rec.t;
                    best = Some(rec);
                },
                None => {},
            }
            i += 1;
        }
        assert(self.objects@.take(n as int) == self.objects@);
        best
    }
}

} // verus!
