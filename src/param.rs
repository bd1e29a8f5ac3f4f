//! The scene description: camera placement, light and primitives by kind.
use vstd::prelude::*;
use crate::cube::Cube;
use crate::cylinder::Cylinder;
use crate::hittable_list::Shape;
use crate::light::Light;
use crate::plane::Plane;
use crate::sphere::Sphere;
use crate::vec3::Point3;

verus! {

/// Where the camera stands and what it looks at.
#[derive(Clone, Copy, Debug, PartialEq, Eq, Structural)]
pub struct CameraSetup {
    pub origin: Point3,
    pub look_at: Point3,
}

pub struct Scene {
    pub camera: CameraSetup,
    pub light: Light,
    pub spheres: Vec<Sphere>,
    pub planes: Vec<Plane>,
    pub cubes: Vec<Cube>,
    pub cylinders: Vec<Cylinder>,
}

pub open spec fn spheres_as_shapes(s: Seq<Sphere>) -> Seq<Shape> {
    s.map_values(|x: Sphere| Shape::Sphere(x))
}

pub open spec fn planes_as_shapes(s: Seq<Plane>) -> Seq<Shape> {
    s.map_values(|x: Plane| Shape::Plane(x))
}

pub open spec fn cubes_as_shapes(s: Seq<Cube>) -> Seq<Shape> {
    s.map_values(|x: Cube| Shape::Cube(x))
}

pub open spec fn cylinders_as_shapes(s: Seq<Cylinder>) -> Seq<Shape> {
    s.map_values(|x: Cylinder| Shape::Cylinder(x))
}

impl Scene {
    /// All primitives: spheres, then planes, then boxes, then cylinders, each
    /// kind in its own order.
    pub open spec fn shapes(&self) -> Seq<Shape> {
        spheres_as_shapes(self.spheres@) + planes_as_shapes(self.planes@) + cubes_as_shapes(
            self.cubes@,
        ) + cylinders_as_shapes(self.cylinders@)
    }
}

/// The well-formed primitives of `s`, in order.
pub open spec fn kept(s: Seq<Shape>) -> Seq<Shape>
    decreases s.len(),
{
    if s.len() == 0 {
        Seq::empty()
    } else if s.last().wf() {
        kept(s.drop_last()).push(s.last())
    } else {
        kept(s.drop_last())
    }
}

/// Every primitive that `kept` keeps is well formed.
pub proof fn lemma_kept_wf(s: Seq<Shape>)
    ensures
        forall|i: int| 0 <= i < kept(s).len() ==> (#[trigger] kept(s)[i]).wf(),
    decreases s.len(),
{
    if s.len() > 0 {
        lemma_kept_wf(s.drop_last());
        let k = kept(s.drop_last());
        if s.last().wf() {
            assert forall|i: int| 0 <= i < kept(s).len() implies (#[trigger] kept(s)[i]).wf() by {
                if i < k.len() {
                    assert(kept(s)[i] == k[i]);
                }
            }
        }
    }
}

} // verus!
