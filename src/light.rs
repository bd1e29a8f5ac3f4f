//! The single point light.
use vstd::prelude::*;
use crate::fixed::WORLD;
use crate::vec3::{valid_color, valid_point, bounded, unit_color, Color, Point3};

verus! {

/// Largest light intensity (fixed-point): `1024.0`.
pub const INTENSITY_MAX: i64 = 67108864;

#[derive(Clone, Copy, Debug, PartialEq, Eq, Structural)]
pub struct Light {
    pub position: Point3,
    pub color: Color,
    pub intensity: i64,
}

impl Light {
    pub open spec fn wf(&self) -> bool {
        bounded(self.position, WORLD as int) && unit_color(self.color) && 0 <= self.intensity
            <= INTENSITY_MAX
    }

    /// Tests `wf`.
    pub fn is_valid(&self) -> (r: bool)
        ensures
            r == self.wf(),
    {
        valid_point(self.position) && valid_color(self.color) && 0 <= self.intensity
            && self.intensity <= INTENSITY_MAX
    }

    pub fn new(position: Point3, color: Color, intensity: i64) -> (r: Light)
        ensures
            r == (Light { position, color, intensity }),
    {
        Light { position, color, intensity }
    }
}

} // verus!
