//! A ray tracer over fixed-point geometry: ray/primitive intersection, the
//! nearest hit over a scene, a camera, and direct lighting with hard shadows.
pub mod fixed;
pub mod vec3;
pub mod ray;
pub mod hittable;
pub mod plane;
pub mod cube;
pub mod quadratic;
pub mod sphere;
pub mod cylinder;
pub mod hittable_list;
pub mod light;
pub mod shading;
pub mod output;
pub mod color;
pub mod camera;
pub mod param;
pub mod laws;
pub mod sampling;
