//! The rendering engine: numbers, vectors, rays, primitives, scene and camera.

pub mod camera;
pub mod color;
pub mod hittable;
pub mod hittable_list;
pub mod interval;
pub mod ray;
pub mod scalar;
pub mod sphere;
pub mod utils;
pub mod vec3;
