//! A small ray tracer in fixed-point arithmetic: one red sphere before a sky
//! that fades from white to blue, seen through a 16 by 9 viewport.
//!
//! Numbers are counted in millionths (`scalar`), vectors have three such
//! components (`vec3`), and every function states what it computes over
//! mathematical integers, so that an image is fixed to the last bit.

pub mod algebra;
pub mod color;
pub mod ppm;
pub mod ray;
pub mod render;
pub mod scalar;
pub mod scene;
pub mod text;
pub mod vec3;

pub use crate::color::{Color, Point3};
pub use crate::ray::Ray;
pub use crate::render::draw;
pub use crate::scene::{hit_sphere, ray_color};
pub use crate::vec3::{cross, dot, Vec3};
