//! A terminal 3D shape renderer over fixed-point arithmetic.
//!
//! The crate generates the point cloud and surface normals of a parametric
//! solid (a torus or a cube), rotates it frame by frame, projects it onto a
//! character grid with a perspective transform, shades each visible point with
//! a Lambertian-like heuristic, and resolves overlaps through a depth buffer.
//! All geometry is carried in signed 64-bit fixed-point numbers with 2^20
//! fractional scaling, so every step of the pipeline is exact integer
//! arithmetic with a full functional contract.

pub mod fixed;
pub mod render;
pub mod rot;
pub mod shape;
pub mod trig;
pub mod vec3;
