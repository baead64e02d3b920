//! A software 3D-to-2D projection and visible-surface pipeline on 16.16
//! fixed-point scalars: vectors, 3x3 matrices, a viewport clipper, a camera that
//! projects triangles by solving a 3x3 system, and a painter's depth sort.

pub mod camera;
pub mod clipper;
pub mod fixed;
pub mod loader;
pub mod matrix3x3;
pub mod matrix4x4;
pub mod mesh;
pub mod painter;
pub mod scene;
pub mod single;
pub mod text;
pub mod triangle;
pub mod vec3d;
