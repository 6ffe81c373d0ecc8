//! A small ray-tracing core: a camera casts rays through a pixel grid into a
//! scene of spheres and triangles, and each pixel resolves to the color of
//! the nearest hit.
//!
//! All geometry is computed over an exact scalar type — fractions of machine
//! integers ([`rat`]) — so every contract states precisely what each function
//! returns.  [`vector`] and [`quaternion`] carry the linear algebra and the
//! rotation sandwich product, [`camera`] derives view rays from centered
//! pixel coordinates, [`scene`] holds the primitives and resolves the
//! nearest hit, [`color`] packs colors, and [`laws`] proves the algebraic
//! laws the rotation pipeline obeys.

pub mod rat;
pub mod vector;
pub mod quaternion;
pub mod color;
pub mod scene;
pub mod camera;
pub mod laws;
