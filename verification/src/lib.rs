//! The decision core of an offline ray tracer.
//!
//! Vector arithmetic is floating point and is done by the caller. What is
//! decided from its results lives here: which solve of the ray/triangle
//! system counts as a hit, which hit is nearest, what a texture holds at a
//! pixel, when a ray passes through a cutout, which light terms enter the
//! shading sum, and how the image plane is cut into tiles.
pub mod scalar;
pub mod raster;
pub mod material;
pub mod renderer;
pub mod triangle;
pub mod intersection;
pub mod tiles;
pub mod scene;
pub mod canvas;
pub mod mesh;
