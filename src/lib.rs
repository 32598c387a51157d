//! Operation planning and execution for a small raster image tool: geometry
//! resolution, gravity anchoring, alpha compositing and the ordered plan of
//! transforms applied to one in-memory image.

pub mod error;
pub mod gravity;
pub mod geometry;
pub mod image;
pub mod composite;
pub mod transform;
pub mod operations;
pub mod label;
pub mod args;
