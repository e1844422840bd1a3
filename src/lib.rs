//! Sphere-tracing renderer: the integer backbone of the pipeline.
//!
//! The framebuffer layout, the partition of a frame into independent chunks
//! of pixels, the sub-pixel sample grid and the step budget of a marched ray
//! are stated and proved here.
pub mod dispatch;
pub mod frame;
pub mod march;
pub mod materials;
pub mod sampling;
