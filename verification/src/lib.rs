//! A sphere tracer for procedurally defined shapes, in fixed-point
//! arithmetic.
//!
//! Shapes are distance fields: spheres, tori, boxes, two escape-time
//! fractals, and groups that combine fields by union, subtraction and
//! intersection, sharp or smooth. A solver marches rays through the fields of
//! a scene; cameras, lights, shaders, a film and its post-processing turn what
//! the rays find into an image. An animation keeps the values that change
//! with time and hands them out frame by frame; a scene can be built from a
//! description of its objects. Every number is a [`fixed::Fixed`], and every
//! function says exactly what it computes.

pub mod animation;
pub mod blur;
pub mod cameras;
pub mod configuration;
pub mod evaluator;
pub mod film;
pub mod filter;
pub mod fixed;
pub mod fractal;
pub mod helpers;
pub mod light;
pub mod math;
pub mod matrix;
pub mod modifier;
pub mod parameter;
pub mod postprocessor;
pub mod primitive;
pub mod renderers;
pub mod sampler;
pub mod scene;
pub mod setup;
pub mod shader;
pub mod solver;
pub mod transition;
