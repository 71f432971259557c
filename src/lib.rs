//! A generative display pipeline for a low-resolution RGB matrix: a frame
//! buffer, compositing filters, procedural scenes, frame pacing, and the
//! decisions of the ambient-light monitor and of the render loop.

pub mod canvas;
pub mod compositor;
pub mod director;
pub mod frame;
pub mod monitor;
pub mod plasma;
pub mod random;
pub mod sand;
pub mod wave;
