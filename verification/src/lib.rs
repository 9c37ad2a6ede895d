//! A drawing automation engine: it turns a raster image into strokes, lays the
//! strokes out as a timed sequence of pointer actions inside a screen region,
//! and steps through that sequence under start, pause, resume and stop control.

pub mod actuator;
pub mod engine;
pub mod error;
pub mod geometry;
pub mod pen;
pub mod playback;
pub mod raster;
pub mod schedule;
pub mod scheduler;
pub mod vectorizer;
