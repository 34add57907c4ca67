//! A handle-stable, visibility-partitioned instance registry for instanced
//! rendering, the growth policy of the device buffers that mirror it, and
//! the subdivision of its geometry.
//!
//! The library decides; the device work that follows from its decisions
//! (allocating, copying, recording commands) is the caller's.

pub mod buffers;
pub mod laws;
pub mod model;
pub mod refinement;
pub mod registry;
pub mod utils;
