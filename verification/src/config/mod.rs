//! Configuration: the panel's stat defaults and limits, the animation asset
//! paths, and when a change on disk calls for a reload.

pub mod loader;
pub mod model;
pub mod watcher;
