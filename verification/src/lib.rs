//! Core logic of a desktop pet: animation asset selection, configuration
//! merging, input-region computation, window placement and save-file layout.

pub mod animation;
pub mod config;
pub mod interaction;
pub mod stats;
pub mod text;
pub mod window;
