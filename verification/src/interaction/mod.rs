//! Pointer input handling.

pub mod input_region;
