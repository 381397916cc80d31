//! Placement of the pet window on its monitor.

pub mod position;
