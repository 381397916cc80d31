//! Pet state that the library decides on.

pub mod model;
pub mod save;
