//! Selection of animation frame files from the asset directories.

pub mod common;
pub mod default_idle;
pub mod drag_raise;
pub mod listing;
pub mod path_order;
pub mod pinch;
pub mod shutdown;
pub mod startup;
