//! Animation frames of the pet.

pub mod assets;
