//! The pet's mood modes.

use vstd::prelude::*;

verus! {

/// The mood mode in which the pet is drawn.
#[derive(Clone, Copy, Debug, PartialEq, Eq, Structural)]
pub enum PetMode {
    Happy,
    Nomal,
    PoorCondition,
    Ill,
}

} // verus!
