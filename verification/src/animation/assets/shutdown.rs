//! Frames of the shutdown animation.

use vstd::prelude::*;

use crate::animation::assets::common::{collect_usable_variants, dir_views, file_lists, usable_variants, AssetDir};

verus! {

/// Frame variants of the shutdown animation: every usable directory among
/// the shutdown variant directories of the pet's mode, in listing order.
pub fn collect_shutdown_variants(mode_variant_dirs: &[AssetDir]) -> (r: Vec<Vec<String>>)
    ensures
        file_lists(r@) == usable_variants(dir_views(mode_variant_dirs@)),
{
    collect_usable_variants(mode_variant_dirs)
}

} // verus!
