//! Frames of the start-up animation.

use vstd::prelude::*;

use crate::animation::assets::common::{
    collect_usable_variants,
    dir_views,
    filter_dirs,
    filter_dirs_exec,
    picked_variant,
    pseudo_random_index,
    take_variant,
    usable_variants,
    AssetDir,
    AssetDirView,
    DirFilter,
    DirRule,
};
use crate::animation::assets::common::{keeps, lemma_filter_dirs, lemma_usable_variants};
use crate::stats::model::PetMode;

verus! {

/// The start-up variants of a mode: the usable directories whose name
/// belongs to the mode (for the happy mode also the one named `26new`).
pub open spec fn startup_variants(dirs: Seq<AssetDirView>, mode: PetMode) -> Seq<Seq<String>> {
    usable_variants(filter_dirs(dirs, DirRule::Startup(mode)))
}

/// The start-up frames picked by `choice`: none when the start-up directory
/// could not be listed or holds no variant of the mode, else the variant at
/// index `choice` modulo their number.
pub open spec fn startup_pick(listing: Option<Seq<AssetDirView>>, mode: PetMode, choice: int) -> Option<
    Seq<String>,
> {
    match listing {
        None => None,
        Some(dirs) => {
            let v = startup_variants(dirs, mode);
            if v.len() == 0 {
                None
            } else {
                Some(picked_variant(v, choice))
            }
        },
    }
}

/// The value of an optional directory listing.
pub open spec fn listing_view(listing: Option<Vec<AssetDir>>) -> Option<Seq<AssetDirView>> {
    match listing {
        None => None,
        Some(d) => Some(dir_views(d@)),
    }
}

/// The value of an optional frame list.
pub open spec fn frames_view(frames: Option<Vec<String>>) -> Option<Seq<String>> {
    match frames {
        None => None,
        Some(f) => Some(f@),
    }
}

/// The start-up frames for a mode, with the variant picked by `choice`.
pub fn choose_startup_files_with(startup_dirs: Option<Vec<AssetDir>>, mode: PetMode, choice: usize) -> (r:
    Option<Vec<String>>)
    ensures
        frames_view(r) == startup_pick(listing_view(startup_dirs), mode, choice as int),
{
    let dirs = match startup_dirs {
        None => {
            return None;
        },
        Some(d) => d,
    };
    let mode_dirs = filter_dirs_exec(dirs.as_slice(), &DirFilter::Startup(mode));
    if mode_dirs.len() == 0 {
        assert(usable_variants(dir_views(mode_dirs@)) =~= Seq::<Seq<String>>::empty());
        return None;
    }
    let variants = collect_usable_variants(mode_dirs.as_slice());
    if variants.len() == 0 {
        return None;
    }
    Some(take_variant(variants, choice))
}

/// The start-up frames for a mode, one of its variants drawn at random;
/// none when the start-up directory could not be listed or holds no usable
/// variant of the mode.
pub fn choose_startup_animation_files(startup_dirs: Option<Vec<AssetDir>>, mode: PetMode) -> (r: Option<
    Vec<String>,
>)
    ensures
        exists|choice: int| 0 <= choice && frames_view(r) == startup_pick(listing_view(startup_dirs), mode, choice),
{
    let count = match &startup_dirs {
        None => 0,
        Some(d) => {
            let mode_dirs = filter_dirs_exec(d.as_slice(), &DirFilter::Startup(mode));
            collect_usable_variants(mode_dirs.as_slice()).len()
        },
    };
    let choice = if count > 0 {
        pseudo_random_index(count)
    } else {
        0
    };
    let r = choose_startup_files_with(startup_dirs, mode, choice);
    assert(frames_view(r) == startup_pick(listing_view(startup_dirs), mode, choice as int));
    r
}

/// Start-up frames are picked only when the start-up directory was listed
/// and holds a usable variant of the mode; what is picked is never empty and
/// is the frame list of a listed directory that the start-up rule of the
/// mode keeps.
pub proof fn lemma_startup_pick(listing: Option<Seq<AssetDirView>>, mode: PetMode, choice: int)
    requires
        0 <= choice,
    ensures
        startup_pick(listing, mode, choice) is Some <==> (listing matches Some(d) && startup_variants(d, mode).len()
            > 0),
        startup_pick(listing, mode, choice) matches Some(f) ==> f.len() > 0 && exists|i: int|
            0 <= i < listing->0.len() && keeps(DirRule::Startup(mode), #[trigger] listing->0[i].name)
                && listing->0[i].png_files == Ok::<Seq<String>, Seq<char>>(f),
{
    if let Some(dirs) = listing {
        let kept = filter_dirs(dirs, DirRule::Startup(mode));
        let v = startup_variants(dirs, mode);
        lemma_filter_dirs(dirs, DirRule::Startup(mode));
        lemma_usable_variants(kept);
        if v.len() > 0 {
            let k = choice % (v.len() as int);
            let f = v[k];
            assert(f.len() > 0);
            let j = choose|j: int| 0 <= j < kept.len() && kept[j].png_files == Ok::<Seq<String>, Seq<char>>(#[trigger] v[k]);
            assert(keeps(DirRule::Startup(mode), kept[j].name));
            assert(dirs.contains(kept[j]));
            let i = choose|i: int| 0 <= i < dirs.len() && dirs[i] == kept[j];
            assert(keeps(DirRule::Startup(mode), dirs[i].name));
        }
    }
}

} // verus!
