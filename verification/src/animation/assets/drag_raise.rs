//! Frames of the animation played while the pet is lifted by a drag: the
//! start stage (`A_` directories), the held stage (`B_`) and the end stage
//! (`C_`) of the static raise assets.

use vstd::prelude::*;

use crate::animation::assets::common::{
    lemma_filter_dirs,
    lemma_first_usable,
    name_matches_mode,
    utf8,
    collect_usable_variants,
    dir_views,
    file_lists,
    filter_dirs,
    filter_dirs_exec,
    keeps,
    usable_variants,
    AssetDir,
    AssetDirView,
    DirFilter,
    DirRule,
};
use crate::stats::model::PetMode;
use crate::text::starts_with_ignore_case;

verus! {

/// The directory-name prefix of a raise stage: the stage letter and `_`.
pub open spec fn raise_prefix(stage: u8) -> Seq<u8> {
    seq![stage, 95u8]
}

/// The stage letter of the start stage, `a`.
pub open spec fn stage_a() -> u8 {
    97u8
}

/// The stage letter of the held stage, `b`.
pub open spec fn stage_b() -> u8 {
    98u8
}

/// The stage letter of the end stage, `c`.
pub open spec fn stage_c() -> u8 {
    99u8
}

/// The raise directories of a stage for a mode: those of the mode itself;
/// when there are none, those of the normal mode (only if `try_nomal`); when
/// there are still none, those of the happy mode.
pub open spec fn raise_stage_dirs(
    dirs: Seq<AssetDirView>,
    prefix: Seq<u8>,
    mode: PetMode,
    try_nomal: bool,
) -> Seq<AssetDirView> {
    let own = filter_dirs(dirs, DirRule::PrefixMode(prefix, mode));
    let second = if own.len() == 0 && try_nomal && mode != PetMode::Nomal {
        filter_dirs(dirs, DirRule::PrefixMode(prefix, PetMode::Nomal))
    } else {
        own
    };
    if second.len() == 0 && mode != PetMode::Happy {
        filter_dirs(dirs, DirRule::PrefixMode(prefix, PetMode::Happy))
    } else {
        second
    }
}

/// The first frame list, or no frame when there is none.
pub open spec fn first_or_empty(v: Seq<Seq<String>>) -> Seq<String> {
    if v.len() > 0 {
        v[0]
    } else {
        Seq::empty()
    }
}

/// The raise directories of a stage for a mode, with the fallbacks of
/// `raise_stage_dirs`.
fn raise_stage_dirs_exec(dirs: &[AssetDir], stage: u8, mode: PetMode, try_nomal: bool) -> (r: Vec<AssetDir>)
    ensures
        dir_views(r@) == raise_stage_dirs(dir_views(dirs@), raise_prefix(stage), mode, try_nomal),
{
    let prefix: Vec<u8> = vec![stage, 95u8];
    assert(prefix@ =~= raise_prefix(stage));
    let mut mode_dirs = filter_dirs_exec(dirs, &DirFilter::PrefixMode(prefix.clone(), mode));
    if mode_dirs.len() == 0 && try_nomal && mode != PetMode::Nomal {
        mode_dirs = filter_dirs_exec(dirs, &DirFilter::PrefixMode(prefix.clone(), PetMode::Nomal));
    }
    if mode_dirs.len() == 0 && mode != PetMode::Happy {
        mode_dirs = filter_dirs_exec(dirs, &DirFilter::PrefixMode(prefix, PetMode::Happy));
    }
    mode_dirs
}

/// Frames of the start stage: the first usable `A_` directory of the mode
/// (falling back to the normal, then the happy mode), or no frame.
pub fn collect_drag_raise_start_files(raise_static_dirs: &[AssetDir], mode: PetMode) -> (r: Vec<String>)
    ensures
        r@ == first_or_empty(
            usable_variants(raise_stage_dirs(dir_views(raise_static_dirs@), raise_prefix(stage_a()), mode, true)),
        ),
{
    let mode_dirs = raise_stage_dirs_exec(raise_static_dirs, 97u8, mode, true);
    let mut variants = collect_usable_variants(mode_dirs.as_slice());
    if variants.len() > 0 {
        variants.swap_remove(0)
    } else {
        Vec::new()
    }
}

/// Frame variants of the held stage: every usable `B_` directory of the
/// mode (falling back to the normal, then the happy mode).
pub fn collect_drag_raise_static_b_variants(raise_static_dirs: &[AssetDir], mode: PetMode) -> (r: Vec<
    Vec<String>,
>)
    ensures
        file_lists(r@) == usable_variants(
            raise_stage_dirs(dir_views(raise_static_dirs@), raise_prefix(stage_b()), mode, true),
        ),
{
    let mode_dirs = raise_stage_dirs_exec(raise_static_dirs, 98u8, mode, true);
    collect_usable_variants(mode_dirs.as_slice())
}

/// Frame variants of the end stage: every usable `C_` directory of the mode
/// (falling back to the happy mode only).
pub fn collect_drag_raise_end_variants(raise_static_dirs: &[AssetDir], mode: PetMode) -> (r: Vec<
    Vec<String>,
>)
    ensures
        file_lists(r@) == usable_variants(
            raise_stage_dirs(dir_views(raise_static_dirs@), raise_prefix(stage_c()), mode, false),
        ),
{
    let mode_dirs = raise_stage_dirs_exec(raise_static_dirs, 99u8, mode, false);
    collect_usable_variants(mode_dirs.as_slice())
}

/// The mode whose raise directories are used for a stage: the pet's own
/// mode when it has one for the stage; else the normal mode, when it is
/// tried and has one; else the happy mode.
pub open spec fn raise_mode(dirs: Seq<AssetDirView>, prefix: Seq<u8>, mode: PetMode, try_nomal: bool) -> PetMode {
    if filter_dirs(dirs, DirRule::PrefixMode(prefix, mode)).len() > 0 {
        mode
    } else if try_nomal && mode != PetMode::Nomal && filter_dirs(
        dirs,
        DirRule::PrefixMode(prefix, PetMode::Nomal),
    ).len() > 0 {
        PetMode::Nomal
    } else {
        PetMode::Happy
    }
}

/// The raise directories of a stage all carry the stage prefix and all
/// belong to one mode: the pet's own mode whenever it has a directory for
/// the stage; otherwise the normal mode (when it is tried) or the happy mode.
/// No directory is used only when neither the pet's mode, nor the modes
/// tried after it, have a directory for the stage.
pub proof fn lemma_raise_stage_dirs(dirs: Seq<AssetDirView>, prefix: Seq<u8>, mode: PetMode, try_nomal: bool)
    ensures
        ({
            let r = raise_stage_dirs(dirs, prefix, mode, try_nomal);
            let own = filter_dirs(dirs, DirRule::PrefixMode(prefix, mode));
            &&& own.len() > 0 ==> r == own
            &&& forall|k: int|
                0 <= k < r.len() ==> starts_with_ignore_case(utf8(#[trigger] r[k].name), prefix) && dirs.contains(
                    r[k],
                )
            &&& forall|k: int|
                0 <= k < r.len() ==> name_matches_mode(
                    utf8(#[trigger] r[k].name),
                    raise_mode(dirs, prefix, mode, try_nomal),
                )
            &&& r.len() == 0 ==> forall|i: int|
                0 <= i < dirs.len() ==> !keeps(DirRule::PrefixMode(prefix, mode), #[trigger] dirs[i].name)
        }),
{
    let own = filter_dirs(dirs, DirRule::PrefixMode(prefix, mode));
    let nom = filter_dirs(dirs, DirRule::PrefixMode(prefix, PetMode::Nomal));
    let hap = filter_dirs(dirs, DirRule::PrefixMode(prefix, PetMode::Happy));
    lemma_filter_dirs(dirs, DirRule::PrefixMode(prefix, mode));
    lemma_filter_dirs(dirs, DirRule::PrefixMode(prefix, PetMode::Nomal));
    lemma_filter_dirs(dirs, DirRule::PrefixMode(prefix, PetMode::Happy));
    let r = raise_stage_dirs(dirs, prefix, mode, try_nomal);
    let second = if own.len() == 0 && try_nomal && mode != PetMode::Nomal { nom } else { own };
    let m = raise_mode(dirs, prefix, mode, try_nomal);
    assert(r == own || r == nom || r == hap);
    assert forall|k: int| 0 <= k < r.len() implies name_matches_mode(utf8(#[trigger] r[k].name), m) by {
        if r == own && own.len() > 0 {
            assert(keeps(DirRule::PrefixMode(prefix, mode), own[k].name));
        } else if r == nom && nom.len() > 0 && m == PetMode::Nomal {
            assert(keeps(DirRule::PrefixMode(prefix, PetMode::Nomal), nom[k].name));
        } else {
            assert(keeps(DirRule::PrefixMode(prefix, PetMode::Happy), hap[k].name));
        }
    }
    assert forall|k: int| 0 <= k < r.len() implies starts_with_ignore_case(utf8(#[trigger] r[k].name), prefix)
        && dirs.contains(r[k]) by {
        if r == own {
            assert(keeps(DirRule::PrefixMode(prefix, mode), own[k].name));
        } else if r == nom {
            assert(keeps(DirRule::PrefixMode(prefix, PetMode::Nomal), nom[k].name));
        } else {
            assert(keeps(DirRule::PrefixMode(prefix, PetMode::Happy), hap[k].name));
        }
    }
}

/// The start frames of a drag raise are those of the first directory, in
/// listing order, among the start-stage directories chosen for the mode,
/// whose listing succeeded with at least one frame; when there is no such
/// directory there are no start frames.
pub proof fn lemma_drag_raise_start_first(dirs: Seq<AssetDirView>, mode: PetMode)
    ensures
        ({
            let chosen = raise_stage_dirs(dirs, raise_prefix(stage_a()), mode, true);
            let r = first_or_empty(usable_variants(chosen));
            &&& (exists|j: int|
                0 <= j < chosen.len() && (#[trigger] chosen[j].png_files) is Ok && chosen[j].png_files->Ok_0.len()
                    > 0) ==> exists|j: int|
                0 <= j < chosen.len() && chosen[j].png_files == Ok::<Seq<String>, Seq<char>>(r) && r.len() > 0
                    && forall|k: int|
                    0 <= k < j ==> !((#[trigger] chosen[k].png_files) is Ok && chosen[k].png_files->Ok_0.len() > 0)
            &&& (forall|k: int|
                0 <= k < chosen.len() ==> !((#[trigger] chosen[k].png_files) is Ok && chosen[k].png_files->Ok_0.len()
                    > 0)) ==> r.len() == 0
        }),
{
    let chosen = raise_stage_dirs(dirs, raise_prefix(stage_a()), mode, true);
    lemma_first_usable(chosen);
    if exists|j: int|
        0 <= j < chosen.len() && (#[trigger] chosen[j].png_files) is Ok && chosen[j].png_files->Ok_0.len() > 0 {
        let j = choose|j: int|
            0 <= j < chosen.len() && (#[trigger] chosen[j].png_files) is Ok && chosen[j].png_files->Ok_0.len() > 0;
        assert(usable_variants(chosen).len() > 0);
    }
    if usable_variants(chosen).len() > 0 {
        let j = choose|j: int|
            0 <= j < chosen.len() && chosen[j].png_files == Ok::<Seq<String>, Seq<char>>(usable_variants(chosen)[0])
                && usable_variants(chosen)[0].len() > 0 && forall|k: int|
                0 <= k < j ==> !((#[trigger] chosen[k].png_files) is Ok && chosen[k].png_files->Ok_0.len() > 0);
        assert(chosen[j].png_files is Ok);
    }
}

} // verus!
