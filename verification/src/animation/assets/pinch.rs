//! Frames of the animation played while the pet is pinched: a start stage
//! (`A` directories), a loop stage (`B`) and an end stage (`C`), each found
//! inside the pinch directory of the pet's mode.

use vstd::prelude::*;

use crate::animation::assets::common::{
    collect_usable_variants,
    dir_views,
    file_lists,
    filter_dirs,
    filter_dirs_exec,
    dir_name_matches_mode,
    name_matches_mode,
    picked_variant,
    pseudo_random_index,
    take_variant,
    usable_variants,
    utf8,
    AssetDir,
    AssetDirView,
    DirFilter,
    DirRule,
};
use crate::animation::assets::common::{keeps, lemma_usable_kept};
use crate::stats::model::PetMode;
use crate::text::{ascii_lower, lower_bytes, starts_with_ignore_case};

verus! {

/// A mode directory of the pinch assets: its file name and its listed stage
/// directories.
pub struct PinchModeDir {
    pub name: String,
    pub stages: Vec<AssetDir>,
}

/// The value of a `PinchModeDir`.
pub struct PinchModeDirView {
    pub name: Seq<char>,
    pub stages: Seq<AssetDirView>,
}

impl View for PinchModeDir {
    type V = PinchModeDirView;

    open spec fn view(&self) -> PinchModeDirView {
        PinchModeDirView { name: self.name@, stages: dir_views(self.stages@) }
    }
}

/// The values of the pinch mode directories.
pub open spec fn pinch_views(dirs: Seq<PinchModeDir>) -> Seq<PinchModeDirView> {
    dirs.map_values(|d: PinchModeDir| d@)
}

/// The index of the first directory at or after `i` whose name belongs to
/// the mode.
pub open spec fn first_match_from(dirs: Seq<PinchModeDirView>, mode: PetMode, i: int) -> Option<int>
    decreases dirs.len() - i,
{
    if i < 0 || i >= dirs.len() {
        None
    } else if name_matches_mode(utf8(dirs[i].name), mode) {
        Some(i)
    } else {
        first_match_from(dirs, mode, i + 1)
    }
}

/// The index of the first directory whose name belongs to the mode.
pub open spec fn first_match(dirs: Seq<PinchModeDirView>, mode: PetMode) -> Option<int> {
    first_match_from(dirs, mode, 0)
}

/// The pinch directory used for a mode: the first one of the mode; when
/// there is none and the mode is not the normal one, the first normal one;
/// when that still gives none and the mode is not the happy one, the first
/// happy one.
pub open spec fn pinch_mode_choice(dirs: Seq<PinchModeDirView>, mode: PetMode) -> Option<int> {
    let own = first_match(dirs, mode);
    let selected = if own is None && mode != PetMode::Nomal {
        first_match(dirs, PetMode::Nomal)
    } else {
        own
    };
    match selected {
        Some(i) => Some(i),
        None => if mode != PetMode::Happy {
            first_match(dirs, PetMode::Happy)
        } else {
            None
        },
    }
}

/// The usable variants of a pinch stage: the stage directories of the chosen
/// mode directory whose name starts with the stage prefix, ignoring ASCII
/// case; none when no mode directory is chosen.
pub open spec fn pinch_stage_variants(dirs: Seq<PinchModeDirView>, mode: PetMode, prefix: Seq<u8>) -> Seq<
    Seq<String>,
> {
    match pinch_mode_choice(dirs, mode) {
        None => Seq::empty(),
        Some(i) => usable_variants(filter_dirs(dirs[i].stages, DirRule::Prefix(prefix))),
    }
}

/// The prefix of stage `letter` (`A`, `B` or `C`).
pub open spec fn stage_prefix(letter: u8) -> Seq<u8> {
    seq![letter]
}

/// The frames of a start or end stage: the frames found directly for the
/// stage when there are any, else the stage variant picked by `choice`.
pub open spec fn pinch_frames(
    segment_frames: Seq<String>,
    dirs: Seq<PinchModeDirView>,
    mode: PetMode,
    letter: u8,
    choice: int,
) -> Seq<String> {
    if segment_frames.len() > 0 {
        segment_frames
    } else {
        picked_variant(pinch_stage_variants(dirs, mode, stage_prefix(letter)), choice)
    }
}

/// The index of the first directory whose name belongs to the mode.
fn first_match_exec(dirs: &[PinchModeDir], mode: PetMode) -> (r: Option<usize>)
    ensures
        match r {
            None => first_match(pinch_views(dirs@), mode) is None,
            Some(i) => first_match(pinch_views(dirs@), mode) == Some(i as int),
        },
{
    let ghost v = pinch_views(dirs@);
    let n = dirs.len();
    let mut i: usize = n;
    // Scan from the back so that the invariant speaks of `first_match_from(v, mode, i)`.
    let mut found: Option<usize> = None;
    while i > 0
        invariant
            n == dirs@.len(),
            v == pinch_views(dirs@),
            i <= n,
            match found {
                None => first_match_from(v, mode, i as int) is None,
                Some(j) => first_match_from(v, mode, i as int) == Some(j as int),
            },
        decreases i,
    {
        i = i - 1;
        assert(v[i as int] == dirs@[i as int]@);
        if dir_name_matches_mode(dirs[i].name.as_str(), mode) {
            found = Some(i);
        }
    }
    found
}

/// The pinch directory used for a mode, as `pinch_mode_choice` picks it.
fn pinch_mode_choice_exec(dirs: &[PinchModeDir], mode: PetMode) -> (r: Option<usize>)
    ensures
        match r {
            None => pinch_mode_choice(pinch_views(dirs@), mode) is None,
            Some(i) => pinch_mode_choice(pinch_views(dirs@), mode) == Some(i as int) && i < dirs@.len(),
        },
{
    proof {
        lemma_first_match_in_range(pinch_views(dirs@), PetMode::Happy, 0);
        lemma_first_match_in_range(pinch_views(dirs@), PetMode::Nomal, 0);
        lemma_first_match_in_range(pinch_views(dirs@), mode, 0);
    }
    let own = first_match_exec(dirs, mode);
    let selected = if own.is_none() && mode != PetMode::Nomal {
        first_match_exec(dirs, PetMode::Nomal)
    } else {
        own
    };
    match selected {
        Some(i) => Some(i),
        None => if mode != PetMode::Happy {
            first_match_exec(dirs, PetMode::Happy)
        } else {
            None
        },
    }
}

/// A found index lies inside the listing.
proof fn lemma_first_match_in_range(dirs: Seq<PinchModeDirView>, mode: PetMode, i: int)
    ensures
        first_match_from(dirs, mode, i) matches Some(j) ==> i <= j < dirs.len(),
    decreases dirs.len() - i,
{
    if 0 <= i < dirs.len() {
        lemma_first_match_in_range(dirs, mode, i + 1);
    }
}

/// The usable variants of the pinch stage with the given prefix letter.
fn collect_pinch_stage_variants(dirs: &[PinchModeDir], mode: PetMode, letter: u8) -> (r: Vec<Vec<String>>)
    ensures
        file_lists(r@) == pinch_stage_variants(pinch_views(dirs@), mode, stage_prefix(letter)),
{
    match pinch_mode_choice_exec(dirs, mode) {
        None => Vec::new(),
        Some(i) => {
            let prefix: Vec<u8> = vec![letter];
            assert(prefix@ =~= stage_prefix(letter));
            let stage_dirs = filter_dirs_exec(dirs[i].stages.as_slice(), &DirFilter::Prefix(prefix));
            assert(pinch_views(dirs@)[i as int] == dirs@[i as int]@);
            collect_usable_variants(stage_dirs.as_slice())
        },
    }
}

/// Frames of the start or end stage with the variant picked by `choice`.
pub fn pinch_files_with(
    segment_frames: Vec<String>,
    pinch_dirs: &[PinchModeDir],
    mode: PetMode,
    letter: u8,
    choice: usize,
) -> (r: Vec<String>)
    ensures
        r@ == pinch_frames(segment_frames@, pinch_views(pinch_dirs@), mode, letter, choice as int),
{
    if segment_frames.len() > 0 {
        return segment_frames;
    }
    let variants = collect_pinch_stage_variants(pinch_dirs, mode, letter);
    take_variant(variants, choice)
}

/// Frames of a start or end stage, a stage variant drawn at random when no
/// frame was found directly for the stage.
fn pinch_files(segment_frames: Vec<String>, pinch_dirs: &[PinchModeDir], mode: PetMode, letter: u8) -> (r: Vec<
    String,
>)
    ensures
        exists|choice: int|
            0 <= choice && r@ == pinch_frames(segment_frames@, pinch_views(pinch_dirs@), mode, letter, choice),
{
    let count = if segment_frames.len() > 0 {
        0
    } else {
        collect_pinch_stage_variants(pinch_dirs, mode, letter).len()
    };
    let choice = if count > 0 {
        pseudo_random_index(count)
    } else {
        0
    };
    let ghost frames = segment_frames@;
    let r = pinch_files_with(segment_frames, pinch_dirs, mode, letter, choice);
    assert(r@ == pinch_frames(frames, pinch_views(pinch_dirs@), mode, letter, choice as int));
    r
}

/// Frames of the start stage: the frames found directly for the start
/// segment when there are any, else one `A` variant of the pet's pinch
/// directory drawn at random (none when there is no variant).
pub fn collect_pinch_start_files(segment_frames: Vec<String>, pinch_dirs: &[PinchModeDir], mode: PetMode) -> (r:
    Vec<String>)
    ensures
        exists|choice: int|
            0 <= choice && r@ == pinch_frames(segment_frames@, pinch_views(pinch_dirs@), mode, 65u8, choice),
{
    pinch_files(segment_frames, pinch_dirs, mode, 65u8)
}

/// Frame variants of the loop stage: every usable `B` variant of the pet's
/// pinch directory.
pub fn collect_pinch_loop_variants(pinch_dirs: &[PinchModeDir], mode: PetMode) -> (r: Vec<Vec<String>>)
    ensures
        file_lists(r@) == pinch_stage_variants(pinch_views(pinch_dirs@), mode, stage_prefix(66u8)),
{
    collect_pinch_stage_variants(pinch_dirs, mode, 66u8)
}

/// Frames of the end stage: the frames found directly for the end segment
/// when there are any, else one `C` variant of the pet's pinch directory
/// drawn at random (none when there is no variant).
pub fn collect_pinch_end_files(segment_frames: Vec<String>, pinch_dirs: &[PinchModeDir], mode: PetMode) -> (r:
    Vec<String>)
    ensures
        exists|choice: int|
            0 <= choice && r@ == pinch_frames(segment_frames@, pinch_views(pinch_dirs@), mode, 67u8, choice),
{
    pinch_files(segment_frames, pinch_dirs, mode, 67u8)
}

/// The first match is a match, nothing before it matches, and there is no
/// match at all when none is found.
pub proof fn lemma_first_match(dirs: Seq<PinchModeDirView>, mode: PetMode, i: int)
    requires
        0 <= i,
    ensures
        match first_match_from(dirs, mode, i) {
            Some(j) => i <= j < dirs.len() && name_matches_mode(utf8(dirs[j].name), mode) && forall|k: int|
                i <= k < j ==> !name_matches_mode(utf8(#[trigger] dirs[k].name), mode),
            None => forall|k: int| i <= k < dirs.len() ==> !name_matches_mode(utf8(#[trigger] dirs[k].name), mode),
        },
    decreases dirs.len() - i,
{
    if i < dirs.len() {
        lemma_first_match(dirs, mode, i + 1);
    }
}

/// The pinch directory chosen for a mode belongs to the mode whenever some
/// directory does, and is then the first such; otherwise it is the first
/// normal one (for a mode other than normal) or the first happy one. No
/// directory is chosen only when none belongs to the mode, nor to the happy
/// mode, nor (for a mode other than normal) to the normal mode.
pub proof fn lemma_pinch_mode_choice(dirs: Seq<PinchModeDirView>, mode: PetMode)
    ensures
        (exists|j: int| 0 <= j < dirs.len() && name_matches_mode(utf8(#[trigger] dirs[j].name), mode))
            ==> pinch_mode_choice(dirs, mode) == first_match(dirs, mode) && first_match(dirs, mode) is Some,
        pinch_mode_choice(dirs, mode) matches Some(i) ==> 0 <= i < dirs.len() && (name_matches_mode(
            utf8(dirs[i].name),
            mode,
        ) || name_matches_mode(utf8(dirs[i].name), PetMode::Nomal) || name_matches_mode(
            utf8(dirs[i].name),
            PetMode::Happy,
        )),
        pinch_mode_choice(dirs, mode) is None ==> forall|k: int|
            0 <= k < dirs.len() ==> {
                &&& !name_matches_mode(utf8(#[trigger] dirs[k].name), mode)
                &&& !name_matches_mode(utf8(dirs[k].name), PetMode::Happy)
                &&& (mode != PetMode::Nomal ==> !name_matches_mode(utf8(dirs[k].name), PetMode::Nomal))
            },
{
    lemma_first_match(dirs, mode, 0);
    lemma_first_match(dirs, PetMode::Nomal, 0);
    lemma_first_match(dirs, PetMode::Happy, 0);
    if exists|j: int| 0 <= j < dirs.len() && name_matches_mode(utf8(#[trigger] dirs[j].name), mode) {
        let j = choose|j: int| 0 <= j < dirs.len() && name_matches_mode(utf8(#[trigger] dirs[j].name), mode);
        assert(first_match(dirs, mode) is Some);
    }
}

/// Two one-letter prefixes that agree ignoring ASCII case keep the same
/// directories.
proof fn lemma_filter_prefix_ignores_case(dirs: Seq<AssetDirView>, a: u8, b: u8)
    requires
        ascii_lower(a) == ascii_lower(b),
    ensures
        filter_dirs(dirs, DirRule::Prefix(stage_prefix(a))) == filter_dirs(dirs, DirRule::Prefix(stage_prefix(b))),
    decreases dirs.len(),
{
    assert(lower_bytes(stage_prefix(a)) =~= lower_bytes(stage_prefix(b)));
    if dirs.len() > 0 {
        lemma_filter_prefix_ignores_case(dirs.drop_last(), a, b);
        assert(keeps(DirRule::Prefix(stage_prefix(a)), dirs.last().name) == keeps(
            DirRule::Prefix(stage_prefix(b)),
            dirs.last().name,
        ));
    }
}

/// Matching stage directories ignores the case of the stage letter: the
/// letters `b` and `B` pick the same stage variants.
pub proof fn lemma_pinch_stage_ignores_case(dirs: Seq<PinchModeDirView>, mode: PetMode, a: u8, b: u8)
    requires
        ascii_lower(a) == ascii_lower(b),
    ensures
        pinch_stage_variants(dirs, mode, stage_prefix(a)) == pinch_stage_variants(dirs, mode, stage_prefix(b)),
{
    if let Some(i) = pinch_mode_choice(dirs, mode) {
        lemma_filter_prefix_ignores_case(dirs[i].stages, a, b);
    }
}

/// A name starts with a one-letter prefix, ignoring case, exactly when its
/// first byte is that letter, ignoring case.
proof fn lemma_one_letter_prefix(b: Seq<u8>, letter: u8)
    ensures
        starts_with_ignore_case(b, seq![letter]) <==> (b.len() >= 1 && ascii_lower(b[0]) == ascii_lower(letter)),
{
    if b.len() >= 1 {
        assert(lower_bytes(b.subrange(0, 1))[0] == ascii_lower(b[0]));
        if ascii_lower(b[0]) == ascii_lower(letter) {
            assert(lower_bytes(b.subrange(0, 1)) =~= lower_bytes(seq![letter]));
        }
    }
}

/// The variants of a pinch stage are exactly the frame lists of the stage
/// directories, inside the chosen mode directory, whose name begins with the
/// stage letter ignoring ASCII case: every returned variant is the non-empty,
/// successfully listed frame list of such a directory, and every such
/// directory with a non-empty listing gives a variant. Without a chosen mode
/// directory there is none.
pub proof fn lemma_pinch_stage_variants_by_letter(dirs: Seq<PinchModeDirView>, mode: PetMode, letter: u8)
    ensures
        pinch_mode_choice(dirs, mode) is None ==> pinch_stage_variants(dirs, mode, stage_prefix(letter)).len()
            == 0,
        pinch_mode_choice(dirs, mode) matches Some(i) ==> {
            let stages = dirs[i].stages;
            let v = pinch_stage_variants(dirs, mode, stage_prefix(letter));
            &&& forall|k: int|
                0 <= k < v.len() ==> (#[trigger] v[k]).len() > 0 && exists|j: int|
                    0 <= j < stages.len() && utf8(stages[j].name).len() >= 1 && ascii_lower(
                        utf8(stages[j].name)[0],
                    ) == ascii_lower(letter) && stages[j].png_files == Ok::<Seq<String>, Seq<char>>(v[k])
            &&& forall|j: int|
                0 <= j < stages.len() && utf8(stages[j].name).len() >= 1 && ascii_lower(utf8(stages[j].name)[0])
                    == ascii_lower(letter) && (#[trigger] stages[j].png_files) is Ok
                    && stages[j].png_files->Ok_0.len() > 0 ==> v.contains(stages[j].png_files->Ok_0)
        },
{
    if let Some(i) = pinch_mode_choice(dirs, mode) {
        let stages = dirs[i].stages;
        let rule = DirRule::Prefix(stage_prefix(letter));
        lemma_usable_kept(stages, rule);
        assert forall|j: int| 0 <= j < stages.len() implies keeps(rule, #[trigger] stages[j].name) == (utf8(
            stages[j].name,
        ).len() >= 1 && ascii_lower(utf8(stages[j].name)[0]) == ascii_lower(letter)) by {
            lemma_one_letter_prefix(utf8(stages[j].name), letter);
        }
    }
}

} // verus!
