//! Frames of the default idle animation of each mode.

use vstd::prelude::*;

use crate::animation::assets::common::{
    collect_usable_variants,
    lemma_filter_map_first,
    lemma_filter_map_members,
    copy_files,
    dir_views,
    file_lists,
    usable_variants,
    AssetDir,
    AssetDirView,
};
use crate::animation::assets::path_order::{sort_by_path, sort_dirs_by_path};
use crate::config::model::AnimationPathConfig;
use crate::stats::model::PetMode;

verus! {

/// One configured happy idle variant directory as it was found: its path,
/// and, when it exists, the directories below it that hold PNG frames, each
/// with its listing.
pub struct HappyIdleVariant {
    pub dir: String,
    pub variant_dirs: Option<Vec<AssetDir>>,
}

/// The value of a `HappyIdleVariant`.
pub struct HappyIdleVariantView {
    pub dir: Seq<char>,
    pub variant_dirs: Option<Seq<AssetDirView>>,
}

impl View for HappyIdleVariant {
    type V = HappyIdleVariantView;

    open spec fn view(&self) -> HappyIdleVariantView {
        HappyIdleVariantView {
            dir: self.dir@,
            variant_dirs: match self.variant_dirs {
                Some(d) => Some(dir_views(d@)),
                None => None,
            },
        }
    }
}

/// The values of the happy idle variants.
pub open spec fn happy_views(v: Seq<HappyIdleVariant>) -> Seq<HappyIdleVariantView> {
    v.map_values(|h: HappyIdleVariant| h@)
}

/// Why the happy idle frames could not be collected.
#[derive(Debug)]
pub enum AssetError {
    /// A configured variant directory does not exist (its path).
    MissingDir(String),
    /// Listing the PNG files of a directory failed (the error met).
    ListFailed(String),
}

/// The value of an `AssetError`.
pub enum AssetErrorView {
    MissingDir(Seq<char>),
    ListFailed(Seq<char>),
}

impl View for AssetError {
    type V = AssetErrorView;

    open spec fn view(&self) -> AssetErrorView {
        match self {
            AssetError::MissingDir(p) => AssetErrorView::MissingDir(p@),
            AssetError::ListFailed(e) => AssetErrorView::ListFailed(e@),
        }
    }
}

/// The error met while listing a directory, if any.
pub open spec fn listing_error(d: AssetDirView) -> Option<Seq<char>> {
    match d.png_files {
        Err(e) => Some(e),
        Ok(_) => None,
    }
}

/// The listing errors of the directories, in order.
pub open spec fn listing_errors(dirs: Seq<AssetDirView>) -> Seq<Seq<char>> {
    dirs.filter_map(|d: AssetDirView| listing_error(d))
}

/// The frames of one variant directory's sub-directories, taken in order:
/// the first listing error met, else the usable frame lists.
pub open spec fn variant_frames(dirs: Seq<AssetDirView>) -> Result<Seq<Seq<String>>, Seq<char>> {
    if listing_errors(dirs).len() > 0 {
        Err(listing_errors(dirs)[0])
    } else {
        Ok(usable_variants(dirs))
    }
}

/// The frame lists `acc` followed by the result `r`, or the error of `r`.
pub open spec fn after(acc: Seq<Seq<String>>, r: Result<Seq<Seq<String>>, AssetErrorView>) -> Result<
    Seq<Seq<String>>,
    AssetErrorView,
> {
    match r {
        Ok(rest) => Ok(acc.add(rest)),
        Err(e) => Err(e),
    }
}

/// The happy idle frames of the variants from index `k` on: variant by
/// variant, the frames of its sub-directories sorted by path; the first
/// missing variant directory or listing error met ends the collection.
pub open spec fn happy_frames_from(vs: Seq<HappyIdleVariantView>, k: int) -> Result<
    Seq<Seq<String>>,
    AssetErrorView,
>
    decreases vs.len() - k,
{
    if k < 0 || k >= vs.len() {
        Ok(Seq::empty())
    } else {
        match vs[k].variant_dirs {
            None => Err(AssetErrorView::MissingDir(vs[k].dir)),
            Some(ds) => match variant_frames(sort_by_path(ds)) {
                Err(e) => Err(AssetErrorView::ListFailed(e)),
                Ok(u) => after(u, happy_frames_from(vs, k + 1)),
            },
        }
    }
}

/// The value of a frame-collection result.
pub open spec fn frames_result(r: Result<Vec<Vec<String>>, AssetError>) -> Result<
    Seq<Seq<String>>,
    AssetErrorView,
> {
    match r {
        Ok(v) => Ok(file_lists(v@)),
        Err(e) => Err(e@),
    }
}

/// A filtered and mapped sequence splits where the sequence splits.
proof fn lemma_filter_map_split<A, B>(s: Seq<A>, f: spec_fn(A) -> Option<B>, k: int)
    requires
        0 <= k <= s.len(),
    ensures
        s.filter_map(f) == s.take(k).filter_map(f).add(s.skip(k).filter_map(f)),
    decreases s.len(),
{
    if k == s.len() {
        assert(s.take(k) =~= s);
        assert(s.skip(k) =~= Seq::<A>::empty());
        assert(s.skip(k).filter_map(f) =~= Seq::<B>::empty());
    } else {
        lemma_filter_map_split(s.drop_last(), f, k);
        assert(s.drop_last().take(k) =~= s.take(k));
        assert(s.skip(k).drop_last() =~= s.drop_last().skip(k));
        assert(s.skip(k).last() == s.last());
    }
}

/// The frames of one variant directory's sub-directories, sorted by path.
fn variant_frames_exec(dirs: &Vec<AssetDir>) -> (r: Result<Vec<Vec<String>>, String>)
    ensures
        match r {
            Ok(v) => variant_frames(dir_views(dirs@)) == Ok::<Seq<Seq<String>>, Seq<char>>(file_lists(v@)),
            Err(e) => variant_frames(dir_views(dirs@)) == Err::<Seq<Seq<String>>, Seq<char>>(e@),
        },
{
    let ghost ds = dir_views(dirs@);
    let mut acc: Vec<Vec<String>> = Vec::new();
    let n = dirs.len();
    let mut j: usize = 0;
    while j < n
        invariant
            n == dirs@.len(),
            ds == dir_views(dirs@),
            j <= n,
            listing_errors(ds.take(j as int)).len() == 0,
            file_lists(acc@) == usable_variants(ds.take(j as int)),
        decreases n - j,
    {
        assert(ds.take(j + 1).drop_last() =~= ds.take(j as int));
        assert(ds.take(j + 1).last() == dirs@[j as int]@);
        match &dirs[j].png_files {
            Err(e) => {
                proof {
                    lemma_filter_map_split(ds, |d: AssetDirView| listing_error(d), j + 1);
                    assert(listing_errors(ds.take(j + 1)) =~= seq![e@]);
                }
                return Err(e.clone());
            },
            Ok(f) => {
                let ghost before = acc@;
                if f.len() > 0 {
                    acc.push(copy_files(f));
                    assert(file_lists(acc@) =~= file_lists(before).add(seq![f@]));
                }
            },
        }
        j = j + 1;
    }
    assert(ds.take(n as int) =~= ds);
    Ok(acc)
}

/// The frames of the configured happy idle variants, variant by variant,
/// each variant's frame directories in path order; the first variant
/// directory that does not exist, or the first listing error, is returned
/// as the error.
pub fn collect_default_happy_idle_variants(variants: Vec<HappyIdleVariant>) -> (r: Result<
    Vec<Vec<String>>,
    AssetError,
>)
    ensures
        frames_result(r) == happy_frames_from(happy_views(variants@), 0),
{
    let ghost all = happy_views(variants@);
    let mut rest = variants;
    let mut acc: Vec<Vec<String>> = Vec::new();
    let ghost mut k: int = 0;
    while rest.len() > 0
        invariant
            all == happy_views(variants@),
            0 <= k <= all.len(),
            k + rest@.len() == all.len(),
            happy_views(rest@) == all.skip(k),
            happy_frames_from(all, 0) == after(file_lists(acc@), happy_frames_from(all, k)),
        decreases rest@.len(),
    {
        let ghost old_rest = rest@;
        let v = rest.remove(0);
        assert(happy_views(old_rest)[0] == all.skip(k)[0]);
        assert(v@ == all[k]);
        assert forall|m: int| 0 <= m < rest@.len() implies #[trigger] happy_views(rest@)[m] == all.skip(k + 1)[m] by {
            assert(rest@[m] == old_rest[m + 1]);
            assert(happy_views(old_rest)[m + 1] == all.skip(k)[m + 1]);
        }
        assert(happy_views(rest@) =~= all.skip(k + 1));
        let ghost vv = v@;
        match v.variant_dirs {
            None => {
                assert(vv.variant_dirs is None);
                assert(happy_frames_from(all, k) == Err::<Seq<Seq<String>>, AssetErrorView>(
                    AssetErrorView::MissingDir(vv.dir),
                ));
                let err = AssetError::MissingDir(v.dir);
                assert(err@ == AssetErrorView::MissingDir(vv.dir));
                assert(happy_frames_from(all, 0) == Err::<Seq<Seq<String>>, AssetErrorView>(err@));
                return Err(err);
            },
            Some(ds) => {
                let sorted = sort_dirs_by_path(ds);
                match variant_frames_exec(&sorted) {
                    Err(e) => {
                        assert(vv.variant_dirs == Some(dir_views(ds@)));
                        assert(happy_frames_from(all, k) == Err::<Seq<Seq<String>>, AssetErrorView>(
                            AssetErrorView::ListFailed(e@),
                        ));
                        let err = AssetError::ListFailed(e);
                        assert(happy_frames_from(all, 0) == Err::<Seq<Seq<String>>, AssetErrorView>(err@));
                        return Err(err);
                    },
                    Ok(frames) => {
                        let ghost before = file_lists(acc@);
                        let ghost u = file_lists(frames@);
                        assert(vv.variant_dirs == Some(dir_views(ds@)));
                        assert(happy_frames_from(all, k) == after(u, happy_frames_from(all, k + 1)));
                        let mut frames = frames;
                        acc.append(&mut frames);
                        proof {
                            assert(file_lists(acc@) =~= before.add(u));
                            match happy_frames_from(all, k + 1) {
                                Ok(rest_frames) => {
                                    assert(before.add(u).add(rest_frames) =~= before.add(u.add(rest_frames)));
                                },
                                Err(_) => {},
                            }
                            k = k + 1;
                        }
                    },
                }
            },
        }
    }
    assert(happy_frames_from(all, k) == Ok::<Seq<Seq<String>>, AssetErrorView>(Seq::empty()));
    assert(file_lists(acc@).add(Seq::empty()) =~= file_lists(acc@));
    Ok(acc)
}

/// The default idle variants of a mode: the happy idle frames for the happy
/// mode (none when collecting them fails); for any other mode, the usable
/// directories below the mode's idle root, in listing order.
pub open spec fn mode_idle_variants(
    mode: PetMode,
    happy: Seq<HappyIdleVariantView>,
    mode_root_dirs: Seq<AssetDirView>,
) -> Seq<Seq<String>> {
    if mode == PetMode::Happy {
        match happy_frames_from(happy, 0) {
            Ok(v) => v,
            Err(_) => Seq::empty(),
        }
    } else {
        usable_variants(mode_root_dirs)
    }
}

/// The default idle variants of a mode; `happy_variants` are the listed
/// happy idle variant directories, `mode_root_dirs` the listing below the
/// mode's idle root (see `default_idle_root_for_mode`).
pub fn collect_default_mode_idle_variants(
    mode: PetMode,
    happy_variants: Vec<HappyIdleVariant>,
    mode_root_dirs: &[AssetDir],
) -> (r: Vec<Vec<String>>)
    ensures
        file_lists(r@) == mode_idle_variants(mode, happy_views(happy_variants@), dir_views(mode_root_dirs@)),
{
    if mode == PetMode::Happy {
        match collect_default_happy_idle_variants(happy_variants) {
            Ok(v) => v,
            Err(_) => {
                let v: Vec<Vec<String>> = Vec::new();
                assert(file_lists(v@) =~= Seq::<Seq<String>>::empty());
                v
            },
        }
    } else {
        collect_usable_variants(mode_root_dirs)
    }
}

/// The idle root of a mode, relative to the body asset root; the happy
/// mode has variant directories instead.
pub open spec fn idle_root(c: crate::config::model::AnimationPaths, mode: PetMode) -> Option<Seq<char>> {
    match mode {
        PetMode::Happy => None,
        PetMode::Nomal => Some(c.default_nomal_idle_root),
        PetMode::PoorCondition => Some(c.default_poor_condition_idle_root),
        PetMode::Ill => Some(c.default_ill_idle_root),
    }
}

/// The idle root of a mode, relative to the body asset root.
pub fn default_idle_root_for_mode(config: &AnimationPathConfig, mode: PetMode) -> (r: Option<String>)
    ensures
        match r {
            Some(p) => idle_root(config@, mode) == Some(p@),
            None => idle_root(config@, mode) is None,
        },
{
    match mode {
        PetMode::Happy => None,
        PetMode::Nomal => Some(config.default_nomal_idle_root.clone()),
        PetMode::PoorCondition => Some(config.default_poor_condition_idle_root.clone()),
        PetMode::Ill => Some(config.default_ill_idle_root.clone()),
    }
}

/// All frames of the variants, variant after variant.
pub fn flatten_variants_in_order(variants: &[Vec<String>]) -> (r: Vec<String>)
    ensures
        r@ == file_lists(variants@).flatten(),
{
    let ghost all = file_lists(variants@);
    let mut files: Vec<String> = Vec::new();
    let n = variants.len();
    let mut i: usize = 0;
    while i < n
        invariant
            n == variants@.len(),
            all == file_lists(variants@),
            i <= n,
            files@ == all.take(i as int).flatten(),
        decreases n - i,
    {
        let ghost before = files@;
        let v = &variants[i];
        let m = v.len();
        let mut j: usize = 0;
        while j < m
            invariant
                m == v@.len(),
                j <= m,
                files@ == before.add(v@.take(j as int)),
            decreases m - j,
        {
            files.push(v[j].clone());
            assert(v@.take(j + 1) =~= v@.take(j as int).push(v@[j as int]));
            assert(files@ =~= before.add(v@.take(j + 1)));
            j = j + 1;
        }
        proof {
            assert(v@.take(m as int) =~= v@);
            assert(all.take(i + 1) =~= all.take(i as int).push(all[i as int]));
            all.take(i as int).lemma_flatten_push(all[i as int]);
        }
        i = i + 1;
    }
    assert(all.take(n as int) =~= all);
    files
}

/// All frames of the variants, variant after variant.
pub open spec fn flat(variants: Seq<Seq<String>>) -> Seq<String> {
    variants.flatten()
}

/// The default idle frames of a mode: the frames of the mode's own
/// variants; when it has none, those of the normal mode; when those are
/// none either, those of the happy mode.
pub open spec fn default_files_for_mode(
    mode: PetMode,
    happy: Seq<Seq<String>>,
    nomal: Seq<Seq<String>>,
    poor_condition: Seq<Seq<String>>,
    ill: Seq<Seq<String>>,
) -> Seq<String> {
    let selected = match mode {
        PetMode::Happy => flat(happy),
        PetMode::Nomal => flat(nomal),
        PetMode::PoorCondition => flat(poor_condition),
        PetMode::Ill => flat(ill),
    };
    if selected.len() > 0 {
        selected
    } else if flat(nomal).len() > 0 {
        flat(nomal)
    } else {
        flat(happy)
    }
}

/// The default idle frames of a mode, falling back to the normal and then
/// the happy mode.
pub fn select_default_files_for_mode(
    mode: PetMode,
    happy_variants: &[Vec<String>],
    nomal_variants: &[Vec<String>],
    poor_condition_variants: &[Vec<String>],
    ill_variants: &[Vec<String>],
) -> (r: Vec<String>)
    ensures
        r@ == default_files_for_mode(
            mode,
            file_lists(happy_variants@),
            file_lists(nomal_variants@),
            file_lists(poor_condition_variants@),
            file_lists(ill_variants@),
        ),
{
    let selected = match mode {
        PetMode::Happy => flatten_variants_in_order(happy_variants),
        PetMode::Nomal => flatten_variants_in_order(nomal_variants),
        PetMode::PoorCondition => flatten_variants_in_order(poor_condition_variants),
        PetMode::Ill => flatten_variants_in_order(ill_variants),
    };
    if selected.len() > 0 {
        return selected;
    }
    let fallback_nomal = flatten_variants_in_order(nomal_variants);
    if fallback_nomal.len() > 0 {
        return fallback_nomal;
    }
    flatten_variants_in_order(happy_variants)
}

/// The default idle frames of a mode are its own frames whenever it has
/// any, and there are none only when the mode, the normal mode and the
/// happy mode all have none.
pub proof fn lemma_default_files_fallback(
    mode: PetMode,
    happy: Seq<Seq<String>>,
    nomal: Seq<Seq<String>>,
    poor_condition: Seq<Seq<String>>,
    ill: Seq<Seq<String>>,
)
    ensures
        ({
            let own = match mode {
                PetMode::Happy => flat(happy),
                PetMode::Nomal => flat(nomal),
                PetMode::PoorCondition => flat(poor_condition),
                PetMode::Ill => flat(ill),
            };
            let r = default_files_for_mode(mode, happy, nomal, poor_condition, ill);
            &&& own.len() > 0 ==> r == own
            &&& r.len() == 0 <==> (own.len() == 0 && flat(nomal).len() == 0 && flat(happy).len() == 0)
        }),
{
}

/// The default idle frames of a mode are all frames of the mode's own
/// variants, variant after variant, whenever there is any; otherwise all
/// frames of the normal variants, when there is any; otherwise all frames of
/// the happy variants.
pub proof fn lemma_default_files_all_frames(
    mode: PetMode,
    happy: Seq<Seq<String>>,
    nomal: Seq<Seq<String>>,
    poor_condition: Seq<Seq<String>>,
    ill: Seq<Seq<String>>,
)
    ensures
        ({
            let own = match mode {
                PetMode::Happy => happy,
                PetMode::Nomal => nomal,
                PetMode::PoorCondition => poor_condition,
                PetMode::Ill => ill,
            };
            let r = default_files_for_mode(mode, happy, nomal, poor_condition, ill);
            &&& own.flatten().len() > 0 ==> r == own.flatten()
            &&& own.flatten().len() == 0 && nomal.flatten().len() > 0 ==> r == nomal.flatten()
            &&& own.flatten().len() == 0 && nomal.flatten().len() == 0 ==> r == happy.flatten()
        }),
{
}

/// The frames of one variant directory's sub-directories fail with the
/// error of the first sub-directory, in order, whose listing failed; when no
/// listing failed they are the usable frame lists.
pub proof fn lemma_variant_frames_first_error(dirs: Seq<AssetDirView>)
    ensures
        (forall|k: int| 0 <= k < dirs.len() ==> (#[trigger] dirs[k].png_files) is Ok) ==> variant_frames(dirs)
            == Ok::<Seq<Seq<String>>, Seq<char>>(usable_variants(dirs)),
        (exists|k: int| 0 <= k < dirs.len() && (#[trigger] dirs[k].png_files) is Err) ==> variant_frames(dirs) is Err
            && exists|j: int|
            0 <= j < dirs.len() && dirs[j].png_files == Err::<Seq<String>, Seq<char>>(variant_frames(dirs)->Err_0)
                && forall|k: int| 0 <= k < j ==> (#[trigger] dirs[k].png_files) is Ok,
{
    let f = |d: AssetDirView| listing_error(d);
    lemma_filter_map_members(dirs, f);
    lemma_filter_map_first(dirs, f);
    if forall|k: int| 0 <= k < dirs.len() ==> (#[trigger] dirs[k].png_files) is Ok {
        assert forall|k: int| 0 <= k < dirs.len() implies (#[trigger] f(dirs[k])) is None by {
            assert(dirs[k].png_files is Ok);
        }
    }
    if exists|k: int| 0 <= k < dirs.len() && (#[trigger] dirs[k].png_files) is Err {
        let k = choose|k: int| 0 <= k < dirs.len() && (#[trigger] dirs[k].png_files) is Err;
        assert(f(dirs[k]) is Some);
        let j = choose|j: int|
            0 <= j < dirs.len() && f(dirs[j]) == Some(listing_errors(dirs)[0]) && forall|k: int|
                0 <= k < j ==> (#[trigger] f(dirs[k])) is None;
        assert forall|m: int| 0 <= m < j implies (#[trigger] dirs[m].png_files) is Ok by {
            assert(f(dirs[m]) is None);
        }
    }
}

} // verus!
