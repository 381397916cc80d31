//! Directory listings of animation assets and the rules shared by every
//! animation: which directory names belong to a mood mode, which listed
//! directories give a usable frame sequence, and random choice of a variant.

use vstd::prelude::*;

use crate::stats::model::PetMode;
use crate::text::{
    ascii_lower,
    occurs_at,
    contains_bytes,
    contains_exec,
    eq_ignore_case,
    eq_ignore_case_exec,
    lower_bytes,
    lowercase_bytes,
    starts_with_ignore_case,
    starts_with_ignore_case_exec,
};

verus! {

/// A directory of animation assets as it was listed: its file name, its
/// full path, and the PNG frame files found in it (in frame order), or the
/// error met while listing them.
pub struct AssetDir {
    pub name: String,
    pub path: String,
    pub png_files: Result<Vec<String>, String>,
}

/// The value of an `AssetDir`.
pub struct AssetDirView {
    pub name: Seq<char>,
    pub path: Seq<char>,
    pub png_files: Result<Seq<String>, Seq<char>>,
}

impl View for AssetDir {
    type V = AssetDirView;

    open spec fn view(&self) -> AssetDirView {
        AssetDirView {
            name: self.name@,
            path: self.path@,
            png_files: match self.png_files {
                Ok(f) => Ok(f@),
                Err(e) => Err(e@),
            },
        }
    }
}

/// The values of a sequence of listed directories.
pub open spec fn dir_views(dirs: Seq<AssetDir>) -> Seq<AssetDirView> {
    dirs.map_values(|d: AssetDir| d@)
}

/// The values of a sequence of frame lists.
pub open spec fn file_lists(v: Seq<Vec<String>>) -> Seq<Seq<String>> {
    v.map_values(|f: Vec<String>| f@)
}

/// The UTF-8 bytes of a name.
pub open spec fn utf8(s: Seq<char>) -> Seq<u8> {
    vstd::utf8::encode_utf8(s)
}

/// The lowercase keyword that marks a directory as belonging to a mode:
/// `happy`, `nomal`, `poorcondition` or `ill`.
pub open spec fn mode_keyword(mode: PetMode) -> Seq<u8> {
    match mode {
        PetMode::Happy => seq![104u8, 97, 112, 112, 121],
        PetMode::Nomal => seq![110u8, 111, 109, 97, 108],
        PetMode::PoorCondition => seq![112u8, 111, 111, 114, 99, 111, 110, 100, 105, 116, 105, 111, 110],
        PetMode::Ill => seq![105u8, 108, 108],
    }
}

/// A directory name belongs to a mode when it holds the mode's keyword,
/// ignoring ASCII case.
pub open spec fn name_matches_mode(name: Seq<u8>, mode: PetMode) -> bool {
    contains_bytes(lower_bytes(name), mode_keyword(mode))
}

/// The mode keyword as bytes.
fn mode_keyword_exec(mode: PetMode) -> (r: Vec<u8>)
    ensures
        r@ == mode_keyword(mode),
{
    let r = match mode {
        PetMode::Happy => vec![104u8, 97, 112, 112, 121],
        PetMode::Nomal => vec![110u8, 111, 109, 97, 108],
        PetMode::PoorCondition => vec![112u8, 111, 111, 114, 99, 111, 110, 100, 105, 116, 105, 111, 110],
        PetMode::Ill => vec![105u8, 108, 108],
    };
    assert(r@ =~= mode_keyword(mode));
    r
}

/// Whether the directory name belongs to the mode.
pub fn dir_name_matches_mode(dir_name: &str, mode: PetMode) -> (r: bool)
    ensures
        r == name_matches_mode(utf8(dir_name@), mode),
{
    let lower = lowercase_bytes(dir_name.as_bytes());
    let keyword = mode_keyword_exec(mode);
    contains_exec(lower.as_slice(), keyword.as_slice())
}

/// The frames a listed directory contributes: its PNG files when they were
/// listed without error and there is at least one.
pub open spec fn usable_files(d: AssetDirView) -> Option<Seq<String>> {
    match d.png_files {
        Ok(f) => if f.len() > 0 {
            Some(f)
        } else {
            None
        },
        Err(_) => None,
    }
}

/// The usable frame lists of the listed directories, in listing order.
pub open spec fn usable_variants(dirs: Seq<AssetDirView>) -> Seq<Seq<String>> {
    dirs.filter_map(|d: AssetDirView| usable_files(d))
}

/// A copy of a list of file names.
pub fn copy_files(v: &Vec<String>) -> (r: Vec<String>)
    ensures
        r@ == v@,
{
    let mut r: Vec<String> = Vec::new();
    let n = v.len();
    let mut i: usize = 0;
    while i < n
        invariant
            n == v@.len(),
            i <= n,
            r@ =~= v@.subrange(0, i as int),
        decreases n - i,
    {
        r.push(v[i].clone());
        i = i + 1;
    }
    assert(v@.subrange(0, n as int) =~= v@);
    r
}

/// A copy of a listed directory.
pub fn copy_dir(d: &AssetDir) -> (r: AssetDir)
    ensures
        r@ == d@,
{
    let png_files = match &d.png_files {
        Ok(f) => Ok(copy_files(f)),
        Err(e) => Err(e.clone()),
    };
    AssetDir { name: d.name.clone(), path: d.path.clone(), png_files }
}

/// The usable frame lists of the listed directories, in listing order:
/// directories whose listing failed or holds no PNG file are skipped.
pub fn collect_usable_variants(dirs: &[AssetDir]) -> (r: Vec<Vec<String>>)
    ensures
        file_lists(r@) == usable_variants(dir_views(dirs@)),
{
    let mut r: Vec<Vec<String>> = Vec::new();
    let n = dirs.len();
    let mut i: usize = 0;
    while i < n
        invariant
            n == dirs@.len(),
            i <= n,
            file_lists(r@) == usable_variants(dir_views(dirs@).take(i as int)),
        decreases n - i,
    {
        let ghost before = r@;
        assert(dir_views(dirs@).take(i + 1).drop_last() =~= dir_views(dirs@).take(i as int));
        assert(dir_views(dirs@).take(i + 1).last() == dirs@[i as int]@);
        match &dirs[i].png_files {
            Ok(f) => {
                if f.len() > 0 {
                    r.push(copy_files(f));
                    assert(file_lists(r@) =~= file_lists(before).add(seq![f@]));
                }
            },
            Err(_) => {},
        }
        i = i + 1;
    }
    assert(dir_views(dirs@).take(n as int) =~= dir_views(dirs@));
    r
}

/// What picks the listed directories an animation draws from.
pub enum DirFilter {
    /// Names that start with the prefix, ignoring ASCII case.
    Prefix(Vec<u8>),
    /// Names that belong to the mode.
    Mode(PetMode),
    /// Names that start with the prefix and belong to the mode.
    PrefixMode(Vec<u8>, PetMode),
    /// Start-up directories of the mode: for the happy mode also the
    /// directory named `26new`, ignoring ASCII case.
    Startup(PetMode),
}

/// The bytes of the name `26new`.
pub open spec fn startup_extra_name() -> Seq<u8> {
    seq![50u8, 54, 110, 101, 119]
}

/// The value of a `DirFilter`.
pub enum DirRule {
    Prefix(Seq<u8>),
    Mode(PetMode),
    PrefixMode(Seq<u8>, PetMode),
    Startup(PetMode),
}

impl View for DirFilter {
    type V = DirRule;

    open spec fn view(&self) -> DirRule {
        match self {
            DirFilter::Prefix(p) => DirRule::Prefix(p@),
            DirFilter::Mode(m) => DirRule::Mode(*m),
            DirFilter::PrefixMode(p, m) => DirRule::PrefixMode(p@, *m),
            DirFilter::Startup(m) => DirRule::Startup(*m),
        }
    }
}

/// Whether the rule keeps a directory with this name.
pub open spec fn keeps(f: DirRule, name: Seq<char>) -> bool {
    let b = utf8(name);
    match f {
        DirRule::Prefix(p) => starts_with_ignore_case(b, p),
        DirRule::Mode(m) => name_matches_mode(b, m),
        DirRule::PrefixMode(p, m) => starts_with_ignore_case(b, p) && name_matches_mode(b, m),
        DirRule::Startup(m) => if m == PetMode::Happy {
            name_matches_mode(b, PetMode::Happy) || eq_ignore_case(b, startup_extra_name())
        } else {
            name_matches_mode(b, m)
        },
    }
}

/// Whether the filter keeps a directory with this name.
pub fn keeps_exec(f: &DirFilter, name: &String) -> (r: bool)
    ensures
        r == keeps(f@, name@),
{
    let s = name.as_str();
    match f {
        DirFilter::Prefix(p) => starts_with_ignore_case_exec(s.as_bytes(), p.as_slice()),
        DirFilter::Mode(m) => dir_name_matches_mode(s, *m),
        DirFilter::PrefixMode(p, m) => {
            starts_with_ignore_case_exec(s.as_bytes(), p.as_slice()) && dir_name_matches_mode(s, *m)
        },
        DirFilter::Startup(m) => {
            if *m == PetMode::Happy {
                let extra: Vec<u8> = vec![50u8, 54, 110, 101, 119];
                assert(extra@ =~= startup_extra_name());
                dir_name_matches_mode(s, PetMode::Happy) || eq_ignore_case_exec(s.as_bytes(), extra.as_slice())
            } else {
                dir_name_matches_mode(s, *m)
            }
        },
    }
}

/// The listed directories the filter keeps, in listing order.
pub open spec fn filter_dirs(dirs: Seq<AssetDirView>, f: DirRule) -> Seq<AssetDirView> {
    dirs.filter_map(|d: AssetDirView| if keeps(f, d.name) { Some(d) } else { None })
}

/// The listed directories the filter keeps, in listing order.
pub fn filter_dirs_exec(dirs: &[AssetDir], f: &DirFilter) -> (r: Vec<AssetDir>)
    ensures
        dir_views(r@) == filter_dirs(dir_views(dirs@), f@),
{
    let mut r: Vec<AssetDir> = Vec::new();
    let n = dirs.len();
    let mut i: usize = 0;
    while i < n
        invariant
            n == dirs@.len(),
            i <= n,
            dir_views(r@) == filter_dirs(dir_views(dirs@).take(i as int), f@),
        decreases n - i,
    {
        let ghost before = r@;
        assert(dir_views(dirs@).take(i + 1).drop_last() =~= dir_views(dirs@).take(i as int));
        assert(dir_views(dirs@).take(i + 1).last() == dirs@[i as int]@);
        if keeps_exec(f, &dirs[i].name) {
            let d = copy_dir(&dirs[i]);
            r.push(d);
            assert(dir_views(r@) =~= dir_views(before).add(seq![dirs@[i as int]@]));
        }
        i = i + 1;
    }
    assert(dir_views(dirs@).take(n as int) =~= dir_views(dirs@));
    r
}

/// An index drawn at random below `len`.
///
/// Calls `rand::Rng::gen_range(&mut rand::thread_rng(), 0..len)`; the
/// contract claims only what rand documents for an exclusive range: the
/// value lies in `0..len` (rand panics on an empty range, hence `len > 0`).
/// Which index comes out is left unsaid: it depends on the random source.
#[verifier::external_body]
pub fn pseudo_random_index(len: usize) -> (index: usize)
    requires
        len > 0,
    ensures
        index < len,
{
    rand::Rng::gen_range(&mut rand::thread_rng(), 0..len)
}

/// The variant picked by `choice` among `variants`: the variant at index
/// `choice` modulo their number, or no frame at all when there is none.
pub open spec fn picked_variant(variants: Seq<Seq<String>>, choice: int) -> Seq<String> {
    if variants.len() == 0 {
        Seq::empty()
    } else {
        variants[choice % (variants.len() as int)]
    }
}

/// Takes the variant picked by `choice` out of `variants`.
pub fn take_variant(variants: Vec<Vec<String>>, choice: usize) -> (r: Vec<String>)
    ensures
        r@ == picked_variant(file_lists(variants@), choice as int),
{
    let mut variants = variants;
    if variants.len() == 0 {
        return Vec::new();
    }
    let i = choice % variants.len();
    variants.swap_remove(i)
}

/// A filtered and mapped sequence holds, in order, exactly the mapped
/// entries that are present: each result entry comes from some entry of the
/// sequence, and every entry that maps to a value puts it in the result.
pub proof fn lemma_filter_map_members<A, B>(s: Seq<A>, f: spec_fn(A) -> Option<B>)
    ensures
        forall|k: int|
            0 <= k < s.filter_map(f).len() ==> exists|i: int|
                0 <= i < s.len() && #[trigger] f(s[i]) == Some(#[trigger] s.filter_map(f)[k]),
        forall|i: int| 0 <= i < s.len() && (#[trigger] f(s[i])) is Some ==> s.filter_map(f).contains(f(s[i])->0),
        s.filter_map(f).len() == 0 <==> forall|i: int| 0 <= i < s.len() ==> (#[trigger] f(s[i])) is None,
    decreases s.len(),
{
    if s.len() > 0 {
        let t = s.drop_last();
        lemma_filter_map_members(t, f);
        let r = s.filter_map(f);
        let rt = t.filter_map(f);
        assert forall|k: int| 0 <= k < r.len() implies exists|i: int|
            0 <= i < s.len() && #[trigger] f(s[i]) == Some(#[trigger] r[k]) by {
            if k < rt.len() {
                assert(r[k] == rt[k]);
                let i = choose|i: int| 0 <= i < t.len() && #[trigger] f(t[i]) == Some(#[trigger] rt[k]);
                assert(s[i] == t[i]);
            } else {
                assert(f(s[s.len() - 1]) == Some(r[k]));
            }
        }
        assert forall|i: int| 0 <= i < s.len() && (#[trigger] f(s[i])) is Some implies r.contains(f(s[i])->0) by {
            if i < t.len() {
                assert(s[i] == t[i]);
                assert(rt.contains(f(t[i])->0));
                let k = choose|k: int| 0 <= k < rt.len() && rt[k] == f(t[i])->0;
                assert(r[k] == rt[k]);
            } else {
                assert(r[r.len() - 1] == f(s[i])->0);
            }
        }
        if r.len() == 0 {
            assert forall|i: int| 0 <= i < s.len() implies (#[trigger] f(s[i])) is None by {
                if i < t.len() {
                    assert(s[i] == t[i]);
                }
            }
        }
        if forall|i: int| 0 <= i < s.len() ==> (#[trigger] f(s[i])) is None {
            assert forall|i: int| 0 <= i < t.len() implies (#[trigger] f(t[i])) is None by {
                assert(s[i] == t[i]);
            }
            assert(f(s[s.len() - 1]) is None);
        }
    }
}

/// Every usable variant has at least one frame and is the frame list of a
/// listed directory whose listing succeeded; every listed directory with a
/// successful, non-empty listing contributes its frames.
pub proof fn lemma_usable_variants(dirs: Seq<AssetDirView>)
    ensures
        forall|k: int| 0 <= k < usable_variants(dirs).len() ==> #[trigger] usable_variants(dirs)[k].len() > 0,
        forall|k: int|
            0 <= k < usable_variants(dirs).len() ==> exists|i: int|
                0 <= i < dirs.len() && dirs[i].png_files == Ok::<Seq<String>, Seq<char>>(
                    #[trigger] usable_variants(dirs)[k],
                ),
        forall|i: int|
            0 <= i < dirs.len() && (#[trigger] usable_files(dirs[i])) is Some ==> usable_variants(dirs).contains(
                usable_files(dirs[i])->0,
            ),
{
    let f = |d: AssetDirView| usable_files(d);
    lemma_filter_map_members(dirs, f);
    let u = usable_variants(dirs);
    assert forall|k: int| 0 <= k < u.len() implies #[trigger] u[k].len() > 0 && exists|i: int|
        0 <= i < dirs.len() && dirs[i].png_files == Ok::<Seq<String>, Seq<char>>(u[k]) by {
        let i = choose|i: int| 0 <= i < dirs.len() && #[trigger] f(dirs[i]) == Some(#[trigger] u[k]);
        assert(dirs[i].png_files == Ok::<Seq<String>, Seq<char>>(u[k]));
    }
    assert forall|i: int| 0 <= i < dirs.len() && (#[trigger] usable_files(dirs[i])) is Some implies u.contains(
        usable_files(dirs[i])->0,
    ) by {
        assert(f(dirs[i]) == usable_files(dirs[i]));
    }
}

/// The directories a filter keeps are listed directories it keeps, in
/// listing order; it keeps none exactly when no listed directory passes it.
pub proof fn lemma_filter_dirs(dirs: Seq<AssetDirView>, rule: DirRule)
    ensures
        forall|k: int|
            0 <= k < filter_dirs(dirs, rule).len() ==> keeps(rule, #[trigger] filter_dirs(dirs, rule)[k].name)
                && dirs.contains(filter_dirs(dirs, rule)[k]),
        filter_dirs(dirs, rule).len() == 0 <==> forall|i: int| 0 <= i < dirs.len() ==> !keeps(rule, #[trigger] dirs[i].name),
        forall|i: int| 0 <= i < dirs.len() && keeps(rule, #[trigger] dirs[i].name) ==> filter_dirs(dirs, rule).contains(dirs[i]),
{
    let f = |d: AssetDirView| if keeps(rule, d.name) { Some(d) } else { None };
    lemma_filter_map_members(dirs, f);
    let r = filter_dirs(dirs, rule);
    assert forall|i: int| 0 <= i < dirs.len() && keeps(rule, #[trigger] dirs[i].name) implies r.contains(dirs[i]) by {
        assert(f(dirs[i]) == Some(dirs[i]));
    }
    assert forall|k: int| 0 <= k < r.len() implies keeps(rule, #[trigger] r[k].name) && dirs.contains(r[k]) by {
        let i = choose|i: int| 0 <= i < dirs.len() && #[trigger] f(dirs[i]) == Some(#[trigger] r[k]);
        assert(dirs[i] == r[k]);
    }
    if forall|i: int| 0 <= i < dirs.len() ==> !keeps(rule, #[trigger] dirs[i].name) {
        assert forall|i: int| 0 <= i < dirs.len() implies (#[trigger] f(dirs[i])) is None by {
            assert(!keeps(rule, dirs[i].name));
        }
    }
    if r.len() == 0 {
        assert forall|i: int| 0 <= i < dirs.len() implies !keeps(rule, #[trigger] dirs[i].name) by {
            assert(f(dirs[i]) is None);
        }
    }
}

/// Matching a name to a mode ignores ASCII case: the name and its lowercase
/// form belong to the same modes.
pub proof fn lemma_mode_match_ignores_case(name: Seq<u8>, mode: PetMode)
    ensures
        name_matches_mode(lower_bytes(name), mode) == name_matches_mode(name, mode),
{
    assert(lower_bytes(lower_bytes(name)) =~= lower_bytes(name));
}

/// The usable variants of the directories a rule keeps are exactly the
/// non-empty, successfully listed frame lists of listed directories the rule
/// keeps: each comes from such a directory, and each such directory gives
/// one.
pub proof fn lemma_usable_kept(dirs: Seq<AssetDirView>, rule: DirRule)
    ensures
        forall|k: int|
            0 <= k < usable_variants(filter_dirs(dirs, rule)).len() ==> (#[trigger] usable_variants(
                filter_dirs(dirs, rule),
            )[k]).len() > 0 && exists|j: int|
                0 <= j < dirs.len() && keeps(rule, dirs[j].name) && dirs[j].png_files == Ok::<
                    Seq<String>,
                    Seq<char>,
                >(usable_variants(filter_dirs(dirs, rule))[k]),
        forall|j: int|
            0 <= j < dirs.len() && keeps(rule, dirs[j].name) && (#[trigger] dirs[j].png_files) is Ok
                && dirs[j].png_files->Ok_0.len() > 0 ==> usable_variants(filter_dirs(dirs, rule)).contains(
                dirs[j].png_files->Ok_0,
            ),
{
    let kept = filter_dirs(dirs, rule);
    let u = usable_variants(kept);
    lemma_filter_dirs(dirs, rule);
    lemma_usable_variants(kept);
    assert forall|k: int| 0 <= k < u.len() implies (#[trigger] u[k]).len() > 0 && exists|j: int|
        0 <= j < dirs.len() && keeps(rule, dirs[j].name) && dirs[j].png_files == Ok::<Seq<String>, Seq<char>>(u[k]) by {
        let m = choose|m: int| 0 <= m < kept.len() && kept[m].png_files == Ok::<Seq<String>, Seq<char>>(#[trigger] u[k]);
        assert(keeps(rule, kept[m].name));
        assert(dirs.contains(kept[m]));
        let j = choose|j: int| 0 <= j < dirs.len() && dirs[j] == kept[m];
        assert(keeps(rule, dirs[j].name));
    }
    assert forall|j: int|
        0 <= j < dirs.len() && keeps(rule, dirs[j].name) && (#[trigger] dirs[j].png_files) is Ok
            && dirs[j].png_files->Ok_0.len() > 0 implies u.contains(dirs[j].png_files->Ok_0) by {
        assert(kept.contains(dirs[j]));
        let m = choose|m: int| 0 <= m < kept.len() && kept[m] == dirs[j];
        assert(usable_files(kept[m]) == Some(dirs[j].png_files->Ok_0));
    }
}

/// The first usable variant is the frame list of the first directory, in
/// listing order, whose listing succeeded with at least one frame; there is
/// none exactly when no directory has such a listing.
pub proof fn lemma_first_usable(dirs: Seq<AssetDirView>)
    ensures
        usable_variants(dirs).len() > 0 ==> exists|j: int|
            0 <= j < dirs.len() && dirs[j].png_files == Ok::<Seq<String>, Seq<char>>(usable_variants(dirs)[0])
                && usable_variants(dirs)[0].len() > 0 && forall|k: int|
                0 <= k < j ==> !((#[trigger] dirs[k].png_files) is Ok && dirs[k].png_files->Ok_0.len() > 0),
        usable_variants(dirs).len() == 0 ==> forall|k: int|
            0 <= k < dirs.len() ==> !((#[trigger] dirs[k].png_files) is Ok && dirs[k].png_files->Ok_0.len() > 0),
    decreases dirs.len(),
{
    let f = |d: AssetDirView| usable_files(d);
    lemma_filter_map_members(dirs, f);
    if usable_variants(dirs).len() == 0 {
        assert forall|k: int| 0 <= k < dirs.len() implies !((#[trigger] dirs[k].png_files) is Ok
            && dirs[k].png_files->Ok_0.len() > 0) by {
            assert(f(dirs[k]) is None);
        }
    } else {
        let t = dirs.drop_last();
        lemma_first_usable(t);
        let u = usable_variants(dirs);
        let ut = usable_variants(t);
        if ut.len() > 0 {
            assert(u[0] == ut[0]);
            let j = choose|j: int|
                0 <= j < t.len() && t[j].png_files == Ok::<Seq<String>, Seq<char>>(ut[0]) && ut[0].len() > 0
                    && forall|k: int| 0 <= k < j ==> !((#[trigger] t[k].png_files) is Ok && t[k].png_files->Ok_0.len() > 0);
            assert(dirs[j] == t[j]);
            assert forall|k: int| 0 <= k < j implies !((#[trigger] dirs[k].png_files) is Ok
                && dirs[k].png_files->Ok_0.len() > 0) by {
                assert(dirs[k] == t[k]);
            }
        } else {
            let j = dirs.len() - 1;
            assert(u == ut.add(seq![usable_files(dirs.last()).unwrap()]));
            assert(dirs[j].png_files == Ok::<Seq<String>, Seq<char>>(u[0]));
            assert forall|k: int| 0 <= k < j implies !((#[trigger] dirs[k].png_files) is Ok
                && dirs[k].png_files->Ok_0.len() > 0) by {
                assert(dirs[k] == t[k]);
            }
        }
    }
}

/// The first entry of a filtered and mapped sequence comes from the first
/// entry that maps to a value.
pub proof fn lemma_filter_map_first<A, B>(s: Seq<A>, f: spec_fn(A) -> Option<B>)
    ensures
        s.filter_map(f).len() > 0 ==> exists|j: int|
            0 <= j < s.len() && f(s[j]) == Some(s.filter_map(f)[0]) && forall|k: int|
                0 <= k < j ==> (#[trigger] f(s[k])) is None,
    decreases s.len(),
{
    if s.filter_map(f).len() > 0 {
        let t = s.drop_last();
        lemma_filter_map_first(t, f);
        lemma_filter_map_members(t, f);
        if t.filter_map(f).len() > 0 {
            assert(s.filter_map(f)[0] == t.filter_map(f)[0]);
            let j = choose|j: int|
                0 <= j < t.len() && f(t[j]) == Some(t.filter_map(f)[0]) && forall|k: int|
                    0 <= k < j ==> (#[trigger] f(t[k])) is None;
            assert(s[j] == t[j]);
            assert forall|k: int| 0 <= k < j implies (#[trigger] f(s[k])) is None by {
                assert(s[k] == t[k]);
            }
        } else {
            let j = s.len() - 1;
            assert forall|k: int| 0 <= k < j implies (#[trigger] f(s[k])) is None by {
                assert(s[k] == t[k]);
            }
        }
    }
}

/// The bytes of `b` from position `i` on spell `kw`, comparing each byte of
/// `b` ASCII-lowercased.
pub open spec fn keyword_at(b: Seq<u8>, kw: Seq<u8>, i: int) -> bool {
    0 <= i && i + kw.len() <= b.len() && forall|j: int| 0 <= j < kw.len() ==> ascii_lower(#[trigger] b[i + j]) == kw[j]
}

/// What each rule keeps, byte by byte on the name's UTF-8 bytes `b`: a
/// prefix rule keeps names whose first bytes are the prefix ignoring ASCII
/// case; a mode rule keeps names that hold the mode's keyword somewhere,
/// ignoring ASCII case; the start-up rule of a mode keeps the names of the
/// mode, and for the happy mode also the name `26new` ignoring ASCII case.
pub proof fn lemma_keeps_rules(name: Seq<char>, p: Seq<u8>, m: PetMode)
    ensures
        ({
            let b = utf8(name);
            let in_mode = exists|i: int| #[trigger] keyword_at(b, mode_keyword(m), i);
            let in_happy = exists|i: int| #[trigger] keyword_at(b, mode_keyword(PetMode::Happy), i);
            let prefixed = p.len() <= b.len() && forall|j: int| 0 <= j < p.len() ==> ascii_lower(#[trigger] b[j])
                == ascii_lower(p[j]);
            &&& keeps(DirRule::Prefix(p), name) == prefixed
            &&& keeps(DirRule::Mode(m), name) == in_mode
            &&& keeps(DirRule::PrefixMode(p, m), name) == (prefixed && in_mode)
            &&& keeps(DirRule::Startup(m), name) == (in_mode || (m == PetMode::Happy && b.len() == 5 && forall|j: int|
                0 <= j < 5 ==> ascii_lower(#[trigger] b[j]) == ascii_lower(startup_extra_name()[j])))
        }),
{
    let b = utf8(name);
    let lb = lower_bytes(b);
    assert forall|mode: PetMode| #[trigger] name_matches_mode(b, mode) == (exists|i: int| #[trigger] keyword_at(b, mode_keyword(mode), i)) by {
        let kw = mode_keyword(mode);
        if name_matches_mode(b, mode) {
            let i = choose|i: int| occurs_at(lb, kw, i);
            assert forall|j: int| 0 <= j < kw.len() implies ascii_lower(#[trigger] b[i + j]) == kw[j] by {
                assert(lb.subrange(i, i + kw.len())[j] == lb[i + j]);
            }
            assert(keyword_at(b, kw, i));
        }
        if exists|i: int| #[trigger] keyword_at(b, kw, i) {
            let i = choose|i: int| #[trigger] keyword_at(b, kw, i);
            assert forall|j: int| 0 <= j < kw.len() implies #[trigger] lb.subrange(i, i + kw.len())[j] == kw[j] by {
                assert(ascii_lower(b[i + j]) == kw[j]);
            }
            assert(lb.subrange(i, i + kw.len()) =~= kw);
            assert(occurs_at(lb, kw, i));
        }
    }
    assert(name_matches_mode(b, m) == (exists|i: int| #[trigger] keyword_at(b, mode_keyword(m), i)));
    assert(name_matches_mode(b, PetMode::Happy) == (exists|i: int| #[trigger] keyword_at(b, mode_keyword(PetMode::Happy), i)));
    if starts_with_ignore_case(b, p) {
        assert forall|j: int| 0 <= j < p.len() implies ascii_lower(#[trigger] b[j]) == ascii_lower(p[j]) by {
            assert(lower_bytes(b.subrange(0, p.len() as int))[j] == lower_bytes(p)[j]);
        }
    }
    if p.len() <= b.len() && forall|j: int| 0 <= j < p.len() ==> ascii_lower(#[trigger] b[j]) == ascii_lower(p[j]) {
        assert(lower_bytes(b.subrange(0, p.len() as int)) =~= lower_bytes(p));
    }
    let e = startup_extra_name();
    if eq_ignore_case(b, e) {
        assert(lower_bytes(b).len() == 5);
        assert forall|j: int| 0 <= j < 5 implies ascii_lower(#[trigger] b[j]) == ascii_lower(e[j]) by {
            assert(lower_bytes(b)[j] == lower_bytes(e)[j]);
        }
    }
    if b.len() == 5 && forall|j: int| 0 <= j < 5 ==> ascii_lower(#[trigger] b[j]) == ascii_lower(e[j]) {
        assert(lower_bytes(b) =~= lower_bytes(e));
    }
}

/// The positions, in the sequence, of the entries that map to a value.
pub open spec fn mapped_positions<A, B>(s: Seq<A>, f: spec_fn(A) -> Option<B>) -> Seq<int>
    decreases s.len(),
{
    if s.len() == 0 {
        Seq::empty()
    } else if f(s.last()) is Some {
        mapped_positions(s.drop_last(), f).push(s.len() - 1)
    } else {
        mapped_positions(s.drop_last(), f)
    }
}

/// A filtered and mapped sequence keeps the order of the sequence: its
/// entries come from strictly increasing positions of the sequence.
pub proof fn lemma_filter_map_in_order<A, B>(s: Seq<A>, f: spec_fn(A) -> Option<B>)
    ensures
        mapped_positions(s, f).len() == s.filter_map(f).len(),
        forall|k: int|
            0 <= k < s.filter_map(f).len() ==> 0 <= #[trigger] mapped_positions(s, f)[k] < s.len() && f(
                s[mapped_positions(s, f)[k]],
            ) == Some(s.filter_map(f)[k]),
        forall|k1: int, k2: int|
            0 <= k1 < k2 < s.filter_map(f).len() ==> #[trigger] mapped_positions(s, f)[k1]
                < #[trigger] mapped_positions(s, f)[k2],
    decreases s.len(),
{
    if s.len() > 0 {
        let t = s.drop_last();
        lemma_filter_map_in_order(t, f);
        let pt = mapped_positions(t, f);
        let ps = mapped_positions(s, f);
        assert forall|k: int| 0 <= k < s.filter_map(f).len() implies 0 <= #[trigger] ps[k] < s.len() && f(s[ps[k]])
            == Some(s.filter_map(f)[k]) by {
            if k < pt.len() {
                assert(ps[k] == pt[k]);
                assert(s[pt[k]] == t[pt[k]]);
                assert(s.filter_map(f)[k] == t.filter_map(f)[k]);
            }
        }
        assert forall|k1: int, k2: int| 0 <= k1 < k2 < s.filter_map(f).len() implies #[trigger] ps[k1]
            < #[trigger] ps[k2] by {
            if k2 < pt.len() {
                assert(ps[k1] == pt[k1] && ps[k2] == pt[k2]);
            } else {
                assert(ps[k1] == pt[k1]);
            }
        }
    }
}

/// The directories a rule keeps come in listing order.
pub proof fn lemma_filter_dirs_in_order(dirs: Seq<AssetDirView>, rule: DirRule)
    ensures
        exists|pos: Seq<int>|
            #![trigger pos.len()]
            pos.len() == filter_dirs(dirs, rule).len() && (forall|k: int|
                0 <= k < pos.len() ==> 0 <= #[trigger] pos[k] < dirs.len() && dirs[pos[k]] == filter_dirs(dirs, rule)[k])
                && (forall|k1: int, k2: int| 0 <= k1 < k2 < pos.len() ==> #[trigger] pos[k1] < #[trigger] pos[k2]),
{
    let f = |d: AssetDirView| if keeps(rule, d.name) { Some(d) } else { None };
    lemma_filter_map_in_order(dirs, f);
    let pos = mapped_positions(dirs, f);
    assert forall|k: int| 0 <= k < pos.len() implies 0 <= #[trigger] pos[k] < dirs.len() && dirs[pos[k]] == filter_dirs(
        dirs,
        rule,
    )[k] by {
        assert(f(dirs[pos[k]]) == Some(filter_dirs(dirs, rule)[k]));
    }
}

/// The usable variants come in listing order: each is the frame list of a
/// listed directory, at strictly increasing listing positions.
pub proof fn lemma_usable_variants_in_order(dirs: Seq<AssetDirView>)
    ensures
        exists|pos: Seq<int>|
            #![trigger pos.len()]
            pos.len() == usable_variants(dirs).len() && (forall|k: int|
                0 <= k < pos.len() ==> 0 <= #[trigger] pos[k] < dirs.len() && dirs[pos[k]].png_files == Ok::<
                    Seq<String>,
                    Seq<char>,
                >(usable_variants(dirs)[k])) && (forall|k1: int, k2: int|
                0 <= k1 < k2 < pos.len() ==> #[trigger] pos[k1] < #[trigger] pos[k2]),
{
    let f = |d: AssetDirView| usable_files(d);
    lemma_filter_map_in_order(dirs, f);
    let pos = mapped_positions(dirs, f);
    assert forall|k: int| 0 <= k < pos.len() implies 0 <= #[trigger] pos[k] < dirs.len() && dirs[pos[k]].png_files
        == Ok::<Seq<String>, Seq<char>>(usable_variants(dirs)[k]) by {
        assert(f(dirs[pos[k]]) == Some(usable_variants(dirs)[k]));
    }
}

/// The variant picked by a choice below the number of variants is the
/// variant at that index, so every variant can be picked.
pub proof fn lemma_picked_variant(variants: Seq<Seq<String>>, choice: int)
    requires
        0 <= choice < variants.len(),
    ensures
        picked_variant(variants, choice) == variants[choice],
{
    vstd::arithmetic::div_mod::lemma_small_mod(choice as nat, variants.len());
}

} // verus!
