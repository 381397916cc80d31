//! Decisions on plain directory and file names that pick where frames are
//! read from: PNG file names, the mode directory of an asset root with its
//! fallbacks, the child directory of a segment, and the variant directories
//! of a mode.

use vstd::prelude::*;

use crate::animation::assets::common::{dir_name_matches_mode, name_matches_mode, utf8};
use crate::stats::model::PetMode;
use crate::text::{ascii_lower, eq_ignore_case, eq_ignore_case_exec, lower_bytes, to_ascii_lower};

verus! {

/// The extension `png`.
pub open spec fn png_ext() -> Seq<u8> {
    seq![112u8, 110, 103]
}

/// The position of the last `.` among the first `n` bytes, or -1.
pub open spec fn last_dot_before(b: Seq<u8>, n: int) -> int
    decreases n,
{
    if n <= 0 {
        -1
    } else if b[n - 1] == 46 {
        n - 1
    } else {
        last_dot_before(b, n - 1)
    }
}

/// A file name has the extension `png`, ignoring ASCII case: the text after
/// its last `.` is `png`, and that `.` does not start the name.
pub open spec fn is_png_name(b: Seq<u8>) -> bool {
    let i = last_dot_before(b, b.len() as int);
    i > 0 && eq_ignore_case(b.subrange(i + 1, b.len() as int), png_ext())
}

/// Facts about the last `.`.
proof fn lemma_last_dot(b: Seq<u8>, n: int)
    requires
        0 <= n <= b.len(),
    ensures
        -1 <= last_dot_before(b, n) < n,
        last_dot_before(b, n) >= 0 ==> b[last_dot_before(b, n)] == 46,
        forall|j: int| last_dot_before(b, n) < j < n ==> b[j] != 46,
    decreases n,
{
    if n > 0 && b[n - 1] != 46 {
        lemma_last_dot(b, n - 1);
    }
}

/// Whether a file name has the extension `png`, ignoring ASCII case.
pub fn has_png_extension(file_name: &str) -> (r: bool)
    ensures
        r == is_png_name(utf8(file_name@)),
{
    let b = file_name.as_bytes();
    let ghost bs = b@;
    let n = b.len();
    let mut k: usize = n;
    while k > 0 && b[k - 1] != 46
        invariant
            bs == b@,
            n == bs.len(),
            k <= n,
            last_dot_before(bs, n as int) == last_dot_before(bs, k as int),
        decreases k,
    {
        k = k - 1;
    }
    proof {
        lemma_last_dot(bs, n as int);
    }
    if k <= 1 {
        return false;
    }
    let i = k - 1;
    assert(last_dot_before(bs, n as int) == i);
    if n - (i + 1) != 3 {
        assert(lower_bytes(bs.subrange(i + 1, n as int)).len() != 3);
        return false;
    }
    let r = to_ascii_lower(b[i + 1]) == 112 && to_ascii_lower(b[i + 2]) == 110 && to_ascii_lower(b[i + 3]) == 103;
    let ghost tail = bs.subrange(i + 1, n as int);
    assert(tail[0] == bs[i + 1] && tail[1] == bs[i + 2] && tail[2] == bs[i + 3]);
    if r {
        assert(lower_bytes(tail) =~= lower_bytes(png_ext()));
    } else {
        assert(lower_bytes(tail)[0] != lower_bytes(png_ext())[0] || lower_bytes(tail)[1] != lower_bytes(png_ext())[1]
            || lower_bytes(tail)[2] != lower_bytes(png_ext())[2]);
    }
    r
}

/// The texts of the names.
pub open spec fn name_texts(names: Seq<String>) -> Seq<Seq<char>> {
    names.map_values(|s: String| s@)
}

/// The index of the first name at or after `i` that belongs to the mode.
pub open spec fn first_mode_name_from(names: Seq<Seq<char>>, mode: PetMode, i: int) -> Option<int>
    decreases names.len() - i,
{
    if i < 0 || i >= names.len() {
        None
    } else if name_matches_mode(utf8(names[i]), mode) {
        Some(i)
    } else {
        first_mode_name_from(names, mode, i + 1)
    }
}

/// The index of the first name that belongs to the mode.
pub open spec fn first_mode_name(names: Seq<Seq<char>>, mode: PetMode) -> Option<int> {
    first_mode_name_from(names, mode, 0)
}

/// The mode directory of an asset root: the first one of the mode, else the
/// first normal one, else the first happy one.
pub open spec fn mode_dir_choice(names: Seq<Seq<char>>, mode: PetMode) -> Option<int> {
    match first_mode_name(names, mode) {
        Some(i) => Some(i),
        None => match first_mode_name(names, PetMode::Nomal) {
            Some(i) => Some(i),
            None => first_mode_name(names, PetMode::Happy),
        },
    }
}

/// The first name is a match, and there is none when none is found.
pub proof fn lemma_first_mode_name(names: Seq<Seq<char>>, mode: PetMode, i: int)
    requires
        0 <= i,
    ensures
        match first_mode_name_from(names, mode, i) {
            Some(j) => i <= j < names.len() && name_matches_mode(utf8(names[j]), mode) && forall|k: int|
                i <= k < j ==> !name_matches_mode(utf8(#[trigger] names[k]), mode),
            None => forall|k: int| i <= k < names.len() ==> !name_matches_mode(utf8(#[trigger] names[k]), mode),
        },
    decreases names.len() - i,
{
    if i < names.len() {
        lemma_first_mode_name(names, mode, i + 1);
    }
}

/// The index of the first name that belongs to the mode.
fn first_mode_name_exec(names: &[String], mode: PetMode) -> (r: Option<usize>)
    ensures
        match r {
            None => first_mode_name(name_texts(names@), mode) is None,
            Some(i) => first_mode_name(name_texts(names@), mode) == Some(i as int),
        },
{
    let ghost v = name_texts(names@);
    let mut i: usize = names.len();
    let mut found: Option<usize> = None;
    while i > 0
        invariant
            v == name_texts(names@),
            i <= names@.len(),
            match found {
                None => first_mode_name_from(v, mode, i as int) is None,
                Some(j) => first_mode_name_from(v, mode, i as int) == Some(j as int),
            },
        decreases i,
    {
        i = i - 1;
        if dir_name_matches_mode(names[i].as_str(), mode) {
            found = Some(i);
        }
    }
    found
}

/// The index of the mode directory among the names of an asset root's
/// directories: the first of the mode, else the first normal one, else the
/// first happy one.
pub fn mode_dir_with_fallback(names: &[String], mode: PetMode) -> (r: Option<usize>)
    ensures
        match r {
            None => mode_dir_choice(name_texts(names@), mode) is None,
            Some(i) => mode_dir_choice(name_texts(names@), mode) == Some(i as int),
        },
{
    match first_mode_name_exec(names, mode) {
        Some(i) => Some(i),
        None => match first_mode_name_exec(names, PetMode::Nomal) {
            Some(i) => Some(i),
            None => first_mode_name_exec(names, PetMode::Happy),
        },
    }
}

/// The mode directory chosen for a mode is of the mode whenever some
/// directory is, and is then the first such; otherwise it is the first
/// normal one, or else the first happy one; none is chosen only when no
/// directory is of the mode, normal or happy.
pub proof fn lemma_mode_dir_choice(names: Seq<Seq<char>>, mode: PetMode)
    ensures
        (exists|j: int| 0 <= j < names.len() && name_matches_mode(utf8(#[trigger] names[j]), mode))
            ==> mode_dir_choice(names, mode) == first_mode_name(names, mode) && first_mode_name(names, mode) is Some,
        mode_dir_choice(names, mode) matches Some(i) ==> 0 <= i < names.len() && (name_matches_mode(
            utf8(names[i]),
            mode,
        ) || name_matches_mode(utf8(names[i]), PetMode::Nomal) || name_matches_mode(
            utf8(names[i]),
            PetMode::Happy,
        )),
        mode_dir_choice(names, mode) is None ==> forall|k: int|
            0 <= k < names.len() ==> {
                &&& !name_matches_mode(utf8(#[trigger] names[k]), mode)
                &&& !name_matches_mode(utf8(names[k]), PetMode::Nomal)
                &&& !name_matches_mode(utf8(names[k]), PetMode::Happy)
            },
{
    lemma_first_mode_name(names, mode, 0);
    lemma_first_mode_name(names, PetMode::Nomal, 0);
    lemma_first_mode_name(names, PetMode::Happy, 0);
    if exists|j: int| 0 <= j < names.len() && name_matches_mode(utf8(#[trigger] names[j]), mode) {
        let j = choose|j: int| 0 <= j < names.len() && name_matches_mode(utf8(#[trigger] names[j]), mode);
        assert(first_mode_name(names, mode) is Some);
    }
}

/// The index of the first name at or after `i` equal to the one-letter name
/// `letter`, ignoring ASCII case.
pub open spec fn segment_child_from(names: Seq<Seq<char>>, letter: u8, i: int) -> Option<int>
    decreases names.len() - i,
{
    if i < 0 || i >= names.len() {
        None
    } else if eq_ignore_case(utf8(names[i]), seq![letter]) {
        Some(i)
    } else {
        segment_child_from(names, letter, i + 1)
    }
}

/// The index of the child directory of a segment: the first whose name is
/// the segment letter, ignoring ASCII case.
pub fn segment_child(names: &[String], letter: u8) -> (r: Option<usize>)
    ensures
        match r {
            None => segment_child_from(name_texts(names@), letter, 0) is None,
            Some(i) => segment_child_from(name_texts(names@), letter, 0) == Some(i as int),
        },
{
    let ghost v = name_texts(names@);
    let key: Vec<u8> = vec![letter];
    assert(key@ =~= seq![letter]);
    let mut i: usize = names.len();
    let mut found: Option<usize> = None;
    while i > 0
        invariant
            v == name_texts(names@),
            key@ == seq![letter],
            i <= names@.len(),
            match found {
                None => segment_child_from(v, letter, i as int) is None,
                Some(j) => segment_child_from(v, letter, i as int) == Some(j as int),
            },
        decreases i,
    {
        i = i - 1;
        if eq_ignore_case_exec(names[i].as_str().as_bytes(), key.as_slice()) {
            found = Some(i);
        }
    }
    found
}

/// The segment child found for two letters that agree ignoring ASCII case is
/// the same.
pub proof fn lemma_segment_child_ignores_case(names: Seq<Seq<char>>, a: u8, b: u8, i: int)
    requires
        ascii_lower(a) == ascii_lower(b),
    ensures
        segment_child_from(names, a, i) == segment_child_from(names, b, i),
    decreases names.len() - i,
{
    assert(lower_bytes(seq![a]) =~= lower_bytes(seq![b]));
    if 0 <= i < names.len() {
        lemma_segment_child_ignores_case(names, a, b, i + 1);
    }
}

/// The indices, in order, of the names among the first `n` that belong to
/// the mode.
pub open spec fn mode_name_indices(names: Seq<Seq<char>>, mode: PetMode, n: int) -> Seq<int>
    decreases n,
{
    if n <= 0 {
        Seq::empty()
    } else if name_matches_mode(utf8(names[n - 1]), mode) {
        mode_name_indices(names, mode, n - 1).push(n - 1)
    } else {
        mode_name_indices(names, mode, n - 1)
    }
}

/// The variant directories of a mode: those of the mode, or, when there are
/// none and the mode is not the normal one, those of the normal mode.
pub open spec fn mode_variant_choice(names: Seq<Seq<char>>, mode: PetMode) -> Seq<int> {
    let own = mode_name_indices(names, mode, names.len() as int);
    if own.len() == 0 && mode != PetMode::Nomal {
        mode_name_indices(names, PetMode::Nomal, names.len() as int)
    } else {
        own
    }
}

/// The indices of the names that belong to the mode.
fn mode_name_indices_exec(names: &[String], mode: PetMode) -> (r: Vec<usize>)
    ensures
        r@.len() == mode_name_indices(name_texts(names@), mode, names@.len() as int).len(),
        forall|k: int|
            0 <= k < r@.len() ==> r@[k] as int == #[trigger] mode_name_indices(
                name_texts(names@),
                mode,
                names@.len() as int,
            )[k],
{
    let ghost v = name_texts(names@);
    let n = names.len();
    let mut r: Vec<usize> = Vec::new();
    let mut i: usize = 0;
    while i < n
        invariant
            v == name_texts(names@),
            n == names@.len(),
            i <= n,
            r@.len() == mode_name_indices(v, mode, i as int).len(),
            forall|k: int| 0 <= k < r@.len() ==> r@[k] as int == #[trigger] mode_name_indices(v, mode, i as int)[k],
        decreases n - i,
    {
        if dir_name_matches_mode(names[i].as_str(), mode) {
            r.push(i);
        }
        i = i + 1;
    }
    r
}

/// The indices of the variant directories of a mode among the names of an
/// asset root's directories: those of the mode, else (for a mode other than
/// the normal one) those of the normal mode.
pub fn mode_variant_dirs(names: &[String], mode: PetMode) -> (r: Vec<usize>)
    ensures
        r@.len() == mode_variant_choice(name_texts(names@), mode).len(),
        forall|k: int|
            0 <= k < r@.len() ==> r@[k] as int == #[trigger] mode_variant_choice(name_texts(names@), mode)[k],
{
    let own = mode_name_indices_exec(names, mode);
    if own.len() == 0 && mode != PetMode::Nomal {
        mode_name_indices_exec(names, PetMode::Nomal)
    } else {
        own
    }
}

} // verus!
