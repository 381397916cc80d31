//! The order of directory paths, component by component, and a stable sort
//! of listed directories by path.

use vstd::prelude::*;

use crate::animation::assets::common::{dir_views, utf8, AssetDir, AssetDirView};

verus! {

/// The sort key of a path byte: the separator `/` sorts before every other
/// byte, so that paths compare component by component.
pub open spec fn byte_key(b: u8) -> int {
    if b == 47 {
        -1
    } else {
        b as int
    }
}

/// The sort keys of a path's UTF-8 bytes.
pub open spec fn path_key(path: Seq<char>) -> Seq<int> {
    utf8(path).map_values(|b: u8| byte_key(b))
}

/// Lexicographic order of key sequences: a proper prefix comes first.
pub open spec fn lex_le(a: Seq<int>, b: Seq<int>) -> bool
    decreases a.len(),
{
    if a.len() == 0 {
        true
    } else if b.len() == 0 {
        false
    } else if a[0] < b[0] {
        true
    } else if a[0] > b[0] {
        false
    } else {
        lex_le(a.drop_first(), b.drop_first())
    }
}

/// Directory `a` sorts no later than directory `b` by path.
pub open spec fn path_le(a: AssetDirView, b: AssetDirView) -> bool {
    lex_le(path_key(a.path), path_key(b.path))
}

/// `x` inserted into `s` after the leading entries that sort no later than
/// it.
pub open spec fn insert_by_path(s: Seq<AssetDirView>, x: AssetDirView) -> Seq<AssetDirView>
    decreases s.len(),
{
    if s.len() == 0 {
        seq![x]
    } else if path_le(s[0], x) {
        seq![s[0]].add(insert_by_path(s.drop_first(), x))
    } else {
        seq![x].add(s)
    }
}

/// The directories sorted by path, stably (insertion sort).
pub open spec fn sort_by_path(s: Seq<AssetDirView>) -> Seq<AssetDirView>
    decreases s.len(),
{
    if s.len() == 0 {
        s
    } else {
        insert_by_path(sort_by_path(s.drop_last()), s.last())
    }
}

/// The directories are in path order.
pub open spec fn sorted_by_path(s: Seq<AssetDirView>) -> bool {
    forall|i: int, j: int| 0 <= i < j < s.len() ==> path_le(#[trigger] s[i], #[trigger] s[j])
}

/// Either of two key sequences sorts no later than the other.
pub proof fn lemma_lex_le_total(a: Seq<int>, b: Seq<int>)
    ensures
        lex_le(a, b) || lex_le(b, a),
    decreases a.len(),
{
    if a.len() > 0 && b.len() > 0 && a[0] == b[0] {
        lemma_lex_le_total(a.drop_first(), b.drop_first());
    }
}

/// The order of key sequences is transitive.
pub proof fn lemma_lex_le_trans(a: Seq<int>, b: Seq<int>, c: Seq<int>)
    requires
        lex_le(a, b),
        lex_le(b, c),
    ensures
        lex_le(a, c),
    decreases a.len(),
{
    if a.len() > 0 && b.len() > 0 && c.len() > 0 && a[0] == b[0] && b[0] == c[0] {
        lemma_lex_le_trans(a.drop_first(), b.drop_first(), c.drop_first());
    }
}

/// Inserting keeps the other entries and adds `x`, and inserting into a
/// sorted sequence gives a sorted sequence.
proof fn lemma_insert_by_path(s: Seq<AssetDirView>, x: AssetDirView)
    ensures
        insert_by_path(s, x).to_multiset() == s.to_multiset().insert(x),
        insert_by_path(s, x).len() == s.len() + 1,
        sorted_by_path(s) ==> sorted_by_path(insert_by_path(s, x)),
        forall|y: AssetDirView|
            #![trigger insert_by_path(s, x).contains(y)]
            insert_by_path(s, x).contains(y) ==> y == x || s.contains(y),
    decreases s.len(),
{
    broadcast use vstd::seq_lib::group_seq_properties;
    broadcast use vstd::multiset::group_multiset_axioms;

    let r = insert_by_path(s, x);
    if s.len() == 0 {
        assert(r.to_multiset() =~= s.to_multiset().insert(x));
    } else if path_le(s[0], x) {
        let t = s.drop_first();
        lemma_insert_by_path(t, x);
        let rt = insert_by_path(t, x);
        assert(r == seq![s[0]].add(rt));
        assert(s == seq![s[0]].add(t));
        vstd::seq_lib::lemma_multiset_commutative(seq![s[0]], rt);
        vstd::seq_lib::lemma_multiset_commutative(seq![s[0]], t);
        assert(r.to_multiset() =~= s.to_multiset().insert(x));
        assert forall|y: AssetDirView| #![trigger r.contains(y)] r.contains(y) implies y == x || s.contains(y) by {
            let k = choose|k: int| 0 <= k < r.len() && r[k] == y;
            if k > 0 {
                assert(rt[k - 1] == y);
                assert(rt.contains(y));
                if t.contains(y) {
                    let m = choose|m: int| 0 <= m < t.len() && t[m] == y;
                    assert(s[m + 1] == y);
                }
            } else {
                assert(s[0] == y);
            }
        }
        if sorted_by_path(s) {
            assert(sorted_by_path(t)) by {
                assert forall|i: int, j: int| 0 <= i < j < t.len() implies path_le(#[trigger] t[i], #[trigger] t[j]) by {
                    assert(t[i] == s[i + 1] && t[j] == s[j + 1]);
                }
            }
            assert forall|i: int, j: int| 0 <= i < j < r.len() implies path_le(#[trigger] r[i], #[trigger] r[j]) by {
                if i == 0 {
                    assert(r[0] == s[0]);
                    assert(rt.contains(r[j])) by {
                        assert(rt[j - 1] == r[j]);
                    }
                    if r[j] == x {
                    } else {
                        assert(t.contains(r[j]));
                        let m = choose|m: int| 0 <= m < t.len() && t[m] == r[j];
                        assert(s[m + 1] == r[j]);
                    }
                } else {
                    assert(r[i] == rt[i - 1] && r[j] == rt[j - 1]);
                }
            }
        }
    } else {
        assert(r == seq![x].add(s));
        vstd::seq_lib::lemma_multiset_commutative(seq![x], s);
        assert(r.to_multiset() =~= s.to_multiset().insert(x));
        assert forall|y: AssetDirView| #![trigger r.contains(y)] r.contains(y) implies y == x || s.contains(y) by {
            let k = choose|k: int| 0 <= k < r.len() && r[k] == y;
            if k > 0 {
                assert(s[k - 1] == y);
            }
        }
        if sorted_by_path(s) {
            lemma_lex_le_total(path_key(s[0].path), path_key(x.path));
            assert forall|i: int, j: int| 0 <= i < j < r.len() implies path_le(#[trigger] r[i], #[trigger] r[j]) by {
                if i == 0 {
                    assert(r[j] == s[j - 1]);
                    if j - 1 > 0 {
                        assert(path_le(s[0], s[j - 1]));
                        lemma_lex_le_trans(path_key(x.path), path_key(s[0].path), path_key(s[j - 1].path));
                    }
                } else {
                    assert(r[i] == s[i - 1] && r[j] == s[j - 1]);
                }
            }
        }
    }
}

/// Sorting by path gives a sorted permutation of the directories.
pub proof fn lemma_sort_by_path(s: Seq<AssetDirView>)
    ensures
        sorted_by_path(sort_by_path(s)),
        sort_by_path(s).to_multiset() == s.to_multiset(),
        sort_by_path(s).len() == s.len(),
    decreases s.len(),
{
    broadcast use vstd::seq_lib::group_seq_properties;

    if s.len() > 0 {
        lemma_sort_by_path(s.drop_last());
        lemma_insert_by_path(sort_by_path(s.drop_last()), s.last());
        assert(s == s.drop_last().push(s.last()));
    }
}

/// Comparing from position `i` on, once the keys before `i` agree.
proof fn lemma_lex_le_skip(a: Seq<int>, b: Seq<int>, i: int)
    requires
        0 <= i < a.len(),
        i < b.len(),
        a[i] == b[i],
    ensures
        lex_le(a.skip(i), b.skip(i)) == lex_le(a.skip(i + 1), b.skip(i + 1)),
{
    assert(a.skip(i).drop_first() =~= a.skip(i + 1));
    assert(b.skip(i).drop_first() =~= b.skip(i + 1));
}

/// The sort key of one byte.
fn byte_key_exec(b: u8) -> (r: i16)
    ensures
        r == byte_key(b),
{
    if b == 47 {
        -1
    } else {
        b as i16
    }
}

/// Whether path `a` sorts no later than path `b`.
pub fn path_le_exec(a: &str, b: &str) -> (r: bool)
    ensures
        r == lex_le(path_key(a@), path_key(b@)),
{
    let ab = a.as_bytes();
    let bb = b.as_bytes();
    let ghost ka = path_key(a@);
    let ghost kb = path_key(b@);
    assert(ka.skip(0) =~= ka);
    assert(kb.skip(0) =~= kb);
    let na = ab.len();
    let nb = bb.len();
    let mut i: usize = 0;
    while i < na && i < nb
        invariant
            na == ab@.len(),
            nb == bb@.len(),
            ab@ == utf8(a@),
            bb@ == utf8(b@),
            ka == path_key(a@),
            kb == path_key(b@),
            ka.len() == na,
            kb.len() == nb,
            i <= na,
            i <= nb,
            lex_le(ka, kb) == lex_le(ka.skip(i as int), kb.skip(i as int)),
        decreases na - i,
    {
        let x = byte_key_exec(ab[i]);
        let y = byte_key_exec(bb[i]);
        assert(ka[i as int] == x && kb[i as int] == y);
        assert(ka.skip(i as int)[0] == x && kb.skip(i as int)[0] == y);
        if x < y {
            return true;
        }
        if x > y {
            return false;
        }
        proof {
            lemma_lex_le_skip(ka, kb, i as int);
        }
        i = i + 1;
    }
    if i == na {
        assert(ka.skip(i as int).len() == 0);
        true
    } else {
        assert(kb.skip(i as int).len() == 0);
        assert(ka.skip(i as int).len() > 0);
        false
    }
}

/// Inserting at the first position whose entry sorts after `x` is
/// `insert_by_path`.
proof fn lemma_insert_at(s: Seq<AssetDirView>, x: AssetDirView, pos: int)
    requires
        0 <= pos <= s.len(),
        forall|j: int| 0 <= j < pos ==> path_le(#[trigger] s[j], x),
        pos == s.len() || !path_le(s[pos], x),
    ensures
        insert_by_path(s, x) == s.insert(pos, x),
    decreases s.len(),
{
    if s.len() == 0 {
        assert(s.insert(pos, x) =~= seq![x]);
    } else if pos == 0 {
        assert(s.insert(0, x) =~= seq![x].add(s));
    } else {
        let t = s.drop_first();
        assert forall|j: int| 0 <= j < pos - 1 implies path_le(#[trigger] t[j], x) by {
            assert(t[j] == s[j + 1]);
        }
        if pos < s.len() {
            assert(t[pos - 1] == s[pos]);
        }
        lemma_insert_at(t, x, pos - 1);
        assert(s.insert(pos, x) =~= seq![s[0]].add(t.insert(pos - 1, x)));
    }
}

/// The listed directories sorted by path, stably.
pub fn sort_dirs_by_path(dirs: Vec<AssetDir>) -> (r: Vec<AssetDir>)
    ensures
        dir_views(r@) == sort_by_path(dir_views(dirs@)),
{
    let mut rest = dirs;
    let ghost all = dir_views(rest@);
    let mut sorted: Vec<AssetDir> = Vec::new();
    let mut i: usize = 0;
    let n = rest.len();
    while rest.len() > 0
        invariant
            all.len() == n,
            i + rest@.len() == n,
            dir_views(rest@) == all.skip(i as int),
            dir_views(sorted@) == sort_by_path(all.take(i as int)),
        decreases rest@.len(),
    {
        let ghost old_rest = rest@;
        let x = rest.remove(0);
        let ghost xv = x@;
        assert(dir_views(old_rest)[0] == old_rest[0]@);
        assert(all.skip(i as int)[0] == all[i as int]);
        assert(xv == all[i as int]);
        assert(rest@ =~= old_rest.drop_first());
        assert forall|k: int| 0 <= k < rest@.len() implies #[trigger] dir_views(rest@)[k] == all.skip(i + 1)[k] by {
            assert(rest@[k] == old_rest[k + 1]);
            assert(dir_views(old_rest)[k + 1] == all.skip(i as int)[k + 1]);
        }
        assert(dir_views(rest@) =~= all.skip(i + 1));
        let len = sorted.len();
        let mut pos: usize = 0;
        let mut stop = false;
        while pos < len && !stop
            invariant
                len == sorted@.len(),
                pos <= len,
                forall|j: int| 0 <= j < pos ==> path_le(#[trigger] dir_views(sorted@)[j], xv),
                stop ==> pos < len && !path_le(dir_views(sorted@)[pos as int], xv),
                x@ == xv,
            decreases len - pos + (if stop { 0int } else { 1int }),
        {
            if path_le_exec(sorted[pos].path.as_str(), x.path.as_str()) {
                pos = pos + 1;
            } else {
                stop = true;
            }
        }
        proof {
            lemma_insert_at(dir_views(sorted@), xv, pos as int);
            assert(all.take(i + 1).drop_last() =~= all.take(i as int));
        }
        let ghost before = sorted@;
        sorted.insert(pos, x);
        assert(dir_views(sorted@) =~= dir_views(before).insert(pos as int, xv));
        i = i + 1;
    }
    assert(all.take(n as int) =~= all);
    sorted
}

} // verus!
