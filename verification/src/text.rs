//! ASCII case-insensitive byte matching used on directory and file names.

use vstd::prelude::*;

verus! {

/// ASCII lowercase of one byte; every other byte is left as it is.
pub open spec fn ascii_lower(b: u8) -> u8 {
    if 65 <= b <= 90 {
        (b + 32) as u8
    } else {
        b
    }
}

/// Byte-wise ASCII lowercase of a byte string (same length).
pub open spec fn lower_bytes(s: Seq<u8>) -> Seq<u8> {
    s.map_values(|b: u8| ascii_lower(b))
}

/// `needle` occurs in `hay` starting at byte position `i`.
pub open spec fn occurs_at(hay: Seq<u8>, needle: Seq<u8>, i: int) -> bool {
    &&& 0 <= i
    &&& i + needle.len() <= hay.len()
    &&& hay.subrange(i, i + needle.len()) == needle
}

/// `needle` occurs somewhere in `hay`.
pub open spec fn contains_bytes(hay: Seq<u8>, needle: Seq<u8>) -> bool {
    exists|i: int| occurs_at(hay, needle, i)
}

/// `s` starts with `prefix` once both are ASCII-lowercased.
pub open spec fn starts_with_ignore_case(s: Seq<u8>, prefix: Seq<u8>) -> bool {
    prefix.len() <= s.len() && lower_bytes(s.subrange(0, prefix.len() as int)) == lower_bytes(prefix)
}

/// `a` and `b` are equal once both are ASCII-lowercased.
pub open spec fn eq_ignore_case(a: Seq<u8>, b: Seq<u8>) -> bool {
    lower_bytes(a) == lower_bytes(b)
}

/// ASCII lowercase of one byte.
pub fn to_ascii_lower(b: u8) -> (r: u8)
    ensures
        r == ascii_lower(b),
{
    if 65 <= b && b <= 90 {
        b + 32
    } else {
        b
    }
}

/// Whether `needle` occurs at position `i` of `hay`, comparing bytes exactly.
fn occurs_at_exec(hay: &[u8], needle: &[u8], i: usize) -> (r: bool)
    requires
        i + needle@.len() <= hay@.len(),
    ensures
        r == occurs_at(hay@, needle@, i as int),
{
    let n = needle.len();
    let hl = hay.len();
    let mut k: usize = 0;
    while k < n
        invariant
            n == needle@.len(),
            hl == hay@.len(),
            i + n <= hay@.len(),
            k <= n,
            forall|j: int| 0 <= j < k ==> hay@[i + j] == needle@[j],
        decreases n - k,
    {
        if hay[i + k] != needle[k] {
            assert(hay@.subrange(i as int, i + n)[k as int] != needle@[k as int]);
            return false;
        }
        k = k + 1;
    }
    assert(hay@.subrange(i as int, i + n) =~= needle@);
    true
}

/// ASCII-lowercased copy of a byte string.
pub fn lowercase_bytes(s: &[u8]) -> (r: Vec<u8>)
    ensures
        r@ == lower_bytes(s@),
{
    let mut r: Vec<u8> = Vec::new();
    let n = s.len();
    let mut i: usize = 0;
    while i < n
        invariant
            n == s@.len(),
            i <= n,
            r@ =~= lower_bytes(s@.subrange(0, i as int)),
        decreases n - i,
    {
        r.push(to_ascii_lower(s[i]));
        i = i + 1;
        assert(lower_bytes(s@.subrange(0, i as int)) =~= lower_bytes(s@.subrange(0, i - 1)).push(ascii_lower(s@[i - 1])));
    }
    assert(s@.subrange(0, n as int) =~= s@);
    r
}

/// Whether `needle` occurs somewhere in `hay`, comparing bytes exactly.
pub fn contains_exec(hay: &[u8], needle: &[u8]) -> (r: bool)
    ensures
        r == contains_bytes(hay@, needle@),
{
    if needle.len() > hay.len() {
        assert forall|i: int| !occurs_at(hay@, needle@, i) by {}
        return false;
    }
    let last = hay.len() - needle.len();
    let mut i: usize = 0;
    while i <= last
        invariant
            last + needle@.len() == hay@.len(),
            forall|j: int| 0 <= j < i ==> !occurs_at(hay@, needle@, j),
        decreases last + 1 - i,
    {
        if occurs_at_exec(hay, needle, i) {
            return true;
        }
        if i == last {
            assert forall|j: int| !occurs_at(hay@, needle@, j) by {
                if 0 <= j < i {
                } else if j == i {
                } else {
                }
            }
            return false;
        }
        i = i + 1;
    }
    false
}

/// Whether `s` starts with `prefix` ignoring ASCII case.
pub fn starts_with_ignore_case_exec(s: &[u8], prefix: &[u8]) -> (r: bool)
    ensures
        r == starts_with_ignore_case(s@, prefix@),
{
    let n = prefix.len();
    if n > s.len() {
        return false;
    }
    let mut k: usize = 0;
    while k < n
        invariant
            n == prefix@.len(),
            n <= s@.len(),
            k <= n,
            forall|j: int| 0 <= j < k ==> ascii_lower(s@[j]) == ascii_lower(prefix@[j]),
        decreases n - k,
    {
        if to_ascii_lower(s[k]) != to_ascii_lower(prefix[k]) {
            assert(lower_bytes(s@.subrange(0, n as int))[k as int] != lower_bytes(prefix@)[k as int]);
            return false;
        }
        k = k + 1;
    }
    assert(lower_bytes(s@.subrange(0, n as int)) =~= lower_bytes(prefix@));
    true
}

/// Whether `a` and `b` are equal ignoring ASCII case.
pub fn eq_ignore_case_exec(a: &[u8], b: &[u8]) -> (r: bool)
    ensures
        r == eq_ignore_case(a@, b@),
{
    if a.len() != b.len() {
        assert(lower_bytes(a@).len() != lower_bytes(b@).len());
        return false;
    }
    let r = starts_with_ignore_case_exec(a, b);
    assert(a@.subrange(0, b@.len() as int) =~= a@);
    r
}

} // verus!
