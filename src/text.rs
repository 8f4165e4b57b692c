//! Small verified helpers on text.
use vstd::prelude::*;

verus! {

/// `needle` occurs in `hay` starting at position `i`.
pub open spec fn occurs_at(hay: Seq<char>, needle: Seq<char>, i: int) -> bool {
    0 <= i && i + needle.len() <= hay.len() && hay.subrange(i, i + needle.len()) == needle
}

/// `needle` occurs somewhere in `hay`.
pub open spec fn contains_seq(hay: Seq<char>, needle: Seq<char>) -> bool {
    exists|i: int| occurs_at(hay, needle, i)
}

/// The texts of a vector of strings.
pub open spec fn texts(v: Seq<String>) -> Seq<Seq<char>> {
    v.map_values(|s: String| s@)
}

/// Character-wise equality of two texts.
pub fn same_text(a: &str, b: &str) -> (r: bool)
    ensures
        r == (a@ == b@),
{
    let n = a.unicode_len();
    if n != b.unicode_len() {
        return false;
    }
    let mut i: usize = 0;
    while i < n
        invariant
            n == a@.len(),
            n == b@.len(),
            i <= n,
            forall|k: int| 0 <= k < i ==> a@[k] == b@[k],
        decreases n - i,
    {
        if a.get_char(i) != b.get_char(i) {
            return false;
        }
        i = i + 1;
    }
    assert(a@ =~= b@);
    true
}

/// Whether `needle` occurs at position `i` of `hay`.
fn occurs_at_exec(hay: &str, needle: &str, i: usize) -> (r: bool)
    requires
        i + needle@.len() <= hay@.len(),
    ensures
        r == occurs_at(hay@, needle@, i as int),
{
    let n = hay.unicode_len();
    let m = needle.unicode_len();
    let mut k: usize = 0;
    while k < m
        invariant
            n == hay@.len(),
            m == needle@.len(),
            i + m <= hay@.len(),
            k <= m,
            forall|j: int| 0 <= j < k ==> hay@[i + j] == needle@[j],
        decreases m - k,
    {
        if hay.get_char(i + k) != needle.get_char(k) {
            assert(hay@.subrange(i as int, i + m)[k as int] != needle@[k as int]);
            return false;
        }
        k = k + 1;
    }
    assert(hay@.subrange(i as int, i + m) =~= needle@);
    true
}

/// Whether `needle` occurs anywhere in `hay`.
pub fn contains_text(hay: &str, needle: &str) -> (r: bool)
    ensures
        r == contains_seq(hay@, needle@),
{
    let n = hay.unicode_len();
    let m = needle.unicode_len();
    if m > n {
        return false;
    }
    let mut i: usize = 0;
    loop
        invariant
            n == hay@.len(),
            m == needle@.len(),
            m <= n,
            i <= n - m,
            forall|j: int| 0 <= j < i ==> !occurs_at(hay@, needle@, j),
        decreases n - m - i,
    {
        if occurs_at_exec(hay, needle, i) {
            return true;
        }
        if i == n - m {
            return false;
        }
        i = i + 1;
    }
}

/// Whether some string of `v` has the text `t`.
pub fn vec_has_text(v: &Vec<String>, t: &str) -> (r: bool)
    ensures
        r == texts(v@).contains(t@),
{
    let mut i: usize = 0;
    while i < v.len()
        invariant
            i <= v.len(),
            forall|j: int| 0 <= j < i ==> v@[j]@ != t@,
        decreases v.len() - i,
    {
        if same_text(v[i].as_str(), t) {
            assert(texts(v@)[i as int] == t@);
            return true;
        }
        i = i + 1;
    }
    assert(!texts(v@).contains(t@)) by {
        if texts(v@).contains(t@) {
            let j = choose|j: int| 0 <= j < texts(v@).len() && texts(v@)[j] == t@;
            assert(v@[j]@ == t@);
        }
    }
    false
}

} // verus!
