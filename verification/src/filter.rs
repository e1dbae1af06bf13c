//! Ignore-pattern filtering of path segments.
//!
//! A directory entry is excluded as soon as any pattern occurs as a
//! case-sensitive substring of the entry's name. The walk applies this test
//! independently at every directory level, so an excluded directory is never
//! entered and its whole subtree disappears from the result.

use vstd::prelude::*;

verus! {

/// `needle` occurs as a contiguous run of characters inside `hay`.
pub open spec fn is_substring_of(needle: Seq<char>, hay: Seq<char>) -> bool {
    exists|i: int|
        0 <= i <= hay.len() - needle.len() && #[trigger] hay.subrange(i, i + needle.len() as int)
            == needle
}

/// Some pattern of the set occurs inside `name`.
pub open spec fn excluded(name: Seq<char>, patterns: Seq<String>) -> bool {
    exists|k: int| 0 <= k < patterns.len() && is_substring_of(patterns[k]@, name)
}

/// `needle` matches `hay` exactly at character offset `at`.
fn matches_at(hay: &str, needle: &str, at: usize, hay_len: usize, needle_len: usize) -> (r: bool)
    requires
        hay_len == hay@.len(),
        needle_len == needle@.len(),
        at + needle_len <= hay_len,
    ensures
        r == (hay@.subrange(at as int, at + needle@.len()) == needle@),
{
    let mut j: usize = 0;
    while j < needle_len
        invariant
            hay_len == hay@.len(),
            needle_len == needle@.len(),
            at + needle_len <= hay_len,
            0 <= j <= needle_len,
            forall|k: int| 0 <= k < j ==> hay@[at + k] == needle@[k],
        decreases needle_len - j,
    {
        let hc = hay.get_char(at + j);
        let nc = needle.get_char(j);
        if hc != nc {
            assert(hay@.subrange(at as int, at + needle@.len())[j as int] != needle@[j as int]);
            return false;
        }
        j = j + 1;
    }
    assert(hay@.subrange(at as int, at + needle@.len()) =~= needle@);
    true
}

/// `needle` occurs somewhere inside `hay`.
pub fn contains_substring(hay: &str, needle: &str) -> (r: bool)
    ensures
        r == is_substring_of(needle@, hay@),
{
    let hay_len = hay.unicode_len();
    let needle_len = needle.unicode_len();
    if needle_len > hay_len {
        return false;
    }
    let bound = hay_len - needle_len;
    let mut i: usize = 0;
    loop
        invariant
            hay_len == hay@.len(),
            needle_len == needle@.len(),
            needle_len <= hay_len,
            bound == hay_len - needle_len,
            0 <= i <= bound,
            forall|k: int|
                0 <= k < i ==> #[trigger] hay@.subrange(k, k + needle@.len() as int) != needle@,
        decreases bound - i,
    {
        if matches_at(hay, needle, i, hay_len, needle_len) {
            return true;
        }
        if i == bound {
            return false;
        }
        i = i + 1;
    }
}

/// Whether a directory entry named `name` survives the ignore patterns.
///
/// An empty pattern set keeps everything.
pub fn included(name: &str, patterns: &Vec<String>) -> (r: bool)
    ensures
        r == !excluded(name@, patterns@),
{
    let mut k: usize = 0;
    while k < patterns.len()
        invariant
            0 <= k <= patterns@.len(),
            forall|m: int| 0 <= m < k ==> !is_substring_of(patterns@[m]@, name@),
        decreases patterns@.len() - k,
    {
        if contains_substring(name, patterns[k].as_str()) {
            assert(excluded(name@, patterns@));
            return false;
        }
        k = k + 1;
    }
    true
}

} // verus!
