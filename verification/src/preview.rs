//! File previews: the first lines of a file's content.
//!
//! A preview shows at most `PREVIEW_LINE_LIMIT` lines. Lines end at a
//! newline character; the preview is the prefix of the content that stops
//! right before the newline which would end the last allowed line, so it
//! never carries a trailing newline of its own.

use vstd::prelude::*;

use crate::error::CommandError;
use crate::error::ErrorKind;

verus! {

/// How many lines a preview may hold.
pub const PREVIEW_LINE_LIMIT: usize = 20;

/// How many newline characters a text holds.
pub open spec fn newline_count(s: Seq<char>) -> nat
    decreases s.len(),
{
    if s.len() == 0 {
        0
    } else {
        newline_count(s.drop_last()) + if s.last() == '\n' {
            1nat
        } else {
            0nat
        }
    }
}

/// `p` is the preview of `s` with at most `k` lines: the prefix of `s`
/// that ends right before the `k`-th newline, or all of `s` when it has
/// fewer lines than that.
pub open spec fn is_preview_of(p: Seq<char>, s: Seq<char>, k: nat) -> bool {
    &&& p == s.subrange(0, p.len() as int)
    &&& p.len() <= s.len()
    &&& newline_count(p) < k
    &&& p.len() < s.len() ==> s[p.len() as int] == '\n' && newline_count(p) == k - 1
}

/// One file preview: the path and name of the file, its size in bytes,
/// and the first lines of its content.
#[derive(Debug)]
pub struct FilePreview {
    pub path: String,
    pub name: String,
    pub preview: String,
    pub size: u64,
}

/// `n` is the file name of `path`: its last segment, after the final
/// separator.
pub open spec fn is_file_name_of(n: Seq<char>, path: Seq<char>) -> bool {
    &&& n == path.subrange(path.len() - n.len(), path.len() as int)
    &&& n.len() <= path.len()
    &&& forall|i: int| 0 <= i < n.len() ==> n[i] != '/'
    &&& n.len() < path.len() ==> path[path.len() - n.len() - 1] == '/'
}

/// The prefix of `s` holding at most its first `k` lines.
pub fn take_lines(s: &str, k: usize) -> (r: String)
    requires
        k >= 1,
    ensures
        is_preview_of(r@, s@, k as nat),
{
    let len = s.unicode_len();
    let mut i: usize = 0;
    let mut seen: usize = 0;
    while i < len
        invariant
            0 <= i <= len,
            len == s@.len(),
            seen == newline_count(s@.subrange(0, i as int)),
            seen < k <= usize::MAX,
            i < len ==> seen < k,
        decreases len - i,
    {
        let c = s.get_char(i);
        proof {
            assert(s@.subrange(0, i + 1).drop_last() =~= s@.subrange(0, i as int));
            assert(s@.subrange(0, i + 1).last() == s@[i as int]);
        }
        if c == '\n' {
            if seen + 1 == k {
                let r = String::from_str(s.substring_char(0, i));
                proof {
                    assert(r@ == s@.subrange(0, i as int));
                }
                return r;
            }
            seen = seen + 1;
        } else {
            proof {
                assert(newline_count(s@.subrange(0, i + 1)) == seen);
            }
        }
        i = i + 1;
    }
    let r = String::from_str(s.substring_char(0, len));
    proof {
        assert(s@.subrange(0, len as int) =~= s@);
        assert(r@ == s@.subrange(0, r@.len() as int));
    }
    r
}

/// The last path segment, or `None` when the path ends in a separator or
/// is empty.
pub fn file_name_of(path: &str) -> (r: Option<String>)
    ensures
        match r {
            Some(n) => n@.len() > 0 && is_file_name_of(n@, path@),
            None => path@.len() == 0 || path@.last() == '/',
        },
{
    let len = path.unicode_len();
    if len == 0 {
        return None;
    }
    if path.get_char(len - 1) == '/' {
        return None;
    }
    let mut start: usize = 0;
    let mut i: usize = 0;
    while i < len
        invariant
            0 <= start <= i <= len,
            len == path@.len(),
            forall|t: int| start <= t < i ==> path@[t] != '/',
            start > 0 ==> path@[start - 1] == '/',
        decreases len - i,
    {
        if path.get_char(i) == '/' {
            start = i + 1;
        }
        i = i + 1;
    }
    let n = String::from_str(path.substring_char(start, len));
    proof {
        assert(n@ == path@.subrange(start as int, len as int));
        assert(start < len);
        assert(n@.len() == len - start);
        assert(n@ == path@.subrange(path@.len() - n@.len(), path@.len() as int));
        assert(forall|t: int| 0 <= t < n@.len() ==> n@[t] == path@[start + t]);
    }
    Some(n)
}

/// Builds the preview of one file from its path, its size, and its
/// content as read. Fails with `InvalidState` when the path holds no file
/// name.
pub fn get_file_preview(path: &String, size: u64, content: &String) -> (r: Result<
    FilePreview,
    CommandError,
>)
    ensures
        match r {
            Ok(p) => {
                &&& p.path@ == path@
                &&& p.size == size
                &&& p.name@.len() > 0
                &&& is_file_name_of(p.name@, path@)
                &&& is_preview_of(p.preview@, content@, PREVIEW_LINE_LIMIT as nat)
            },
            Err(e) => e.kind == ErrorKind::InvalidState && (path@.len() == 0 || path@.last()
                == '/'),
        },
{
    match file_name_of(path.as_str()) {
        Some(name) => {
            let preview = take_lines(content.as_str(), PREVIEW_LINE_LIMIT);
            Ok(FilePreview { path: path.clone(), name, preview, size })
        },
        None => Err(
            CommandError::invalid_state(String::from_str("failed to extract filename")),
        ),
    }
}

} // verus!
