//! Line preprocessing: stripping end-of-line comments and dropping lines with
//! nothing left.

use vstd::prelude::*;

verus! {

/// The position where an end-of-line comment (`//`) begins, or the end of the
/// line when it holds none.
pub open spec fn comment_start(s: Seq<char>, i: int) -> int
    decreases s.len() - i,
{
    if i < 0 || i + 1 >= s.len() {
        s.len() as int
    } else if s[i] == '/' && s[i + 1] == '/' {
        i
    } else {
        comment_start(s, i + 1)
    }
}

/// Whether an end-of-line comment begins at position `i`.
fn comment_at(s: &str, i: usize, len: usize) -> (r: bool)
    requires
        i < len,
        len as nat == s@.len(),
    ensures
        r == (i + 1 < s@.len() && s@[i as int] == '/' && s@[i as int + 1] == '/'),
{
    if i + 1 < len {
        s.get_char(i) == '/' && s.get_char(i + 1) == '/'
    } else {
        false
    }
}

/// Cuts an end-of-line comment off and hands the line back, or nothing when
/// nothing precedes the comment (or the line was empty to begin with).
pub fn remove_whitespace_comments(s: &str) -> (r: Option<&str>)
    ensures
        match r {
            Some(t) => comment_start(s@, 0) > 0 && t@ == s@.subrange(0, comment_start(s@, 0)),
            None => comment_start(s@, 0) == 0,
        },
{
    let len = s.unicode_len();
    let mut i: usize = 0;
    while i < len && !comment_at(s, i, len)
        invariant
            0 <= i <= len,
            len == s@.len(),
            comment_start(s@, 0) == comment_start(s@, i as int),
        decreases len - i,
    {
        i = i + 1;
    }
    let cut: usize = i;
    proof {
        assert(cut as int == comment_start(s@, 0));
    }
    if cut == 0 {
        None
    } else {
        Some(s.substring_char(0, cut))
    }
}

} // verus!
