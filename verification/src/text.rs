//! Plain text utilities: substring search, string equality, and extraction of
//! the file name from a path.

use vstd::prelude::*;
use vstd::string::StrSliceExecFns;

verus! {

/// The pattern `pat` occurs in `text` starting at position `i`.
pub open spec fn match_at(text: Seq<char>, pat: Seq<char>, i: int) -> bool {
    0 <= i && i + pat.len() <= text.len() && text.subrange(i, i + pat.len() as int) == pat
}

/// The pattern `pat` occurs somewhere in `text`.
pub open spec fn contains_seq(text: Seq<char>, pat: Seq<char>) -> bool {
    exists|i: int| match_at(text, pat, i)
}

/// Does `pat` occur in `text` starting exactly at position `i`?
fn match_here(text: &str, pat: &str, i: usize) -> (r: bool)
    requires
        i + pat@.len() <= text@.len(),
        text@.len() <= usize::MAX,
    ensures
        r == match_at(text@, pat@, i as int),
{
    let m = pat.unicode_len();
    let mut j: usize = 0;
    while j < m
        invariant
            j <= m,
            m == pat@.len(),
            i + m <= text@.len(),
            text@.len() <= usize::MAX,
            forall|k: int| 0 <= k < j ==> text@[i + k] == pat@[k],
        decreases m - j,
    {
        if text.get_char(i + j) != pat.get_char(j) {
            assert(!match_at(text@, pat@, i as int)) by {
                assert(text@.subrange(i as int, i + m) != pat@) by {
                    assert(text@.subrange(i as int, i + m)[j as int] == text@[i + j]);
                }
            }
            return false;
        }
        j += 1;
    }
    assert(text@.subrange(i as int, i + m) =~= pat@);
    true
}

/// Whether `text` contains `pat` as a contiguous substring.
pub fn contains_sub(text: &str, pat: &str) -> (r: bool)
    ensures
        r == contains_seq(text@, pat@),
{
    let n = text.unicode_len();
    let m = pat.unicode_len();
    if m > n {
        assert(forall|i: int| !match_at(text@, pat@, i));
        return false;
    }
    if m == 0 {
        assert(match_at(text@, pat@, 0)) by {
            assert(text@.subrange(0, 0) =~= pat@);
        }
        return true;
    }
    let limit = n - m + 1;
    let mut i: usize = 0;
    while i < limit
        invariant
            n == text@.len(),
            m == pat@.len(),
            1 <= m <= n,
            limit == n - m + 1,
            i <= limit,
            forall|j: int| 0 <= j < i ==> !match_at(text@, pat@, j),
        decreases limit - i,
    {
        if match_here(text, pat, i) {
            return true;
        }
        i += 1;
    }
    assert(forall|j: int| !match_at(text@, pat@, j));
    false
}

/// Whether two string slices hold the same characters.
pub fn str_eq(a: &str, b: &str) -> (r: bool)
    ensures
        r == (a@ == b@),
{
    let n = a.unicode_len();
    if n != b.unicode_len() {
        return false;
    }
    let mut i: usize = 0;
    while i < n
        invariant
            n == a@.len(),
            n == b@.len(),
            i <= n,
            forall|k: int| 0 <= k < i ==> a@[k] == b@[k],
        decreases n - i,
    {
        if a.get_char(i) != b.get_char(i) {
            return false;
        }
        i += 1;
    }
    assert(a@ =~= b@);
    true
}

/// The part of `p` after its last `/`; `p` itself when it holds no `/`,
/// empty when `p` ends in `/`.
pub open spec fn basename_of(p: Seq<char>) -> Seq<char>
    decreases p.len(),
{
    if p.len() == 0 {
        Seq::empty()
    } else if p.last() == '/' {
        Seq::empty()
    } else {
        basename_of(p.drop_last()).push(p.last())
    }
}

/// The file name component of a path: everything after the last `/`.
pub fn basename(path: &str) -> (r: String)
    ensures
        r@ == basename_of(path@),
{
    let n = path.unicode_len();
    let mut start: usize = 0;
    let mut i: usize = 0;
    while i < n
        invariant
            n == path@.len(),
            start <= i <= n,
            basename_of(path@.take(i as int)) =~= path@.subrange(start as int, i as int),
        decreases n - i,
    {
        let c = path.get_char(i);
        proof {
            assert(path@.take(i + 1).drop_last() =~= path@.take(i as int));
            assert(path@.take(i + 1).last() == path@[i as int]);
        }
        if c == '/' {
            start = i + 1;
        } else {
            assert(path@.take(i + 1) =~= path@.take(i as int).push(path@[i as int]));
            assert(path@.subrange(start as int, i + 1) =~= path@.subrange(start as int, i as int).push(
                path@[i as int],
            ));
        }
        i += 1;
    }
    assert(path@.take(n as int) =~= path@);
    path.substring_char(start, n).to_owned()
}

} // verus!
