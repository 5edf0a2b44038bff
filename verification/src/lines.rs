//! Splitting appended text into newline-delimited lines.
//!
//! A trailing fragment without a terminator counts as a complete line, so a
//! line still being written may be emitted in two parts; the terminators
//! themselves are not part of any line.

use vstd::prelude::*;
use vstd::string::StrSliceExecFns;

verus! {

/// Walk `s` from the front: the lines completed by a newline so far, and the
/// unterminated fragment after the last newline.
pub open spec fn line_scan(s: Seq<char>) -> (Seq<Seq<char>>, Seq<char>)
    decreases s.len(),
{
    if s.len() == 0 {
        (Seq::empty(), Seq::empty())
    } else {
        let (done, cur) = line_scan(s.drop_last());
        if s.last() == '\n' {
            (done.push(cur), Seq::empty())
        } else {
            (done, cur.push(s.last()))
        }
    }
}

/// The lines of `s`: newline-delimited pieces, plus the trailing piece when
/// `s` does not end in a newline.
pub open spec fn split_lines(s: Seq<char>) -> Seq<Seq<char>> {
    let (done, cur) = line_scan(s);
    if cur.len() == 0 {
        done
    } else {
        done.push(cur)
    }
}

/// Split `text` at each newline; a trailing unterminated fragment is kept as
/// a line of its own.
pub fn split_into_lines(text: &str) -> (lines: Vec<String>)
    ensures
        lines.deep_view() == split_lines(text@),
{
    let n = text.unicode_len();
    let mut lines: Vec<String> = Vec::new();
    let mut start: usize = 0;
    let mut i: usize = 0;
    while i < n
        invariant
            n == text@.len(),
            start <= i <= n,
            lines.deep_view() == line_scan(text@.take(i as int)).0,
            line_scan(text@.take(i as int)).1 == text@.subrange(start as int, i as int),
        decreases n - i,
    {
        let c = text.get_char(i);
        proof {
            assert(text@.take(i + 1).drop_last() =~= text@.take(i as int));
            assert(text@.take(i + 1).last() == text@[i as int]);
        }
        if c == '\n' {
            let piece = text.substring_char(start, i).to_owned();
            proof {
                assert(lines.deep_view().push(piece@) =~= line_scan(text@.take(i + 1)).0);
            }
            lines.push(piece);
            proof {
                assert(lines.deep_view() =~= line_scan(text@.take(i + 1)).0);
            }
            start = i + 1;
            assert(line_scan(text@.take(i as int + 1)).1 =~= text@.subrange(
                start as int,
                i as int + 1,
            ));
        } else {
            assert(line_scan(text@.take(i + 1)).1 =~= text@.subrange(start as int, i as int).push(
                text@[i as int],
            ));
            assert(text@.subrange(start as int, i + 1) =~= text@.subrange(start as int, i as int).push(
                text@[i as int],
            ));
        }
        i += 1;
    }
    proof {
        assert(text@.take(n as int) =~= text@);
    }
    if start < n {
        let piece = text.substring_char(start, n).to_owned();
        proof {
            assert(lines.deep_view().push(piece@) =~= split_lines(text@));
        }
        lines.push(piece);
        proof {
            assert(lines.deep_view() =~= split_lines(text@));
        }
    } else {
        assert(line_scan(text@).1 =~= Seq::<char>::empty());
        assert(lines.deep_view() =~= split_lines(text@));
    }
    lines
}

} // verus!
