//! The offset table: for each tracked file, the last byte position already
//! consumed. Pure data; the table never touches a file.

use crate::text::str_eq;
use vstd::prelude::*;

verus! {

/// One tracked file: its path and the last consumed byte offset.
pub struct TrackedFile {
    pub path: String,
    pub offset: u64,
}

/// A table from file path to last consumed byte offset.
pub struct OffsetTable {
    entries: Vec<TrackedFile>,
}

/// No two entries of `s` name the same path.
spec fn unique_paths(s: Seq<TrackedFile>) -> bool {
    forall|i: int, j: int| 0 <= i < j < s.len() ==> s[i].path@ != s[j].path@
}

/// Some entry of `s` names path `p`.
spec fn tracks(s: Seq<TrackedFile>, p: Seq<char>) -> bool {
    exists|i: int| 0 <= i < s.len() && s[i].path@ == p
}

/// Some index of the entry of `s` that names `p`, when one exists.
spec fn entry_pos(s: Seq<TrackedFile>, p: Seq<char>) -> int {
    choose|i: int| 0 <= i < s.len() && s[i].path@ == p
}

/// The entries of `s` as a map from path to offset.
spec fn seq_view(s: Seq<TrackedFile>) -> Map<Seq<char>, u64> {
    Map::new(|p: Seq<char>| tracks(s, p), |p: Seq<char>| s[entry_pos(s, p)].offset)
}

/// Under unique paths, the map holds each entry at its path.
proof fn lemma_seq_view_at(s: Seq<TrackedFile>, k: int)
    requires
        unique_paths(s),
        0 <= k < s.len(),
    ensures
        seq_view(s).contains_key(s[k].path@),
        seq_view(s)[s[k].path@] == s[k].offset,
{
    assert(tracks(s, s[k].path@));
    let i = entry_pos(s, s[k].path@);
    assert(0 <= i < s.len() && s[i].path@ == s[k].path@);
    if i < k {
        assert(s[i].path@ != s[k].path@);
    } else if k < i {
        assert(s[k].path@ != s[i].path@);
    }
}

/// Changing only the offset of the entry at `k` turns the map into an insert
/// at that entry's path.
proof fn lemma_seq_view_update(s1: Seq<TrackedFile>, s2: Seq<TrackedFile>, k: int, offset: u64)
    requires
        unique_paths(s1),
        0 <= k < s1.len(),
        s2.len() == s1.len(),
        forall|i: int| 0 <= i < s1.len() ==> s2[i].path@ == s1[i].path@,
        forall|i: int| 0 <= i < s1.len() && i != k ==> s2[i].offset == s1[i].offset,
        s2[k].offset == offset,
    ensures
        unique_paths(s2),
        seq_view(s2) == seq_view(s1).insert(s1[k].path@, offset),
{
    let p = s1[k].path@;
    assert(unique_paths(s2));
    assert forall|q: Seq<char>| tracks(s2, q) <==> tracks(s1, q) by {
        if tracks(s2, q) {
            let i = choose|i: int| 0 <= i < s2.len() && s2[i].path@ == q;
            assert(s1[i].path@ == q);
        }
        if tracks(s1, q) {
            let i = choose|i: int| 0 <= i < s1.len() && s1[i].path@ == q;
            assert(s2[i].path@ == q);
        }
    }
    assert(tracks(s1, p));
    assert forall|q: Seq<char>| seq_view(s2).contains_key(q) implies seq_view(s2)[q] == seq_view(
        s1,
    ).insert(p, offset)[q] by {
        let i2 = entry_pos(s2, q);
        assert(0 <= i2 < s2.len() && s2[i2].path@ == q);
        if q == p {
            if i2 < k {
                assert(s2[i2].path@ != s2[k].path@);
            } else if k < i2 {
                assert(s2[k].path@ != s2[i2].path@);
            }
            assert(seq_view(s2)[q] == offset);
        } else {
            assert(i2 != k);
            lemma_seq_view_at(s1, i2);
            assert(seq_view(s1)[q] == s1[i2].offset);
            assert(seq_view(s2)[q] == s2[i2].offset) by {
                lemma_seq_view_at(s2, i2);
            }
        }
    }
    assert(seq_view(s2) =~= seq_view(s1).insert(p, offset));
}

/// Appending an entry with a fresh path turns the map into an insert.
proof fn lemma_seq_view_push(s: Seq<TrackedFile>, e: TrackedFile)
    requires
        unique_paths(s),
        !tracks(s, e.path@),
    ensures
        unique_paths(s.push(e)),
        seq_view(s.push(e)) == seq_view(s).insert(e.path@, e.offset),
{
    let s2 = s.push(e);
    assert forall|i: int, j: int| 0 <= i < j < s2.len() implies s2[i].path@ != s2[j].path@ by {
        if j == s.len() {
            assert(s2[i] == s[i]);
            if s2[i].path@ == e.path@ {
                assert(tracks(s, e.path@));
            }
        } else {
            assert(s2[i] == s[i] && s2[j] == s[j]);
        }
    }
    assert forall|q: Seq<char>| tracks(s2, q) <==> (tracks(s, q) || q == e.path@) by {
        if tracks(s2, q) {
            let i = choose|i: int| 0 <= i < s2.len() && s2[i].path@ == q;
            if i < s.len() {
                assert(s[i].path@ == q);
            }
        }
        if tracks(s, q) {
            let i = choose|i: int| 0 <= i < s.len() && s[i].path@ == q;
            assert(s2[i].path@ == q);
        }
        assert(s2[s.len() as int].path@ == e.path@);
    }
    assert forall|q: Seq<char>| seq_view(s2).contains_key(q) implies seq_view(s2)[q] == seq_view(
        s,
    ).insert(e.path@, e.offset)[q] by {
        let i2 = entry_pos(s2, q);
        assert(0 <= i2 < s2.len() && s2[i2].path@ == q);
        if q == e.path@ {
            assert(i2 == s.len()) by {
                if i2 < s.len() {
                    assert(s[i2].path@ == q);
                    assert(tracks(s, e.path@));
                }
            }
            assert(seq_view(s2)[q] == e.offset);
        } else {
            assert(i2 < s.len());
            assert(s[i2].path@ == q);
            lemma_seq_view_at(s, i2);
            lemma_seq_view_at(s2, i2);
        }
    }
    assert(seq_view(s2) =~= seq_view(s).insert(e.path@, e.offset));
}

impl View for OffsetTable {
    type V = Map<Seq<char>, u64>;

    closed spec fn view(&self) -> Map<Seq<char>, u64> {
        seq_view(self.entries@)
    }
}

impl OffsetTable {
    /// No two entries name the same path.
    pub closed spec fn wf(&self) -> bool {
        unique_paths(self.entries@)
    }

    /// An empty table.
    pub fn new() -> (t: Self)
        ensures
            t.wf(),
            t@ == Map::<Seq<char>, u64>::empty(),
    {
        let t = OffsetTable { entries: Vec::new() };
        proof {
            assert(t@ =~= Map::<Seq<char>, u64>::empty());
        }
        t
    }

    /// The stored offset for `path`, or `None` for a path the table does not
    /// hold.
    pub fn get(&self, path: &str) -> (r: Option<u64>)
        requires
            self.wf(),
        ensures
            match r {
                Some(v) => self@.contains_key(path@) && v == self@[path@],
                None => !self@.contains_key(path@),
            },
    {
        let n = self.entries.len();
        let mut k: usize = 0;
        while k < n
            invariant
                self.wf(),
                n == self.entries@.len(),
                k <= n,
                forall|j: int| 0 <= j < k ==> self.entries@[j].path@ != path@,
            decreases n - k,
        {
            if str_eq(self.entries[k].path.as_str(), path) {
                proof {
                    lemma_seq_view_at(self.entries@, k as int);
                }
                return Some(self.entries[k].offset);
            }
            k += 1;
        }
        assert(!tracks(self.entries@, path@));
        None
    }

    /// Store `offset` for a path the table already holds; report whether the
    /// path was found. A path the table does not hold is left out.
    pub fn set_offset(&mut self, path: &str, offset: u64) -> (found: bool)
        requires
            old(self).wf(),
        ensures
            final(self).wf(),
            found == old(self)@.contains_key(path@),
            found ==> final(self)@ == old(self)@.insert(path@, offset),
            !found ==> final(self)@ == old(self)@,
    {
        let n = self.entries.len();
        let mut k: usize = 0;
        while k < n
            invariant
                self.wf(),
                self.entries@ == old(self).entries@,
                n == self.entries@.len(),
                k <= n,
                forall|j: int| 0 <= j < k ==> self.entries@[j].path@ != path@,
            decreases n - k,
        {
            if str_eq(self.entries[k].path.as_str(), path) {
                proof {
                    assert(tracks(old(self).entries@, path@));
                }
                self.entries[k].offset = offset;
                proof {
                    lemma_seq_view_update(old(self).entries@, self.entries@, k as int, offset);
                }
                return true;
            }
            k += 1;
        }
        assert(!tracks(self.entries@, path@));
        false
    }

    /// Seed or overwrite the offset for `path`.
    pub fn initialize(&mut self, path: &str, offset: u64)
        requires
            old(self).wf(),
        ensures
            final(self).wf(),
            final(self)@ == old(self)@.insert(path@, offset),
    {
        if !self.set_offset(path, offset) {
            let ghost before = self.entries@;
            let entry = TrackedFile { path: path.to_owned(), offset };
            proof {
                lemma_seq_view_push(before, entry);
            }
            self.entries.push(entry);
        }
    }
}

} // verus!
