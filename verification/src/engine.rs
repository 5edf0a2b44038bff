//! The follow engine: configuration, offset seeding, and the decision taken
//! for each file-change event.
//!
//! The engine itself never touches a file. A caller watches the filesystem,
//! reports each event to [`MageLog::handle_event`], reads the byte range the
//! returned plan names, and hands the appended text to
//! [`MageLog::process_delta`] for filtering and formatting. The offset for a
//! file is advanced to the reported length before the caller reads, so the
//! same bytes are never planned twice.

use crate::filter::MageLogIssues;
use crate::lines::split_lines;
use crate::lines::split_into_lines;
use crate::offsets::OffsetTable;
use crate::render::OutputLine;
use crate::render::OutputLineView;
use crate::render::format_line;
use crate::render::output_for_line;
use crate::filter::line_emitted;
use crate::text::basename;
use crate::text::basename_of;
use vstd::prelude::*;
use vstd::seq_lib::*;
use vstd::string::StringExecFns;

verus! {

/// What kind of change a watcher reported for a file.
#[derive(PartialEq, Eq, Structural, Clone, Copy, Debug)]
pub enum ChangeKind {
    Modified,
    Other,
}

/// What the engine decides for one event.
#[derive(PartialEq, Eq, Structural, Clone, Copy, Debug)]
pub enum ReadPlan {
    /// Nothing to read: the event is not a modification, or the file did not
    /// grow past the stored offset.
    Skip,
    /// The event names a file the table was never seeded with; the engine
    /// cannot proceed for it.
    NotTracked,
    /// Read the bytes in `[from, to)` of the file.
    Read { from: u64, to: u64 },
}

/// The names of the three tracked files.
pub open spec fn exception_name() -> Seq<char> {
    "exception.log"@
}

pub open spec fn debug_name() -> Seq<char> {
    "debug.log"@
}

pub open spec fn system_name() -> Seq<char> {
    "system.log"@
}

/// The three tracked paths under the base path.
pub open spec fn tracked_paths_spec(base: Seq<char>) -> Seq<Seq<char>> {
    seq![base + exception_name(), base + debug_name(), base + system_name()]
}

/// The offset table after seeding each tracked path with its length.
pub open spec fn seeded_positions(
    m: Map<Seq<char>, u64>,
    base: Seq<char>,
    lens: Seq<u64>,
) -> Map<Seq<char>, u64> {
    m.insert(base + exception_name(), lens[0]).insert(base + debug_name(), lens[1]).insert(
        base + system_name(),
        lens[2],
    )
}

/// The plan for one event against the current offsets.
pub open spec fn plan_for(
    positions: Map<Seq<char>, u64>,
    kind: ChangeKind,
    path: Seq<char>,
    new_len: u64,
) -> ReadPlan {
    if kind != ChangeKind::Modified {
        ReadPlan::Skip
    } else if !positions.contains_key(path) {
        ReadPlan::NotTracked
    } else if new_len <= positions[path] {
        ReadPlan::Skip
    } else {
        ReadPlan::Read { from: positions[path], to: new_len }
    }
}

/// The offsets after one event: advanced to the reported length exactly when
/// the plan is a read, untouched otherwise.
pub open spec fn step_positions(
    positions: Map<Seq<char>, u64>,
    kind: ChangeKind,
    path: Seq<char>,
    new_len: u64,
) -> Map<Seq<char>, u64> {
    if plan_for(positions, kind, path, new_len) is Read {
        positions.insert(path, new_len)
    } else {
        positions
    }
}

/// The outputs for a batch of lines, in order: each emitted line formatted
/// under its class.
pub open spec fn outputs_of_lines(
    is_all: bool,
    issues: Seq<MageLogIssues>,
    filename: Seq<char>,
    lines: Seq<Seq<char>>,
) -> Seq<OutputLineView> {
    lines.filter_map(|l: Seq<char>| output_for_line(is_all, issues, filename, l))
}

/// The outputs for one appended block of text.
pub open spec fn outputs_of(
    is_all: bool,
    issues: Seq<MageLogIssues>,
    filename: Seq<char>,
    text: Seq<char>,
) -> Seq<OutputLineView> {
    outputs_of_lines(is_all, issues, filename, split_lines(text))
}

/// The follow engine's state: the configuration and the offset table.
pub struct MageLog {
    pub is_all: bool,
    pub path: String,
    pub issues: Vec<MageLogIssues>,
    pub files: Vec<String>,
    pub positions: OffsetTable,
}

impl MageLog {
    /// The offset table never holds two entries for one path.
    pub open spec fn wf(&self) -> bool {
        self.positions.wf()
    }

    /// A fresh engine: no flags, no path, no tracked files.
    pub fn new() -> (r: Self)
        ensures
            r.wf(),
            !r.is_all,
            r.path@ == Seq::<char>::empty(),
            r.issues@ == Seq::<MageLogIssues>::empty(),
            r.files@ == Seq::<String>::empty(),
            r.positions@ == Map::<Seq<char>, u64>::empty(),
    {
        MageLog {
            is_all: false,
            path: String::new(),
            issues: Vec::new(),
            files: Vec::new(),
            positions: OffsetTable::new(),
        }
    }

    /// Set the base path and forget previously derived file paths.
    pub fn set_path(&mut self, path: String)
        ensures
            *final(self) == (MageLog { path, files: final(self).files, ..*old(self) }),
            final(self).files@ == Seq::<String>::empty(),
    {
        self.files.clear();
        self.path = path;
    }

    /// Turn on all-mode; this also enables the `ERROR` issue. A `false` flag
    /// changes nothing.
    pub fn set_is_all(&mut self, is_all: bool)
        ensures
            *final(self) == (MageLog {
                is_all: final(self).is_all,
                issues: final(self).issues,
                ..*old(self)
            }),
            final(self).is_all == (old(self).is_all || is_all),
            is_all ==> final(self).issues@ == old(self).issues@.push(MageLogIssues::ERROR),
            !is_all ==> final(self).issues@ == old(self).issues@,
    {
        if is_all {
            self.is_all = true;
            self.issues.push(MageLogIssues::ERROR);
        }
    }

    /// Enable the `ERROR` issue. A `false` flag changes nothing.
    pub fn set_error_issue(&mut self, is_error: bool)
        ensures
            *final(self) == (MageLog { issues: final(self).issues, ..*old(self) }),
            is_error ==> final(self).issues@ == old(self).issues@.push(MageLogIssues::ERROR),
            !is_error ==> final(self).issues@ == old(self).issues@,
    {
        if is_error {
            self.issues.push(MageLogIssues::ERROR);
        }
    }

    /// Enable the `WARNING` issue. A `false` flag changes nothing.
    pub fn set_warning_issue(&mut self, is_warning: bool)
        ensures
            *final(self) == (MageLog { issues: final(self).issues, ..*old(self) }),
            is_warning ==> final(self).issues@ == old(self).issues@.push(MageLogIssues::WARNING),
            !is_warning ==> final(self).issues@ == old(self).issues@,
    {
        if is_warning {
            self.issues.push(MageLogIssues::WARNING);
        }
    }

    /// Enable the `CRITICAL` issue. A `false` flag changes nothing.
    pub fn set_critical_issue(&mut self, is_critical: bool)
        ensures
            *final(self) == (MageLog { issues: final(self).issues, ..*old(self) }),
            is_critical ==> final(self).issues@ == old(self).issues@.push(MageLogIssues::CRITICAL),
            !is_critical ==> final(self).issues@ == old(self).issues@,
    {
        if is_critical {
            self.issues.push(MageLogIssues::CRITICAL);
        }
    }

    /// The three file paths the engine tracks under the configured base path.
    pub fn tracked_paths(&self) -> (r: Vec<String>)
        ensures
            r.deep_view() == tracked_paths_spec(self.path@),
    {
        let mut r: Vec<String> = Vec::new();
        r.push(self.path.clone().concat("exception.log"));
        r.push(self.path.clone().concat("debug.log"));
        r.push(self.path.clone().concat("system.log"));
        proof {
            assert(r.deep_view() =~= tracked_paths_spec(self.path@));
        }
        r
    }

    /// Record the three tracked paths and seed each one's offset with the
    /// file length the caller read, so that content already in a file when
    /// the engine starts is never planned for reading.
    pub fn calculate_positions(&mut self, lengths: &Vec<u64>)
        requires
            old(self).wf(),
            lengths@.len() == 3,
        ensures
            final(self).wf(),
            *final(self) == (MageLog {
                files: final(self).files,
                positions: final(self).positions,
                ..*old(self)
            }),
            final(self).files.deep_view() == old(self).files.deep_view() + tracked_paths_spec(
                old(self).path@,
            ),
            final(self).positions@ == seeded_positions(
                old(self).positions@,
                old(self).path@,
                lengths@,
            ),
    {
        let a = self.path.clone().concat("exception.log");
        let b = self.path.clone().concat("debug.log");
        let c = self.path.clone().concat("system.log");
        self.positions.initialize(a.as_str(), lengths[0]);
        self.positions.initialize(b.as_str(), lengths[1]);
        self.positions.initialize(c.as_str(), lengths[2]);
        self.files.push(a);
        self.files.push(b);
        self.files.push(c);
        proof {
            assert(self.files.deep_view() =~= old(self).files.deep_view() + tracked_paths_spec(
                old(self).path@,
            ));
        }
    }

    /// Decide what one event means: nothing for non-modifications, an error
    /// for a file that was never seeded, nothing for a file that did not grow
    /// past the stored offset, and otherwise a read of the appended range,
    /// with the stored offset advanced to the reported length before any
    /// reading happens.
    pub fn handle_event(&mut self, kind: ChangeKind, path: &str, new_len: u64) -> (plan: ReadPlan)
        requires
            old(self).wf(),
        ensures
            final(self).wf(),
            plan == plan_for(old(self).positions@, kind, path@, new_len),
            final(self).positions@ == step_positions(old(self).positions@, kind, path@, new_len),
            *final(self) == (MageLog { positions: final(self).positions, ..*old(self) }),
    {
        match kind {
            ChangeKind::Other => ReadPlan::Skip,
            ChangeKind::Modified => {
                match self.positions.get(path) {
                    None => ReadPlan::NotTracked,
                    Some(stored) => {
                        if new_len <= stored {
                            ReadPlan::Skip
                        } else {
                            self.positions.set_offset(path, new_len);
                            ReadPlan::Read { from: stored, to: new_len }
                        }
                    },
                }
            },
        }
    }

    /// Filter and format one block of appended text from the file at `path`:
    /// split it into lines, keep each line an enabled issue matches, and
    /// format it with the file's name, preserving line order.
    pub fn process_delta(&self, path: &str, delta: &str) -> (out: Vec<OutputLine>)
        ensures
            out.deep_view() == outputs_of(self.is_all, self.issues@, basename_of(path@), delta@),
    {
        let filename = basename(path);
        let lines = split_into_lines(delta);
        let mut out: Vec<OutputLine> = Vec::new();
        let n = lines.len();
        let mut i: usize = 0;
        while i < n
            invariant
                n == lines@.len(),
                i <= n,
                lines.deep_view() == split_lines(delta@),
                filename@ == basename_of(path@),
                out.deep_view() == outputs_of_lines(
                    self.is_all,
                    self.issues@,
                    filename@,
                    lines.deep_view().take(i as int),
                ),
            decreases n - i,
        {
            let ghost f = |l: Seq<char>|
                output_for_line(self.is_all, self.issues@, filename@, l);
            proof {
                lines.deep_view().lemma_filter_map_take_succ(f, i as int);
            }
            match line_emitted(self.is_all, &self.issues, lines[i].as_str()) {
                Some(c) => {
                    let o = format_line(filename.as_str(), lines[i].as_str(), c);
                    proof {
                        assert(f(lines.deep_view()[i as int]) == Some(o@));
                        assert(out.deep_view().push(o@) =~= outputs_of_lines(
                            self.is_all,
                            self.issues@,
                            filename@,
                            lines.deep_view().take(i + 1),
                        ));
                    }
                    out.push(o);
                },
                None => {
                    proof {
                        assert(f(lines.deep_view()[i as int]) is None);
                        assert(out.deep_view() =~= outputs_of_lines(
                            self.is_all,
                            self.issues@,
                            filename@,
                            lines.deep_view().take(i + 1),
                        ));
                    }
                },
            }
            i += 1;
        }
        proof {
            assert(lines.deep_view().take(n as int) =~= lines.deep_view());
        }
        out
    }
}

} // verus!
