//! Severity classification of log lines.
//!
//! A line is classified by fixed substring markers: `main.ERROR` and
//! `main.CRITICAL` put it in the error class, `main.WARNING` in the warning
//! class; the error class wins when both kinds of marker occur. A classified
//! line is emitted when all-mode is on or when an enabled issue covers its
//! class; the `ERROR` and `CRITICAL` issues both cover the error class, since
//! the two markers are treated identically.

use crate::text::contains_seq;
use crate::text::contains_sub;
use vstd::prelude::*;

verus! {

/// The issues a user can enable.
#[derive(PartialEq, Eq, Structural, Clone, Copy, Debug)]
#[allow(non_camel_case_types)]
pub enum MageLogIssues {
    WARNING,
    ERROR,
    CRITICAL,
    ALL,
}

/// The class a line's marker puts it in.
#[derive(PartialEq, Eq, Structural, Clone, Copy, Debug)]
pub enum LineClass {
    ErrorClass,
    WarningClass,
}

pub open spec fn error_marker() -> Seq<char> {
    "main.ERROR"@
}

pub open spec fn critical_marker() -> Seq<char> {
    "main.CRITICAL"@
}

pub open spec fn warning_marker() -> Seq<char> {
    "main.WARNING"@
}

/// The class of a line, by its markers; the error class takes precedence.
pub open spec fn line_class(line: Seq<char>) -> Option<LineClass> {
    if contains_seq(line, error_marker()) || contains_seq(line, critical_marker()) {
        Some(LineClass::ErrorClass)
    } else if contains_seq(line, warning_marker()) {
        Some(LineClass::WarningClass)
    } else {
        None
    }
}

/// Whether one enabled issue covers lines of class `c`.
pub open spec fn issue_enables(issue: MageLogIssues, c: LineClass) -> bool {
    match issue {
        MageLogIssues::ALL => true,
        MageLogIssues::ERROR => c is ErrorClass,
        MageLogIssues::CRITICAL => c is ErrorClass,
        MageLogIssues::WARNING => c is WarningClass,
    }
}

/// Whether lines of class `c` are emitted under the given configuration.
pub open spec fn class_enabled(is_all: bool, issues: Seq<MageLogIssues>, c: LineClass) -> bool {
    is_all || exists|k: int| 0 <= k < issues.len() && issue_enables(issues[k], c)
}

/// The class under which a line is emitted, if it is emitted at all.
pub open spec fn emitted_class(is_all: bool, issues: Seq<MageLogIssues>, line: Seq<char>) -> Option<
    LineClass,
> {
    match line_class(line) {
        Some(c) => if class_enabled(is_all, issues, c) {
            Some(c)
        } else {
            None
        },
        None => None,
    }
}

/// Classify one line by its markers, without looking at the configuration.
pub fn classify_line(line: &str) -> (r: Option<LineClass>)
    ensures
        r == line_class(line@),
{
    if contains_sub(line, "main.ERROR") || contains_sub(line, "main.CRITICAL") {
        Some(LineClass::ErrorClass)
    } else if contains_sub(line, "main.WARNING") {
        Some(LineClass::WarningClass)
    } else {
        None
    }
}

fn issue_enables_exec(issue: MageLogIssues, c: LineClass) -> (r: bool)
    ensures
        r == issue_enables(issue, c),
{
    match issue {
        MageLogIssues::ALL => true,
        MageLogIssues::ERROR => matches!(c, LineClass::ErrorClass),
        MageLogIssues::CRITICAL => matches!(c, LineClass::ErrorClass),
        MageLogIssues::WARNING => matches!(c, LineClass::WarningClass),
    }
}

/// Whether lines of class `c` pass the configured filter.
pub fn class_enabled_exec(is_all: bool, issues: &Vec<MageLogIssues>, c: LineClass) -> (r: bool)
    ensures
        r == class_enabled(is_all, issues@, c),
{
    if is_all {
        return true;
    }
    let n = issues.len();
    let mut k: usize = 0;
    while k < n
        invariant
            n == issues@.len(),
            k <= n,
            forall|j: int| 0 <= j < k ==> !issue_enables(issues@[j], c),
        decreases n - k,
    {
        if issue_enables_exec(issues[k], c) {
            return true;
        }
        k += 1;
    }
    false
}

/// The class under which `line` is emitted under this configuration, or
/// `None` when the line produces no output.
pub fn line_emitted(is_all: bool, issues: &Vec<MageLogIssues>, line: &str) -> (r: Option<LineClass>)
    ensures
        r == emitted_class(is_all, issues@, line@),
{
    match classify_line(line) {
        Some(c) => if class_enabled_exec(is_all, issues, c) {
            Some(c)
        } else {
            None
        },
        None => None,
    }
}

} // verus!
