//! Formatting matched lines for display.
//!
//! A matched line becomes `"<filename> --> <line>"` with a color tag: red for
//! the error class, yellow for the warning class. The tag alone is part of the
//! verified logic; turning the tag into terminal colors goes through the
//! `colored` crate, whose output also depends on whether coloring is enabled
//! for the process, so the rendering contract states both outcomes.

use crate::filter::LineClass;
use crate::filter::MageLogIssues;
use crate::filter::emitted_class;
use crate::text::contains_seq;
use vstd::prelude::*;
use vstd::string::StringExecFns;

verus! {

/// How a line should be colored on a terminal.
#[derive(PartialEq, Eq, Structural, Clone, Copy, Debug)]
pub enum ColorTag {
    Red,
    Yellow,
}

/// The color for a line of the given class.
pub open spec fn color_of(c: LineClass) -> ColorTag {
    match c {
        LineClass::ErrorClass => ColorTag::Red,
        LineClass::WarningClass => ColorTag::Yellow,
    }
}

/// The mathematical content of an [`OutputLine`].
pub struct OutputLineView {
    pub filename: Seq<char>,
    pub body: Seq<char>,
    pub color: ColorTag,
}

/// One display line produced for a matched log line: the name of the file it
/// came from, the raw line, and the color the line should carry.
pub struct OutputLine {
    pub filename: String,
    pub body: String,
    pub color: ColorTag,
}

impl View for OutputLine {
    type V = OutputLineView;

    open spec fn view(&self) -> OutputLineView {
        OutputLineView { filename: self.filename@, body: self.body@, color: self.color }
    }
}

impl DeepView for OutputLine {
    type V = OutputLineView;

    open spec fn deep_view(&self) -> OutputLineView {
        self.view()
    }
}

/// The output produced for one line under one configuration, if any.
pub open spec fn output_for_line(
    is_all: bool,
    issues: Seq<MageLogIssues>,
    filename: Seq<char>,
    line: Seq<char>,
) -> Option<OutputLineView> {
    match emitted_class(is_all, issues, line) {
        Some(c) => Some(OutputLineView { filename, body: line, color: color_of(c) }),
        None => None,
    }
}

/// Build the display line for a line matched under class `c`.
pub fn format_line(filename: &str, line: &str, c: LineClass) -> (r: OutputLine)
    ensures
        r@ == (OutputLineView { filename: filename@, body: line@, color: color_of(c) }),
{
    OutputLine { filename: filename.to_owned(), body: line.to_owned(), color: color_of_exec(c) }
}

fn color_of_exec(c: LineClass) -> (r: ColorTag)
    ensures
        r == color_of(c),
{
    match c {
        LineClass::ErrorClass => ColorTag::Red,
        LineClass::WarningClass => ColorTag::Yellow,
    }
}

/// The separator between the file name and the line.
pub open spec fn arrow() -> Seq<char> {
    " --> "@
}

/// The escape sequence that ends a colored span.
pub open spec fn reset_seq() -> Seq<char> {
    "\x1b[0m"@
}

/// The escape sequence that starts a span of the given color.
pub open spec fn color_prefix(tag: ColorTag) -> Seq<char> {
    match tag {
        ColorTag::Red => "\x1b[31m"@,
        ColorTag::Yellow => "\x1b[33m"@,
    }
}

/// Relies on colored::Colorize::red and ColoredString's Display: with coloring
/// disabled for the process the text is returned unchanged; with it enabled,
/// a text that holds no reset sequence is wrapped in the red escape and the
/// reset.
#[verifier::external_body]
fn paint_red(s: &str) -> (r: String)
    ensures
        r@ == s@ || contains_seq(s@, reset_seq()) || r@ == color_prefix(ColorTag::Red) + s@
            + reset_seq(),
{
    format!("{}", colored::Colorize::red(s))
}

/// Relies on colored::Colorize::yellow and ColoredString's Display: with
/// coloring disabled for the process the text is returned unchanged; with it
/// enabled, a text that holds no reset sequence is wrapped in the yellow
/// escape and the reset.
#[verifier::external_body]
fn paint_yellow(s: &str) -> (r: String)
    ensures
        r@ == s@ || contains_seq(s@, reset_seq()) || r@ == color_prefix(ColorTag::Yellow) + s@
            + reset_seq(),
{
    format!("{}", colored::Colorize::yellow(s))
}

impl OutputLine {
    /// The display text without any coloring.
    pub fn display_text(&self) -> (r: String)
        ensures
            r@ == self.filename@ + arrow() + self.body@,
    {
        let mut s = self.filename.clone();
        s.append(" --> ");
        s.append(self.body.as_str());
        s
    }

    /// The display text with the body colored for a terminal. The body is
    /// wrapped in its color's escapes when coloring is enabled for the
    /// process and the body holds no reset sequence; it stays plain when
    /// coloring is disabled.
    pub fn rendered(&self) -> (r: String)
        ensures
            r@ == self.filename@ + arrow() + self.body@ || contains_seq(self.body@, reset_seq())
                || r@ == self.filename@ + arrow() + color_prefix(self.color) + self.body@
                + reset_seq(),
    {
        let painted = match self.color {
            ColorTag::Red => paint_red(self.body.as_str()),
            ColorTag::Yellow => paint_yellow(self.body.as_str()),
        };
        let mut s = self.filename.clone();
        s.append(" --> ");
        s.append(painted.as_str());
        s
    }
}

} // verus!
