//! What a run has to say: one outcome per entry, and the line that reports it.

use vstd::prelude::*;
use vstd::string::*;

verus! {

/// Why an entry was left alone.
#[derive(Clone, Copy, Debug, PartialEq, Eq, Structural)]
pub enum SkipReason {
    /// The entry is a symbolic link.
    Symlink,
}

/// How one entry fared.
#[derive(Clone, Debug, PartialEq, Eq)]
pub enum Outcome {
    /// Both times of the entry were set.
    Applied { path: String },
    /// The entry was not touched.
    Skipped { path: String, reason: SkipReason },
    /// The times could not be set; `error` says why.
    Failed { path: String, error: String },
}

/// The mathematical content of an [`Outcome`].
pub enum OutcomeView {
    Applied { path: Seq<char> },
    Skipped { path: Seq<char>, reason: SkipReason },
    Failed { path: Seq<char>, error: Seq<char> },
}

impl View for Outcome {
    type V = OutcomeView;

    open spec fn view(&self) -> OutcomeView {
        match self {
            Outcome::Applied { path } => OutcomeView::Applied { path: path@ },
            Outcome::Skipped { path, reason } => OutcomeView::Skipped {
                path: path@,
                reason: *reason,
            },
            Outcome::Failed { path, error } => OutcomeView::Failed { path: path@, error: error@ },
        }
    }
}

impl DeepView for Outcome {
    type V = OutcomeView;

    open spec fn deep_view(&self) -> OutcomeView {
        self@
    }
}

/// The stream a line is written to.
#[derive(Clone, Copy, Debug, PartialEq, Eq, Structural)]
pub enum Stream {
    Output,
    Error,
}

/// One line of the report.
#[derive(Clone, Debug, PartialEq, Eq)]
pub struct Line {
    pub stream: Stream,
    pub text: String,
}

/// The mathematical content of a [`Line`].
pub struct LineView {
    pub stream: Stream,
    pub text: Seq<char>,
}

impl View for Line {
    type V = LineView;

    open spec fn view(&self) -> LineView {
        LineView { stream: self.stream, text: self.text@ }
    }
}

impl DeepView for Line {
    type V = LineView;

    open spec fn deep_view(&self) -> LineView {
        self@
    }
}

/// The line that reports an outcome. A success goes to the output stream, a
/// failure to the error stream, and a skipped entry is passed over in silence.
pub open spec fn line_of(outcome: OutcomeView) -> Option<LineView> {
    match outcome {
        OutcomeView::Applied { path } => Some(
            LineView { stream: Stream::Output, text: "Updated timestamp for: "@ + path },
        ),
        OutcomeView::Skipped { .. } => None,
        OutcomeView::Failed { path, error } => Some(
            LineView {
                stream: Stream::Error,
                text: "Failed to update "@ + path + ": "@ + error,
            },
        ),
    }
}

/// Writes the line that reports `outcome`, if it calls for one.
pub fn report(outcome: &Outcome) -> (line: Option<Line>)
    ensures
        line.deep_view() == line_of(outcome@),
{
    match outcome {
        Outcome::Applied { path } => {
            let mut text = String::from_str("Updated timestamp for: ");
            text.append(path.as_str());
            Some(Line { stream: Stream::Output, text })
        },
        Outcome::Skipped { .. } => None,
        Outcome::Failed { path, error } => {
            let mut text = String::from_str("Failed to update ");
            text.append(path.as_str());
            text.append(": ");
            text.append(error.as_str());
            Some(Line { stream: Stream::Error, text })
        },
    }
}

} // verus!
