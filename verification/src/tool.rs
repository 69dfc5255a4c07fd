//! What one run of the outside tool gave back.

use vstd::prelude::*;
use crate::text::{decode, stripped, text_of, trim};

verus! {

/// The name of the program that reads and sets the keyboard layout.
pub const TOOL: &'static str = "setxkbmap";

/// The outcome of one attempt to run the tool, as the caller observed it.
#[derive(Clone, Debug, PartialEq, Eq)]
pub enum ToolRun {
    /// The tool could not be started.
    NotStarted,
    /// The tool ran and ended. `status` is its exit code, absent where the
    /// system gave none; the other two are what it wrote.
    Exited { status: Option<i32>, stdout: Vec<u8>, stderr: Vec<u8> },
}

/// The model of a [`ToolRun`].
pub enum ToolRunView {
    NotStarted,
    Exited { status: Option<i32>, stdout: Seq<u8>, stderr: Seq<u8> },
}

impl View for ToolRun {
    type V = ToolRunView;

    open spec fn view(&self) -> ToolRunView {
        match self {
            ToolRun::NotStarted => ToolRunView::NotStarted,
            ToolRun::Exited { status, stdout, stderr } => ToolRunView::Exited {
                status: *status,
                stdout: stdout@,
                stderr: stderr@,
            },
        }
    }
}

impl ToolRunView {
    /// The tool ran and ended with exit code zero.
    pub open spec fn succeeded(self) -> bool {
        self matches ToolRunView::Exited { status: Some(code), .. } && code == 0
    }

    /// What the tool wrote to its output stream; nothing where it did not
    /// start.
    pub open spec fn output(self) -> Seq<u8> {
        match self {
            ToolRunView::NotStarted => Seq::<u8>::empty(),
            ToolRunView::Exited { stdout, .. } => stdout,
        }
    }

    /// What the tool wrote to its error stream, as text without the white
    /// space at its two ends. `None` where the tool did not start or wrote
    /// bytes that are not UTF-8.
    pub open spec fn complaint(self) -> Option<Seq<char>> {
        match self {
            ToolRunView::NotStarted => None,
            ToolRunView::Exited { stderr, .. } => match text_of(stderr) {
                Some(text) => Some(stripped(text)),
                None => None,
            },
        }
    }
}

impl ToolRun {
    /// Whether the tool ran and ended with exit code zero.
    pub fn succeeded(&self) -> (r: bool)
        ensures
            r == self@.succeeded(),
    {
        match self {
            ToolRun::NotStarted => false,
            ToolRun::Exited { status, .. } => match status {
                Some(code) => *code == 0,
                None => false,
            },
        }
    }

    /// The text of the tool's error stream without the white space at its
    /// two ends, for a message to the user.
    pub fn complaint(&self) -> (r: Option<String>)
        ensures
            r.deep_view() == self@.complaint(),
    {
        match self {
            ToolRun::NotStarted => None,
            ToolRun::Exited { stderr, .. } => match decode(stderr.as_slice()) {
                Some(text) => Some(trim(text)),
                None => None,
            },
        }
    }
}

} // verus!
