//! The ways in which an operation fails.

use vstd::prelude::*;
use crate::tool::{ToolRun, ToolRunView};

verus! {

/// What is wrong with the configuration.
#[derive(Clone, Copy, Debug, PartialEq, Eq)]
pub enum ConfigFault {
    /// The configured list holds no layout.
    NoLayouts,
    /// Neither a state file nor a home directory is configured.
    NoHome,
}

/// Why an operation failed.
#[derive(Clone, Debug, PartialEq, Eq)]
pub enum LayoutError {
    /// The tool could not be started or ended with a status other than
    /// zero; the run is kept for the message.
    ExternalTool(ToolRun),
    /// The tool's output is not text or names no layout.
    Parse,
    /// The configuration cannot be used.
    Config(ConfigFault),
    /// The current layout is not among the configured ones.
    NotFound,
    /// The state file could not be written.
    Io,
}

/// The model of a [`LayoutError`].
pub enum LayoutErrorView {
    ExternalTool(ToolRunView),
    Parse,
    Config(ConfigFault),
    NotFound,
    Io,
}

impl View for LayoutError {
    type V = LayoutErrorView;

    open spec fn view(&self) -> LayoutErrorView {
        match self {
            LayoutError::ExternalTool(run) => LayoutErrorView::ExternalTool(run@),
            LayoutError::Parse => LayoutErrorView::Parse,
            LayoutError::Config(fault) => LayoutErrorView::Config(*fault),
            LayoutError::NotFound => LayoutErrorView::NotFound,
            LayoutError::Io => LayoutErrorView::Io,
        }
    }
}

/// The model of a result: the view of its value, or the view of its error.
pub open spec fn outcome<T: View>(r: Result<T, LayoutError>) -> Result<T::V, LayoutErrorView> {
    match r {
        Ok(value) => Ok(value@),
        Err(e) => Err(e@),
    }
}

} // verus!
