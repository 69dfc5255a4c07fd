//! The settings that the process environment provides, read once by the
//! caller and handed on as plain values.

use vstd::prelude::*;

verus! {

/// The name of the variable that holds the layouts to cycle through,
/// separated by commas.
pub const LAYOUTS_VARIABLE: &'static str = "LAYOUTS";

/// The name of the variable that holds the user's home directory.
pub const HOME_VARIABLE: &'static str = "HOME";

/// The name of the variable that holds the path of the state file.
pub const STATE_FILE_VARIABLE: &'static str = "KEYBOARD_LAYOUT_FILE";

/// The values of the three variables; `None` for one that is not set.
#[derive(Clone, Debug, PartialEq, Eq)]
pub struct Environment {
    pub layouts: Option<String>,
    pub home: Option<String>,
    pub state_file: Option<String>,
}

/// The model of an [`Environment`].
pub struct EnvironmentView {
    pub layouts: Option<Seq<char>>,
    pub home: Option<Seq<char>>,
    pub state_file: Option<Seq<char>>,
}

impl View for Environment {
    type V = EnvironmentView;

    open spec fn view(&self) -> EnvironmentView {
        EnvironmentView {
            layouts: self.layouts.deep_view(),
            home: self.home.deep_view(),
            state_file: self.state_file.deep_view(),
        }
    }
}

} // verus!
