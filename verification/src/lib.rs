//! Keyboard layout switching: the rules for choosing, parsing and recording
//! the active keyboard layout, stated and proved over plain values.
//!
//! Nothing here runs a program, reads the environment or touches a file. The
//! caller does that and hands the library what it found; the library says
//! what it means and what is to be done next.

pub mod apply;
pub mod config;
pub mod error;
pub mod layouts;
pub mod query;
pub mod session;
pub mod text;
pub mod tool;

pub use apply::{notice, set_layout, write_layout, Notice, Plan, StateWrite};
pub use config::Environment;
pub use error::{ConfigFault, LayoutError};
pub use layouts::{get_user_layout, next_layout};
pub use query::{get_layout, parse_layout};
pub use session::{select, start, AfterApply, AfterQuery, AfterWrite, Closing, Command, Step};
pub use tool::ToolRun;
