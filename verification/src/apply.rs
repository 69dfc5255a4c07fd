//! What follows a run of the tool that set a layout: the record in the state
//! file and the notice to the user.

use vstd::prelude::*;
use vstd::utf8::{encode_utf8, encode_utf8_decode_utf8, encode_utf8_valid_utf8};
use crate::config::{Environment, EnvironmentView};
use crate::error::{outcome, ConfigFault, LayoutError, LayoutErrorView};
use crate::text::{chars_of, text_of};
use crate::tool::{ToolRun, ToolRunView};

verus! {

/// How long a notice stays on the screen, in milliseconds.
pub const NOTICE_TIMEOUT: u32 = 2000;

/// A file to create or overwrite, and what it is to hold.
#[derive(Clone, Debug, PartialEq, Eq)]
pub struct StateWrite {
    pub path: String,
    pub contents: Vec<u8>,
}

/// The model of a [`StateWrite`].
pub struct StateWriteView {
    pub path: Seq<char>,
    pub contents: Seq<u8>,
}

impl View for StateWrite {
    type V = StateWriteView;

    open spec fn view(&self) -> StateWriteView {
        StateWriteView { path: self.path@, contents: self.contents@ }
    }
}

/// A notification for the desktop.
#[derive(Clone, Debug, PartialEq, Eq)]
pub struct Notice {
    pub summary: String,
    pub body: String,
    /// Milliseconds after which the notification goes away.
    pub timeout: u32,
}

/// The model of a [`Notice`].
pub struct NoticeView {
    pub summary: Seq<char>,
    pub body: Seq<char>,
    pub timeout: u32,
}

impl View for Notice {
    type V = NoticeView;

    open spec fn view(&self) -> NoticeView {
        NoticeView { summary: self.summary@, body: self.body@, timeout: self.timeout }
    }
}

/// What is to be done once the tool has set a layout: first the write, then,
/// where there is one, the notice.
#[derive(Clone, Debug, PartialEq, Eq)]
pub struct Plan {
    pub write: StateWrite,
    pub notice: Option<Notice>,
}

/// The model of a [`Plan`].
pub struct PlanView {
    pub write: StateWriteView,
    pub notice: Option<NoticeView>,
}

impl View for Plan {
    type V = PlanView;

    open spec fn view(&self) -> PlanView {
        PlanView {
            write: self.write@,
            notice: match self.notice {
                Some(notice) => Some(notice@),
                None => None,
            },
        }
    }
}

/// The state file of a home directory: the file `.layout` in it. The
/// directory and the name are joined by one `/`, unless the directory is
/// empty or already ends in one.
pub open spec fn home_state_path(home: Seq<char>) -> Seq<char> {
    if home.len() == 0 || home.last() == '/' {
        home + ".layout"@
    } else {
        home + "/.layout"@
    }
}

/// The path of the state file: the configured one as it is written, else
/// the one of the home directory; none where neither is configured.
pub open spec fn state_path(env: EnvironmentView) -> Option<Seq<char>> {
    match env.state_file {
        Some(path) => Some(path),
        None => match env.home {
            Some(home) => Some(home_state_path(home)),
            None => None,
        },
    }
}

/// The write that records `layout`: the state file is to hold the bytes of
/// the layout's name and nothing else.
pub open spec fn record(layout: Seq<char>, env: EnvironmentView) -> Result<
    StateWriteView,
    LayoutErrorView,
> {
    match state_path(env) {
        Some(path) => Ok(StateWriteView { path, contents: encode_utf8(layout) }),
        None => Err(LayoutErrorView::Config(ConfigFault::NoHome)),
    }
}

/// The notice that tells the user of the new layout.
pub open spec fn notice_of(layout: Seq<char>) -> NoticeView {
    NoticeView {
        summary: "kb"@,
        body: "Keyboard layout set to '"@ + layout + "'"@,
        timeout: NOTICE_TIMEOUT,
    }
}

/// What follows a run of the tool that was to set `layout`, or why nothing
/// does.
pub open spec fn planned(
    layout: Seq<char>,
    quiet: bool,
    run: ToolRunView,
    env: EnvironmentView,
) -> Result<PlanView, LayoutErrorView> {
    if !run.succeeded() {
        Err(LayoutErrorView::ExternalTool(run))
    } else {
        match record(layout, env) {
            Err(e) => Err(e),
            Ok(write) => Ok(
                PlanView {
                    write,
                    notice: if quiet {
                        None
                    } else {
                        Some(notice_of(layout))
                    },
                },
            ),
        }
    }
}

/// The state file of a home directory.
fn home_path(home: &str) -> (r: String)
    ensures
        r@ == home_state_path(home@),
{
    let v = chars_of(home);
    let n: usize = v.len();
    let mut path = home.to_owned();
    if n == 0 || v[n - 1] == '/' {
        path.append(".layout");
    } else {
        path.append("/.layout");
    }
    path
}

/// The write that records `layout` as the layout last set.
///
/// The file is the one that the environment names, taken as it is written,
/// or else `.layout` in the home directory. Where the environment has
/// neither, there is no file to write to.
pub fn write_layout(layout: &str, env: &Environment) -> (r: Result<StateWrite, LayoutError>)
    ensures
        outcome(r) == record(layout@, env@),
{
    let path = match &env.state_file {
        Some(path) => path.clone(),
        None => match &env.home {
            Some(home) => home_path(home.as_str()),
            None => {
                return Err(LayoutError::Config(ConfigFault::NoHome));
            },
        },
    };
    Ok(StateWrite { path, contents: layout.as_bytes_vec() })
}

/// The notice that tells the user of the new layout.
pub fn notice(layout: &str) -> (r: Notice)
    ensures
        r@ == notice_of(layout@),
{
    let mut body = "Keyboard layout set to '".to_owned();
    body.append(layout);
    body.append("'");
    Notice { summary: "kb".to_owned(), body, timeout: NOTICE_TIMEOUT }
}

/// What follows a run of the tool that was to set `layout`.
///
/// A run that did not end with exit code zero is handed back as the error.
/// After any other the layout is recorded in the state file, and the user is
/// told unless `quiet` is set.
pub fn set_layout(layout: &str, quiet: bool, run: ToolRun, env: &Environment) -> (r: Result<
    Plan,
    LayoutError,
>)
    ensures
        outcome(r) == planned(layout@, quiet, run@, env@),
{
    if !run.succeeded() {
        return Err(LayoutError::ExternalTool(run));
    }
    let write = write_layout(layout, env)?;
    let notice = if quiet {
        None
    } else {
        Some(notice(layout))
    };
    Ok(Plan { write, notice })
}

/// What is written to the state file reads back as the name of the layout.
pub proof fn record_reads_back(layout: Seq<char>, env: EnvironmentView)
    ensures
        record(layout, env) matches Ok(write) ==> text_of(write.contents) == Some(layout),
{
    encode_utf8_valid_utf8(layout);
    encode_utf8_decode_utf8(layout);
}

/// The write that is planned records the layout that was set.
pub proof fn plan_records_the_layout(
    layout: Seq<char>,
    quiet: bool,
    run: ToolRunView,
    env: EnvironmentView,
)
    ensures
        planned(layout, quiet, run, env) matches Ok(plan) ==> {
            &&& run.succeeded()
            &&& record(layout, env) == Ok::<StateWriteView, LayoutErrorView>(plan.write)
            &&& text_of(plan.write.contents) == Some(layout)
            &&& plan.notice is None <==> quiet
        },
{
    record_reads_back(layout, env);
}

} // verus!
