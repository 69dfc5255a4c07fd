//! One run of the program as a chain of steps.
//!
//! The library decides and the caller acts. [`start`] names the first step.
//! A step that needs work from outside (a run of the tool, a write, a
//! notification, a line of output) comes with the value to call `resume` on
//! with what the work gave; that call names the step after it. The chain
//! ends with [`Step::Done`].

use vstd::prelude::*;
use crate::apply::{planned, set_layout, Notice, NoticeView, StateWrite, StateWriteView};
use crate::config::{Environment, EnvironmentView};
use crate::error::{ConfigFault, LayoutError, LayoutErrorView};
use crate::layouts::{
    configured, distinct_is_layout_list, get_user_layout, next_layout, successor,
    successor_of_last_is_first,
};
use crate::query::{get_layout, queried};
use crate::tool::{ToolRun, ToolRunView};

verus! {

/// What the user asks for.
#[derive(Clone, Debug, PartialEq, Eq)]
pub enum Command {
    /// Print the active layout.
    Get,
    /// Switch to the layout named.
    SetTo(String),
    /// Switch to the layout that follows the active one in the configured list.
    Next,
}

/// The model of a [`Command`].
pub enum CommandView {
    Get,
    SetTo(Seq<char>),
    Next,
}

impl View for Command {
    type V = CommandView;

    open spec fn view(&self) -> CommandView {
        match self {
            Command::Get => CommandView::Get,
            Command::SetTo(layout) => CommandView::SetTo(layout@),
            Command::Next => CommandView::Next,
        }
    }
}

/// The command that the flags of a command line stand for. Asking for the
/// active layout goes before setting one, and that before switching to the
/// next; with no flag at all the active layout is asked for.
pub open spec fn selected(get: bool, set: Option<Seq<char>>, next: bool) -> CommandView {
    if get {
        CommandView::Get
    } else {
        match set {
            Some(layout) => CommandView::SetTo(layout),
            None => if next {
                CommandView::Next
            } else {
                CommandView::Get
            },
        }
    }
}

/// Chooses the command from the flags of a command line.
pub fn select(get: bool, set: Option<String>, next: bool) -> (r: Command)
    ensures
        r@ == selected(get, set.deep_view(), next),
{
    if get {
        Command::Get
    } else {
        match set {
            Some(layout) => Command::SetTo(layout),
            None => if next {
                Command::Next
            } else {
                Command::Get
            },
        }
    }
}

/// Waits for a run of the query tool.
#[derive(Clone, Debug, PartialEq, Eq)]
pub struct AfterQuery {
    /// Whether the run serves a switch to the next layout; else the active
    /// layout is only printed.
    pub advancing: bool,
    pub quiet: bool,
    pub env: Environment,
}

/// Waits for a run of the tool that sets `layout`.
#[derive(Clone, Debug, PartialEq, Eq)]
pub struct AfterApply {
    pub layout: String,
    pub quiet: bool,
    pub env: Environment,
}

/// Waits for the write to the state file.
#[derive(Clone, Debug, PartialEq, Eq)]
pub struct AfterWrite {
    pub notice: Option<Notice>,
}

/// Waits for the last piece of work, whose outcome changes nothing.
#[derive(Clone, Debug, PartialEq, Eq)]
pub struct Closing {}

/// What the caller is to do next.
#[derive(Debug, PartialEq, Eq)]
pub enum Step {
    /// Run the tool with the query argument.
    Query(AfterQuery),
    /// Run the tool with the layout of the value as its only argument.
    Apply(AfterApply),
    /// Create or overwrite the file with the contents.
    Write(StateWrite, AfterWrite),
    /// Show the notice.
    Notify(Notice, Closing),
    /// Print the layout on a line of its own.
    Print(String, Closing),
    /// Nothing: the run has ended, well or with the error.
    Done(Result<(), LayoutError>),
}

/// The model of an [`AfterQuery`].
pub struct AfterQueryView {
    pub advancing: bool,
    pub quiet: bool,
    pub env: EnvironmentView,
}

/// The model of an [`AfterApply`].
pub struct AfterApplyView {
    pub layout: Seq<char>,
    pub quiet: bool,
    pub env: EnvironmentView,
}

/// The model of an [`AfterWrite`].
pub struct AfterWriteView {
    pub notice: Option<NoticeView>,
}

/// The model of a [`Step`].
pub enum StepView {
    Query(AfterQueryView),
    Apply(AfterApplyView),
    Write(StateWriteView, AfterWriteView),
    Notify(NoticeView),
    Print(Seq<char>),
    Done(Result<(), LayoutErrorView>),
}

impl View for AfterQuery {
    type V = AfterQueryView;

    open spec fn view(&self) -> AfterQueryView {
        AfterQueryView { advancing: self.advancing, quiet: self.quiet, env: self.env@ }
    }
}

impl View for AfterApply {
    type V = AfterApplyView;

    open spec fn view(&self) -> AfterApplyView {
        AfterApplyView { layout: self.layout@, quiet: self.quiet, env: self.env@ }
    }
}

impl View for AfterWrite {
    type V = AfterWriteView;

    open spec fn view(&self) -> AfterWriteView {
        AfterWriteView {
            notice: match self.notice {
                Some(notice) => Some(notice@),
                None => None,
            },
        }
    }
}

impl View for Step {
    type V = StepView;

    open spec fn view(&self) -> StepView {
        match self {
            Step::Query(after) => StepView::Query(after@),
            Step::Apply(after) => StepView::Apply(after@),
            Step::Write(write, after) => StepView::Write(write@, after@),
            Step::Notify(notice, _) => StepView::Notify(notice@),
            Step::Print(layout, _) => StepView::Print(layout@),
            Step::Done(Ok(_)) => StepView::Done(Ok(())),
            Step::Done(Err(e)) => StepView::Done(Err(e@)),
        }
    }
}

/// The first step of a run. Asking for the active layout and switching to
/// the next one both begin with a query, the latter only where the
/// configured list holds a layout; setting a layout begins with the tool.
pub open spec fn first_step(command: CommandView, quiet: bool, env: EnvironmentView) -> StepView {
    match command {
        CommandView::Get => StepView::Query(AfterQueryView { advancing: false, quiet, env }),
        CommandView::SetTo(layout) => StepView::Apply(AfterApplyView { layout, quiet, env }),
        CommandView::Next => if configured(env.layouts).len() == 0 {
            StepView::Done(Err(LayoutErrorView::Config(ConfigFault::NoLayouts)))
        } else {
            StepView::Query(AfterQueryView { advancing: true, quiet, env })
        },
    }
}

/// The step after a run of the query tool: the end where the run names no
/// layout; else the layout is printed or, in a switch to the next layout,
/// its successor in the configured list is set.
pub open spec fn step_after_query(waiting: AfterQueryView, run: ToolRunView) -> StepView {
    match queried(run) {
        Err(e) => StepView::Done(Err(e)),
        Ok(current) => if !waiting.advancing {
            StepView::Print(current)
        } else {
            match successor(configured(waiting.env.layouts), current) {
                Err(e) => StepView::Done(Err(e)),
                Ok(layout) => StepView::Apply(
                    AfterApplyView { layout, quiet: waiting.quiet, env: waiting.env },
                ),
            }
        },
    }
}

/// The step after a run of the tool that was to set a layout: the write to
/// the state file, or the end where the run failed or no file is configured.
pub open spec fn step_after_apply(waiting: AfterApplyView, run: ToolRunView) -> StepView {
    match planned(waiting.layout, waiting.quiet, run, waiting.env) {
        Err(e) => StepView::Done(Err(e)),
        Ok(plan) => StepView::Write(plan.write, AfterWriteView { notice: plan.notice }),
    }
}

/// The step after the write: the end with an error where it failed, else the
/// notice where there is one.
pub open spec fn step_after_write(waiting: AfterWriteView, written: bool) -> StepView {
    if !written {
        StepView::Done(Err(LayoutErrorView::Io))
    } else {
        match waiting.notice {
            Some(notice) => StepView::Notify(notice),
            None => StepView::Done(Ok(())),
        }
    }
}

/// Begins a run.
pub fn start(command: Command, quiet: bool, env: Environment) -> (r: Step)
    ensures
        r@ == first_step(command@, quiet, env@),
{
    match command {
        Command::Get => Step::Query(AfterQuery { advancing: false, quiet, env }),
        Command::SetTo(layout) => Step::Apply(AfterApply { layout, quiet, env }),
        Command::Next => {
            let layouts = get_user_layout(&env);
            if layouts.len() == 0 {
                Step::Done(Err(LayoutError::Config(ConfigFault::NoLayouts)))
            } else {
                Step::Query(AfterQuery { advancing: true, quiet, env })
            }
        },
    }
}

impl AfterQuery {
    /// Goes on with what the run of the query tool gave.
    pub fn resume(self, run: ToolRun) -> (r: Step)
        ensures
            r@ == step_after_query(self@, run@),
    {
        let current = match get_layout(run) {
            Ok(current) => current,
            Err(e) => {
                return Step::Done(Err(e));
            },
        };
        if !self.advancing {
            return Step::Print(current, Closing {  });
        }
        let layouts = get_user_layout(&self.env);
        match next_layout(&layouts, current.as_str()) {
            Ok(layout) => Step::Apply(AfterApply { layout, quiet: self.quiet, env: self.env }),
            Err(e) => Step::Done(Err(e)),
        }
    }
}

impl AfterApply {
    /// Goes on with what the run of the tool gave.
    pub fn resume(self, run: ToolRun) -> (r: Step)
        ensures
            r@ == step_after_apply(self@, run@),
    {
        match set_layout(self.layout.as_str(), self.quiet, run, &self.env) {
            Ok(plan) => Step::Write(plan.write, AfterWrite { notice: plan.notice }),
            Err(e) => Step::Done(Err(e)),
        }
    }
}

impl AfterWrite {
    /// Goes on after the write; `written` tells whether it succeeded.
    pub fn resume(self, written: bool) -> (r: Step)
        ensures
            r@ == step_after_write(self@, written),
    {
        if !written {
            return Step::Done(Err(LayoutError::Io));
        }
        match self.notice {
            Some(notice) => Step::Notify(notice, Closing {  }),
            None => Step::Done(Ok(())),
        }
    }
}

impl Closing {
    /// Ends the run. Whether the notice was shown or the line was printed
    /// makes no difference: the run has succeeded.
    pub fn resume(self, delivered: bool) -> (r: Step)
        ensures
            r@ == StepView::Done(Ok(())),
    {
        Step::Done(Ok(()))
    }
}

/// A switch to the next layout ends at once with a configuration error
/// where the configured list holds no layout: no tool is run.
pub proof fn advance_needs_layouts(quiet: bool, env: EnvironmentView)
    requires
        configured(env.layouts).len() == 0,
    ensures
        first_step(CommandView::Next, quiet, env) == StepView::Done(
            Err(LayoutErrorView::Config(ConfigFault::NoLayouts)),
        ),
{
}

/// A switch to the next layout ends with `NotFound` where the active layout
/// is not in the configured list: no layout is set.
pub proof fn advance_from_stranger(
    quiet: bool,
    env: EnvironmentView,
    run: ToolRunView,
    current: Seq<char>,
)
    requires
        queried(run) == Ok::<Seq<char>, LayoutErrorView>(current),
        configured(env.layouts).len() > 0,
        !configured(env.layouts).contains(current),
    ensures
        step_after_query(AfterQueryView { advancing: true, quiet, env }, run) == StepView::Done(
            Err(LayoutErrorView::NotFound),
        ),
{
}

/// A switch to the next layout from the last layout of the configured list
/// sets the first.
pub proof fn advance_from_last_wraps(quiet: bool, env: EnvironmentView, run: ToolRunView)
    requires
        configured(env.layouts).len() > 0,
        queried(run) == Ok::<Seq<char>, LayoutErrorView>(configured(env.layouts).last()),
    ensures
        step_after_query(AfterQueryView { advancing: true, quiet, env }, run) == StepView::Apply(
            AfterApplyView { layout: configured(env.layouts)[0], quiet, env },
        ),
{
    match env.layouts {
        Some(text) => distinct_is_layout_list(crate::text::pieces(text, ',')),
        None => distinct_is_layout_list(crate::layouts::default_layouts()),
    }
    successor_of_last_is_first(configured(env.layouts));
}

} // verus!
