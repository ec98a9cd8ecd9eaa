//! Descriptions of external commands, the events they produce and the way a
//! finished command is classified.

use vstd::prelude::*;
use vstd::string::StringExecFns;
use crate::text::{copy_optional, copy_texts, decimal, decimal_text};

verus! {

/// Which of a child's two output streams a line came from.
#[derive(Clone, Copy, Debug, PartialEq, Eq, Structural)]
pub enum StreamKind {
    Stdout,
    Stderr,
}

/// One line of output, with its terminator where the child wrote one.
#[derive(Clone, Debug, PartialEq, Eq)]
pub struct LogEvent {
    pub stream: StreamKind,
    pub text: Vec<u8>,
}

/// Mathematical content of a [`LogEvent`].
#[verifier::ext_equal]
pub struct LogEventView {
    pub stream: StreamKind,
    pub text: Seq<u8>,
}

impl DeepView for LogEvent {
    type V = LogEventView;

    open spec fn deep_view(&self) -> LogEventView {
        LogEventView { stream: self.stream, text: self.text@ }
    }
}

impl View for LogEvent {
    type V = LogEventView;

    open spec fn view(&self) -> LogEventView {
        self.deep_view()
    }
}

/// Variables set for a child on top of the environment it inherits. A later
/// entry overrides an earlier one of the same name.
#[derive(Clone, Debug, PartialEq, Eq)]
pub struct EnvOverlay {
    pub vars: Vec<(String, String)>,
}

impl DeepView for EnvOverlay {
    type V = Seq<(Seq<char>, Seq<char>)>;

    open spec fn deep_view(&self) -> Seq<(Seq<char>, Seq<char>)> {
        self.vars.deep_view()
    }
}

impl View for EnvOverlay {
    type V = Seq<(Seq<char>, Seq<char>)>;

    open spec fn view(&self) -> Seq<(Seq<char>, Seq<char>)> {
        self.deep_view()
    }
}

impl EnvOverlay {
    /// The overlay that changes nothing.
    pub fn empty() -> (r: EnvOverlay)
        ensures
            r@ == Seq::<(Seq<char>, Seq<char>)>::empty(),
    {
        let r = EnvOverlay { vars: Vec::new() };
        assert(r@ =~= Seq::<(Seq<char>, Seq<char>)>::empty());
        r
    }

    /// Adds the binding `name = value` after those already present.
    pub fn set(&mut self, name: &str, value: &str)
        ensures
            final(self)@ == old(self)@.push((name@, value@)),
    {
        self.vars.push((String::from_str(name), String::from_str(value)));
        assert(self@ =~= old(self)@.push((name@, value@)));
    }

    /// A fresh copy of this overlay.
    pub fn duplicate(&self) -> (r: EnvOverlay)
        ensures
            r@ == self@,
    {
        let mut vars: Vec<(String, String)> = Vec::new();
        let mut i: usize = 0;
        while i < self.vars.len()
            invariant
                i <= self.vars.len(),
                vars.len() == i,
                forall|j: int| 0 <= j < i ==> vars[j].deep_view() == self.vars[j].deep_view(),
            decreases self.vars.len() - i,
        {
            let name = self.vars[i].0.clone();
            let value = self.vars[i].1.clone();
            vars.push((name, value));
            i = i + 1;
        }
        let r = EnvOverlay { vars };
        assert(r@ =~= self@);
        r
    }
}

/// One external command: what to run, with which arguments, where, under
/// which additional environment, and whether without a window of its own.
#[derive(Clone, Debug, PartialEq, Eq)]
pub struct ProcessSpec {
    pub program: String,
    pub args: Vec<String>,
    pub cwd: Option<String>,
    pub env: EnvOverlay,
    /// Whether the console window that the system would open for the
    /// command is suppressed. The pipes of the command work either way.
    pub hide_window: bool,
}

/// Mathematical content of a [`ProcessSpec`].
#[verifier::ext_equal]
pub struct ProcessSpecView {
    pub program: Seq<char>,
    pub args: Seq<Seq<char>>,
    pub cwd: Option<Seq<char>>,
    pub env: Seq<(Seq<char>, Seq<char>)>,
    pub hide_window: bool,
}

impl DeepView for ProcessSpec {
    type V = ProcessSpecView;

    open spec fn deep_view(&self) -> ProcessSpecView {
        ProcessSpecView {
            program: self.program@,
            args: self.args.deep_view(),
            cwd: self.cwd.deep_view(),
            env: self.env@,
            hide_window: self.hide_window,
        }
    }
}

impl View for ProcessSpec {
    type V = ProcessSpecView;

    open spec fn view(&self) -> ProcessSpecView {
        self.deep_view()
    }
}

impl ProcessSpec {
    /// A fresh copy of this description.
    pub fn duplicate(&self) -> (r: ProcessSpec)
        ensures
            r@ == self@,
    {
        ProcessSpec {
            program: self.program.clone(),
            args: copy_texts(&self.args),
            cwd: copy_optional(&self.cwd),
            env: self.env.duplicate(),
            hide_window: self.hide_window,
        }
    }
}

/// Why a step did not succeed.
#[derive(Clone, Debug, PartialEq, Eq)]
pub enum FailureCause {
    /// No process was started; the text is the system's explanation.
    SpawnError(String),
    /// The process ran and returned this non-zero code.
    NonZeroExit(i32),
    /// The process ended without an exit code.
    Terminated,
    /// The process was started but its exit could not be observed.
    WaitError(String),
}

/// Mathematical content of a [`FailureCause`].
#[verifier::ext_equal]
pub enum FailureCauseView {
    SpawnError(Seq<char>),
    NonZeroExit(i32),
    Terminated,
    WaitError(Seq<char>),
}

impl DeepView for FailureCause {
    type V = FailureCauseView;

    open spec fn deep_view(&self) -> FailureCauseView {
        match self {
            FailureCause::SpawnError(m) => FailureCauseView::SpawnError(m@),
            FailureCause::NonZeroExit(c) => FailureCauseView::NonZeroExit(*c),
            FailureCause::Terminated => FailureCauseView::Terminated,
            FailureCause::WaitError(m) => FailureCauseView::WaitError(m@),
        }
    }
}

impl View for FailureCause {
    type V = FailureCauseView;

    open spec fn view(&self) -> FailureCauseView {
        self.deep_view()
    }
}

/// Final classification of one step.
#[derive(Clone, Debug, PartialEq, Eq)]
pub enum StepResult {
    Success,
    Failure(FailureCause),
}

/// Mathematical content of a [`StepResult`].
#[verifier::ext_equal]
pub enum StepResultView {
    Success,
    Failure(FailureCauseView),
}

impl DeepView for StepResult {
    type V = StepResultView;

    open spec fn deep_view(&self) -> StepResultView {
        match self {
            StepResult::Success => StepResultView::Success,
            StepResult::Failure(c) => StepResultView::Failure(c@),
        }
    }
}

impl View for StepResult {
    type V = StepResultView;

    open spec fn view(&self) -> StepResultView {
        self.deep_view()
    }
}

impl FailureCause {
    /// A fresh copy of this cause.
    pub fn duplicate(&self) -> (r: FailureCause)
        ensures
            r@ == self@,
    {
        match self {
            FailureCause::SpawnError(m) => FailureCause::SpawnError(m.clone()),
            FailureCause::NonZeroExit(c) => FailureCause::NonZeroExit(*c),
            FailureCause::Terminated => FailureCause::Terminated,
            FailureCause::WaitError(m) => FailureCause::WaitError(m.clone()),
        }
    }
}

impl StepResult {
    /// Whether the step succeeded.
    pub fn is_success(&self) -> (r: bool)
        ensures
            r == (self@ == StepResultView::Success),
    {
        match self {
            StepResult::Success => true,
            StepResult::Failure(_) => false,
        }
    }

    /// A fresh copy of this result.
    pub fn duplicate(&self) -> (r: StepResult)
        ensures
            r@ == self@,
    {
        match self {
            StepResult::Success => StepResult::Success,
            StepResult::Failure(c) => StepResult::Failure(c.duplicate()),
        }
    }
}

/// Classification of a process that ran to its end: code zero is success,
/// any other code is a failure that carries it, no code is a termination.
pub open spec fn exit_result(code: Option<i32>) -> StepResultView {
    match code {
        Some(c) => if c == 0 {
            StepResultView::Success
        } else {
            StepResultView::Failure(FailureCauseView::NonZeroExit(c))
        },
        None => StepResultView::Failure(FailureCauseView::Terminated),
    }
}

/// Classifies a process that ran to its end by its exit code.
pub fn classify_exit(code: Option<i32>) -> (r: StepResult)
    ensures
        r@ == exit_result(code),
{
    match code {
        Some(c) => if c == 0 {
            StepResult::Success
        } else {
            StepResult::Failure(FailureCause::NonZeroExit(c))
        },
        None => StepResult::Failure(FailureCause::Terminated),
    }
}

/// The one-line message shown for a failed command.
pub open spec fn failure_text(program: Seq<char>, cause: FailureCauseView) -> Seq<char> {
    match cause {
        FailureCauseView::SpawnError(m) => "Failed to spawn "@ + program + ": "@ + m,
        FailureCauseView::NonZeroExit(c) => "Command "@ + program + " failed with status "@
            + decimal(c as int),
        FailureCauseView::Terminated => "Command "@ + program + " ended without an exit status"@,
        FailureCauseView::WaitError(m) => m,
    }
}

/// Composes the one-line message shown for a failed command: it names the
/// command and gives its exit status or the reason it could not be started.
pub fn describe_failure(program: &str, cause: &FailureCause) -> (r: String)
    ensures
        r@ == failure_text(program@, cause@),
{
    match cause {
        FailureCause::SpawnError(m) => {
            let mut s = String::from_str("Failed to spawn ");
            s.append(program);
            s.append(": ");
            s.append(m.as_str());
            s
        },
        FailureCause::NonZeroExit(c) => {
            let mut s = String::from_str("Command ");
            s.append(program);
            s.append(" failed with status ");
            let code = decimal_text(*c);
            s.append(code.as_str());
            s
        },
        FailureCause::Terminated => {
            let mut s = String::from_str("Command ");
            s.append(program);
            s.append(" ended without an exit status");
            s
        },
        FailureCause::WaitError(m) => m.clone(),
    }
}

/// Writes `msg` as a line for a terminal: the text, then a carriage return
/// and a line feed.
pub fn log_line(msg: &str) -> (r: String)
    ensures
        r@ == msg@ + "\r\n"@,
{
    let mut line = String::from_str(msg);
    line.append("\r\n");
    line
}

} // verus!
