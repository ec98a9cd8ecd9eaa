//! Single invocations of the meta-tool, and what their outcome means to
//! the caller.

use vstd::prelude::*;
use vstd::string::StringExecFns;
use crate::pipeline::{
    no_steps, push_step, PipelineError, PipelineErrorView, PipelineSpec, PipelineView, Step,
    StepView,
};
use crate::process::{EnvOverlay, FailureCause, FailureCauseView, ProcessSpec, ProcessSpecView};
use crate::text::{no_texts, one_text, push_text};

verus! {

/// The invocation of the meta-tool with `args`, in `cwd` if one is given.
pub open spec fn west_invocation(args: Seq<Seq<char>>, cwd: Option<Seq<char>>) -> ProcessSpecView {
    ProcessSpecView { program: "west"@, args, cwd, env: Seq::empty(), hide_window: false }
}

/// Describes the invocation of the meta-tool with `args`, in `cwd` if one
/// is given.
pub fn west_command(args: Vec<String>, cwd: Option<String>) -> (r: ProcessSpec)
    ensures
        r@ == west_invocation(args.deep_view(), cwd.deep_view()),
{
    ProcessSpec { program: String::from_str("west"), args, cwd, env: EnvOverlay::empty(), hide_window: false }
}

/// Describes the invocation that initialises the workspace at `path` from
/// the manifest repository at `url`.
pub fn west_init(url: &str, path: &str) -> (r: ProcessSpec)
    ensures
        r@ == west_invocation(seq!["init"@, "-m"@, url@, path@], None),
{
    let mut args = one_text("init");
    push_text(&mut args, "-m");
    push_text(&mut args, url);
    push_text(&mut args, path);
    west_command(args, None)
}

/// What the host observed of a command whose output it collected.
#[derive(Clone, Debug, PartialEq, Eq)]
pub enum CommandOutput {
    /// The command could not be started; the text says why.
    SpawnFailed(String),
    /// The command ran to its end.
    Finished { success: bool, stdout: String, stderr: String },
}

/// Mathematical content of a [`CommandOutput`].
#[verifier::ext_equal]
pub enum CommandOutputView {
    SpawnFailed(Seq<char>),
    Finished { success: bool, stdout: Seq<char>, stderr: Seq<char> },
}

impl DeepView for CommandOutput {
    type V = CommandOutputView;

    open spec fn deep_view(&self) -> CommandOutputView {
        match self {
            CommandOutput::SpawnFailed(m) => CommandOutputView::SpawnFailed(m@),
            CommandOutput::Finished { success, stdout, stderr } => CommandOutputView::Finished {
                success: *success,
                stdout: stdout@,
                stderr: stderr@,
            },
        }
    }
}

impl View for CommandOutput {
    type V = CommandOutputView;

    open spec fn view(&self) -> CommandOutputView {
        self.deep_view()
    }
}

/// What the caller of a collected command gets: its output if it
/// succeeded, otherwise a message with everything it printed, or the
/// reason it could not be started.
pub open spec fn collected(output: CommandOutputView) -> Result<Seq<char>, Seq<char>> {
    match output {
        CommandOutputView::SpawnFailed(m) => Err(m),
        CommandOutputView::Finished { success, stdout, stderr } => if success {
            Ok(stdout)
        } else {
            Err("Command failed:\nStdout: "@ + stdout + "\nStderr: "@ + stderr)
        },
    }
}

/// Judges an invocation of the meta-tool whose output was collected.
pub fn run_west_command(output: &CommandOutput) -> (r: Result<String, String>)
    ensures
        match collected(output@) {
            Ok(text) => r matches Ok(x) && x@ == text,
            Err(text) => r matches Err(x) && x@ == text,
        },
{
    match output {
        CommandOutput::SpawnFailed(m) => Err(m.clone()),
        CommandOutput::Finished { success, stdout, stderr } => if *success {
            Ok(stdout.clone())
        } else {
            let mut message = String::from_str("Command failed:\nStdout: ");
            message.append(stdout.as_str());
            message.append("\nStderr: ");
            message.append(stderr.as_str());
            Err(message)
        },
    }
}

/// The pipeline that runs the meta-tool once, with `args`, and announces
/// nothing.
pub open spec fn west_stream_plan(args: Seq<Seq<char>>, cwd: Option<Seq<char>>) -> PipelineView {
    PipelineView {
        ensure_dir: None,
        steps: seq![StepView { milestones: Seq::empty(), spec: west_invocation(args, cwd) }],
        completion: None,
    }
}

/// Plans one invocation of the meta-tool whose output is streamed.
pub fn west_stream(args: Vec<String>, cwd: Option<String>) -> (r: PipelineSpec)
    ensures
        r@ == west_stream_plan(args.deep_view(), cwd.deep_view()),
{
    let mut steps = no_steps();
    push_step(&mut steps, Step { milestones: no_texts(), spec: west_command(args, cwd) });
    PipelineSpec { ensure_dir: None, steps, completion: None }
}

/// What the caller of a streamed invocation gets: nothing if it succeeded,
/// otherwise the reason it could not be started or observed, or a plain
/// notice of failure.
pub open spec fn streamed(verdict: Result<(), PipelineErrorView>) -> Result<(), Seq<char>> {
    match verdict {
        Ok(_) => Ok(()),
        Err(e) => match e.cause {
            FailureCauseView::SpawnError(m) => Err(m),
            FailureCauseView::WaitError(m) => Err(m),
            _ => Err("Command failed"@),
        },
    }
}

/// The mathematical content of a verdict.
pub open spec fn verdict_view(verdict: Result<(), PipelineError>) -> Result<
    (),
    PipelineErrorView,
> {
    match verdict {
        Ok(_) => Ok(()),
        Err(e) => Err(e@),
    }
}

/// Judges an invocation of the meta-tool whose output was streamed, by the
/// verdict of its pipeline.
pub fn run_west_stream(verdict: &Result<(), PipelineError>) -> (r: Result<(), String>)
    ensures
        match streamed(verdict_view(*verdict)) {
            Ok(_) => r matches Ok(_),
            Err(text) => r matches Err(x) && x@ == text,
        },
{
    match verdict {
        Ok(_) => Ok(()),
        Err(e) => match &e.cause {
            FailureCause::SpawnError(m) => Err(m.clone()),
            FailureCause::WaitError(m) => Err(m.clone()),
            _ => Err(String::from_str("Command failed")),
        },
    }
}

} // verus!
