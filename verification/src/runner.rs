//! The life of one external command, as a machine driven by what its host
//! observes: output on either stream, the end of a stream, the exit.
//!
//! The host spawns the process and reads its pipes; every observation is
//! handed to [`StepRun::handle`], which answers with the log events to
//! publish. The step has a result only when the exit is known and both
//! streams have ended, so that no trailing output is cut off.

use vstd::prelude::*;
use crate::lines::{closing_event, line_events, scan, LineAssembler};
use crate::process::{
    classify_exit, exit_result, FailureCause, FailureCauseView, LogEvent, LogEventView,
    StepResult, StepResultView, StreamKind,
};

verus! {

/// One observation made by the host of a running command.
#[derive(Clone, Debug, PartialEq, Eq)]
pub enum RunEvent {
    /// The process could not be started; the text says why.
    SpawnFailed(String),
    /// Bytes read from one of the two streams.
    Output(StreamKind, Vec<u8>),
    /// One of the two streams reached its end.
    Closed(StreamKind),
    /// Reading one of the two streams failed; nothing more will come from it.
    ReadFailed(StreamKind),
    /// The process exited, with this code if it has one.
    Exited(Option<i32>),
    /// The exit of the process could not be observed; the text says why.
    WaitFailed(String),
}

/// Mathematical content of a [`RunEvent`].
#[verifier::ext_equal]
pub enum RunEventView {
    SpawnFailed(Seq<char>),
    Output(StreamKind, Seq<u8>),
    Closed(StreamKind),
    ReadFailed(StreamKind),
    Exited(Option<i32>),
    WaitFailed(Seq<char>),
}

impl DeepView for RunEvent {
    type V = RunEventView;

    open spec fn deep_view(&self) -> RunEventView {
        match self {
            RunEvent::SpawnFailed(m) => RunEventView::SpawnFailed(m@),
            RunEvent::Output(k, b) => RunEventView::Output(*k, b@),
            RunEvent::Closed(k) => RunEventView::Closed(*k),
            RunEvent::ReadFailed(k) => RunEventView::ReadFailed(*k),
            RunEvent::Exited(c) => RunEventView::Exited(*c),
            RunEvent::WaitFailed(m) => RunEventView::WaitFailed(m@),
        }
    }
}

impl View for RunEvent {
    type V = RunEventView;

    open spec fn view(&self) -> RunEventView {
        self.deep_view()
    }
}

/// State of one run: what each stream holds back, whether it is still open,
/// and the classification of the exit once it is known.
#[verifier::ext_equal]
pub struct RunView {
    pub out_held: Seq<u8>,
    pub err_held: Seq<u8>,
    pub out_open: bool,
    pub err_open: bool,
    pub exit: Option<StepResultView>,
}

impl RunView {
    /// What stream `k` holds back.
    pub open spec fn held(self, k: StreamKind) -> Seq<u8> {
        match k {
            StreamKind::Stdout => self.out_held,
            StreamKind::Stderr => self.err_held,
        }
    }

    /// Whether stream `k` may still deliver output.
    pub open spec fn open(self, k: StreamKind) -> bool {
        match k {
            StreamKind::Stdout => self.out_open,
            StreamKind::Stderr => self.err_open,
        }
    }

    /// This state with stream `k` holding `held` and open as `open` says.
    pub open spec fn with_stream(self, k: StreamKind, held: Seq<u8>, open: bool) -> RunView {
        match k {
            StreamKind::Stdout => RunView { out_held: held, out_open: open, ..self },
            StreamKind::Stderr => RunView { err_held: held, err_open: open, ..self },
        }
    }

    /// The result of the step: known once the exit is classified and both
    /// streams have ended.
    pub open spec fn outcome(self) -> Option<StepResultView> {
        if !self.out_open && !self.err_open {
            self.exit
        } else {
            None
        }
    }
}

/// The state before anything was observed.
pub open spec fn initial() -> RunView {
    RunView {
        out_held: Seq::empty(),
        err_held: Seq::empty(),
        out_open: true,
        err_open: true,
        exit: None,
    }
}

/// The events that ending stream `k` publishes in state `s`.
pub open spec fn closing(s: RunView, k: StreamKind) -> Seq<LogEventView> {
    if s.open(k) {
        match closing_event(k, s.held(k)) {
            Some(e) => seq![e],
            None => Seq::empty(),
        }
    } else {
        Seq::empty()
    }
}

/// The state that follows `s` when `e` is observed.
pub open spec fn next_state(s: RunView, e: RunEventView) -> RunView {
    match e {
        RunEventView::SpawnFailed(m) => if s.exit is None {
            RunView {
                out_held: Seq::empty(),
                err_held: Seq::empty(),
                out_open: false,
                err_open: false,
                exit: Some(StepResultView::Failure(FailureCauseView::SpawnError(m))),
            }
        } else {
            s
        },
        RunEventView::Output(k, bytes) => if s.open(k) {
            s.with_stream(k, scan(s.held(k), bytes).1, true)
        } else {
            s
        },
        RunEventView::Closed(k) => s.with_stream(k, Seq::empty(), false),
        RunEventView::ReadFailed(k) => s.with_stream(k, Seq::empty(), false),
        RunEventView::Exited(code) => if s.exit is None {
            RunView { exit: Some(exit_result(code)), ..s }
        } else {
            s
        },
        RunEventView::WaitFailed(m) => if s.exit is None {
            RunView { exit: Some(StepResultView::Failure(FailureCauseView::WaitError(m))), ..s }
        } else {
            s
        },
    }
}

/// The log events published when `e` is observed in state `s`.
pub open spec fn published(s: RunView, e: RunEventView) -> Seq<LogEventView> {
    match e {
        RunEventView::SpawnFailed(m) => if s.exit is None {
            closing(s, StreamKind::Stdout) + closing(s, StreamKind::Stderr)
        } else {
            Seq::empty()
        },
        RunEventView::Output(k, bytes) => if s.open(k) {
            line_events(k, scan(s.held(k), bytes).0)
        } else {
            Seq::empty()
        },
        RunEventView::Closed(k) => closing(s, k),
        RunEventView::ReadFailed(k) => closing(s, k),
        RunEventView::Exited(code) => Seq::empty(),
        RunEventView::WaitFailed(m) => Seq::empty(),
    }
}

/// The state reached from `s` after observing `events` in order.
pub open spec fn run_state(s: RunView, events: Seq<RunEventView>) -> RunView
    decreases events.len(),
{
    if events.len() == 0 {
        s
    } else {
        next_state(run_state(s, events.drop_last()), events.last())
    }
}

/// Everything published while observing `events` in order from state `s`.
pub open spec fn run_published(s: RunView, events: Seq<RunEventView>) -> Seq<LogEventView>
    decreases events.len(),
{
    if events.len() == 0 {
        Seq::empty()
    } else {
        run_published(s, events.drop_last()) + published(
            run_state(s, events.drop_last()),
            events.last(),
        )
    }
}

/// The run of one external command.
#[derive(Debug)]
pub struct StepRun {
    stdout: LineAssembler,
    stderr: LineAssembler,
    out_open: bool,
    err_open: bool,
    exit: Option<StepResult>,
}

impl View for StepRun {
    type V = RunView;

    closed spec fn view(&self) -> RunView {
        RunView {
            out_held: self.stdout.held(),
            err_held: self.stderr.held(),
            out_open: self.out_open,
            err_open: self.err_open,
            exit: self.exit.deep_view(),
        }
    }
}

impl StepRun {
    /// A run of which nothing has been observed yet.
    pub fn new() -> (r: StepRun)
        ensures
            r@ == initial(),
    {
        StepRun {
            stdout: LineAssembler::new(),
            stderr: LineAssembler::new(),
            out_open: true,
            err_open: true,
            exit: None,
        }
    }

    fn close(&mut self, k: StreamKind) -> (events: Vec<LogEvent>)
        ensures
            final(self)@ == old(self)@.with_stream(k, Seq::empty(), false),
            events.deep_view() == closing(old(self)@, k),
    {
        let mut events: Vec<LogEvent> = Vec::new();
        match k {
            StreamKind::Stdout => {
                let last = self.stdout.finish(k);
                if self.out_open {
                    if let Some(e) = last {
                        events.push(e);
                    }
                }
                self.out_open = false;
            },
            StreamKind::Stderr => {
                let last = self.stderr.finish(k);
                if self.err_open {
                    if let Some(e) = last {
                        events.push(e);
                    }
                }
                self.err_open = false;
            },
        }
        assert(events.deep_view() =~= closing(old(self)@, k));
        events
    }

    /// Takes one observation and returns the log events to publish for it,
    /// in order.
    pub fn handle(&mut self, event: RunEvent) -> (events: Vec<LogEvent>)
        ensures
            final(self)@ == next_state(old(self)@, event@),
            events.deep_view() == published(old(self)@, event@),
    {
        match event {
            RunEvent::SpawnFailed(reason) => {
                if self.exit.is_none() {
                    let mut events = self.close(StreamKind::Stdout);
                    let ghost first = events.deep_view();
                    let mut more = self.close(StreamKind::Stderr);
                    let ghost second = more.deep_view();
                    events.append(&mut more);
                    assert(events.deep_view() =~= first + second);
                    self.exit = Some(StepResult::Failure(FailureCause::SpawnError(reason)));
                    events
                } else {
                    Vec::new()
                }
            },
            RunEvent::Output(k, bytes) => {
                match k {
                    StreamKind::Stdout => if self.out_open {
                        self.stdout.feed(k, bytes.as_slice())
                    } else {
                        Vec::new()
                    },
                    StreamKind::Stderr => if self.err_open {
                        self.stderr.feed(k, bytes.as_slice())
                    } else {
                        Vec::new()
                    },
                }
            },
            RunEvent::Closed(k) => self.close(k),
            RunEvent::ReadFailed(k) => self.close(k),
            RunEvent::Exited(code) => {
                if self.exit.is_none() {
                    self.exit = Some(classify_exit(code));
                }
                Vec::new()
            },
            RunEvent::WaitFailed(reason) => {
                if self.exit.is_none() {
                    self.exit = Some(StepResult::Failure(FailureCause::WaitError(reason)));
                }
                Vec::new()
            },
        }
    }

    /// The result of the step, once the exit is known and both streams have
    /// ended; `None` before that.
    pub fn result(&self) -> (r: Option<StepResult>)
        ensures
            r.deep_view() == self@.outcome(),
    {
        if !self.out_open && !self.err_open {
            match &self.exit {
                Some(r) => Some(r.duplicate()),
                None => None,
            }
        } else {
            None
        }
    }
}

} // verus!
