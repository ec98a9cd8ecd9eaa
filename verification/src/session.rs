//! A whole pipeline run as one machine: the host is told what to do, does
//! it, and reports what it observes; every decision is taken here.
//!
//! The host starts a command when asked to, forwards each observation of
//! that command to [`PipelineRun::observe`], and carries out the actions it
//! gets back, in order, until it is told to finish.

use vstd::prelude::*;
use crate::pipeline::{
    advance, begin, due, verdict, PipelineError, PipelineErrorView, PipelineSpec, PipelineState,
    PipelineStateView, PipelineView,
};
use crate::process::{LogEvent, LogEventView, ProcessSpec, ProcessSpecView};
use crate::runner::{initial, next_state, published, RunEvent, RunEventView, RunView, StepRun};

verus! {

/// What the host is asked to do.
#[derive(Debug, PartialEq, Eq)]
pub enum Action {
    /// Create this directory, with its parents, unless it exists.
    EnsureDir(String),
    /// Publish this line of progress.
    Announce(String),
    /// Publish this line of output.
    Publish(LogEvent),
    /// Start this command and report everything that is observed of it.
    Spawn(ProcessSpec),
    /// Return this to the caller; nothing more will be asked.
    Finish(Result<(), PipelineError>),
}

/// Mathematical content of an [`Action`].
#[verifier::ext_equal]
pub enum ActionView {
    EnsureDir(Seq<char>),
    Announce(Seq<char>),
    Publish(LogEventView),
    Spawn(ProcessSpecView),
    Finish(Result<(), PipelineErrorView>),
}

impl DeepView for Action {
    type V = ActionView;

    open spec fn deep_view(&self) -> ActionView {
        match self {
            Action::EnsureDir(dir) => ActionView::EnsureDir(dir@),
            Action::Announce(line) => ActionView::Announce(line@),
            Action::Publish(event) => ActionView::Publish(event@),
            Action::Spawn(spec) => ActionView::Spawn(spec@),
            Action::Finish(result) => ActionView::Finish(
                match result {
                    Ok(_) => Ok(()),
                    Err(e) => Err(e@),
                },
            ),
        }
    }
}

impl View for Action {
    type V = ActionView;

    open spec fn view(&self) -> ActionView {
        self.deep_view()
    }
}

/// Where a session stands: the plan it follows, how far the pipeline has
/// come, and what is known of the command that is running.
#[verifier::ext_equal]
pub struct SessionView {
    pub plan: PipelineView,
    pub state: PipelineStateView,
    pub run: RunView,
}

/// The announcements of `lines`, in order.
pub open spec fn announcements(lines: Seq<Seq<char>>) -> Seq<ActionView> {
    Seq::new(lines.len(), |i: int| ActionView::Announce(lines[i]))
}

/// The publications of `events`, in order.
pub open spec fn publications(events: Seq<LogEventView>) -> Seq<ActionView> {
    Seq::new(events.len(), |i: int| ActionView::Publish(events[i]))
}

/// What the host is asked to do when the pipeline enters `state`: to
/// announce and start the step that is due; or, when the run is over, to
/// announce completion if all went well, and to finish with the verdict.
pub open spec fn entering(plan: PipelineView, state: PipelineStateView) -> Seq<ActionView> {
    match state {
        PipelineStateView::Running(i) => if 0 <= i < plan.steps.len() {
            announcements(plan.steps[i].milestones).push(ActionView::Spawn(plan.steps[i].spec))
        } else {
            Seq::empty()
        },
        PipelineStateView::Succeeded => match plan.completion {
            Some(line) => seq![ActionView::Announce(line), ActionView::Finish(Ok(()))],
            None => seq![ActionView::Finish(Ok(()))],
        },
        PipelineStateView::Failed(i, c) => match verdict(plan, state) {
            Some(Err(e)) => seq![ActionView::Finish(Err(e))],
            _ => Seq::empty(),
        },
        PipelineStateView::NotStarted => Seq::empty(),
    }
}

/// What the host is asked to do when a session on `plan` opens: to make
/// sure that the directory of the plan exists, if it names one, and then
/// what entering the first state asks for.
pub open spec fn opening(plan: PipelineView) -> Seq<ActionView> {
    match plan.ensure_dir {
        Some(dir) => seq![ActionView::EnsureDir(dir)] + entering(plan, opened(plan).state),
        None => entering(plan, opened(plan).state),
    }
}

/// Whether a command is running in `s`, so that observations are expected.
pub open spec fn awaiting(s: SessionView) -> bool {
    match due(s.state) {
        Some(i) => 0 <= i < s.plan.steps.len(),
        None => false,
    }
}

/// The session that follows the plan `plan`, at its start.
pub open spec fn opened(plan: PipelineView) -> SessionView {
    SessionView { plan, state: begin(plan.steps.len() as int), run: initial() }
}

/// The session that follows `s` when `e` is observed of the running
/// command. Once the command has its result the pipeline advances and the
/// next command, if any, starts from nothing. Without a running command an
/// observation changes nothing.
pub open spec fn observed(s: SessionView, e: RunEventView) -> SessionView {
    if awaiting(s) {
        let run = next_state(s.run, e);
        match run.outcome() {
            Some(result) => SessionView {
                state: advance(s.plan.steps.len() as int, s.state, result),
                run: initial(),
                ..s
            },
            None => SessionView { run, ..s },
        }
    } else {
        s
    }
}

/// What the host is asked to do when `e` is observed in `s`: to publish the
/// lines that the observation completes and, if the command thereby has its
/// result, what entering the next state asks for.
pub open spec fn asked(s: SessionView, e: RunEventView) -> Seq<ActionView> {
    if awaiting(s) {
        let shown = publications(published(s.run, e));
        match next_state(s.run, e).outcome() {
            Some(result) => shown + entering(
                s.plan,
                advance(s.plan.steps.len() as int, s.state, result),
            ),
            None => shown,
        }
    } else {
        Seq::empty()
    }
}

/// A pipeline run in progress.
#[derive(Debug)]
pub struct PipelineRun {
    plan: PipelineSpec,
    state: PipelineState,
    run: StepRun,
}

impl View for PipelineRun {
    type V = SessionView;

    closed spec fn view(&self) -> SessionView {
        SessionView { plan: self.plan@, state: self.state@, run: self.run@ }
    }
}

fn announce_all(actions: &mut Vec<Action>, lines: &Vec<String>)
    ensures
        final(actions).deep_view() == old(actions).deep_view() + announcements(lines.deep_view()),
{
    let ghost start = actions.deep_view();
    let ghost all = announcements(lines.deep_view());
    let mut i: usize = 0;
    assert(start + all.take(0) =~= start);
    while i < lines.len()
        invariant
            i <= lines.len(),
            all == announcements(lines.deep_view()),
            actions.deep_view() == start + all.take(i as int),
        decreases lines.len() - i,
    {
        let ghost before = actions.deep_view();
        actions.push(Action::Announce(lines[i].clone()));
        assert(actions.deep_view() =~= before.push(ActionView::Announce(lines[i as int]@)));
        assert(start + all.take(i + 1) =~= (start + all.take(i as int)).push(all[i as int]));
        i = i + 1;
    }
    assert(all.take(i as int) =~= all);
}

fn publish_all(actions: &mut Vec<Action>, events: Vec<LogEvent>)
    ensures
        final(actions).deep_view() == old(actions).deep_view() + publications(events.deep_view()),
{
    let ghost start = actions.deep_view();
    let ghost all = publications(events.deep_view());
    let mut i: usize = 0;
    assert(start + all.take(0) =~= start);
    while i < events.len()
        invariant
            i <= events.len(),
            all == publications(events.deep_view()),
            actions.deep_view() == start + all.take(i as int),
        decreases events.len() - i,
    {
        let ghost before = actions.deep_view();
        let event = LogEvent { stream: events[i].stream, text: events[i].text.clone() };
        assert(event@ == events[i as int]@);
        actions.push(Action::Publish(event));
        assert(actions.deep_view() =~= before.push(ActionView::Publish(events[i as int]@)));
        assert(start + all.take(i + 1) =~= (start + all.take(i as int)).push(all[i as int]));
        i = i + 1;
    }
    assert(all.take(i as int) =~= all);
}

fn push_action(actions: &mut Vec<Action>, action: Action)
    ensures
        final(actions).deep_view() == old(actions).deep_view().push(action@),
{
    actions.push(action);
    assert(actions.deep_view() =~= old(actions).deep_view().push(action@));
}

fn enter(plan: &PipelineSpec, state: &PipelineState, actions: &mut Vec<Action>)
    ensures
        final(actions).deep_view() == old(actions).deep_view() + entering(plan@, state@),
{
    let ghost start = actions.deep_view();
    match state {
        PipelineState::Running(i) => {
            if *i < plan.steps.len() {
                let step = &plan.steps[*i];
                assert(step@ == plan@.steps[*i as int]);
                announce_all(actions, &step.milestones);
                push_action(actions, Action::Spawn(step.spec.duplicate()));
                assert(actions.deep_view() =~= start + entering(plan@, state@));
            } else {
                assert(actions.deep_view() =~= start + entering(plan@, state@));
            }
        },
        PipelineState::Succeeded => {
            match &plan.completion {
                Some(line) => {
                    push_action(actions, Action::Announce(line.clone()));
                },
                None => {},
            }
            push_action(actions, Action::Finish(Ok(())));
            assert(actions.deep_view() =~= start + entering(plan@, state@));
        },
        PipelineState::Failed(i, c) => {
            match plan.verdict(state) {
                Some(Err(e)) => {
                    push_action(actions, Action::Finish(Err(e)));
                },
                _ => {},
            }
            assert(actions.deep_view() =~= start + entering(plan@, state@));
        },
        PipelineState::NotStarted => {
            assert(actions.deep_view() =~= start + entering(plan@, state@));
        },
    }
}

impl PipelineRun {
    /// Opens a session on `plan` and says what to do first.
    pub fn start(plan: PipelineSpec) -> (r: (PipelineRun, Vec<Action>))
        ensures
            r.0@ == opened(plan@),
            r.1.deep_view() == opening(plan@),
    {
        let state = plan.begin();
        let mut actions: Vec<Action> = Vec::new();
        assert(actions.deep_view() =~= Seq::<ActionView>::empty());
        match &plan.ensure_dir {
            Some(dir) => {
                push_action(&mut actions, Action::EnsureDir(dir.clone()));
            },
            None => {},
        }
        let ghost first = actions.deep_view();
        enter(&plan, &state, &mut actions);
        assert(actions.deep_view() =~= opening(plan@)) by {
            if plan@.ensure_dir is None {
                assert(first + entering(plan@, state@) =~= entering(plan@, state@));
            }
        }
        (PipelineRun { plan, state, run: StepRun::new() }, actions)
    }

    /// Whether a command is running, so that observations are expected.
    pub fn is_awaiting(&self) -> (r: bool)
        ensures
            r == awaiting(self@),
    {
        match &self.state {
            PipelineState::Running(i) => *i < self.plan.steps.len(),
            _ => false,
        }
    }

    /// Takes one observation of the running command and says what to do
    /// about it, in order.
    pub fn observe(&mut self, event: RunEvent) -> (actions: Vec<Action>)
        ensures
            final(self)@ == observed(old(self)@, event@),
            actions.deep_view() == asked(old(self)@, event@),
    {
        let mut actions: Vec<Action> = Vec::new();
        assert(actions.deep_view() =~= Seq::<ActionView>::empty());
        if !self.is_awaiting() {
            return actions;
        }
        let events = self.run.handle(event);
        publish_all(&mut actions, events);
        assert(actions.deep_view() =~= publications(published(old(self)@.run, event@)));
        match self.run.result() {
            Some(result) => {
                let current = self.state.duplicate();
                self.state = self.plan.advance(current, result);
                self.run = StepRun::new();
                enter(&self.plan, &self.state, &mut actions);
            },
            None => {},
        }
        actions
    }
}

} // verus!
