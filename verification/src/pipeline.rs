//! Ordered sequences of external commands and the rule by which they run:
//! one at a time, in order, stopping at the first failure.
//!
//! The host executes the commands. After each one it reports the result and
//! is told, through the state, which step is due next.

use vstd::prelude::*;
use crate::process::{
    describe_failure, failure_text, FailureCause, FailureCauseView, ProcessSpec, ProcessSpecView,
    StepResult, StepResultView,
};

verus! {

/// One step of a pipeline: the lines that announce it and the command to run.
#[derive(Clone, Debug, PartialEq, Eq)]
pub struct Step {
    /// Human-readable lines published before the command starts.
    pub milestones: Vec<String>,
    pub spec: ProcessSpec,
}

/// Mathematical content of a [`Step`].
#[verifier::ext_equal]
pub struct StepView {
    pub milestones: Seq<Seq<char>>,
    pub spec: ProcessSpecView,
}

impl DeepView for Step {
    type V = StepView;

    open spec fn deep_view(&self) -> StepView {
        StepView { milestones: self.milestones.deep_view(), spec: self.spec@ }
    }
}

impl View for Step {
    type V = StepView;

    open spec fn view(&self) -> StepView {
        self.deep_view()
    }
}

/// An ordered sequence of steps, with what frames it.
#[derive(Clone, Debug, PartialEq, Eq)]
pub struct PipelineSpec {
    /// Directory that the host creates, with its parents, before the first
    /// step.
    pub ensure_dir: Option<String>,
    pub steps: Vec<Step>,
    /// Line published once all steps have succeeded.
    pub completion: Option<String>,
}

/// Mathematical content of a [`PipelineSpec`].
#[verifier::ext_equal]
pub struct PipelineView {
    pub ensure_dir: Option<Seq<char>>,
    pub steps: Seq<StepView>,
    pub completion: Option<Seq<char>>,
}

impl DeepView for PipelineSpec {
    type V = PipelineView;

    open spec fn deep_view(&self) -> PipelineView {
        PipelineView {
            ensure_dir: self.ensure_dir.deep_view(),
            steps: self.steps.deep_view(),
            completion: self.completion.deep_view(),
        }
    }
}

impl View for PipelineSpec {
    type V = PipelineView;

    open spec fn view(&self) -> PipelineView {
        self.deep_view()
    }
}

/// Where a pipeline run stands.
#[derive(Clone, Debug, PartialEq, Eq)]
pub enum PipelineState {
    /// Nothing has run yet; [`PipelineSpec::begin`] leaves this state.
    NotStarted,
    /// The step with this index is due or running.
    Running(usize),
    Succeeded,
    /// The step with this index failed, for this reason; no later step ran.
    Failed(usize, FailureCause),
}

/// Mathematical content of a [`PipelineState`].
#[verifier::ext_equal]
pub enum PipelineStateView {
    NotStarted,
    Running(int),
    Succeeded,
    Failed(int, FailureCauseView),
}

impl DeepView for PipelineState {
    type V = PipelineStateView;

    open spec fn deep_view(&self) -> PipelineStateView {
        match self {
            PipelineState::NotStarted => PipelineStateView::NotStarted,
            PipelineState::Running(i) => PipelineStateView::Running(*i as int),
            PipelineState::Succeeded => PipelineStateView::Succeeded,
            PipelineState::Failed(i, c) => PipelineStateView::Failed(*i as int, c@),
        }
    }
}

impl View for PipelineState {
    type V = PipelineStateView;

    open spec fn view(&self) -> PipelineStateView {
        self.deep_view()
    }
}

impl PipelineState {
    /// A fresh copy of this state.
    pub fn duplicate(&self) -> (r: PipelineState)
        ensures
            r@ == self@,
    {
        match self {
            PipelineState::NotStarted => PipelineState::NotStarted,
            PipelineState::Running(i) => PipelineState::Running(*i),
            PipelineState::Succeeded => PipelineState::Succeeded,
            PipelineState::Failed(i, c) => PipelineState::Failed(*i, c.duplicate()),
        }
    }
}

/// The state in which a run of `len` steps starts: the first step is due,
/// or the run is over if there is none.
pub open spec fn begin(len: int) -> PipelineStateView {
    if len <= 0 {
        PipelineStateView::Succeeded
    } else {
        PipelineStateView::Running(0)
    }
}

/// The state that follows `s` when the running step ends with `r`: success
/// makes the next step due, or ends the run after the last one; failure
/// ends the run at once. A run that is over stays as it is.
pub open spec fn advance(len: int, s: PipelineStateView, r: StepResultView) -> PipelineStateView {
    match s {
        PipelineStateView::Running(i) => match r {
            StepResultView::Success => if i + 1 < len {
                PipelineStateView::Running(i + 1)
            } else {
                PipelineStateView::Succeeded
            },
            StepResultView::Failure(c) => PipelineStateView::Failed(i, c),
        },
        _ => s,
    }
}

/// The step that is due in state `s`, if any.
pub open spec fn due(s: PipelineStateView) -> Option<int> {
    match s {
        PipelineStateView::Running(i) => Some(i),
        _ => None,
    }
}

/// The state of a run of `len` steps after the results `results` were
/// reported, in order.
pub open spec fn run(len: int, results: Seq<StepResultView>) -> PipelineStateView
    decreases results.len(),
{
    if results.len() == 0 {
        begin(len)
    } else {
        advance(len, run(len, results.drop_last()), results.last())
    }
}

/// The steps that were started during a run of `len` steps in which
/// `results` were reported, in the order in which they started.
pub open spec fn started(len: int, results: Seq<StepResultView>) -> Seq<int>
    decreases results.len(),
{
    if results.len() == 0 {
        match due(begin(len)) {
            Some(i) => seq![i],
            None => Seq::empty(),
        }
    } else {
        let earlier = started(len, results.drop_last());
        if due(run(len, results.drop_last())) is Some {
            match due(run(len, results)) {
                Some(i) => earlier.push(i),
                None => earlier,
            }
        } else {
            earlier
        }
    }
}

/// The number of leading successes in `results`.
spec fn leading_successes(results: Seq<StepResultView>) -> int
    decreases results.len(),
{
    if results.len() == 0 {
        0
    } else if leading_successes(results.drop_last()) == results.len() - 1 && results.last()
        == StepResultView::Success {
        results.len() as int
    } else {
        leading_successes(results.drop_last())
    }
}

proof fn lemma_leading_successes(results: Seq<StepResultView>)
    ensures
        0 <= leading_successes(results) <= results.len(),
        forall|j: int|
            0 <= j < leading_successes(results) ==> #[trigger] results[j]
                == StepResultView::Success,
        leading_successes(results) < results.len() ==> results[leading_successes(results)]
            != StepResultView::Success,
    decreases results.len(),
{
    if results.len() > 0 {
        lemma_leading_successes(results.drop_last());
        assert forall|j: int| 0 <= j < leading_successes(results) implies #[trigger] results[j]
            == StepResultView::Success by {
            if j < results.len() - 1 {
                assert(results.drop_last()[j] == results[j]);
            }
        }
        let k = leading_successes(results.drop_last());
        if k < results.len() - 1 {
            assert(results.drop_last()[k] == results[k]);
        }
    }
}

/// The whole course of a run, from the results reported: the steps start in
/// their fixed order, one more than the leading successes at most, and the
/// state is decided by the first result that is not a success.
proof fn lemma_course(len: int, results: Seq<StepResultView>)
    ensures
        ({
            let k = leading_successes(results);
            &&& len <= 0 ==> run(len, results) == PipelineStateView::Succeeded && started(
                len,
                results,
            ) == Seq::<int>::empty()
            &&& len > 0 && k >= len ==> run(len, results) == PipelineStateView::Succeeded
                && started(len, results) == Seq::new(len as nat, |j: int| j)
            &&& len > 0 && k < len && k == results.len() ==> run(len, results)
                == PipelineStateView::Running(k) && started(len, results) == Seq::new(
                (k + 1) as nat,
                |j: int| j,
            )
            &&& len > 0 && k < len && k < results.len() ==> (results[k] matches StepResultView::Failure(
                c,
            ) && run(len, results) == PipelineStateView::Failed(k, c)) && started(len, results)
                == Seq::new((k + 1) as nat, |j: int| j)
        }),
    decreases results.len(),
{
    lemma_leading_successes(results);
    if results.len() == 0 {
        if len > 0 {
            assert(started(len, results) =~= Seq::new(1, |j: int| j));
        }
    } else {
        let before = results.drop_last();
        lemma_course(len, before);
        lemma_leading_successes(before);
        let k0 = leading_successes(before);
        let k = leading_successes(results);
        if len > 0 {
            if k0 >= len {
            } else if k0 == before.len() {
                // the step k0 was running and has now ended
                if results.last() == StepResultView::Success {
                    assert(k == k0 + 1);
                    if k0 + 1 < len {
                        assert(started(len, results) =~= Seq::new((k + 1) as nat, |j: int| j));
                    } else {
                        assert(started(len, results) =~= Seq::new(len as nat, |j: int| j));
                    }
                } else {
                    assert(k == k0);
                    assert(results[k] == results.last());
                }
            } else {
                assert(k == k0);
                assert(before[k0] == results[k]);
            }
        }
    }
}

/// Steps run in their fixed order: the steps started during any run are
/// `0, 1, 2, ...` without a gap, never more than the pipeline has, and a
/// step starts only after the result of the one before it was reported as a
/// success.
pub proof fn lemma_steps_run_in_order(len: int, results: Seq<StepResultView>)
    ensures
        started(len, results).len() <= if len > 0 {
            len
        } else {
            0
        },
        started(len, results).len() <= results.len() + 1,
        forall|j: int| 0 <= j < started(len, results).len() ==> started(len, results)[j] == j,
        forall|j: int|
            0 < j < started(len, results).len() ==> #[trigger] results[j - 1]
                == StepResultView::Success,
{
    lemma_course(len, results);
    lemma_leading_successes(results);
}

/// A failure stops the run: when step `i` is the first whose result is a
/// failure, the run ends as failed at `i` with that cause, whatever is
/// reported afterwards, and no step after `i` is ever started.
pub proof fn lemma_failure_stops_the_run(
    len: int,
    results: Seq<StepResultView>,
    i: int,
    cause: FailureCauseView,
)
    requires
        0 <= i < len,
        i < results.len(),
        forall|j: int| 0 <= j < i ==> results[j] == StepResultView::Success,
        results[i] == StepResultView::Failure(cause),
    ensures
        run(len, results) == PipelineStateView::Failed(i, cause),
        started(len, results) == Seq::new((i + 1) as nat, |j: int| j),
        forall|j: int| 0 <= j < started(len, results).len() ==> started(len, results)[j] <= i,
{
    lemma_course(len, results);
    lemma_leading_successes(results);
    let k = leading_successes(results);
    if k < i {
        assert(results[k] == StepResultView::Success);
    }
    if k > i {
        assert(results[i] == StepResultView::Success);
    }
    assert(k == i);
}

/// A run in which every step succeeds ends as succeeded after all steps ran,
/// each exactly once and in order.
pub proof fn lemma_all_successes_complete(len: int, results: Seq<StepResultView>)
    requires
        0 < len <= results.len(),
        forall|j: int| 0 <= j < len ==> results[j] == StepResultView::Success,
    ensures
        run(len, results) == PipelineStateView::Succeeded,
        started(len, results) == Seq::new(len as nat, |j: int| j),
{
    lemma_course(len, results);
    lemma_leading_successes(results);
    let k = leading_successes(results);
    if k < len {
        assert(results[k] == StepResultView::Success);
    }
}

/// Why a pipeline did not complete: which step failed, the command it ran,
/// and the cause.
#[derive(Clone, Debug, PartialEq, Eq)]
pub struct PipelineError {
    pub step: usize,
    pub program: String,
    pub cause: FailureCause,
}

/// Mathematical content of a [`PipelineError`].
#[verifier::ext_equal]
pub struct PipelineErrorView {
    pub step: int,
    pub program: Seq<char>,
    pub cause: FailureCauseView,
}

impl DeepView for PipelineError {
    type V = PipelineErrorView;

    open spec fn deep_view(&self) -> PipelineErrorView {
        PipelineErrorView { step: self.step as int, program: self.program@, cause: self.cause@ }
    }
}

impl View for PipelineError {
    type V = PipelineErrorView;

    open spec fn view(&self) -> PipelineErrorView {
        self.deep_view()
    }
}

impl PipelineError {
    /// The one-line message for this failure: it names the command and gives
    /// its exit status or the reason it could not be started.
    pub fn message(&self) -> (r: String)
        ensures
            r@ == failure_text(self@.program, self@.cause),
    {
        describe_failure(self.program.as_str(), &self.cause)
    }
}

/// What a finished run returns to its caller.
pub open spec fn verdict(p: PipelineView, s: PipelineStateView) -> Option<
    Result<(), PipelineErrorView>,
> {
    match s {
        PipelineStateView::Succeeded => Some(Ok(())),
        PipelineStateView::Failed(i, c) => Some(
            Err(
                PipelineErrorView {
                    step: i,
                    program: if 0 <= i < p.steps.len() {
                        p.steps[i].spec.program
                    } else {
                        Seq::empty()
                    },
                    cause: c,
                },
            ),
        ),
        _ => None,
    }
}

/// Appends `step` to `steps`.
pub fn push_step(steps: &mut Vec<Step>, step: Step)
    ensures
        final(steps).deep_view() == old(steps).deep_view().push(step@),
{
    steps.push(step);
    assert(steps.deep_view() =~= old(steps).deep_view().push(step@));
}

/// The list without any step.
pub fn no_steps() -> (r: Vec<Step>)
    ensures
        r.deep_view() == Seq::<StepView>::empty(),
{
    let steps: Vec<Step> = Vec::new();
    assert(steps.deep_view() =~= Seq::<StepView>::empty());
    steps
}

impl PipelineSpec {
    /// The state in which a run of this pipeline starts.
    pub fn begin(&self) -> (r: PipelineState)
        ensures
            r@ == begin(self@.steps.len() as int),
    {
        if self.steps.len() == 0 {
            PipelineState::Succeeded
        } else {
            PipelineState::Running(0)
        }
    }

    /// The state that follows `state` when the running step ended with
    /// `result`.
    pub fn advance(&self, state: PipelineState, result: StepResult) -> (r: PipelineState)
        ensures
            r@ == advance(self@.steps.len() as int, state@, result@),
    {
        match state {
            PipelineState::Running(i) => match result {
                StepResult::Success => if i < self.steps.len() && i + 1 < self.steps.len() {
                    PipelineState::Running(i + 1)
                } else {
                    PipelineState::Succeeded
                },
                StepResult::Failure(c) => PipelineState::Failed(i, c),
            },
            other => other,
        }
    }

    /// The step to run in `state`: the one that is due, or `None` when the
    /// run is over or has not begun.
    pub fn due_step(&self, state: &PipelineState) -> (r: Option<&Step>)
        ensures
            r.deep_view() == match due(state@) {
                Some(i) => if i < self@.steps.len() {
                    Some(self@.steps[i])
                } else {
                    None
                },
                None => None,
            },
    {
        match state {
            PipelineState::Running(i) => if *i < self.steps.len() {
                Some(&self.steps[*i])
            } else {
                None
            },
            _ => None,
        }
    }

    /// What the run returns to its caller once it is over: success, or the
    /// first failure with the step it occurred in. `None` while it is not
    /// over.
    pub fn verdict(&self, state: &PipelineState) -> (r: Option<Result<(), PipelineError>>)
        ensures
            match verdict(self@, state@) {
                Some(Ok(())) => r == Some(Ok::<(), PipelineError>(())),
                Some(Err(e)) => r matches Some(Err(x)) && x@ == e,
                None => r is None,
            },
    {
        match state {
            PipelineState::Succeeded => Some(Ok(())),
            PipelineState::Failed(i, c) => {
                let program = if *i < self.steps.len() {
                    self.steps[*i].spec.program.clone()
                } else {
                    String::new()
                };
                Some(Err(PipelineError { step: *i, program, cause: c.duplicate() }))
            },
            _ => None,
        }
    }
}

} // verus!
