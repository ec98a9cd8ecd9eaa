//! What holds of every session, whatever the host observes.

use vstd::prelude::*;
use crate::pipeline::{PipelineErrorView, PipelineStateView, PipelineView};
use crate::process::ProcessSpecView;
use crate::runner::RunEventView;
use crate::session::{
    announcements, asked, entering, observed, opened, opening, publications, ActionView,
    SessionView,
};

verus! {

/// The session after `events` were observed, in order.
pub open spec fn session_state(plan: PipelineView, events: Seq<RunEventView>) -> SessionView
    decreases events.len(),
{
    if events.len() == 0 {
        opened(plan)
    } else {
        observed(session_state(plan, events.drop_last()), events.last())
    }
}

/// Everything the host was asked to do, from the opening of the session
/// through the observation of `events`, in order.
pub open spec fn session_asked(plan: PipelineView, events: Seq<RunEventView>) -> Seq<ActionView>
    decreases events.len(),
{
    if events.len() == 0 {
        opening(plan)
    } else {
        session_asked(plan, events.drop_last()) + asked(
            session_state(plan, events.drop_last()),
            events.last(),
        )
    }
}

/// The commands that `actions` ask to start, in order.
pub open spec fn spawns(actions: Seq<ActionView>) -> Seq<ProcessSpecView>
    decreases actions.len(),
{
    if actions.len() == 0 {
        Seq::empty()
    } else {
        match actions.last() {
            ActionView::Spawn(spec) => spawns(actions.drop_last()).push(spec),
            _ => spawns(actions.drop_last()),
        }
    }
}

/// The verdicts with which `actions` ask to finish, in order.
pub open spec fn finishes(actions: Seq<ActionView>) -> Seq<Result<(), PipelineErrorView>>
    decreases actions.len(),
{
    if actions.len() == 0 {
        Seq::empty()
    } else {
        match actions.last() {
            ActionView::Finish(v) => finishes(actions.drop_last()).push(v),
            _ => finishes(actions.drop_last()),
        }
    }
}

/// The commands of `plan`, in the order of its steps.
pub open spec fn commands_of(plan: PipelineView) -> Seq<ProcessSpecView> {
    Seq::new(plan.steps.len(), |i: int| plan.steps[i].spec)
}

proof fn lemma_concat(a: Seq<ActionView>, b: Seq<ActionView>)
    ensures
        spawns(a + b) == spawns(a) + spawns(b),
        finishes(a + b) == finishes(a) + finishes(b),
    decreases b.len(),
{
    if b.len() == 0 {
        assert(a + b =~= a);
        assert(spawns(a) + spawns(b) =~= spawns(a));
        assert(finishes(a) + finishes(b) =~= finishes(a));
    } else {
        lemma_concat(a, b.drop_last());
        assert((a + b).drop_last() =~= a + b.drop_last());
        assert((a + b).last() == b.last());
        match b.last() {
            ActionView::Spawn(spec) => {
                assert(spawns(a) + spawns(b.drop_last()).push(spec) =~= (spawns(a) + spawns(
                    b.drop_last(),
                )).push(spec));
            },
            ActionView::Finish(v) => {
                assert(finishes(a) + finishes(b.drop_last()).push(v) =~= (finishes(a) + finishes(
                    b.drop_last(),
                )).push(v));
            },
            _ => {},
        }
    }
}

proof fn lemma_quiet(actions: Seq<ActionView>)
    requires
        forall|i: int|
            0 <= i < actions.len() ==> (#[trigger] actions[i] is Announce || actions[i] is Publish
                || actions[i] is EnsureDir),
    ensures
        spawns(actions) == Seq::<ProcessSpecView>::empty(),
        finishes(actions) == Seq::<Result<(), PipelineErrorView>>::empty(),
    decreases actions.len(),
{
    if actions.len() > 0 {
        let before = actions.drop_last();
        assert forall|i: int| 0 <= i < before.len() implies (#[trigger] before[i] is Announce
            || before[i] is Publish || before[i] is EnsureDir) by {
            assert(before[i] == actions[i]);
        }
        lemma_quiet(before);
        assert(actions.last() == actions[actions.len() - 1]);
    }
}

proof fn lemma_entering(plan: PipelineView, state: PipelineStateView)
    ensures
        spawns(entering(plan, state)) == match state {
            PipelineStateView::Running(i) => if 0 <= i < plan.steps.len() {
                seq![plan.steps[i].spec]
            } else {
                Seq::<ProcessSpecView>::empty()
            },
            _ => Seq::<ProcessSpecView>::empty(),
        },
        finishes(entering(plan, state)) == match state {
            PipelineStateView::Succeeded => seq![Ok::<(), PipelineErrorView>(())],
            PipelineStateView::Failed(i, c) => seq![
                Err::<(), PipelineErrorView>(
                    PipelineErrorView {
                        step: i,
                        program: if 0 <= i < plan.steps.len() {
                            plan.steps[i].spec.program
                        } else {
                            Seq::empty()
                        },
                        cause: c,
                    },
                ),
            ],
            _ => Seq::<Result<(), PipelineErrorView>>::empty(),
        },
{
    let e = entering(plan, state);
    match state {
        PipelineStateView::Running(i) => {
            if 0 <= i < plan.steps.len() {
                let lines = announcements(plan.steps[i].milestones);
                lemma_quiet(lines);
                assert(e.drop_last() =~= lines);
                assert(e.last() == ActionView::Spawn(plan.steps[i].spec));
                assert(spawns(e) == spawns(lines).push(plan.steps[i].spec));
                assert(finishes(e) == finishes(lines));
                assert(Seq::<ProcessSpecView>::empty().push(plan.steps[i].spec) =~= seq![
                    plan.steps[i].spec,
                ]);
                assert(spawns(e) == seq![plan.steps[i].spec]);
                assert(finishes(e) == Seq::<Result<(), PipelineErrorView>>::empty());
            } else {
                assert(e =~= Seq::<ActionView>::empty());
                assert(spawns(e) == Seq::<ProcessSpecView>::empty());
                assert(finishes(e) == Seq::<Result<(), PipelineErrorView>>::empty());
            }
        },
        PipelineStateView::Succeeded => {
            let head = e.drop_last();
            lemma_quiet(head);
            assert(e.last() == ActionView::Finish(Ok(())));
            assert(spawns(e) == spawns(head));
            assert(finishes(e) == finishes(head).push(Ok(())));
            assert(Seq::<Result<(), PipelineErrorView>>::empty().push(Ok(())) =~= seq![
                Ok::<(), PipelineErrorView>(()),
            ]);
        },
        PipelineStateView::Failed(i, c) => {
            let head = e.drop_last();
            assert(head =~= Seq::<ActionView>::empty());
            assert(e.last() == e[0]);
            let v = e[0]->Finish_0;
            assert(e.last() == ActionView::Finish(v));
            assert(spawns(e) == spawns(head));
            assert(finishes(e) == finishes(head).push(v));
            assert(Seq::<Result<(), PipelineErrorView>>::empty().push(v) =~= seq![v]);
        },
        PipelineStateView::NotStarted => {
            assert(e =~= Seq::<ActionView>::empty());
        },
    }
}

/// The directory of a plan is asked for before anything else.
pub proof fn lemma_directory_comes_first(plan: PipelineView, dir: Seq<char>)
    requires
        plan.ensure_dir == Some(dir),
    ensures
        session_asked(plan, Seq::empty())[0] == ActionView::EnsureDir(dir),
        forall|i: int|
            0 < i < session_asked(plan, Seq::empty()).len() ==> !(#[trigger] session_asked(
                plan,
                Seq::empty(),
            )[i] is EnsureDir),
{
}

/// The course of every session. Commands are asked to start in the order
/// of the plan, each at most once: while step `i` is running, exactly the
/// commands of the steps up to `i` have been asked for and nothing is
/// finished. After the last step has succeeded all of them have been, and
/// the session has finished once, with success. After step `i` has failed
/// no later command has been asked for, and the session has finished once,
/// with the failure of step `i`.
pub proof fn lemma_session_course(plan: PipelineView, events: Seq<RunEventView>)
    ensures
        session_state(plan, events).plan == plan,
        match session_state(plan, events).state {
            PipelineStateView::Running(i) => {
                &&& 0 <= i < plan.steps.len()
                &&& spawns(session_asked(plan, events)) == commands_of(plan).take(i + 1)
                &&& finishes(session_asked(plan, events)).len() == 0
            },
            PipelineStateView::Succeeded => {
                &&& spawns(session_asked(plan, events)) == commands_of(plan)
                &&& finishes(session_asked(plan, events)) == seq![Ok::<(), PipelineErrorView>(())]
            },
            PipelineStateView::Failed(i, c) => {
                &&& 0 <= i < plan.steps.len()
                &&& spawns(session_asked(plan, events)) == commands_of(plan).take(i + 1)
                &&& finishes(session_asked(plan, events)) == seq![
                    Err::<(), PipelineErrorView>(
                        PipelineErrorView {
                            step: i,
                            program: plan.steps[i].spec.program,
                            cause: c,
                        },
                    ),
                ]
            },
            PipelineStateView::NotStarted => false,
        },
    decreases events.len(),
{
    let all = commands_of(plan);
    if events.len() == 0 {
        let s = opened(plan);
        lemma_entering(plan, s.state);
        match plan.ensure_dir {
            Some(dir) => {
                let first = seq![ActionView::EnsureDir(dir)];
                lemma_quiet(first);
                lemma_concat(first, entering(plan, s.state));
                assert(spawns(first) + spawns(entering(plan, s.state)) =~= spawns(
                    entering(plan, s.state),
                ));
                assert(finishes(first) + finishes(entering(plan, s.state)) =~= finishes(
                    entering(plan, s.state),
                ));
            },
            None => {},
        }
        if plan.steps.len() > 0 {
            assert(all.take(1) =~= seq![plan.steps[0].spec]);
        } else {
            assert(all =~= Seq::<ProcessSpecView>::empty());
        }
    } else {
        let before = events.drop_last();
        lemma_session_course(plan, before);
        let s = session_state(plan, before);
        let a0 = session_asked(plan, before);
        let e = events.last();
        let more = asked(s, e);
        lemma_concat(a0, more);
        match s.state {
            PipelineStateView::Running(i) => {
                let shown = publications(crate::runner::published(s.run, e));
                lemma_quiet(shown);
                match crate::runner::next_state(s.run, e).outcome() {
                    Some(result) => {
                        let next = crate::pipeline::advance(
                            plan.steps.len() as int,
                            s.state,
                            result,
                        );
                        lemma_concat(shown, entering(plan, next));
                        lemma_entering(plan, next);
                        assert(spawns(more) == spawns(entering(plan, next))) by {
                            assert(Seq::<ProcessSpecView>::empty() + spawns(entering(plan, next))
                                =~= spawns(entering(plan, next)));
                        }
                        assert(finishes(more) == finishes(entering(plan, next))) by {
                            assert(Seq::<Result<(), PipelineErrorView>>::empty() + finishes(
                                entering(plan, next),
                            ) =~= finishes(entering(plan, next)));
                        }
                        match next {
                            PipelineStateView::Running(j) => {
                                assert(j == i + 1);
                                assert(all.take(i + 1) + seq![plan.steps[j].spec] =~= all.take(
                                    j + 1,
                                ));
                                assert(finishes(a0) + finishes(more) =~= finishes(a0));
                            },
                            PipelineStateView::Succeeded => {
                                assert(i + 1 == plan.steps.len());
                                assert(all.take(i + 1) + Seq::<ProcessSpecView>::empty() =~= all);
                                assert(finishes(a0) + finishes(more) =~= finishes(more));
                            },
                            PipelineStateView::Failed(j, c) => {
                                assert(j == i);
                                assert(all.take(i + 1) + Seq::<ProcessSpecView>::empty()
                                    =~= all.take(i + 1));
                                assert(finishes(a0) + finishes(more) =~= finishes(more));
                            },
                            PipelineStateView::NotStarted => {},
                        }
                    },
                    None => {
                        assert(spawns(a0) + spawns(more) =~= spawns(a0));
                        assert(finishes(a0) + finishes(more) =~= finishes(a0));
                    },
                }
            },
            _ => {
                assert(more =~= Seq::<ActionView>::empty());
                assert(a0 + more =~= a0);
            },
        }
    }
}

/// A failure stops the session: once step `i` has failed, whatever is
/// observed afterwards asks for nothing more.
pub proof fn lemma_nothing_after_the_end(s: SessionView, e: RunEventView)
    requires
        s.state is Failed || s.state is Succeeded,
    ensures
        observed(s, e) == s,
        asked(s, e) == Seq::<ActionView>::empty(),
{
}

} // verus!
