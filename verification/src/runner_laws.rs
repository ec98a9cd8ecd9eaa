//! What holds of every run of an external command, whatever the host
//! observes and in whatever order.

use vstd::prelude::*;
use crate::lines::{lemma_scan_chunks, line_events, lines_of, scan};
use crate::process::{
    exit_result, FailureCauseView, LogEventView, StepResultView, StreamKind,
};
use crate::runner::{
    closing, initial, next_state, published, run_published, run_state, RunEventView, RunView,
};

verus! {

/// The bytes that `e` brings to stream `k` in state `s`: its payload if it
/// is output of `k` and `k` is still open, nothing otherwise.
pub open spec fn taken(s: RunView, e: RunEventView, k: StreamKind) -> Seq<u8> {
    match e {
        RunEventView::Output(j, bytes) => if j == k && s.open(k) {
            bytes
        } else {
            Seq::empty()
        },
        _ => Seq::empty(),
    }
}

/// All bytes that stream `k` took in while `events` were observed from
/// state `s`.
pub open spec fn run_taken(s: RunView, events: Seq<RunEventView>, k: StreamKind) -> Seq<u8>
    decreases events.len(),
{
    if events.len() == 0 {
        Seq::empty()
    } else {
        run_taken(s, events.drop_last(), k) + taken(
            run_state(s, events.drop_last()),
            events.last(),
            k,
        )
    }
}

/// The texts of the events of stream `k` among `events`, in order.
pub open spec fn texts_of(events: Seq<LogEventView>, k: StreamKind) -> Seq<Seq<u8>>
    decreases events.len(),
{
    if events.len() == 0 {
        Seq::empty()
    } else if events.last().stream == k {
        texts_of(events.drop_last(), k).push(events.last().text)
    } else {
        texts_of(events.drop_last(), k)
    }
}

proof fn lemma_texts_concat(a: Seq<LogEventView>, b: Seq<LogEventView>, k: StreamKind)
    ensures
        texts_of(a + b, k) == texts_of(a, k) + texts_of(b, k),
    decreases b.len(),
{
    if b.len() == 0 {
        assert(a + b =~= a);
        assert(texts_of(a, k) + Seq::<Seq<u8>>::empty() =~= texts_of(a, k));
    } else {
        lemma_texts_concat(a, b.drop_last(), k);
        assert((a + b).drop_last() =~= a + b.drop_last());
        assert((a + b).last() == b.last());
        if b.last().stream == k {
            assert(texts_of(a, k) + texts_of(b.drop_last(), k).push(b.last().text) =~= (
            texts_of(a, k) + texts_of(b.drop_last(), k)).push(b.last().text));
        }
    }
}

proof fn lemma_texts_lines(j: StreamKind, lines: Seq<Seq<u8>>, k: StreamKind)
    ensures
        texts_of(line_events(j, lines), k) == if j == k {
            lines
        } else {
            Seq::<Seq<u8>>::empty()
        },
    decreases lines.len(),
{
    if lines.len() > 0 {
        lemma_texts_lines(j, lines.drop_last(), k);
        assert(line_events(j, lines).drop_last() =~= line_events(j, lines.drop_last()));
        assert(line_events(j, lines).last().text == lines.last());
        if j == k {
            assert(lines.drop_last().push(lines.last()) =~= lines);
        }
    } else {
        assert(lines =~= Seq::<Seq<u8>>::empty());
    }
}

proof fn lemma_texts_closing(s: RunView, j: StreamKind, k: StreamKind)
    ensures
        texts_of(closing(s, j), k) == if j == k && s.open(k) && s.held(k).len() > 0 {
            seq![s.held(k)]
        } else {
            Seq::<Seq<u8>>::empty()
        },
{
    let c = closing(s, j);
    if c.len() > 0 {
        assert(c.drop_last() =~= Seq::<LogEventView>::empty());
        assert(texts_of(c.drop_last(), k) =~= Seq::<Seq<u8>>::empty());
        if j == k {
            assert(Seq::<Seq<u8>>::empty().push(c.last().text) =~= seq![s.held(k)]);
        }
    }
}

/// What a stream has published, in terms of what it took in: while the
/// stream is open, the complete lines of its bytes, with the rest held
/// back; once it has ended, all its lines.
pub open spec fn stream_accounted(
    end: RunView,
    got: Seq<Seq<u8>>,
    data: Seq<u8>,
    k: StreamKind,
) -> bool {
    if end.open(k) {
        got == scan(Seq::empty(), data).0 && end.held(k) == scan(Seq::empty(), data).1
    } else {
        got == lines_of(data) && end.held(k).len() == 0
    }
}

proof fn lemma_step_accounted(
    s: RunView,
    got: Seq<Seq<u8>>,
    data: Seq<u8>,
    e: RunEventView,
    k: StreamKind,
)
    requires
        stream_accounted(s, got, data, k),
    ensures
        stream_accounted(
            next_state(s, e),
            got + texts_of(published(s, e), k),
            data + taken(s, e, k),
            k,
        ),
{
    let none = Seq::<Seq<u8>>::empty();
    assert(got + none =~= got);
    assert(data + Seq::<u8>::empty() =~= data);
    match e {
        RunEventView::SpawnFailed(m) => {
            if s.exit is None {
                lemma_texts_concat(
                    closing(s, StreamKind::Stdout),
                    closing(s, StreamKind::Stderr),
                    k,
                );
                lemma_texts_closing(s, StreamKind::Stdout, k);
                lemma_texts_closing(s, StreamKind::Stderr, k);
                let shown = texts_of(published(s, e), k);
                if s.open(k) && s.held(k).len() > 0 {
                    assert(shown =~= seq![s.held(k)]);
                    assert(got + shown =~= got.push(s.held(k)));
                } else {
                    assert(shown =~= none);
                }
            } else {
                assert(texts_of(published(s, e), k) =~= none);
            }
        },
        RunEventView::Output(j, bytes) => {
            if s.open(j) {
                lemma_texts_lines(j, scan(s.held(j), bytes).0, k);
                if j == k {
                    lemma_scan_chunks(Seq::empty(), data, bytes);
                }
            } else {
                assert(texts_of(published(s, e), k) =~= none);
            }
        },
        RunEventView::Closed(j) => {
            lemma_texts_closing(s, j, k);
            if j == k && s.open(k) && s.held(k).len() > 0 {
                assert(got + seq![s.held(k)] =~= got.push(s.held(k)));
            }
        },
        RunEventView::ReadFailed(j) => {
            lemma_texts_closing(s, j, k);
            if j == k && s.open(k) && s.held(k).len() > 0 {
                assert(got + seq![s.held(k)] =~= got.push(s.held(k)));
            }
        },
        RunEventView::Exited(code) => {
            assert(texts_of(published(s, e), k) =~= none);
        },
        RunEventView::WaitFailed(m) => {
            assert(texts_of(published(s, e), k) =~= none);
        },
    }
}

/// Every run publishes the output of each stream line by line: at any
/// moment the events of a stream are the complete lines of the bytes it has
/// taken in, each with its terminator and byte for byte, while the rest is
/// held back; once the stream has ended they are all its lines, the
/// unterminated last one included.
pub proof fn lemma_run_publishes_lines(events: Seq<RunEventView>, k: StreamKind)
    ensures
        stream_accounted(
            run_state(initial(), events),
            texts_of(run_published(initial(), events), k),
            run_taken(initial(), events, k),
            k,
        ),
    decreases events.len(),
{
    if events.len() == 0 {
        assert(texts_of(run_published(initial(), events), k) =~= Seq::<Seq<u8>>::empty());
    } else {
        let before = events.drop_last();
        lemma_run_publishes_lines(before, k);
        let mid = run_state(initial(), before);
        lemma_step_accounted(
            mid,
            texts_of(run_published(initial(), before), k),
            run_taken(initial(), before, k),
            events.last(),
            k,
        );
        lemma_texts_concat(run_published(initial(), before), published(mid, events.last()), k);
    }
}

/// When a run has a result, each stream has published exactly the lines of
/// everything it took in.
pub proof fn lemma_finished_run_published_all(events: Seq<RunEventView>, k: StreamKind)
    requires
        run_state(initial(), events).outcome() is Some,
    ensures
        texts_of(run_published(initial(), events), k) == lines_of(run_taken(initial(), events, k)),
{
    lemma_run_publishes_lines(events, k);
}

/// Once the exit is classified, no later observation changes it.
pub proof fn lemma_exit_is_final(s: RunView, events: Seq<RunEventView>)
    requires
        s.exit is Some,
    ensures
        run_state(s, events).exit == s.exit,
    decreases events.len(),
{
    if events.len() > 0 {
        lemma_exit_is_final(s, events.drop_last());
    }
}

/// A stream that has ended stays ended.
pub proof fn lemma_closed_stays_closed(s: RunView, events: Seq<RunEventView>, k: StreamKind)
    requires
        !s.open(k),
    ensures
        !run_state(s, events).open(k),
    decreases events.len(),
{
    if events.len() > 0 {
        lemma_closed_stays_closed(s, events.drop_last(), k);
    }
}

/// A command that could not be started fails with the spawn error and
/// publishes nothing, whatever is observed afterwards.
pub proof fn lemma_spawn_failure_is_silent(reason: Seq<char>, later: Seq<RunEventView>)
    ensures
        run_published(initial(), seq![RunEventView::SpawnFailed(reason)] + later)
            == Seq::<LogEventView>::empty(),
        run_state(initial(), seq![RunEventView::SpawnFailed(reason)] + later).outcome() == Some(
            StepResultView::Failure(FailureCauseView::SpawnError(reason)),
        ),
        run_state(initial(), seq![RunEventView::SpawnFailed(reason)] + later) == next_state(
            initial(),
            RunEventView::SpawnFailed(reason),
        ),
    decreases later.len(),
{
    let first = seq![RunEventView::SpawnFailed(reason)];
    let all = first + later;
    if later.len() == 0 {
        assert(all =~= first);
        assert(first.drop_last() =~= Seq::<RunEventView>::empty());
        assert(run_state(initial(), first.drop_last()) == initial());
        assert(first.last() == RunEventView::SpawnFailed(reason));
        assert(closing(initial(), StreamKind::Stdout) =~= Seq::<LogEventView>::empty());
        assert(closing(initial(), StreamKind::Stderr) =~= Seq::<LogEventView>::empty());
        assert(run_published(initial(), first.drop_last()) =~= Seq::<LogEventView>::empty());
        assert(published(initial(), first.last()) =~= Seq::<LogEventView>::empty());
        assert(run_published(initial(), first) =~= Seq::<LogEventView>::empty());
    } else {
        lemma_spawn_failure_is_silent(reason, later.drop_last());
        assert(all.drop_last() =~= first + later.drop_last());
        assert(all.last() == later.last());
        let dead = next_state(initial(), RunEventView::SpawnFailed(reason));
        assert(published(dead, later.last()) =~= Seq::<LogEventView>::empty());
        assert(next_state(dead, later.last()) == dead);
        assert(run_published(initial(), all) =~= Seq::<LogEventView>::empty());
    }
}

/// Whether `e` reports on the start or the exit of the process, rather
/// than on its output.
pub open spec fn is_verdict(e: RunEventView) -> bool {
    e is SpawnFailed || e is Exited || e is WaitFailed
}

/// The first exit that is observed decides the result: a run in which the
/// process exits with `code`, before any other report on its start or exit,
/// is classified by `code`, whatever else is observed. Code zero is a
/// success; any other code is a failure that carries it.
pub proof fn lemma_first_exit_decides(events: Seq<RunEventView>, at: int, code: Option<i32>)
    requires
        0 <= at < events.len(),
        events[at] == RunEventView::Exited(code),
        forall|i: int| 0 <= i < at ==> !is_verdict(#[trigger] events[i]),
    ensures
        run_state(initial(), events).exit == Some(exit_result(code)),
        run_state(initial(), events).outcome() is Some ==> run_state(initial(), events).outcome()
            == Some(exit_result(code)),
        code == Some(0i32) ==> exit_result(code) == StepResultView::Success,
        forall|c: i32|
            code == Some(c) && c != 0 ==> exit_result(code) == StepResultView::Failure(
                FailureCauseView::NonZeroExit(c),
            ),
{
    let head = events.subrange(0, at);
    lemma_no_exit_before(head);
    let upto = events.subrange(0, at + 1);
    assert(upto.drop_last() =~= head);
    assert(upto.last() == events[at]);
    assert(run_state(initial(), upto).exit == Some(exit_result(code)));
    let tail = events.subrange(at + 1, events.len() as int);
    lemma_run_split(initial(), upto, tail);
    assert(upto + tail =~= events);
    lemma_exit_is_final(run_state(initial(), upto), tail);
}

/// A process that exits with code zero, and whose streams have ended, has
/// succeeded, and each of its streams has published exactly the lines of
/// what it took in, each with its terminator and byte for byte.
pub proof fn lemma_successful_run(events: Seq<RunEventView>, at: int)
    requires
        0 <= at < events.len(),
        events[at] == RunEventView::Exited(Some(0i32)),
        forall|i: int| 0 <= i < at ==> !is_verdict(#[trigger] events[i]),
        run_state(initial(), events).outcome() is Some,
    ensures
        run_state(initial(), events).outcome() == Some(StepResultView::Success),
        forall|k: StreamKind|
            #[trigger] texts_of(run_published(initial(), events), k) == lines_of(
                run_taken(initial(), events, k),
            ),
{
    lemma_first_exit_decides(events, at, Some(0i32));
    assert forall|k: StreamKind|
        #[trigger] texts_of(run_published(initial(), events), k) == lines_of(
            run_taken(initial(), events, k),
        ) by {
        lemma_finished_run_published_all(events, k);
    }
}

proof fn lemma_no_exit_before(events: Seq<RunEventView>)
    requires
        forall|i: int| 0 <= i < events.len() ==> !is_verdict(#[trigger] events[i]),
    ensures
        run_state(initial(), events).exit is None,
    decreases events.len(),
{
    if events.len() > 0 {
        let before = events.drop_last();
        assert forall|i: int| 0 <= i < before.len() implies !is_verdict(#[trigger] before[i]) by {
            assert(before[i] == events[i]);
        }
        lemma_no_exit_before(before);
        assert(events.last() == events[events.len() - 1]);
    }
}

/// Observing `a` and then `b` is observing `a + b`.
pub proof fn lemma_run_split(s: RunView, a: Seq<RunEventView>, b: Seq<RunEventView>)
    ensures
        run_state(s, a + b) == run_state(run_state(s, a), b),
        run_published(s, a + b) == run_published(s, a) + run_published(run_state(s, a), b),
    decreases b.len(),
{
    if b.len() == 0 {
        assert(a + b =~= a);
        assert(run_published(s, a) + Seq::<LogEventView>::empty() =~= run_published(s, a));
    } else {
        lemma_run_split(s, a, b.drop_last());
        assert((a + b).drop_last() =~= a + b.drop_last());
        assert((a + b).last() == b.last());
        let mid = run_state(s, a);
        assert(run_published(s, a) + (run_published(mid, b.drop_last()) + published(
            run_state(mid, b.drop_last()),
            b.last(),
        )) =~= (run_published(s, a) + run_published(mid, b.drop_last())) + published(
            run_state(mid, b.drop_last()),
            b.last(),
        ));
    }
}

} // verus!
