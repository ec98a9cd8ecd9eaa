use zephyr_provision::process::{FailureCause, LogEvent, StepResult, StreamKind};
use zephyr_provision::runner::{RunEvent, StepRun};

fn event(stream: StreamKind, text: &[u8]) -> LogEvent {
    LogEvent { stream, text: text.to_vec() }
}

fn drive(events: Vec<RunEvent>) -> (Vec<LogEvent>, Option<StepResult>) {
    let mut run = StepRun::new();
    let mut published = Vec::new();
    for e in events {
        published.extend(run.handle(e));
    }
    (published, run.result())
}

#[test]
fn a_successful_process_publishes_every_line_and_succeeds() {
    let (published, result) = drive(vec![
        RunEvent::Output(StreamKind::Stdout, b"first\nsec".to_vec()),
        RunEvent::Output(StreamKind::Stderr, b"warning\n".to_vec()),
        RunEvent::Output(StreamKind::Stdout, b"ond\nlast".to_vec()),
        RunEvent::Exited(Some(0)),
        RunEvent::Closed(StreamKind::Stdout),
        RunEvent::Closed(StreamKind::Stderr),
    ]);
    assert_eq!(
        published,
        vec![
            event(StreamKind::Stdout, b"first\n"),
            event(StreamKind::Stderr, b"warning\n"),
            event(StreamKind::Stdout, b"second\n"),
            event(StreamKind::Stdout, b"last"),
        ]
    );
    assert_eq!(result, Some(StepResult::Success));
}

#[test]
fn a_missing_executable_fails_as_spawn_error_without_events() {
    let (published, result) = drive(vec![
        RunEvent::SpawnFailed("No such file or directory (os error 2)".to_string()),
        RunEvent::Output(StreamKind::Stdout, b"stray\n".to_vec()),
        RunEvent::Closed(StreamKind::Stdout),
        RunEvent::Exited(Some(0)),
    ]);
    assert_eq!(published, vec![]);
    assert_eq!(
        result,
        Some(StepResult::Failure(FailureCause::SpawnError(
            "No such file or directory (os error 2)".to_string()
        )))
    );
}

#[test]
fn a_non_zero_exit_code_is_carried_by_the_failure() {
    let (published, result) = drive(vec![
        RunEvent::Output(StreamKind::Stderr, b"fatal: boom\n".to_vec()),
        RunEvent::Closed(StreamKind::Stderr),
        RunEvent::Closed(StreamKind::Stdout),
        RunEvent::Exited(Some(3)),
    ]);
    assert_eq!(published, vec![event(StreamKind::Stderr, b"fatal: boom\n")]);
    assert_eq!(result, Some(StepResult::Failure(FailureCause::NonZeroExit(3))));
    let (_, negative) = drive(vec![
        RunEvent::Closed(StreamKind::Stderr),
        RunEvent::Closed(StreamKind::Stdout),
        RunEvent::Exited(Some(-1)),
    ]);
    assert_eq!(negative, Some(StepResult::Failure(FailureCause::NonZeroExit(-1))));
}

#[test]
fn there_is_no_result_before_both_streams_have_ended() {
    let mut run = StepRun::new();
    assert_eq!(run.result(), None);
    run.handle(RunEvent::Exited(Some(0)));
    assert_eq!(run.result(), None);
    run.handle(RunEvent::Closed(StreamKind::Stdout));
    assert_eq!(run.result(), None);
    let late = run.handle(RunEvent::Output(StreamKind::Stderr, b"trailing\n".to_vec()));
    assert_eq!(late, vec![event(StreamKind::Stderr, b"trailing\n")]);
    run.handle(RunEvent::Closed(StreamKind::Stderr));
    assert_eq!(run.result(), Some(StepResult::Success));
}

#[test]
fn a_process_without_exit_code_is_terminated() {
    let (_, result) = drive(vec![
        RunEvent::Closed(StreamKind::Stdout),
        RunEvent::Closed(StreamKind::Stderr),
        RunEvent::Exited(None),
    ]);
    assert_eq!(result, Some(StepResult::Failure(FailureCause::Terminated)));
}

#[test]
fn an_unobservable_exit_is_a_wait_error() {
    let (_, result) = drive(vec![
        RunEvent::Closed(StreamKind::Stdout),
        RunEvent::Closed(StreamKind::Stderr),
        RunEvent::WaitFailed("interrupted".to_string()),
    ]);
    assert_eq!(
        result,
        Some(StepResult::Failure(FailureCause::WaitError("interrupted".to_string())))
    );
}

#[test]
fn a_read_error_publishes_what_was_held_and_does_not_fail_the_step() {
    let (published, result) = drive(vec![
        RunEvent::Output(StreamKind::Stdout, b"partial".to_vec()),
        RunEvent::ReadFailed(StreamKind::Stdout),
        RunEvent::Closed(StreamKind::Stderr),
        RunEvent::Exited(Some(0)),
    ]);
    assert_eq!(published, vec![event(StreamKind::Stdout, b"partial")]);
    assert_eq!(result, Some(StepResult::Success));
}

#[test]
fn output_after_the_end_of_a_stream_is_ignored() {
    let (published, _) = drive(vec![
        RunEvent::Closed(StreamKind::Stdout),
        RunEvent::Output(StreamKind::Stdout, b"ghost\n".to_vec()),
    ]);
    assert_eq!(published, vec![]);
}

#[test]
fn the_first_report_of_the_exit_is_final() {
    let (_, result) = drive(vec![
        RunEvent::Exited(Some(2)),
        RunEvent::Exited(Some(0)),
        RunEvent::SpawnFailed("late".to_string()),
        RunEvent::WaitFailed("late".to_string()),
        RunEvent::Closed(StreamKind::Stdout),
        RunEvent::Closed(StreamKind::Stderr),
    ]);
    assert_eq!(result, Some(StepResult::Failure(FailureCause::NonZeroExit(2))));
}
