use zephyr_provision::process::{
    classify_exit, describe_failure, log_line, EnvOverlay, FailureCause, ProcessSpec, StepResult,
};

#[test]
fn exit_codes_are_classified() {
    assert_eq!(classify_exit(Some(0)), StepResult::Success);
    assert_eq!(classify_exit(Some(1)), StepResult::Failure(FailureCause::NonZeroExit(1)));
    assert_eq!(classify_exit(Some(-7)), StepResult::Failure(FailureCause::NonZeroExit(-7)));
    assert_eq!(classify_exit(None), StepResult::Failure(FailureCause::Terminated));
    assert!(classify_exit(Some(0)).is_success());
    assert!(!classify_exit(Some(255)).is_success());
}

#[test]
fn failure_messages_name_the_command_and_the_cause() {
    assert_eq!(
        describe_failure("python3", &FailureCause::SpawnError("No such file".to_string())),
        "Failed to spawn python3: No such file"
    );
    assert_eq!(
        describe_failure("/w/.venv/bin/west", &FailureCause::NonZeroExit(128)),
        "Command /w/.venv/bin/west failed with status 128"
    );
    assert_eq!(
        describe_failure("west", &FailureCause::NonZeroExit(-2147483648)),
        "Command west failed with status -2147483648"
    );
    assert_eq!(
        describe_failure("west", &FailureCause::Terminated),
        "Command west ended without an exit status"
    );
    assert_eq!(describe_failure("west", &FailureCause::WaitError("gone".to_string())), "gone");
}

#[test]
fn overlays_keep_their_bindings_in_order() {
    let mut overlay = EnvOverlay::empty();
    assert!(overlay.vars.is_empty());
    overlay.set("A", "1");
    overlay.set("B", "2");
    overlay.set("A", "3");
    assert_eq!(
        overlay.vars,
        vec![
            ("A".to_string(), "1".to_string()),
            ("B".to_string(), "2".to_string()),
            ("A".to_string(), "3".to_string()),
        ]
    );
    assert_eq!(overlay.duplicate(), overlay);
}

#[test]
fn copies_of_a_description_are_equal_to_it() {
    let mut env = EnvOverlay::empty();
    env.set("TERM", "xterm");
    let spec = ProcessSpec {
        program: "sh".to_string(),
        args: vec!["-c".to_string(), "true".to_string()],
        cwd: Some("/tmp".to_string()),
        env,
        hide_window: true,
    };
    assert_eq!(spec.duplicate(), spec);
    let failure = StepResult::Failure(FailureCause::SpawnError("x".to_string()));
    assert_eq!(failure.duplicate(), failure);
}

#[test]
fn terminal_lines_end_with_carriage_return_and_line_feed() {
    assert_eq!(log_line("Installing west..."), "Installing west...\r\n");
    assert_eq!(log_line(""), "\r\n");
}
