use zephyr_provision::cmd_zephyr::{install_zephyr, run_command_stream, setup_pip_source};
use zephyr_provision::pipeline::{PipelineError, PipelineSpec, PipelineState, Step};
use zephyr_provision::platform::Platform;
use zephyr_provision::process::{EnvOverlay, FailureCause, ProcessSpec, StepResult};

fn texts(items: &[&str]) -> Vec<String> {
    items.iter().map(|s| s.to_string()).collect()
}

fn linux_plan(shallow: bool, sdk: Option<&str>) -> PipelineSpec {
    install_zephyr("/home/u/zephyrproject", sdk, shallow, Some("/usr/bin"), Platform::Linux)
}

fn replay(plan: &PipelineSpec, results: Vec<StepResult>) -> (Vec<usize>, PipelineState) {
    let mut state = plan.begin();
    let mut started = Vec::new();
    let mut results = results.into_iter();
    while let Some(step) = plan.due_step(&state) {
        let index = match &state {
            PipelineState::Running(i) => *i,
            _ => unreachable!(),
        };
        assert_eq!(step, &plan.steps[index]);
        started.push(index);
        match results.next() {
            Some(result) => state = plan.advance(state, result),
            None => break,
        }
    }
    (started, state)
}

#[test]
fn provisioning_has_nine_steps_in_a_fixed_order() {
    let plan = linux_plan(false, None);
    assert_eq!(plan.ensure_dir, Some("/home/u/zephyrproject".to_string()));
    assert_eq!(plan.completion, Some("Zephyr installation complete!".to_string()));
    let programs: Vec<&str> = plan.steps.iter().map(|s| s.spec.program.as_str()).collect();
    let python = "/home/u/zephyrproject/.venv/bin/python";
    let west = "/home/u/zephyrproject/.venv/bin/west";
    assert_eq!(programs, vec!["python3", python, python, python, west, west, west, west, west]);
    let args: Vec<Vec<String>> = plan.steps.iter().map(|s| s.spec.args.clone()).collect();
    assert_eq!(
        args,
        vec![
            texts(&["-m", "venv", ".venv"]),
            texts(&[
                "-m",
                "pip",
                "install",
                "-i",
                "https://mirrors.ustc.edu.cn/pypi/simple",
                "pip",
                "-U"
            ]),
            texts(&[
                "-m",
                "pip",
                "config",
                "set",
                "global.index-url",
                "https://mirrors.ustc.edu.cn/pypi/simple"
            ]),
            texts(&["-m", "pip", "install", "west"]),
            texts(&["init", "."]),
            texts(&["update"]),
            texts(&["zephyr-export"]),
            texts(&["packages", "pip", "--install"]),
            texts(&["sdk", "install"]),
        ]
    );
    let milestones: Vec<Vec<String>> = plan.steps.iter().map(|s| s.milestones.clone()).collect();
    assert_eq!(
        milestones,
        vec![
            texts(&["Creating virtual environment..."]),
            texts(&[
                "Configuring pip source to USTC mirror...",
                "Upgrading pip with USTC source..."
            ]),
            texts(&["Setting pip config to USTC source..."]),
            texts(&["Installing west..."]),
            texts(&["Initializing west workspace..."]),
            texts(&["Updating west modules (this may take a while)..."]),
            texts(&["Exporting Zephyr CMake package..."]),
            texts(&["Installing Python dependencies..."]),
            texts(&["Installing Zephyr SDK..."]),
        ]
    );
}

#[test]
fn provisioning_steps_run_where_and_under_what_they_should() {
    let plan = linux_plan(false, None);
    for step in &plan.steps[..8] {
        assert_eq!(step.spec.cwd, Some("/home/u/zephyrproject".to_string()));
    }
    assert_eq!(plan.steps[8].spec.cwd, Some("/home/u/zephyrproject/zephyr".to_string()));
    assert!(plan.steps[0].spec.env.vars.is_empty());
    let active = vec![
        ("PATH".to_string(), "/home/u/zephyrproject/.venv/bin:/usr/bin".to_string()),
        ("VIRTUAL_ENV".to_string(), "/home/u/zephyrproject/.venv".to_string()),
    ];
    for step in &plan.steps[1..] {
        assert_eq!(step.spec.env.vars, active);
    }
}

#[test]
fn unattended_steps_open_no_window_on_windows() {
    let windows = install_zephyr("C:\\zp", None, false, None, Platform::Windows);
    assert!(windows.steps.iter().all(|s| s.spec.hide_window));
    let linux = linux_plan(false, None);
    assert!(linux.steps.iter().all(|s| !s.spec.hide_window));
}

#[test]
fn provisioning_on_windows_uses_the_windows_tools() {
    let plan = install_zephyr("C:\\zp", None, false, None, Platform::Windows);
    assert_eq!(plan.steps[0].spec.program, "python");
    assert_eq!(plan.steps[1].spec.program, "C:\\zp\\.venv\\Scripts\\python.exe");
    assert_eq!(plan.steps[4].spec.program, "C:\\zp\\.venv\\Scripts\\west.exe");
    assert_eq!(plan.steps[8].spec.cwd, Some("C:\\zp\\zephyr".to_string()));
    assert_eq!(
        plan.steps[8].spec.env.vars,
        vec![("VIRTUAL_ENV".to_string(), "C:\\zp\\.venv".to_string())]
    );
}

#[test]
fn shallow_clone_adds_a_filter_to_init_and_update_only() {
    let shallow = linux_plan(true, None);
    assert_eq!(shallow.steps[4].spec.args, texts(&["init", ".", "--clone-opt=--filter=blob:none"]));
    assert_eq!(shallow.steps[5].spec.args, texts(&["update", "--fetch-opt=--filter=blob:none"]));
    let full = linux_plan(false, None);
    assert_eq!(full.steps[4].spec.args, texts(&["init", "."]));
    assert_eq!(full.steps[5].spec.args, texts(&["update"]));
    for (i, step) in shallow.steps.iter().enumerate() {
        let filtered = step.spec.args.iter().any(|a| a.contains("filter"));
        assert_eq!(filtered, i == 4 || i == 5);
    }
    for step in &full.steps {
        assert!(!step.spec.args.iter().any(|a| a.contains("filter")));
    }
    assert_eq!(shallow.steps[..4], full.steps[..4]);
    assert_eq!(shallow.steps[6..], full.steps[6..]);
}

#[test]
fn sdk_destination_is_passed_to_the_last_step() {
    let plan = linux_plan(false, Some("/opt/zephyr-sdk"));
    assert_eq!(plan.steps[8].spec.args, texts(&["sdk", "install", "-d", "/opt/zephyr-sdk"]));
    assert_eq!(plan.steps[..8], linux_plan(false, None).steps[..8]);
}

#[test]
fn all_steps_run_in_order_when_each_succeeds() {
    let plan = linux_plan(true, None);
    let (started, state) = replay(&plan, vec![StepResult::Success; 9]);
    assert_eq!(started, vec![0, 1, 2, 3, 4, 5, 6, 7, 8]);
    assert_eq!(state, PipelineState::Succeeded);
    assert_eq!(plan.verdict(&state), Some(Ok(())));
    assert_eq!(plan.due_step(&state), None);
}

#[test]
fn a_failing_workspace_init_keeps_the_module_update_from_starting() {
    let plan = linux_plan(false, None);
    let mut results = vec![StepResult::Success; 4];
    results.push(StepResult::Failure(FailureCause::NonZeroExit(1)));
    results.extend(vec![StepResult::Success; 4]);
    let (started, state) = replay(&plan, results);
    assert_eq!(started, vec![0, 1, 2, 3, 4]);
    assert_eq!(state, PipelineState::Failed(4, FailureCause::NonZeroExit(1)));
    assert_eq!(plan.due_step(&state), None);
    let error = PipelineError {
        step: 4,
        program: "/home/u/zephyrproject/.venv/bin/west".to_string(),
        cause: FailureCause::NonZeroExit(1),
    };
    assert_eq!(plan.verdict(&state), Some(Err(error.clone())));
    assert_eq!(
        error.message(),
        "Command /home/u/zephyrproject/.venv/bin/west failed with status 1"
    );
    let later = plan.advance(state.clone(), StepResult::Success);
    assert_eq!(later, state);
}

#[test]
fn a_spawn_error_in_the_first_step_stops_everything() {
    let plan = linux_plan(false, None);
    let cause = FailureCause::SpawnError("No such file or directory (os error 2)".to_string());
    let (started, state) = replay(&plan, vec![StepResult::Failure(cause.clone())]);
    assert_eq!(started, vec![0]);
    assert_eq!(state, PipelineState::Failed(0, cause.clone()));
    let error = match plan.verdict(&state) {
        Some(Err(e)) => e,
        other => panic!("unexpected verdict {:?}", other),
    };
    assert_eq!(error.step, 0);
    assert_eq!(
        error.message(),
        "Failed to spawn python3: No such file or directory (os error 2)"
    );
}

#[test]
fn a_run_in_progress_has_no_verdict() {
    let plan = linux_plan(false, None);
    let state = plan.begin();
    assert_eq!(state, PipelineState::Running(0));
    assert_eq!(plan.verdict(&state), None);
    assert_eq!(plan.verdict(&PipelineState::NotStarted), None);
    assert_eq!(plan.due_step(&PipelineState::NotStarted), None);
    assert_eq!(plan.advance(PipelineState::NotStarted, StepResult::Success), PipelineState::NotStarted);
    assert_eq!(plan.due_step(&PipelineState::Running(9)), None);
}

#[test]
fn a_pipeline_without_steps_is_over_at_once() {
    let plan = PipelineSpec { ensure_dir: None, steps: vec![], completion: None };
    assert_eq!(plan.begin(), PipelineState::Succeeded);
    let one = PipelineSpec {
        ensure_dir: None,
        steps: vec![Step {
            milestones: vec![],
            spec: ProcessSpec {
                program: "true".to_string(),
                args: vec![],
                cwd: None,
                env: EnvOverlay::empty(),
                hide_window: false,
            },
        }],
        completion: None,
    };
    assert_eq!(one.advance(one.begin(), StepResult::Success), PipelineState::Succeeded);
}

#[test]
fn single_commands_are_activated_only_when_an_installation_is_given() {
    let plain = run_command_stream("git", texts(&["status"]), None, None, Some("/bin"), Platform::Linux);
    assert_eq!(
        plain,
        ProcessSpec {
            program: "git".to_string(),
            args: texts(&["status"]),
            cwd: None,
            env: EnvOverlay::empty(),
            hide_window: false,
        }
    );
    let active = run_command_stream(
        "west",
        texts(&["build"]),
        Some("/ws/app"),
        Some("/ws/.venv"),
        Some("/bin"),
        Platform::Linux,
    );
    assert_eq!(active.cwd, Some("/ws/app".to_string()));
    assert_eq!(
        active.env.vars,
        vec![
            ("PATH".to_string(), "/ws/.venv/bin:/bin".to_string()),
            ("VIRTUAL_ENV".to_string(), "/ws/.venv".to_string()),
        ]
    );
}

#[test]
fn the_package_index_is_reconfigured_in_two_steps() {
    let (upgrade, persist) =
        setup_pip_source("/ws", "/ws/.venv/bin/python", "/ws/.venv", None, Platform::Linux);
    assert_eq!(upgrade.milestones, texts(&["Upgrading pip with USTC source..."]));
    assert_eq!(persist.milestones, texts(&["Setting pip config to USTC source..."]));
    assert_eq!(upgrade.spec.program, "/ws/.venv/bin/python");
    assert_eq!(persist.spec.program, "/ws/.venv/bin/python");
    assert_eq!(upgrade.spec.args[2], "install");
    assert_eq!(persist.spec.args[2], "config");
    assert_eq!(upgrade.spec.cwd, Some("/ws".to_string()));
}
