use zephyr_provision::cmd_west::{
    run_west_command, run_west_stream, west_command, west_init, west_stream, CommandOutput,
};
use zephyr_provision::pipeline::PipelineError;
use zephyr_provision::process::{EnvOverlay, FailureCause, ProcessSpec};

#[test]
fn the_meta_tool_is_invoked_by_name() {
    let spec = west_command(vec!["build".to_string(), "-b".to_string()], Some("/ws".to_string()));
    assert_eq!(
        spec,
        ProcessSpec {
            program: "west".to_string(),
            args: vec!["build".to_string(), "-b".to_string()],
            cwd: Some("/ws".to_string()),
            env: EnvOverlay::empty(),
            hide_window: false,
        }
    );
}

#[test]
fn workspace_initialisation_names_manifest_and_path() {
    let spec = west_init("https://example.org/manifest.git", "/home/u/ws");
    assert_eq!(spec.program, "west");
    assert_eq!(spec.args, vec!["init", "-m", "https://example.org/manifest.git", "/home/u/ws"]);
    assert_eq!(spec.cwd, None);
    assert!(spec.env.vars.is_empty());
}

#[test]
fn collected_output_is_returned_on_success() {
    let output = CommandOutput::Finished {
        success: true,
        stdout: "manifest ok\n".to_string(),
        stderr: "warning\n".to_string(),
    };
    assert_eq!(run_west_command(&output), Ok("manifest ok\n".to_string()));
}

#[test]
fn collected_output_is_quoted_on_failure() {
    let output = CommandOutput::Finished {
        success: false,
        stdout: "out".to_string(),
        stderr: "err".to_string(),
    };
    assert_eq!(
        run_west_command(&output),
        Err("Command failed:\nStdout: out\nStderr: err".to_string())
    );
    assert_eq!(
        run_west_command(&CommandOutput::SpawnFailed("not found".to_string())),
        Err("not found".to_string())
    );
}

fn failed(cause: FailureCause) -> Result<(), PipelineError> {
    Err(PipelineError { step: 0, program: "west".to_string(), cause })
}

#[test]
fn a_streamed_command_reports_failure_plainly() {
    assert_eq!(run_west_stream(&Ok(())), Ok(()));
    assert_eq!(
        run_west_stream(&failed(FailureCause::NonZeroExit(2))),
        Err("Command failed".to_string())
    );
    assert_eq!(
        run_west_stream(&failed(FailureCause::Terminated)),
        Err("Command failed".to_string())
    );
    assert_eq!(
        run_west_stream(&failed(FailureCause::SpawnError("no west".to_string()))),
        Err("no west".to_string())
    );
    assert_eq!(
        run_west_stream(&failed(FailureCause::WaitError("lost".to_string()))),
        Err("lost".to_string())
    );
}

#[test]
fn a_streamed_invocation_is_a_pipeline_of_one_silent_step() {
    let plan = west_stream(vec!["update".to_string()], None);
    assert_eq!(plan.ensure_dir, None);
    assert_eq!(plan.completion, None);
    assert_eq!(plan.steps.len(), 1);
    assert!(plan.steps[0].milestones.is_empty());
    assert_eq!(plan.steps[0].spec, west_command(vec!["update".to_string()], None));
}
