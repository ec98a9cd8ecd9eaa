//! The user's configuration and what the project commands do to it, and the
//! plan by which a new project is created from the starter repository.

use vstd::prelude::*;
use vstd::string::StringExecFns;
use crate::history::{
    bound_paths, forget, move_to_front, register, registered, touched, without_path,
    ProjectMetadata, ProjectView,
};
use crate::pipeline::{no_steps, push_step, PipelineSpec, PipelineView, Step, StepView};
use crate::platform::{file_name_of, join_path, joined, split_of, split_path, Platform};
use crate::process::{EnvOverlay, ProcessSpec, ProcessSpecView};
use crate::text::{one_text, push_text};

verus! {

/// What the application remembers between runs.
#[derive(Clone, Debug, PartialEq, Eq)]
pub struct UserConfig {
    /// Base directory of the SDK, if the user chose one.
    pub zephyr_base: Option<String>,
    /// Root of the isolated Python installation, if the user chose one.
    pub venv_path: Option<String>,
    /// Paths of the projects last worked on, the most recent first.
    pub recent_projects: Vec<String>,
    /// Descriptions of the projects last worked on, the most recent first.
    pub project_history: Vec<ProjectMetadata>,
}

/// Mathematical content of a [`UserConfig`].
#[verifier::ext_equal]
pub struct UserConfigView {
    pub zephyr_base: Option<Seq<char>>,
    pub venv_path: Option<Seq<char>>,
    pub recent_projects: Seq<Seq<char>>,
    pub project_history: Seq<ProjectView>,
}

impl DeepView for UserConfig {
    type V = UserConfigView;

    open spec fn deep_view(&self) -> UserConfigView {
        UserConfigView {
            zephyr_base: self.zephyr_base.deep_view(),
            venv_path: self.venv_path.deep_view(),
            recent_projects: self.recent_projects.deep_view(),
            project_history: self.project_history.deep_view(),
        }
    }
}

impl View for UserConfig {
    type V = UserConfigView;

    open spec fn view(&self) -> UserConfigView {
        self.deep_view()
    }
}

/// The configuration of a user who has not chosen or opened anything.
pub open spec fn blank_config() -> UserConfigView {
    UserConfigView {
        zephyr_base: None,
        venv_path: None,
        recent_projects: Seq::empty(),
        project_history: Seq::empty(),
    }
}

impl Default for UserConfig {
    fn default() -> (r: UserConfig)
        ensures
            r@ == blank_config(),
    {
        let r = UserConfig {
            zephyr_base: None,
            venv_path: None,
            recent_projects: Vec::new(),
            project_history: Vec::new(),
        };
        assert(r@.recent_projects =~= Seq::empty());
        assert(r@.project_history =~= Seq::empty());
        r
    }
}

/// Records `path` as the base directory of the SDK.
pub fn set_zephyr_path(config: &mut UserConfig, path: String)
    ensures
        final(config)@ == (UserConfigView { zephyr_base: Some(path@), ..old(config)@ }),
{
    config.zephyr_base = Some(path);
}

/// Records `path` as the root of the isolated Python installation.
pub fn set_venv_path(config: &mut UserConfig, path: String)
    ensures
        final(config)@ == (UserConfigView { venv_path: Some(path@), ..old(config)@ }),
{
    config.venv_path = Some(path);
}

/// Notes that the project at `path` was worked on: it moves to the front of
/// the recent paths, of which the first ten are kept.
pub fn add_recent_project(config: &mut UserConfig, path: String)
    ensures
        final(config)@ == (UserConfigView {
            recent_projects: touched(old(config)@.recent_projects, path@),
            ..old(config)@
        }),
{
    move_to_front(&mut config.recent_projects, path);
    bound_paths(&mut config.recent_projects);
}

/// The name under which a project at `path` is listed when none was given:
/// the last component of the path, or the path itself if it has none.
pub open spec fn default_name(path: Seq<char>, p: Platform) -> Seq<char> {
    match file_name_of(path, p) {
        Some(name) => name,
        None => path,
    }
}

/// The description of a project first seen at `timestamp`.
pub open spec fn new_project(
    path: Seq<char>,
    name: Seq<char>,
    timestamp: u64,
    project_type: Option<Seq<char>>,
) -> ProjectView {
    ProjectView { path, name, last_opened: timestamp, project_type, zephyr_version: None }
}

/// Notes in the history that the project at `path` was worked on at
/// `timestamp`. A project already listed only gets the new time; a new one
/// is listed under `name`, or under the last component of its path. The
/// history is kept ordered from newest to oldest, the project just touched
/// in front of those of its own time, and holds ten projects at most, of
/// which the touched one is always one.
pub fn add_project_to_history(
    config: &mut UserConfig,
    path: String,
    name: Option<String>,
    timestamp: u64,
    p: Platform,
)
    ensures
        final(config)@ == (UserConfigView {
            project_history: registered(
                old(config)@.project_history,
                new_project(
                    path@,
                    match name {
                        Some(n) => n@,
                        None => default_name(path@, p),
                    },
                    timestamp,
                    None,
                ),
                false,
            ),
            ..old(config)@
        }),
{
    let project_name = match name {
        Some(n) => n,
        None => match split_path(path.as_str(), p) {
            Some(parts) => parts.1,
            None => path.clone(),
        },
    };
    let entry = ProjectMetadata {
        path,
        name: project_name,
        last_opened: timestamp,
        project_type: None,
        zephyr_version: None,
    };
    register(&mut config.project_history, entry, false);
}

/// The projects of the history, the most recent first.
pub fn get_project_history(config: &UserConfig) -> (r: Vec<ProjectMetadata>)
    ensures
        r.deep_view() == config@.project_history,
{
    let mut out: Vec<ProjectMetadata> = Vec::new();
    let mut i: usize = 0;
    while i < config.project_history.len()
        invariant
            i <= config.project_history.len(),
            out.len() == i,
            forall|j: int| 0 <= j < i ==> out[j]@ == config.project_history[j]@,
        decreases config.project_history.len() - i,
    {
        out.push(config.project_history[i].duplicate());
        i = i + 1;
    }
    assert(out.deep_view() =~= config@.project_history);
    out
}

/// Removes the project at `path` from the history.
pub fn remove_project_from_history(config: &mut UserConfig, path: String)
    ensures
        final(config)@ == (UserConfigView {
            project_history: without_path(old(config)@.project_history, path@),
            ..old(config)@
        }),
{
    forget(&mut config.project_history, &path);
}

/// The configuration after a project of the workspace kind at `path` was
/// created or opened at `timestamp`: its path leads the recent paths, of
/// which the first ten are kept, and the history lists it, with `name` if
/// it is new or `rename` is set.
pub open spec fn project_noted(
    config: UserConfigView,
    path: Seq<char>,
    name: Seq<char>,
    timestamp: u64,
    rename: bool,
) -> UserConfigView {
    UserConfigView {
        recent_projects: touched(config.recent_projects, path),
        project_history: registered(
            config.project_history,
            new_project(path, name, timestamp, Some("zephyr"@)),
            rename,
        ),
        ..config
    }
}

fn note_project(
    config: &mut UserConfig,
    path: String,
    name: String,
    timestamp: u64,
    rename: bool,
)
    ensures
        final(config)@ == project_noted(old(config)@, path@, name@, timestamp, rename),
{
    move_to_front(&mut config.recent_projects, path.clone());
    bound_paths(&mut config.recent_projects);
    let entry = ProjectMetadata {
        path,
        name,
        last_opened: timestamp,
        project_type: Some(String::from_str("zephyr")),
        zephyr_version: None,
    };
    register(&mut config.project_history, entry, rename);
}

/// Notes that the project at `workspace_path` was opened at `timestamp`
/// under the name `project_name`, which replaces the name it was listed
/// under. Its path leads the recent paths and the history, both of which
/// stay within ten entries.
pub fn open_project(
    config: &mut UserConfig,
    workspace_path: String,
    project_name: String,
    timestamp: u64,
)
    ensures
        final(config)@ == project_noted(
            old(config)@,
            workspace_path@,
            project_name@,
            timestamp,
            true,
        ),
{
    note_project(config, workspace_path, project_name, timestamp, true);
}

/// Why no plan could be made for creating a project.
#[derive(Clone, Copy, Debug, PartialEq, Eq, Structural)]
pub enum PlanError {
    /// The configuration names no isolated Python installation.
    VenvNotConfigured,
    /// The workspace path has no parent directory or no last component.
    InvalidWorkspacePath,
}

impl PlanError {
    /// The message shown to the user.
    pub fn message(&self) -> (r: String)
        ensures
            r@ == match *self {
                PlanError::VenvNotConfigured => "未配置虚拟环境路径"@,
                PlanError::InvalidWorkspacePath => "无效的工作区路径"@,
            },
    {
        match self {
            PlanError::VenvNotConfigured => String::from_str("未配置虚拟环境路径"),
            PlanError::InvalidWorkspacePath => String::from_str("无效的工作区路径"),
        }
    }
}

/// Address of the repository that a new project starts from.
pub open spec fn starter_repository() -> Seq<char> {
    "https://github.com/RoboMaster-DLMU-CONE/one-starter"@
}

/// The beginning of a shell line that activates the installation rooted at
/// `venv` before the command that follows it.
pub open spec fn activation_prefix(venv: Seq<char>, p: Platform) -> Seq<char> {
    if p.windows() {
        joined(joined(venv, "Scripts"@, p), "activate.bat"@, p) + " && "@
    } else {
        "source "@ + joined(joined(venv, "bin"@, p), "activate"@, p) + " && "@
    }
}

/// The shell line that initialises the workspace `name` from the starter
/// repository.
pub open spec fn init_line(venv: Seq<char>, name: Seq<char>, shallow: bool, p: Platform) -> Seq<
    char,
> {
    activation_prefix(venv, p) + "west init -m "@ + starter_repository() + " --mr main"@ + (if shallow {
        " --clone-opt=--depth=15"@
    } else {
        Seq::empty()
    }) + " "@ + name
}

/// The shell line that fetches the modules of a workspace.
pub open spec fn update_line(venv: Seq<char>, shallow: bool, p: Platform) -> Seq<char> {
    activation_prefix(venv, p) + "west update"@ + (if shallow {
        " --fetch-opt=--depth=15"@
    } else {
        Seq::empty()
    })
}

/// The command that hands `line` to the platform's shell, in `cwd`, with a
/// terminal type set so that the tools format their output as for a
/// terminal. As an unattended step it gets no console window of its own on
/// Windows.
pub open spec fn shell_command(line: Seq<char>, cwd: Seq<char>, p: Platform) -> ProcessSpecView {
    ProcessSpecView {
        program: if p.windows() {
            "cmd"@
        } else {
            "sh"@
        },
        args: seq![
            if p.windows() {
                "/C"@
            } else {
                "-c"@
            },
            line,
        ],
        cwd: Some(cwd),
        env: seq![("TERM"@, "xterm"@)],
        hide_window: p.windows(),
    }
}

/// The plan for creating the project at `workspace`: initialise it from the
/// directory above it, then fetch its modules from inside it. There is no
/// plan without an isolated installation or for a path that cannot be split
/// into a directory and a name.
pub open spec fn create_project_plan(
    venv: Option<Seq<char>>,
    workspace: Seq<char>,
    shallow: bool,
    p: Platform,
) -> Result<PipelineView, PlanError> {
    match venv {
        None => Err(PlanError::VenvNotConfigured),
        Some(v) => match split_of(workspace, p) {
            None => Err(PlanError::InvalidWorkspacePath),
            Some(parts) => Ok(
                PipelineView {
                    ensure_dir: None,
                    steps: seq![
                        StepView {
                            milestones: seq!["正在初始化项目: "@ + init_line(v, parts.1, shallow, p)],
                            spec: shell_command(init_line(v, parts.1, shallow, p), parts.0, p),
                        },
                        StepView {
                            milestones: seq!["正在更新项目: "@ + update_line(v, shallow, p)],
                            spec: shell_command(
                                update_line(v, shallow, p),
                                joined(parts.0, parts.1, p),
                                p,
                            ),
                        },
                    ],
                    completion: Some("项目创建完成！"@),
                },
            ),
        },
    }
}

fn activation_text(venv: &str, p: Platform) -> (r: String)
    ensures
        r@ == activation_prefix(venv@, p),
{
    if p.is_windows() {
        let dir = join_path(venv, "Scripts", p);
        let mut line = join_path(dir.as_str(), "activate.bat", p);
        line.append(" && ");
        line
    } else {
        let dir = join_path(venv, "bin", p);
        let script = join_path(dir.as_str(), "activate", p);
        let mut line = String::from_str("source ");
        line.append(script.as_str());
        line.append(" && ");
        line
    }
}

fn shell_step(announce: &str, line: &str, cwd: &str, p: Platform) -> (r: Step)
    ensures
        r@ == (StepView {
            milestones: seq![announce@ + line@],
            spec: shell_command(line@, cwd@, p),
        }),
{
    let mut milestone = String::from_str(announce);
    milestone.append(line);
    let mut env = EnvOverlay::empty();
    env.set("TERM", "xterm");
    let (program, flag) = if p.is_windows() {
        ("cmd", "/C")
    } else {
        ("sh", "-c")
    };
    let mut args = one_text(flag);
    push_text(&mut args, line);
    Step {
        milestones: one_text(milestone.as_str()),
        spec: ProcessSpec {
            program: String::from_str(program),
            args,
            cwd: Some(String::from_str(cwd)),
            env,
            hide_window: p.is_windows(),
        },
    }
}

/// The view of an optional owned text.
pub open spec fn optional_text(s: Option<&String>) -> Option<Seq<char>> {
    match s {
        Some(t) => Some(t@),
        None => None,
    }
}

/// Plans the creation of the project at `workspace_path` with the tools of
/// the isolated installation rooted at `venv_path`. `shallow_clone` limits
/// the history that is fetched.
pub fn run_create_project_commands(
    venv_path: Option<&String>,
    workspace_path: &str,
    shallow_clone: bool,
    p: Platform,
) -> (r: Result<PipelineSpec, PlanError>)
    ensures
        match create_project_plan(optional_text(venv_path), workspace_path@, shallow_clone, p) {
            Ok(plan) => r matches Ok(x) && x@ == plan,
            Err(e) => r == Err::<PipelineSpec, PlanError>(e),
        },
{
    let venv = match venv_path {
        Some(v) => v,
        None => {
            return Err(PlanError::VenvNotConfigured);
        },
    };
    let (parent, name) = match split_path(workspace_path, p) {
        Some(parts) => parts,
        None => {
            return Err(PlanError::InvalidWorkspacePath);
        },
    };
    let activate = activation_text(venv.as_str(), p);

    let mut init = activate.clone();
    init.append("west init -m ");
    init.append("https://github.com/RoboMaster-DLMU-CONE/one-starter");
    init.append(" --mr main");
    if shallow_clone {
        init.append(" --clone-opt=--depth=15");
    }
    init.append(" ");
    init.append(name.as_str());
    assert(init@ =~= init_line(venv@, name@, shallow_clone, p));

    let mut update = activate;
    update.append("west update");
    if shallow_clone {
        update.append(" --fetch-opt=--depth=15");
    }
    assert(update@ =~= update_line(venv@, shallow_clone, p));

    let workspace = join_path(parent.as_str(), name.as_str(), p);
    let mut steps = no_steps();
    push_step(&mut steps, shell_step("正在初始化项目: ", init.as_str(), parent.as_str(), p));
    push_step(&mut steps, shell_step("正在更新项目: ", update.as_str(), workspace.as_str(), p));
    Ok(
        PipelineSpec {
            ensure_dir: None,
            steps,
            completion: Some(String::from_str("项目创建完成！")),
        },
    )
}

/// Registers the project `project_name` at `workspace_path` as touched at
/// `timestamp`, and plans its creation. The registration is made whether or
/// not a plan can be made; a project already listed keeps its name.
pub fn create_project(
    config: &mut UserConfig,
    project_name: String,
    workspace_path: String,
    shallow_clone: bool,
    timestamp: u64,
    p: Platform,
) -> (r: Result<PipelineSpec, PlanError>)
    ensures
        final(config)@ == project_noted(
            old(config)@,
            workspace_path@,
            project_name@,
            timestamp,
            false,
        ),
        match create_project_plan(old(config)@.venv_path, workspace_path@, shallow_clone, p) {
            Ok(plan) => r matches Ok(x) && x@ == plan,
            Err(e) => r == Err::<PipelineSpec, PlanError>(e),
        },
{
    note_project(config, workspace_path.clone(), project_name, timestamp, false);
    run_create_project_commands(
        config.venv_path.as_ref(),
        workspace_path.as_str(),
        shallow_clone,
        p,
    )
}

/// Why a project directory is not deleted.
#[derive(Clone, Copy, Debug, PartialEq, Eq, Structural)]
pub enum DeleteError {
    /// Nothing exists at the path.
    Missing,
    /// What exists at the path is not a directory.
    NotADirectory,
}

impl DeleteError {
    /// The message shown to the user.
    pub fn message(&self) -> (r: String)
        ensures
            r@ == match *self {
                DeleteError::Missing => "Project path does not exist"@,
                DeleteError::NotADirectory => "Path is not a directory"@,
            },
    {
        match self {
            DeleteError::Missing => String::from_str("Project path does not exist"),
            DeleteError::NotADirectory => String::from_str("Path is not a directory"),
        }
    }
}

/// Whether what lies at a path may be deleted as a project directory:
/// only what exists and is a directory may, so that no single file is
/// removed by accident.
pub open spec fn deletion_verdict(exists: bool, is_dir: bool) -> Result<(), DeleteError> {
    if !exists {
        Err(DeleteError::Missing)
    } else if !is_dir {
        Err(DeleteError::NotADirectory)
    } else {
        Ok(())
    }
}

/// Decides whether the project directory may be deleted.
pub fn delete_project_directory(exists: bool, is_dir: bool) -> (r: Result<(), DeleteError>)
    ensures
        r == deletion_verdict(exists, is_dir),
{
    if !exists {
        Err(DeleteError::Missing)
    } else if !is_dir {
        Err(DeleteError::NotADirectory)
    } else {
        Ok(())
    }
}

} // verus!
