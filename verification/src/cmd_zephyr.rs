//! Provisioning of a complete workspace: an isolated Python installation,
//! the meta-tool inside it, the workspace itself and the SDK.

use vstd::prelude::*;
use vstd::string::StringExecFns;
use crate::overlay::{activation, activation_overlay};
use crate::pipeline::{no_steps, push_step, PipelineSpec, PipelineView, Step, StepView};
use crate::platform::{
    join_path, joined, python_of, python_path, system_python, west_of, west_path, Platform,
};
use crate::process::{EnvOverlay, ProcessSpec, ProcessSpecView};
use crate::text::{one_text, push_text};

verus! {

/// The command `cmd` with `args`, run in `cwd` as an unattended step: on
/// Windows it gets no console window of its own. When the root of an
/// isolated installation is given, the command runs under the overlay that
/// activates it.
pub open spec fn streamed_command(
    cmd: Seq<char>,
    args: Seq<Seq<char>>,
    cwd: Option<Seq<char>>,
    venv: Option<Seq<char>>,
    inherited: Option<Seq<char>>,
    p: Platform,
) -> ProcessSpecView {
    ProcessSpecView {
        program: cmd,
        args,
        cwd,
        env: match venv {
            Some(root) => activation(root, inherited, p),
            None => Seq::empty(),
        },
        hide_window: p.windows(),
    }
}

/// Describes the command `cmd` with `args`, to be run in `cwd` with its
/// output streamed. `venv` is the root of the isolated installation to
/// activate for it, if any; `inherited_path` is the caller's own search
/// path, if it has one.
pub fn run_command_stream(
    cmd: &str,
    args: Vec<String>,
    cwd: Option<&str>,
    venv: Option<&str>,
    inherited_path: Option<&str>,
    p: Platform,
) -> (r: ProcessSpec)
    ensures
        r@ == streamed_command(
            cmd@,
            args.deep_view(),
            optional_view(cwd),
            optional_view(venv),
            optional_view(inherited_path),
            p,
        ),
{
    let env = match venv {
        Some(root) => activation_overlay(root, inherited_path, p),
        None => EnvOverlay::empty(),
    };
    let cwd = match cwd {
        Some(dir) => Some(String::from_str(dir)),
        None => None,
    };
    ProcessSpec { program: String::from_str(cmd), args, cwd, env, hide_window: p.is_windows() }
}

/// Address of the package index that the isolated installation is pointed to.
pub open spec fn pip_mirror() -> Seq<char> {
    "https://mirrors.ustc.edu.cn/pypi/simple"@
}

/// The step that announces itself with `milestone` and then runs `cmd`
/// with `args` in `cwd`, with the installation rooted at `venv` activated
/// if one is given.
pub open spec fn announced_step(
    milestone: Seq<char>,
    cmd: Seq<char>,
    args: Seq<Seq<char>>,
    cwd: Seq<char>,
    venv: Option<Seq<char>>,
    inherited: Option<Seq<char>>,
    p: Platform,
) -> StepView {
    StepView {
        milestones: seq![milestone],
        spec: streamed_command(cmd, args, Some(cwd), venv, inherited, p),
    }
}

fn tool_step(
    milestone: &str,
    cmd: &str,
    args: Vec<String>,
    cwd: &str,
    venv: Option<&str>,
    inherited_path: Option<&str>,
    p: Platform,
) -> (r: Step)
    ensures
        r@ == announced_step(
            milestone@,
            cmd@,
            args.deep_view(),
            cwd@,
            optional_view(venv),
            optional_view(inherited_path),
            p,
        ),
{
    Step {
        milestones: one_text(milestone),
        spec: run_command_stream(cmd, args, Some(cwd), venv, inherited_path, p),
    }
}

/// The two steps that point the package manager of the isolated
/// installation rooted at `venv` to the mirror: it upgrades itself from the
/// mirror, then the mirror is stored as its default index.
pub open spec fn pip_source_steps(
    install_path: Seq<char>,
    venv_python: Seq<char>,
    venv: Seq<char>,
    inherited: Option<Seq<char>>,
    p: Platform,
) -> (StepView, StepView) {
    (
        announced_step(
            "Upgrading pip with USTC source..."@,
            venv_python,
            seq!["-m"@, "pip"@, "install"@, "-i"@, pip_mirror(), "pip"@, "-U"@],
            install_path,
            Some(venv),
            inherited,
            p,
        ),
        announced_step(
            "Setting pip config to USTC source..."@,
            venv_python,
            seq!["-m"@, "pip"@, "config"@, "set"@, "global.index-url"@, pip_mirror()],
            install_path,
            Some(venv),
            inherited,
            p,
        ),
    )
}

/// Builds the two steps that point the package manager of the isolated
/// installation rooted at `venv` to the mirror.
pub fn setup_pip_source(
    install_path: &str,
    venv_python: &str,
    venv: &str,
    inherited_path: Option<&str>,
    p: Platform,
) -> (r: (Step, Step))
    ensures
        (r.0@, r.1@) == pip_source_steps(
            install_path@,
            venv_python@,
            venv@,
            optional_view(inherited_path),
            p,
        ),
{
    let mut upgrade_args = one_text("-m");
    push_text(&mut upgrade_args, "pip");
    push_text(&mut upgrade_args, "install");
    push_text(&mut upgrade_args, "-i");
    push_text(&mut upgrade_args, "https://mirrors.ustc.edu.cn/pypi/simple");
    push_text(&mut upgrade_args, "pip");
    push_text(&mut upgrade_args, "-U");
    let upgrade = tool_step(
        "Upgrading pip with USTC source...",
        venv_python,
        upgrade_args,
        install_path,
        Some(venv),
        inherited_path,
        p,
    );
    let mut persist_args = one_text("-m");
    push_text(&mut persist_args, "pip");
    push_text(&mut persist_args, "config");
    push_text(&mut persist_args, "set");
    push_text(&mut persist_args, "global.index-url");
    push_text(&mut persist_args, "https://mirrors.ustc.edu.cn/pypi/simple");
    let persist = tool_step(
        "Setting pip config to USTC source...",
        venv_python,
        persist_args,
        install_path,
        Some(venv),
        inherited_path,
        p,
    );
    (upgrade, persist)
}

/// Arguments of the step that initialises the workspace.
pub open spec fn init_args(shallow: bool) -> Seq<Seq<char>> {
    if shallow {
        seq!["init"@, "."@, "--clone-opt=--filter=blob:none"@]
    } else {
        seq!["init"@, "."@]
    }
}

/// Arguments of the step that fetches the modules of the workspace.
pub open spec fn update_args(shallow: bool) -> Seq<Seq<char>> {
    if shallow {
        seq!["update"@, "--fetch-opt=--filter=blob:none"@]
    } else {
        seq!["update"@]
    }
}

/// Arguments of the step that installs the SDK.
pub open spec fn sdk_args(destination: Option<Seq<char>>) -> Seq<Seq<char>> {
    match destination {
        Some(dir) => seq!["sdk"@, "install"@, "-d"@, dir],
        None => seq!["sdk"@, "install"@],
    }
}

/// The view of an optional text.
pub open spec fn optional_view(s: Option<&str>) -> Option<Seq<char>> {
    match s {
        Some(t) => Some(t@),
        None => None,
    }
}

/// The steps of the provisioning pipeline for the workspace at `target`.
///
/// The isolated installation lives in `.venv` below `target`. The first
/// step creates it with the system's interpreter, before there is anything
/// to activate; every later step runs a tool of the installation by its
/// path, with the installation activated. The last step runs inside the
/// `zephyr` repository of the workspace.
pub open spec fn provision_steps(
    target: Seq<char>,
    sdk: Option<Seq<char>>,
    shallow: bool,
    inherited: Option<Seq<char>>,
    p: Platform,
) -> Seq<StepView> {
    let venv = joined(target, ".venv"@, p);
    let python = python_of(venv, p);
    let west = west_of(venv, p);
    let pip = pip_source_steps(target, python, venv, inherited, p);
    seq![
        announced_step(
            "Creating virtual environment..."@,
            system_python(p),
            seq!["-m"@, "venv"@, ".venv"@],
            target,
            None,
            inherited,
            p,
        ),
        StepView {
            milestones: seq!["Configuring pip source to USTC mirror..."@] + pip.0.milestones,
            spec: pip.0.spec,
        },
        pip.1,
        announced_step(
            "Installing west..."@,
            python,
            seq!["-m"@, "pip"@, "install"@, "west"@],
            target,
            Some(venv),
            inherited,
            p,
        ),
        announced_step(
            "Initializing west workspace..."@,
            west,
            init_args(shallow),
            target,
            Some(venv),
            inherited,
            p,
        ),
        announced_step(
            "Updating west modules (this may take a while)..."@,
            west,
            update_args(shallow),
            target,
            Some(venv),
            inherited,
            p,
        ),
        announced_step(
            "Exporting Zephyr CMake package..."@,
            west,
            seq!["zephyr-export"@],
            target,
            Some(venv),
            inherited,
            p,
        ),
        announced_step(
            "Installing Python dependencies..."@,
            west,
            seq!["packages"@, "pip"@, "--install"@],
            target,
            Some(venv),
            inherited,
            p,
        ),
        announced_step(
            "Installing Zephyr SDK..."@,
            west,
            sdk_args(sdk),
            joined(target, "zephyr"@, p),
            Some(venv),
            inherited,
            p,
        ),
    ]
}

/// Every step of the provisioning pipeline announces itself before it
/// runs, so that progress shows even while a step is silent.
pub proof fn lemma_every_step_is_announced(
    target: Seq<char>,
    sdk: Option<Seq<char>>,
    shallow: bool,
    inherited: Option<Seq<char>>,
    p: Platform,
)
    ensures
        provision_steps(target, sdk, shallow, inherited, p).len() == 9,
        forall|i: int|
            0 <= i < 9 ==> (#[trigger] provision_steps(
                target,
                sdk,
                shallow,
                inherited,
                p,
            )[i]).milestones.len() >= 1,
{
}

/// The provisioning pipeline for the workspace at `target`: the directory
/// is made sure to exist, the steps run, and completion is announced.
pub open spec fn provision_plan(
    target: Seq<char>,
    sdk: Option<Seq<char>>,
    shallow: bool,
    inherited: Option<Seq<char>>,
    p: Platform,
) -> PipelineView {
    PipelineView {
        ensure_dir: Some(target),
        steps: provision_steps(target, sdk, shallow, inherited, p),
        completion: Some("Zephyr installation complete!"@),
    }
}

/// Plans the provisioning of the workspace at `install_path`.
///
/// `sdk_path` directs the SDK to a destination of the caller's choice;
/// `shadow_clone` makes the workspace and its modules be fetched without
/// file contents that are not needed yet. `inherited_path` is the caller's
/// own search path, if it has one.
pub fn install_zephyr(
    install_path: &str,
    sdk_path: Option<&str>,
    shadow_clone: bool,
    inherited_path: Option<&str>,
    p: Platform,
) -> (r: PipelineSpec)
    ensures
        r@ == provision_plan(
            install_path@,
            optional_view(sdk_path),
            shadow_clone,
            optional_view(inherited_path),
            p,
        ),
{
    let venv_dir = join_path(install_path, ".venv", p);
    let venv = venv_dir.as_str();
    let python = python_path(venv, p);
    let west = west_path(venv, p);
    let mut steps = no_steps();

    let mut venv_args = one_text("-m");
    push_text(&mut venv_args, "venv");
    push_text(&mut venv_args, ".venv");
    let launcher = if p.is_windows() {
        "python"
    } else {
        "python3"
    };
    push_step(
        &mut steps,
        tool_step(
            "Creating virtual environment...",
            launcher,
            venv_args,
            install_path,
            None,
            inherited_path,
            p,
        ),
    );

    let (upgrade, persist) = setup_pip_source(install_path, python.as_str(), venv, inherited_path, p);
    let mut announced = one_text("Configuring pip source to USTC mirror...");
    let mut i: usize = 0;
    while i < upgrade.milestones.len()
        invariant
            i <= upgrade.milestones.len(),
            announced.deep_view() == seq!["Configuring pip source to USTC mirror..."@]
                + upgrade.milestones.deep_view().take(i as int),
        decreases upgrade.milestones.len() - i,
    {
        push_text(&mut announced, upgrade.milestones[i].as_str());
        assert(announced.deep_view() =~= seq!["Configuring pip source to USTC mirror..."@]
            + upgrade.milestones.deep_view().take(i + 1)) by {
            assert(upgrade.milestones.deep_view().take(i + 1) =~= upgrade.milestones.deep_view().take(
                i as int,
            ).push(upgrade.milestones[i as int]@));
        }
        i = i + 1;
    }
    assert(upgrade.milestones.deep_view().take(i as int) =~= upgrade.milestones.deep_view());
    push_step(&mut steps, Step { milestones: announced, spec: upgrade.spec });
    push_step(&mut steps, persist);

    let mut west_args = one_text("-m");
    push_text(&mut west_args, "pip");
    push_text(&mut west_args, "install");
    push_text(&mut west_args, "west");
    push_step(
        &mut steps,
        tool_step(
            "Installing west...",
            python.as_str(),
            west_args,
            install_path,
            Some(venv),
            inherited_path,
            p,
        ),
    );

    let mut init = one_text("init");
    push_text(&mut init, ".");
    if shadow_clone {
        push_text(&mut init, "--clone-opt=--filter=blob:none");
    }
    push_step(
        &mut steps,
        tool_step(
            "Initializing west workspace...",
            west.as_str(),
            init,
            install_path,
            Some(venv),
            inherited_path,
            p,
        ),
    );

    let mut update = one_text("update");
    if shadow_clone {
        push_text(&mut update, "--fetch-opt=--filter=blob:none");
    }
    push_step(
        &mut steps,
        tool_step(
            "Updating west modules (this may take a while)...",
            west.as_str(),
            update,
            install_path,
            Some(venv),
            inherited_path,
            p,
        ),
    );

    push_step(
        &mut steps,
        tool_step(
            "Exporting Zephyr CMake package...",
            west.as_str(),
            one_text("zephyr-export"),
            install_path,
            Some(venv),
            inherited_path,
            p,
        ),
    );

    let mut packages = one_text("packages");
    push_text(&mut packages, "pip");
    push_text(&mut packages, "--install");
    push_step(
        &mut steps,
        tool_step(
            "Installing Python dependencies...",
            west.as_str(),
            packages,
            install_path,
            Some(venv),
            inherited_path,
            p,
        ),
    );

    let mut sdk = one_text("sdk");
    push_text(&mut sdk, "install");
    match sdk_path {
        Some(dir) => {
            push_text(&mut sdk, "-d");
            push_text(&mut sdk, dir);
        },
        None => {},
    }
    let repository = join_path(install_path, "zephyr", p);
    push_step(
        &mut steps,
        tool_step(
            "Installing Zephyr SDK...",
            west.as_str(),
            sdk,
            repository.as_str(),
            Some(venv),
            inherited_path,
            p,
        ),
    );

    let r = PipelineSpec {
        ensure_dir: Some(String::from_str(install_path)),
        steps,
        completion: Some(String::from_str("Zephyr installation complete!")),
    };
    proof {
        let plan = provision_steps(
            install_path@,
            optional_view(sdk_path),
            shadow_clone,
            optional_view(inherited_path),
            p,
        );
        assert(r@.steps.len() == 9);
        assert(r@.steps[0] == plan[0]);
        assert(r@.steps[1] == plan[1]);
        assert(r@.steps[2] == plan[2]);
        assert(r@.steps[3] == plan[3]);
        assert(r@.steps[4] == plan[4]);
        assert(r@.steps[5] == plan[5]);
        assert(r@.steps[6] == plan[6]);
        assert(r@.steps[7] == plan[7]);
        assert(r@.steps[8] == plan[8]);
        assert(r@.steps =~= plan);
    }
    r
}

} // verus!
