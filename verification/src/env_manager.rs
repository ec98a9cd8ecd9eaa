//! The inventory of tools and libraries a workspace needs: how each one is
//! probed, what a probe's outcome says, and how the findings add up.
//!
//! The host runs the probes; this module says which commands to run and
//! judges what came back.

use vstd::prelude::*;
use vstd::string::StringExecFns;
use crate::catalog::{linux_catalog, linux_entries, windows_catalog, windows_entries};
use crate::platform::{python_of, python_path, Platform};
use crate::process::{EnvOverlay, ProcessSpec, ProcessSpecView};
use crate::text::{contains_text, has_text, one_text, push_text, trim, trimmed};

verus! {

/// A lightweight readiness indicator: four yes-or-no findings.
#[derive(Clone, Copy, Debug, PartialEq, Eq, Structural)]
pub struct EnvStatus {
    pub git: bool,
    pub python: bool,
    pub west: bool,
    pub sdk: bool,
}

/// What is known of one required tool or library.
#[derive(Clone, Debug, PartialEq, Eq)]
pub struct Dependency {
    pub name: String,
    pub installed: bool,
    pub version: Option<String>,
    pub critical: bool,
}

/// Mathematical content of a [`Dependency`].
#[verifier::ext_equal]
pub struct DependencyView {
    pub name: Seq<char>,
    pub installed: bool,
    pub version: Option<Seq<char>>,
    pub critical: bool,
}

impl DeepView for Dependency {
    type V = DependencyView;

    open spec fn deep_view(&self) -> DependencyView {
        DependencyView {
            name: self.name@,
            installed: self.installed,
            version: self.version.deep_view(),
            critical: self.critical,
        }
    }
}

impl View for Dependency {
    type V = DependencyView;

    open spec fn view(&self) -> DependencyView {
        self.deep_view()
    }
}

/// The findings for one operating system.
#[derive(Clone, Debug, PartialEq, Eq)]
pub struct EnvReport {
    pub os: String,
    pub dependencies: Vec<Dependency>,
    pub all_satisfied: bool,
}

/// Mathematical content of an [`EnvReport`].
#[verifier::ext_equal]
pub struct EnvReportView {
    pub os: Seq<char>,
    pub dependencies: Seq<DependencyView>,
    pub all_satisfied: bool,
}

impl DeepView for EnvReport {
    type V = EnvReportView;

    open spec fn deep_view(&self) -> EnvReportView {
        EnvReportView {
            os: self.os@,
            dependencies: self.dependencies.deep_view(),
            all_satisfied: self.all_satisfied,
        }
    }
}

impl View for EnvReport {
    type V = EnvReportView;

    open spec fn view(&self) -> EnvReportView {
        self.deep_view()
    }
}

/// What the host observed of one probe.
#[derive(Clone, Debug, PartialEq, Eq)]
pub enum ProbeOutcome {
    /// The probe could not be run at all.
    Absent,
    /// The probe ran to its end.
    Finished { success: bool, stdout: String },
}

/// Mathematical content of a [`ProbeOutcome`].
#[verifier::ext_equal]
pub enum ProbeOutcomeView {
    Absent,
    Finished { success: bool, stdout: Seq<char> },
}

impl DeepView for ProbeOutcome {
    type V = ProbeOutcomeView;

    open spec fn deep_view(&self) -> ProbeOutcomeView {
        match self {
            ProbeOutcome::Absent => ProbeOutcomeView::Absent,
            ProbeOutcome::Finished { success, stdout } => ProbeOutcomeView::Finished {
                success: *success,
                stdout: stdout@,
            },
        }
    }
}

impl View for ProbeOutcome {
    type V = ProbeOutcomeView;

    open spec fn view(&self) -> ProbeOutcomeView {
        self.deep_view()
    }
}

/// Whether the probe ran and reported success.
pub open spec fn succeeded(o: ProbeOutcomeView) -> bool {
    match o {
        ProbeOutcomeView::Absent => false,
        ProbeOutcomeView::Finished { success, stdout } => success,
    }
}

/// The version a probe reported: what it printed, without surrounding white
/// space, if it ran and reported success.
pub open spec fn reported_version(o: ProbeOutcomeView) -> Option<Seq<char>> {
    match o {
        ProbeOutcomeView::Absent => None,
        ProbeOutcomeView::Finished { success, stdout } => if success {
            Some(trimmed(stdout))
        } else {
            None
        },
    }
}

/// The mark that the package database prints for an installed package.
pub open spec fn installed_mark() -> Seq<char> {
    "install ok installed"@
}

/// The finding for a tool probed by asking it for its version.
pub open spec fn binary_dependency(name: Seq<char>, o: ProbeOutcomeView) -> DependencyView {
    DependencyView {
        name,
        installed: reported_version(o) is Some,
        version: reported_version(o),
        critical: true,
    }
}

/// The finding for a package probed in the package database.
pub open spec fn package_dependency(package: Seq<char>, o: ProbeOutcomeView) -> DependencyView {
    DependencyView {
        name: package,
        installed: match o {
            ProbeOutcomeView::Absent => false,
            ProbeOutcomeView::Finished { success, stdout } => contains_text(
                stdout,
                installed_mark(),
            ),
        },
        version: None,
        critical: true,
    }
}

/// The finding for something probed by the exit code of a shell expression.
pub open spec fn flag_dependency(name: Seq<char>, o: ProbeOutcomeView) -> DependencyView {
    DependencyView { name, installed: succeeded(o), version: None, critical: true }
}

/// Whether the probe ran and reported success.
pub fn check_command(outcome: &ProbeOutcome) -> (r: bool)
    ensures
        r == succeeded(outcome@),
{
    match outcome {
        ProbeOutcome::Absent => false,
        ProbeOutcome::Finished { success, stdout } => *success,
    }
}

/// The version that the probe reported, if it ran and reported success.
pub fn check_command_version(outcome: &ProbeOutcome) -> (r: Option<String>)
    ensures
        r.deep_view() == reported_version(outcome@),
{
    match outcome {
        ProbeOutcome::Absent => None,
        ProbeOutcome::Finished { success, stdout } => if *success {
            Some(trim(stdout.as_str()))
        } else {
            None
        },
    }
}

/// Judges the tool `name` by the outcome of asking it for its version.
pub fn check_binary(name: &str, outcome: &ProbeOutcome) -> (r: Dependency)
    ensures
        r@ == binary_dependency(name@, outcome@),
{
    let version = check_command_version(outcome);
    Dependency {
        name: String::from_str(name),
        installed: version.is_some(),
        version,
        critical: true,
    }
}

/// Judges `package` by what the package database printed about it.
pub fn check_dpkg(package: &str, outcome: &ProbeOutcome) -> (r: Dependency)
    ensures
        r@ == package_dependency(package@, outcome@),
{
    let installed = match outcome {
        ProbeOutcome::Absent => false,
        ProbeOutcome::Finished { success, stdout } => has_text(
            stdout.as_str(),
            "install ok installed",
        ),
    };
    Dependency { name: String::from_str(package), installed, version: None, critical: true }
}

/// Judges `name` by the success of its probe.
pub fn check_shell_dependency(name: &str, outcome: &ProbeOutcome) -> (r: Dependency)
    ensures
        r@ == flag_dependency(name@, outcome@),
{
    Dependency {
        name: String::from_str(name),
        installed: check_command(outcome),
        version: None,
        critical: true,
    }
}

/// How one entry of the catalog is probed.
#[derive(Clone, Debug, PartialEq, Eq)]
pub enum Probe {
    /// Run the tool with the argument that makes it print its version.
    Binary { command: String, version_arg: String },
    /// Ask the package database about a package.
    Package { package: String },
    /// Run an expression in the shell and go by its exit code.
    Shell { expression: String },
}

/// Mathematical content of a [`Probe`].
#[verifier::ext_equal]
pub enum ProbeView {
    Binary { command: Seq<char>, version_arg: Seq<char> },
    Package { package: Seq<char> },
    Shell { expression: Seq<char> },
}

impl DeepView for Probe {
    type V = ProbeView;

    open spec fn deep_view(&self) -> ProbeView {
        match self {
            Probe::Binary { command, version_arg } => ProbeView::Binary {
                command: command@,
                version_arg: version_arg@,
            },
            Probe::Package { package } => ProbeView::Package { package: package@ },
            Probe::Shell { expression } => ProbeView::Shell { expression: expression@ },
        }
    }
}

impl View for Probe {
    type V = ProbeView;

    open spec fn view(&self) -> ProbeView {
        self.deep_view()
    }
}

/// One required tool or library, and how to probe for it.
#[derive(Clone, Debug, PartialEq, Eq)]
pub struct CatalogEntry {
    pub name: String,
    pub probe: Probe,
}

/// Mathematical content of a [`CatalogEntry`].
#[verifier::ext_equal]
pub struct CatalogEntryView {
    pub name: Seq<char>,
    pub probe: ProbeView,
}

impl DeepView for CatalogEntry {
    type V = CatalogEntryView;

    open spec fn deep_view(&self) -> CatalogEntryView {
        CatalogEntryView { name: self.name@, probe: self.probe@ }
    }
}

impl View for CatalogEntry {
    type V = CatalogEntryView;

    open spec fn view(&self) -> CatalogEntryView {
        self.deep_view()
    }
}

/// The command that carries out `probe`.
pub open spec fn probe_command(probe: ProbeView) -> ProcessSpecView {
    match probe {
        ProbeView::Binary { command, version_arg } => ProcessSpecView {
            program: command,
            args: seq![version_arg],
            cwd: None,
            env: Seq::empty(),
            hide_window: false,
        },
        ProbeView::Package { package } => ProcessSpecView {
            program: "dpkg-query"@,
            args: seq!["-W"@, "-f='${Status}'"@, package],
            cwd: None,
            env: Seq::empty(),
            hide_window: false,
        },
        ProbeView::Shell { expression } => ProcessSpecView {
            program: "sh"@,
            args: seq!["-c"@, expression],
            cwd: None,
            env: Seq::empty(),
            hide_window: false,
        },
    }
}

/// The finding for `entry` when its probe had the outcome `o`.
pub open spec fn judged(entry: CatalogEntryView, o: ProbeOutcomeView) -> DependencyView {
    match entry.probe {
        ProbeView::Binary { command, version_arg } => binary_dependency(entry.name, o),
        ProbeView::Package { package } => package_dependency(package, o),
        ProbeView::Shell { expression } => flag_dependency(entry.name, o),
    }
}

impl Probe {
    /// The command that carries out this probe.
    pub fn command(&self) -> (r: ProcessSpec)
        ensures
            r@ == probe_command(self@),
    {
        match self {
            Probe::Binary { command, version_arg } => ProcessSpec {
                program: command.clone(),
                args: one_text(version_arg.as_str()),
                cwd: None,
                env: EnvOverlay::empty(),
                hide_window: false,
            },
            Probe::Package { package } => {
                let mut args = one_text("-W");
                push_text(&mut args, "-f='${Status}'");
                push_text(&mut args, package.as_str());
                ProcessSpec {
                    program: String::from_str("dpkg-query"),
                    args,
                    cwd: None,
                    env: EnvOverlay::empty(),
                    hide_window: false,
                }
            },
            Probe::Shell { expression } => {
                let mut args = one_text("-c");
                push_text(&mut args, expression.as_str());
                ProcessSpec {
                    program: String::from_str("sh"),
                    args,
                    cwd: None,
                    env: EnvOverlay::empty(),
                    hide_window: false,
                }
            },
        }
    }
}

impl CatalogEntry {
    /// The finding for this entry when its probe had the outcome `outcome`.
    pub fn judge(&self, outcome: &ProbeOutcome) -> (r: Dependency)
        ensures
            r@ == judged(self@, outcome@),
    {
        match &self.probe {
            Probe::Binary { command, version_arg } => check_binary(self.name.as_str(), outcome),
            Probe::Package { package } => check_dpkg(package.as_str(), outcome),
            Probe::Shell { expression } => check_shell_dependency(self.name.as_str(), outcome),
        }
    }
}

/// The outcome of the probe with index `i`: a probe for which the host
/// reported nothing counts as one that could not be run.
pub open spec fn outcome_at(outcomes: Seq<ProbeOutcomeView>, i: int) -> ProbeOutcomeView {
    if 0 <= i < outcomes.len() {
        outcomes[i]
    } else {
        ProbeOutcomeView::Absent
    }
}

/// The findings for `catalog`, entry by entry.
pub open spec fn findings(catalog: Seq<CatalogEntryView>, outcomes: Seq<ProbeOutcomeView>) -> Seq<
    DependencyView,
> {
    Seq::new(catalog.len(), |i: int| judged(catalog[i], outcome_at(outcomes, i)))
}

/// Whether every one of `dependencies` is installed.
pub open spec fn all_installed(dependencies: Seq<DependencyView>) -> bool {
    forall|i: int| 0 <= i < dependencies.len() ==> dependencies[i].installed
}

/// The report for the operating system `os` with the catalog `catalog`.
pub open spec fn report_of(
    os: Seq<char>,
    catalog: Seq<CatalogEntryView>,
    outcomes: Seq<ProbeOutcomeView>,
) -> EnvReportView {
    EnvReportView {
        os,
        dependencies: findings(catalog, outcomes),
        all_satisfied: all_installed(findings(catalog, outcomes)),
    }
}

/// Judges every entry of `catalog` by the outcome of its probe and adds the
/// findings up. `outcomes` holds the outcomes in the order of the catalog.
pub fn build_report(os: &str, catalog: &Vec<CatalogEntry>, outcomes: &Vec<ProbeOutcome>) -> (r:
    EnvReport)
    ensures
        r@ == report_of(os@, catalog.deep_view(), outcomes.deep_view()),
        r.all_satisfied == all_installed(r@.dependencies),
{
    let ghost expected = findings(catalog.deep_view(), outcomes.deep_view());
    let mut dependencies: Vec<Dependency> = Vec::new();
    let mut all_satisfied = true;
    let absent = ProbeOutcome::Absent;
    let mut i: usize = 0;
    while i < catalog.len()
        invariant
            i <= catalog.len(),
            absent@ == ProbeOutcomeView::Absent,
            expected == findings(catalog.deep_view(), outcomes.deep_view()),
            dependencies.len() == i,
            forall|j: int| 0 <= j < i ==> dependencies[j]@ == expected[j],
            all_satisfied == (forall|j: int| 0 <= j < i ==> expected[j].installed),
        decreases catalog.len() - i,
    {
        let outcome = if i < outcomes.len() {
            &outcomes[i]
        } else {
            &absent
        };
        assert(outcome@ == outcome_at(outcomes.deep_view(), i as int));
        let dependency = catalog[i].judge(outcome);
        assert(dependency@ == expected[i as int]);
        if !dependency.installed {
            all_satisfied = false;
        }
        dependencies.push(dependency);
        i = i + 1;
    }
    assert(dependencies.deep_view() =~= expected);
    EnvReport { os: String::from_str(os), dependencies, all_satisfied }
}

/// The catalog that applies on `p`; none on a system that is not supported.
pub open spec fn catalog_of(p: Platform) -> Seq<CatalogEntryView> {
    match p {
        Platform::Linux => linux_entries(),
        Platform::Windows => windows_entries(),
        Platform::Other => Seq::empty(),
    }
}

/// The commands that probe for the entries of `catalog`, in its order.
pub open spec fn probe_commands(catalog: Seq<CatalogEntryView>) -> Seq<ProcessSpecView> {
    Seq::new(catalog.len(), |i: int| probe_command(catalog[i].probe))
}

/// The probes to run on `p`, in the order in which their outcomes are to
/// be reported.
pub fn dependency_probes(p: Platform) -> (r: Vec<ProcessSpec>)
    ensures
        r.deep_view() == probe_commands(catalog_of(p)),
{
    let catalog = match p {
        Platform::Linux => linux_catalog(),
        Platform::Windows => windows_catalog(),
        Platform::Other => Vec::new(),
    };
    assert(catalog.deep_view() =~= catalog_of(p));
    let mut commands: Vec<ProcessSpec> = Vec::new();
    let mut i: usize = 0;
    while i < catalog.len()
        invariant
            i <= catalog.len(),
            commands.len() == i,
            forall|j: int| 0 <= j < i ==> commands[j]@ == probe_command(catalog[j]@.probe),
        decreases catalog.len() - i,
    {
        commands.push(catalog[i].probe.command());
        i = i + 1;
    }
    assert(commands.deep_view() =~= probe_commands(catalog.deep_view()));
    commands
}

/// The report for Linux from the outcomes of its probes.
pub fn check_linux_dependencies(outcomes: &Vec<ProbeOutcome>) -> (r: EnvReport)
    ensures
        r@ == report_of("linux"@, linux_entries(), outcomes.deep_view()),
        r.all_satisfied == all_installed(r@.dependencies),
{
    let catalog = linux_catalog();
    build_report("linux", &catalog, outcomes)
}

/// The report for Windows from the outcomes of its probes.
pub fn check_windows_dependencies(outcomes: &Vec<ProbeOutcome>) -> (r: EnvReport)
    ensures
        r@ == report_of("windows"@, windows_entries(), outcomes.deep_view()),
        r.all_satisfied == all_installed(r@.dependencies),
{
    let catalog = windows_catalog();
    build_report("windows", &catalog, outcomes)
}

/// The tag under which `p` is reported.
pub open spec fn os_tag(p: Platform) -> Seq<char> {
    match p {
        Platform::Linux => "linux"@,
        Platform::Windows => "windows"@,
        Platform::Other => "unsupported"@,
    }
}

/// The report for `p` from the outcomes of its probes, which are those of
/// [`dependency_probes`] in the same order. The report is satisfied exactly
/// if every dependency it lists is installed. A system without a catalog is
/// reported as unsupported and lists nothing.
pub fn check_dependencies(p: Platform, outcomes: &Vec<ProbeOutcome>) -> (r: EnvReport)
    ensures
        r@ == report_of(os_tag(p), catalog_of(p), outcomes.deep_view()),
        r.all_satisfied == all_installed(r@.dependencies),
{
    match p {
        Platform::Linux => check_linux_dependencies(outcomes),
        Platform::Windows => check_windows_dependencies(outcomes),
        Platform::Other => {
            let catalog: Vec<CatalogEntry> = Vec::new();
            assert(catalog.deep_view() =~= catalog_of(p));
            build_report("unsupported", &catalog, outcomes)
        },
    }
}

/// A probe that cannot be run finds nothing and stops nothing: the entry
/// counts as not installed, without a version.
pub proof fn lemma_absent_probe(entry: CatalogEntryView)
    ensures
        !judged(entry, ProbeOutcomeView::Absent).installed,
        judged(entry, ProbeOutcomeView::Absent).version is None,
{
}

/// The interpreter to try first: the one of the configured installation.
pub open spec fn interpreter_candidate(venv: Option<Seq<char>>, p: Platform) -> Option<Seq<char>> {
    match venv {
        Some(root) => Some(python_of(root, p)),
        None => None,
    }
}

/// The interpreter of the configured isolated installation, if one is
/// configured. The host checks whether it exists.
pub fn configured_interpreter(venv_path: Option<&String>, p: Platform) -> (r: Option<String>)
    ensures
        r.deep_view() == interpreter_candidate(
            match venv_path {
                Some(s) => Some(s@),
                None => None,
            },
            p,
        ),
{
    match venv_path {
        Some(root) => Some(python_path(root.as_str(), p)),
        None => None,
    }
}

/// The interpreter to probe with: the candidate if there is one and it
/// exists, the system's otherwise.
pub open spec fn interpreter_choice(candidate: Option<Seq<char>>, exists: bool) -> Seq<char> {
    match candidate {
        Some(path) => if exists {
            path
        } else {
            "python"@
        },
        None => "python"@,
    }
}

/// Chooses the interpreter to probe with. `exists` says whether the
/// candidate was found on disk.
pub fn choose_interpreter(candidate: Option<String>, exists: bool) -> (r: String)
    ensures
        r@ == interpreter_choice(candidate.deep_view(), exists),
{
    match candidate {
        Some(path) => if exists {
            path
        } else {
            String::from_str("python")
        },
        None => String::from_str("python"),
    }
}

/// The command `program` with `args`, run where the host runs and in its
/// environment.
pub open spec fn plain_command(program: Seq<char>, args: Seq<Seq<char>>) -> ProcessSpecView {
    ProcessSpecView { program, args, cwd: None, env: Seq::empty(), hide_window: false }
}

/// The three probes of the readiness check: for the version-control tool,
/// for the interpreter, and for the meta-tool as a module of the
/// interpreter.
pub open spec fn readiness_commands(python: Seq<char>) -> Seq<ProcessSpecView> {
    seq![
        plain_command("git"@, seq!["--version"@]),
        plain_command(python, seq!["--version"@]),
        plain_command(python, seq!["-m"@, "west"@, "--version"@]),
    ]
}

fn command_of(program: &str, args: Vec<String>) -> (r: ProcessSpec)
    ensures
        r@ == plain_command(program@, args.deep_view()),
{
    ProcessSpec { program: String::from_str(program), args, cwd: None, env: EnvOverlay::empty(), hide_window: false }
}

/// The probes of the readiness check, to be run with the interpreter
/// `python`.
pub fn readiness_probes(python: &str) -> (r: Vec<ProcessSpec>)
    ensures
        r.deep_view() == readiness_commands(python@),
{
    let mut commands: Vec<ProcessSpec> = Vec::new();
    assert(commands.deep_view() =~= Seq::<ProcessSpecView>::empty());
    let git = command_of("git", one_text("--version"));
    let ghost s0 = commands.deep_view();
    commands.push(git);
    assert(commands.deep_view() =~= s0.push(plain_command("git"@, seq!["--version"@])));
    let version = command_of(python, one_text("--version"));
    let ghost s1 = commands.deep_view();
    commands.push(version);
    assert(commands.deep_view() =~= s1.push(plain_command(python@, seq!["--version"@])));
    let mut args = one_text("-m");
    push_text(&mut args, "west");
    push_text(&mut args, "--version");
    assert(args.deep_view() =~= seq!["-m"@, "west"@, "--version"@]);
    let west = command_of(python, args);
    let ghost s2 = commands.deep_view();
    commands.push(west);
    assert(commands.deep_view() =~= s2.push(
        plain_command(python@, seq!["-m"@, "west"@, "--version"@]),
    ));
    commands
}

/// Whether the SDK counts as present: a configured base directory must
/// exist; without one, the variable that names the base must be set.
pub open spec fn sdk_found(base_configured: bool, base_exists: bool, variable_set: bool) -> bool {
    if base_configured {
        base_exists
    } else {
        variable_set
    }
}

/// Decides whether the SDK counts as present.
pub fn sdk_present(zephyr_base: Option<&String>, base_exists: bool, variable_set: bool) -> (r:
    bool)
    ensures
        r == sdk_found(zephyr_base is Some, base_exists, variable_set),
{
    match zephyr_base {
        Some(_) => base_exists,
        None => variable_set,
    }
}

/// The readiness indicator from the outcomes of the three probes of
/// [`readiness_probes`] and the presence of the SDK.
pub fn check_environment(
    git: &ProbeOutcome,
    python: &ProbeOutcome,
    west: &ProbeOutcome,
    sdk: bool,
) -> (r: EnvStatus)
    ensures
        r == (EnvStatus {
            git: succeeded(git@),
            python: succeeded(python@),
            west: succeeded(west@),
            sdk,
        }),
{
    EnvStatus {
        git: check_command(git),
        python: check_command(python),
        west: check_command(west),
        sdk,
    }
}

} // verus!
