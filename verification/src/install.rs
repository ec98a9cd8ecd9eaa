//! Installation of what the inventory found missing: which packages carry
//! the missing tools on each system, and the command that installs them
//! with the user's consent.

use vstd::prelude::*;
use vstd::string::StringExecFns;
use crate::env_manager::{Dependency, DependencyView, EnvReport};
use crate::platform::Platform;
use crate::process::{EnvOverlay, ProcessSpec, ProcessSpecView};
use crate::text::{
    contains_text, has_text, join_texts, joined_texts, lowercase, no_texts, one_text, push_text,
    to_lowercase,
};

verus! {

/// A table from the name of a dependency to the package that carries it.
pub type PackageTable = Vec<(String, String)>;

/// The package that carries `name` according to `table`: that of the first
/// row for `name`, if there is one.
pub open spec fn lookup(table: Seq<(Seq<char>, Seq<char>)>, name: Seq<char>) -> Option<Seq<char>>
    decreases table.len(),
{
    if table.len() == 0 {
        None
    } else if table.first().0 == name {
        Some(table.first().1)
    } else {
        lookup(table.drop_first(), name)
    }
}

/// The packages that carry `missing`, in its order; a dependency that the
/// table does not know contributes nothing.
pub open spec fn packages_for(missing: Seq<DependencyView>, table: Seq<(Seq<char>, Seq<char>)>)
    -> Seq<Seq<char>>
    decreases missing.len(),
{
    if missing.len() == 0 {
        Seq::empty()
    } else {
        let before = packages_for(missing.drop_last(), table);
        match lookup(table, missing.last().name) {
            Some(package) => before.push(package),
            None => before,
        }
    }
}

/// Packages of the build tools on Fedora.
pub open spec fn fedora_tools() -> Seq<(Seq<char>, Seq<char>)> {
    seq![
        ("Git"@, "git"@),
        ("CMake"@, "cmake"@),
        ("Ninja"@, "ninja-build"@),
        ("Gperf"@, "gperf"@),
        ("CCache"@, "ccache"@),
        ("Dfu-util"@, "dfu-util"@),
        ("DTC"@, "dtc"@),
        ("Wget"@, "wget"@),
        ("Python 3"@, "python3"@),
        ("XZ Utils"@, "xz"@),
        ("File"@, "file"@),
        ("Make"@, "make"@),
        ("GCC"@, "gcc"@),
        ("G++"@, "gcc-c++"@),
    ]
}

/// Packages of the libraries on Fedora.
pub open spec fn fedora_libraries() -> Seq<(Seq<char>, Seq<char>)> {
    seq![
        ("python3-dev"@, "python3-devel"@),
        ("python3-venv"@, "python3"@),
        ("python3-tk"@, "python3-tkinter"@),
        ("libsdl2-dev"@, "sdl2-compat-devel"@),
        ("libmagic1"@, "file-libs"@),
        ("gcc-multilib"@, "glibc-devel.i686"@),
        ("g++-multilib"@, "libstdc++-devel.i686"@),
    ]
}

/// Packages of the build tools on Debian and Ubuntu.
pub open spec fn debian_tools() -> Seq<(Seq<char>, Seq<char>)> {
    seq![
        ("Git"@, "git"@),
        ("CMake"@, "cmake"@),
        ("Ninja"@, "ninja-build"@),
        ("Gperf"@, "gperf"@),
        ("CCache"@, "ccache"@),
        ("Dfu-util"@, "dfu-util"@),
        ("DTC"@, "device-tree-compiler"@),
        ("Wget"@, "wget"@),
        ("Python 3"@, "python3"@),
        ("XZ Utils"@, "xz-utils"@),
        ("File"@, "file"@),
        ("Make"@, "make"@),
        ("GCC"@, "gcc"@),
        ("G++"@, "g++"@),
    ]
}

/// Packages of the libraries on Debian and Ubuntu.
pub open spec fn debian_libraries() -> Seq<(Seq<char>, Seq<char>)> {
    seq![
        ("python3-dev"@, "python3-dev"@),
        ("python3-venv"@, "python3-venv"@),
        ("python3-tk"@, "python3-tk"@),
        ("libsdl2-dev"@, "libsdl2-dev"@),
        ("libmagic1"@, "libmagic1"@),
        ("gcc-multilib"@, "gcc-multilib"@),
        ("g++-multilib"@, "g++-multilib"@),
    ]
}

/// Packages on Windows.
pub open spec fn winget_rows() -> Seq<(Seq<char>, Seq<char>)> {
    seq![
        ("CMake"@, "Kitware.CMake"@),
        ("Ninja"@, "Ninja-build.Ninja"@),
        ("Gperf"@, "oss-winget.gperf"@),
        ("Python 3.12"@, "Python.Python.3.12"@),
        ("Git"@, "Git.Git"@),
        ("DTC"@, "oss-winget.dtc"@),
        ("Wget"@, "wget"@),
        ("7-Zip"@, "7zip.7zip"@),
    ]
}

/// The table for Linux: that of Fedora if `fedora` is set, that of Debian
/// and Ubuntu otherwise.
pub open spec fn linux_rows(fedora: bool) -> Seq<(Seq<char>, Seq<char>)> {
    if fedora {
        fedora_tools() + fedora_libraries()
    } else {
        debian_tools() + debian_libraries()
    }
}

fn add_row(table: &mut PackageTable, name: &str, package: &str)
    ensures
        final(table).deep_view() == old(table).deep_view().push((name@, package@)),
{
    table.push((String::from_str(name), String::from_str(package)));
    assert(table.deep_view() =~= old(table).deep_view().push((name@, package@)));
}

fn empty_table() -> (r: PackageTable)
    ensures
        r.deep_view() == Seq::<(Seq<char>, Seq<char>)>::empty(),
{
    let table: PackageTable = Vec::new();
    assert(table.deep_view() =~= Seq::<(Seq<char>, Seq<char>)>::empty());
    table
}

fn fedora_tool_rows() -> (r: PackageTable)
    ensures
        r.deep_view() == fedora_tools(),
{
    let mut t = empty_table();
    add_row(&mut t, "Git", "git");
    add_row(&mut t, "CMake", "cmake");
    add_row(&mut t, "Ninja", "ninja-build");
    add_row(&mut t, "Gperf", "gperf");
    add_row(&mut t, "CCache", "ccache");
    add_row(&mut t, "Dfu-util", "dfu-util");
    add_row(&mut t, "DTC", "dtc");
    add_row(&mut t, "Wget", "wget");
    add_row(&mut t, "Python 3", "python3");
    add_row(&mut t, "XZ Utils", "xz");
    add_row(&mut t, "File", "file");
    add_row(&mut t, "Make", "make");
    add_row(&mut t, "GCC", "gcc");
    add_row(&mut t, "G++", "gcc-c++");
    t
}

fn fedora_library_rows() -> (r: PackageTable)
    ensures
        r.deep_view() == fedora_libraries(),
{
    let mut t = empty_table();
    add_row(&mut t, "python3-dev", "python3-devel");
    add_row(&mut t, "python3-venv", "python3");
    add_row(&mut t, "python3-tk", "python3-tkinter");
    add_row(&mut t, "libsdl2-dev", "sdl2-compat-devel");
    add_row(&mut t, "libmagic1", "file-libs");
    add_row(&mut t, "gcc-multilib", "glibc-devel.i686");
    add_row(&mut t, "g++-multilib", "libstdc++-devel.i686");
    t
}

fn debian_tool_rows() -> (r: PackageTable)
    ensures
        r.deep_view() == debian_tools(),
{
    let mut t = empty_table();
    add_row(&mut t, "Git", "git");
    add_row(&mut t, "CMake", "cmake");
    add_row(&mut t, "Ninja", "ninja-build");
    add_row(&mut t, "Gperf", "gperf");
    add_row(&mut t, "CCache", "ccache");
    add_row(&mut t, "Dfu-util", "dfu-util");
    add_row(&mut t, "DTC", "device-tree-compiler");
    add_row(&mut t, "Wget", "wget");
    add_row(&mut t, "Python 3", "python3");
    add_row(&mut t, "XZ Utils", "xz-utils");
    add_row(&mut t, "File", "file");
    add_row(&mut t, "Make", "make");
    add_row(&mut t, "GCC", "gcc");
    add_row(&mut t, "G++", "g++");
    t
}

fn debian_library_rows() -> (r: PackageTable)
    ensures
        r.deep_view() == debian_libraries(),
{
    let mut t = empty_table();
    add_row(&mut t, "python3-dev", "python3-dev");
    add_row(&mut t, "python3-venv", "python3-venv");
    add_row(&mut t, "python3-tk", "python3-tk");
    add_row(&mut t, "libsdl2-dev", "libsdl2-dev");
    add_row(&mut t, "libmagic1", "libmagic1");
    add_row(&mut t, "gcc-multilib", "gcc-multilib");
    add_row(&mut t, "g++-multilib", "g++-multilib");
    t
}

/// The package table for Linux.
pub fn linux_packages(fedora: bool) -> (r: PackageTable)
    ensures
        r.deep_view() == linux_rows(fedora),
{
    let mut table = if fedora {
        fedora_tool_rows()
    } else {
        debian_tool_rows()
    };
    let mut libraries = if fedora {
        fedora_library_rows()
    } else {
        debian_library_rows()
    };
    let ghost first = table.deep_view();
    let ghost second = libraries.deep_view();
    table.append(&mut libraries);
    assert(table.deep_view() =~= first + second);
    table
}

/// The package table for Windows.
pub fn winget_packages() -> (r: PackageTable)
    ensures
        r.deep_view() == winget_rows(),
{
    let mut t = empty_table();
    add_row(&mut t, "CMake", "Kitware.CMake");
    add_row(&mut t, "Ninja", "Ninja-build.Ninja");
    add_row(&mut t, "Gperf", "oss-winget.gperf");
    add_row(&mut t, "Python 3.12", "Python.Python.3.12");
    add_row(&mut t, "Git", "Git.Git");
    add_row(&mut t, "DTC", "oss-winget.dtc");
    add_row(&mut t, "Wget", "wget");
    add_row(&mut t, "7-Zip", "7zip.7zip");
    t
}

/// Looks up the package that carries `name`.
pub fn find_package(table: &PackageTable, name: &String) -> (r: Option<String>)
    ensures
        r.deep_view() == lookup(table.deep_view(), name@),
{
    let ghost all = table.deep_view();
    let mut i: usize = 0;
    assert(all.subrange(0, all.len() as int) =~= all);
    while i < table.len()
        invariant
            i <= table.len(),
            all == table.deep_view(),
            lookup(all, name@) == lookup(all.subrange(i as int, all.len() as int), name@),
        decreases table.len() - i,
    {
        let ghost rest = all.subrange(i as int, all.len() as int);
        assert(rest.first() == table[i as int].deep_view());
        if table[i].0 == *name {
            return Some(table[i].1.clone());
        }
        assert(rest.drop_first() =~= all.subrange(i + 1, all.len() as int));
        i = i + 1;
    }
    None
}

/// The packages that carry `missing`, in its order.
pub fn collect_packages(missing: &Vec<Dependency>, table: &PackageTable) -> (r: Vec<String>)
    ensures
        r.deep_view() == packages_for(missing.deep_view(), table.deep_view()),
{
    let ghost all = missing.deep_view();
    let mut packages = no_texts();
    let mut i: usize = 0;
    assert(all.take(0) =~= Seq::<DependencyView>::empty());
    while i < missing.len()
        invariant
            i <= missing.len(),
            all == missing.deep_view(),
            packages.deep_view() == packages_for(all.take(i as int), table.deep_view()),
        decreases missing.len() - i,
    {
        proof {
            assert(all.take(i + 1).drop_last() =~= all.take(i as int));
            assert(all.take(i + 1).last() == missing[i as int]@);
        }
        match find_package(table, &missing[i].name) {
            Some(package) => {
                push_text(&mut packages, package.as_str());
            },
            None => {},
        }
        i = i + 1;
    }
    assert(all.take(i as int) =~= all);
    packages
}

/// The dependencies of `all` that are not installed, in order.
pub open spec fn missing_of(all: Seq<DependencyView>) -> Seq<DependencyView> {
    all.filter(|d: DependencyView| !d.installed)
}

/// The dependencies that `report` found missing, in its order.
pub fn missing_dependencies(report: &EnvReport) -> (r: Vec<Dependency>)
    ensures
        r.deep_view() == missing_of(report@.dependencies),
{
    let ghost all = report.dependencies.deep_view();
    let ghost absent = |d: DependencyView| !d.installed;
    let mut missing: Vec<Dependency> = Vec::new();
    let mut i: usize = 0;
    assert(all.take(0).filter(absent) =~= Seq::<DependencyView>::empty()) by {
        reveal(Seq::filter);
    }
    while i < report.dependencies.len()
        invariant
            i <= report.dependencies.len(),
            all == report.dependencies.deep_view(),
            absent == |d: DependencyView| !d.installed,
            missing.deep_view() == all.take(i as int).filter(absent),
        decreases report.dependencies.len() - i,
    {
        let ghost before = missing.deep_view();
        proof {
            assert(all.take(i + 1).drop_last() =~= all.take(i as int));
            assert(all.take(i + 1).last() == report.dependencies[i as int]@);
            reveal(Seq::filter);
        }
        let d = &report.dependencies[i];
        if !d.installed {
            let copy = Dependency {
                name: d.name.clone(),
                installed: d.installed,
                version: crate::text::copy_optional(&d.version),
                critical: d.critical,
            };
            missing.push(copy);
            assert(missing.deep_view() =~= before.push(report.dependencies[i as int]@));
        }
        i = i + 1;
    }
    assert(all.take(i as int) =~= all);
    missing
}

/// Why nothing could be installed.
#[derive(Clone, Copy, Debug, PartialEq, Eq, Structural)]
pub enum InstallError {
    /// None of the known terminal emulators is installed.
    NoTerminal,
    /// There is no catalog for this operating system.
    UnsupportedSystem,
}

impl InstallError {
    /// The message shown to the user.
    pub fn message(&self) -> (r: String)
        ensures
            r@ == match *self {
                InstallError::NoTerminal =>
                    "No supported terminal emulator found. Please install dependencies manually."@,
                InstallError::UnsupportedSystem => "Unsupported operating system"@,
            },
    {
        match self {
            InstallError::NoTerminal => String::from_str(
                "No supported terminal emulator found. Please install dependencies manually.",
            ),
            InstallError::UnsupportedSystem => String::from_str("Unsupported operating system"),
        }
    }
}

/// The terminal emulators that can show the installation, in order of
/// preference, each with the argument after which it takes a command.
pub open spec fn terminal_rows() -> Seq<(Seq<char>, Seq<char>)> {
    seq![
        ("gnome-terminal"@, "--"@),
        ("konsole"@, "-e"@),
        ("xfce4-terminal"@, "--"@),
        ("xterm"@, "-e"@),
    ]
}

/// The table of terminal emulators.
pub fn terminals() -> (r: Vec<(String, String)>)
    ensures
        r.deep_view() == terminal_rows(),
{
    let mut t = empty_table();
    add_row(&mut t, "gnome-terminal", "--");
    add_row(&mut t, "konsole", "-e");
    add_row(&mut t, "xfce4-terminal", "--");
    add_row(&mut t, "xterm", "-e");
    t
}

/// Name of the package manager.
pub open spec fn package_manager(fedora: bool) -> Seq<char> {
    if fedora {
        "dnf"@
    } else {
        "apt"@
    }
}

/// Arguments of the package manager that install `packages` without
/// asking.
pub open spec fn install_args(fedora: bool, packages: Seq<Seq<char>>) -> Seq<Seq<char>> {
    if fedora {
        seq!["install"@, "-y"@] + packages
    } else {
        seq!["install"@, "-y"@, "--no-install-recommends"@] + packages
    }
}

/// The shell line that installs `packages` as the administrator.
pub open spec fn install_line(fedora: bool, packages: Seq<Seq<char>>) -> Seq<char> {
    "sudo "@ + package_manager(fedora) + " "@ + joined_texts(install_args(fedora, packages), " "@)
}

/// The command that opens the terminal emulator `terminal` on `line` and
/// keeps the window open until the user has read the outcome.
pub open spec fn terminal_command(terminal: (Seq<char>, Seq<char>), line: Seq<char>)
    -> ProcessSpecView {
    ProcessSpecView {
        program: terminal.0,
        args: seq![
            terminal.1,
            "bash"@,
            "-c"@,
            line + "; echo 'Press Enter to close...'; read"@,
        ],
        cwd: None,
        env: Seq::empty(),
        hide_window: false,
    }
}

/// Index of the first `true` in `found`, or its length if there is none.
pub open spec fn first_found(found: Seq<bool>) -> int
    decreases found.len(),
{
    if found.len() == 0 {
        0
    } else if found.first() {
        0
    } else {
        1 + first_found(found.drop_first())
    }
}

/// What installing `missing` on Linux comes to. With no package to install
/// there is nothing to do. Otherwise the first terminal emulator that was
/// found runs the installation; `found` says, for each row of
/// [`terminal_rows`], whether it was.
pub open spec fn linux_install(missing: Seq<DependencyView>, fedora: bool, found: Seq<bool>)
    -> Result<Option<ProcessSpecView>, InstallError> {
    let packages = packages_for(missing, linux_rows(fedora));
    let i = first_found(found);
    if packages.len() == 0 {
        Ok(None)
    } else if i < found.len() && i < terminal_rows().len() {
        Ok(Some(terminal_command(terminal_rows()[i], install_line(fedora, packages))))
    } else {
        Err(InstallError::NoTerminal)
    }
}

/// Plans the installation of `missing` on Linux. `fedora` selects the
/// package manager and the package names; `found` says, for each terminal
/// emulator of [`terminals`], whether it is installed.
pub fn install_linux_dependencies(missing: &Vec<Dependency>, fedora: bool, found: &Vec<bool>) -> (r:
    Result<Option<ProcessSpec>, InstallError>)
    ensures
        match linux_install(missing.deep_view(), fedora, found@) {
            Ok(Some(command)) => r matches Ok(Some(x)) && x@ == command,
            Ok(None) => r matches Ok(None),
            Err(e) => r matches Err(x) && x == e,
        },
{
    let table = linux_packages(fedora);
    let packages = collect_packages(missing, &table);
    if packages.len() == 0 {
        return Ok(None);
    }
    let mut args = one_text("install");
    push_text(&mut args, "-y");
    if !fedora {
        push_text(&mut args, "--no-install-recommends");
    }
    let ghost head = args.deep_view();
    let mut i: usize = 0;
    while i < packages.len()
        invariant
            i <= packages.len(),
            args.deep_view() == head + packages.deep_view().take(i as int),
        decreases packages.len() - i,
    {
        push_text(&mut args, packages[i].as_str());
        assert(args.deep_view() =~= head + packages.deep_view().take(i + 1)) by {
            assert(packages.deep_view().take(i + 1) =~= packages.deep_view().take(i as int).push(
                packages[i as int]@,
            ));
        }
        i = i + 1;
    }
    assert(packages.deep_view().take(i as int) =~= packages.deep_view());
    assert(args.deep_view() =~= install_args(fedora, packages.deep_view()));
    let mut line = String::from_str("sudo ");
    if fedora {
        line.append("dnf");
    } else {
        line.append("apt");
    }
    line.append(" ");
    let joined = join_texts(&args, " ");
    line.append(joined.as_str());
    assert(line@ =~= install_line(fedora, packages.deep_view()));

    let table = terminals();
    let mut k: usize = 0;
    assert(found@.subrange(0, found@.len() as int) =~= found@);
    while k < found.len() && !found[k]
        invariant
            k <= found.len(),
            first_found(found@) == k + first_found(found@.subrange(k as int, found@.len() as int)),
        decreases found.len() - k,
    {
        let ghost rest = found@.subrange(k as int, found@.len() as int);
        assert(rest.first() == found[k as int]);
        assert(rest.drop_first() =~= found@.subrange(k + 1, found@.len() as int));
        k = k + 1;
    }
    assert(k == first_found(found@)) by {
        let rest = found@.subrange(k as int, found@.len() as int);
        if k < found.len() {
            assert(rest.first() == found[k as int]);
        }
    }
    if k < found.len() && k < table.len() {
        let mut script = line;
        script.append("; echo 'Press Enter to close...'; read");
        let mut terminal_args = one_text(table[k].1.as_str());
        push_text(&mut terminal_args, "bash");
        push_text(&mut terminal_args, "-c");
        push_text(&mut terminal_args, script.as_str());
        let command = ProcessSpec {
            program: table[k].0.clone(),
            args: terminal_args,
            cwd: None,
            env: EnvOverlay::empty(),
            hide_window: false,
        };
        assert(table.deep_view()[k as int] == table[k as int].deep_view());
        assert(command@ == terminal_command(
            terminal_rows()[k as int],
            install_line(fedora, packages.deep_view()),
        ));
        Ok(Some(command))
    } else {
        Err(InstallError::NoTerminal)
    }
}

/// The command that installs each of `packages` on Windows.
pub open spec fn winget_commands(packages: Seq<Seq<char>>) -> Seq<Seq<char>> {
    Seq::new(packages.len(), |i: int| "winget install "@ + packages[i])
}

/// The script that points the package manager of Windows to the mirror,
/// installs `packages` and waits for the user.
pub open spec fn elevated_script(packages: Seq<Seq<char>>) -> Seq<char> {
    "winget source remove winget; winget source add winget https://mirrors.ustc.edu.cn/winget-source --trust-level trusted; "@
        + joined_texts(winget_commands(packages), "; "@) + "; Read-Host 'Press Enter to exit'"@
}

/// What installing `missing` on Windows comes to: nothing when no package
/// carries any of them, otherwise a shell started as the administrator on
/// the script.
pub open spec fn windows_install(missing: Seq<DependencyView>) -> Option<ProcessSpecView> {
    let packages = packages_for(missing, winget_rows());
    if packages.len() == 0 {
        None
    } else {
        Some(
            ProcessSpecView {
                program: "powershell"@,
                args: seq![
                    "Start-Process"@,
                    "powershell"@,
                    "-Verb"@,
                    "RunAs"@,
                    "-ArgumentList"@,
                    "\"-NoExit -Command "@ + elevated_script(packages) + "\""@,
                ],
                cwd: None,
                env: Seq::empty(),
                hide_window: false,
            },
        )
    }
}

/// Plans the installation of `missing` on Windows.
pub fn install_windows_dependencies(missing: &Vec<Dependency>) -> (r: Option<ProcessSpec>)
    ensures
        r.deep_view() == windows_install(missing.deep_view()),
{
    let table = winget_packages();
    let packages = collect_packages(missing, &table);
    if packages.len() == 0 {
        return None;
    }
    let mut commands = no_texts();
    let mut i: usize = 0;
    while i < packages.len()
        invariant
            i <= packages.len(),
            commands.deep_view() == winget_commands(packages.deep_view()).take(i as int),
        decreases packages.len() - i,
    {
        let mut command = String::from_str("winget install ");
        command.append(packages[i].as_str());
        push_text(&mut commands, command.as_str());
        assert(commands.deep_view() =~= winget_commands(packages.deep_view()).take(i + 1));
        i = i + 1;
    }
    assert(commands.deep_view() =~= winget_commands(packages.deep_view()));
    let mut argument = String::from_str("\"-NoExit -Command ");
    argument.append(
        "winget source remove winget; winget source add winget https://mirrors.ustc.edu.cn/winget-source --trust-level trusted; ",
    );
    let joined = join_texts(&commands, "; ");
    argument.append(joined.as_str());
    argument.append("; Read-Host 'Press Enter to exit'");
    argument.append("\"");
    assert(argument@ =~= "\"-NoExit -Command "@ + elevated_script(packages.deep_view()) + "\""@);
    let mut args = one_text("Start-Process");
    push_text(&mut args, "powershell");
    push_text(&mut args, "-Verb");
    push_text(&mut args, "RunAs");
    push_text(&mut args, "-ArgumentList");
    push_text(&mut args, argument.as_str());
    Some(
        ProcessSpec {
            program: String::from_str("powershell"),
            args,
            cwd: None,
            env: EnvOverlay::empty(),
            hide_window: false,
        },
    )
}

/// The error type of the `which` crate.
#[verifier::external_type_specification]
#[verifier::external_body]
pub struct ExWhichError(which::Error);

/// Calls `which::which`, which looks for an executable file named `name` in
/// the directories of the search path and returns its path. Nothing is
/// claimed of the result: it depends on the environment and on what is on
/// disk at the time of the call.
#[verifier::external_body]
fn find_executable(name: &str) -> (r: Result<String, which::Error>) {
    match which::which(name) {
        Ok(path) => Ok(path.to_string_lossy().into_owned()),
        Err(e) => Err(e),
    }
}

/// Looks for each terminal emulator of [`terminals`] on the search path.
/// The result says, row by row, whether it was found.
pub fn probe_terminals() -> (r: Vec<bool>)
    ensures
        r.len() == terminal_rows().len(),
{
    let table = terminals();
    let mut found: Vec<bool> = Vec::new();
    let mut i: usize = 0;
    while i < table.len()
        invariant
            i <= table.len(),
            found.len() == i,
        decreases table.len() - i,
    {
        let located = find_executable(table[i].0.as_str());
        found.push(located.is_ok());
        i = i + 1;
    }
    assert(table.deep_view().len() == table.len());
    found
}

/// Whether the description of a Linux system, already in lower case, is
/// that of Fedora.
pub open spec fn names_fedora(lowered: Seq<char>) -> bool {
    contains_text(lowered, "fedora"@)
}

/// Decides whether the description of a Linux system, already in lower
/// case, is that of Fedora.
pub fn mentions_fedora(lowered: &str) -> (r: bool)
    ensures
        r == names_fedora(lowered@),
{
    has_text(lowered, "fedora")
}

/// Decides whether `os_release`, the system's description of itself, is
/// that of Fedora, whatever the case it is written in.
pub fn is_fedora(os_release: &str) -> (r: bool)
    ensures
        r == names_fedora(lowercase(os_release@)),
{
    let lowered = to_lowercase(os_release);
    mentions_fedora(lowered.as_str())
}

/// The mathematical content of a plan.
pub open spec fn plan_view(r: Result<Option<ProcessSpec>, InstallError>) -> Result<
    Option<ProcessSpecView>,
    InstallError,
> {
    match r {
        Ok(Some(command)) => Ok(Some(command@)),
        Ok(None) => Ok(None),
        Err(e) => Err(e),
    }
}

/// What installing the missing dependencies comes to on `p`, given which
/// terminal emulators were found and whether a Linux system is Fedora.
pub open spec fn install_plan(
    missing: Seq<DependencyView>,
    p: Platform,
    fedora: bool,
    found: Seq<bool>,
) -> Result<Option<ProcessSpecView>, InstallError> {
    if missing.len() == 0 {
        Ok(None)
    } else {
        match p {
            Platform::Linux => linux_install(missing, fedora, found),
            Platform::Windows => Ok(windows_install(missing)),
            Platform::Other => Err(InstallError::UnsupportedSystem),
        }
    }
}

/// Plans the installation of what `report` found missing on `p`: nothing
/// when nothing is missing, otherwise the command to launch. On Linux
/// `os_release` decides between the two families of distributions, and the
/// terminal emulator is the first of [`terminals`] that is found on this
/// machine.
pub fn install_dependencies(report: &EnvReport, p: Platform, os_release: &str) -> (r: Result<
    Option<ProcessSpec>,
    InstallError,
>)
    ensures
        exists|found: Seq<bool>|
            found.len() == terminal_rows().len() && plan_view(r) == #[trigger] install_plan(
                missing_of(report@.dependencies),
                p,
                names_fedora(lowercase(os_release@)),
                found,
            ),
{
    let missing = missing_dependencies(report);
    let ghost none = Seq::new(terminal_rows().len(), |i: int| false);
    if missing.len() == 0 {
        assert(plan_view(Ok(None)) == install_plan(
            missing_of(report@.dependencies),
            p,
            names_fedora(lowercase(os_release@)),
            none,
        ));
        return Ok(None);
    }
    match p {
        Platform::Linux => {
            let fedora = is_fedora(os_release);
            let found = probe_terminals();
            let r = install_linux_dependencies(&missing, fedora, &found);
            assert(plan_view(r) == install_plan(
                missing_of(report@.dependencies),
                p,
                names_fedora(lowercase(os_release@)),
                found@,
            ));
            r
        },
        Platform::Windows => {
            let r = Ok(install_windows_dependencies(&missing));
            assert(plan_view(r) == install_plan(
                missing_of(report@.dependencies),
                p,
                names_fedora(lowercase(os_release@)),
                none,
            ));
            r
        },
        Platform::Other => {
            assert(plan_view(Err(InstallError::UnsupportedSystem)) == install_plan(
                missing_of(report@.dependencies),
                p,
                names_fedora(lowercase(os_release@)),
                none,
            ));
            Err(InstallError::UnsupportedSystem)
        },
    }
}

} // verus!
