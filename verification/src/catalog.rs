//! The catalogs of required tools and libraries, one per operating system.
//!
//! A catalog is data: supporting another system or another tool means
//! adding entries, not logic.

use vstd::prelude::*;
use vstd::string::StringExecFns;
use crate::env_manager::{CatalogEntry, CatalogEntryView, Probe, ProbeView};

verus! {

/// The entry for a tool that is asked for its version.
pub open spec fn binary_entry(name: Seq<char>, command: Seq<char>, version_arg: Seq<char>)
    -> CatalogEntryView {
    CatalogEntryView { name, probe: ProbeView::Binary { command, version_arg } }
}

/// The entry for something found by a shell expression.
pub open spec fn shell_entry(name: Seq<char>, expression: Seq<char>) -> CatalogEntryView {
    CatalogEntryView { name, probe: ProbeView::Shell { expression } }
}

/// The build tools a workspace needs on Linux.
pub open spec fn linux_tools() -> Seq<CatalogEntryView> {
    seq![
        binary_entry("Git"@, "git"@, "--version"@),
        binary_entry("CMake"@, "cmake"@, "--version"@),
        binary_entry("Ninja"@, "ninja"@, "--version"@),
        binary_entry("Gperf"@, "gperf"@, "--version"@),
        binary_entry("CCache"@, "ccache"@, "--version"@),
        binary_entry("Dfu-util"@, "dfu-util"@, "--version"@),
        binary_entry("DTC"@, "dtc"@, "--version"@),
        binary_entry("Wget"@, "wget"@, "--version"@),
        binary_entry("Python 3"@, "python3"@, "--version"@),
        binary_entry("XZ Utils"@, "xz"@, "--version"@),
        binary_entry("File"@, "file"@, "--version"@),
        binary_entry("Make"@, "make"@, "--version"@),
        binary_entry("GCC"@, "gcc"@, "--version"@),
        binary_entry("G++"@, "g++"@, "--version"@),
    ]
}

/// The libraries and interpreter modules a workspace needs on Linux, found
/// through either of the two common package databases.
pub open spec fn linux_libraries() -> Seq<CatalogEntryView> {
    seq![
        shell_entry(
            "python3-dev"@,
            "dpkg -l | grep python3-dev || rpm -qa | grep python3-devel"@,
        ),
        shell_entry("python3-venv"@, "python3 -m venv --help"@),
        shell_entry(
            "python3-tk"@,
            "dpkg -l | grep python3-tk || rpm -qa | grep python3-tkinter"@,
        ),
        shell_entry(
            "libsdl2-dev"@,
            "dpkg -l | grep libsdl2-dev || rpm -qa | grep sdl2-compat-devel"@,
        ),
        shell_entry("libmagic1"@, "dpkg -l | grep libmagic1 || rpm -qa | grep file-libs"@),
        shell_entry(
            "gcc-multilib"@,
            "dpkg -l | grep gcc-multilib || rpm -qa | grep \"glibc-devel.*i686\""@,
        ),
        shell_entry(
            "g++-multilib"@,
            "dpkg -l | grep g++-multilib || rpm -qa | grep \"libstdc++-devel.*i686\""@,
        ),
    ]
}

/// What a workspace needs on Linux: the build tools, then the libraries.
pub open spec fn linux_entries() -> Seq<CatalogEntryView> {
    linux_tools() + linux_libraries()
}

/// What a workspace needs on Windows.
pub open spec fn windows_entries() -> Seq<CatalogEntryView> {
    seq![
        binary_entry("CMake"@, "cmake"@, "--version"@),
        binary_entry("Ninja"@, "ninja"@, "--version"@),
        binary_entry("Gperf"@, "gperf"@, "--version"@),
        binary_entry("Python 3.12"@, "python"@, "--version"@),
        binary_entry("Git"@, "git"@, "--version"@),
        binary_entry("DTC"@, "dtc"@, "--version"@),
        binary_entry("Wget"@, "wget"@, "--version"@),
        binary_entry("7-Zip"@, "7z"@, "--help"@),
    ]
}

fn add_binary(catalog: &mut Vec<CatalogEntry>, name: &str, command: &str, version_arg: &str)
    ensures
        final(catalog).deep_view() == old(catalog).deep_view().push(
            binary_entry(name@, command@, version_arg@),
        ),
{
    catalog.push(
        CatalogEntry {
            name: String::from_str(name),
            probe: Probe::Binary {
                command: String::from_str(command),
                version_arg: String::from_str(version_arg),
            },
        },
    );
    assert(catalog.deep_view() =~= old(catalog).deep_view().push(
        binary_entry(name@, command@, version_arg@),
    ));
}

fn add_shell(catalog: &mut Vec<CatalogEntry>, name: &str, expression: &str)
    ensures
        final(catalog).deep_view() == old(catalog).deep_view().push(
            shell_entry(name@, expression@),
        ),
{
    catalog.push(
        CatalogEntry {
            name: String::from_str(name),
            probe: Probe::Shell { expression: String::from_str(expression) },
        },
    );
    assert(catalog.deep_view() =~= old(catalog).deep_view().push(
        shell_entry(name@, expression@),
    ));
}

fn empty_catalog() -> (r: Vec<CatalogEntry>)
    ensures
        r.deep_view() == Seq::<CatalogEntryView>::empty(),
{
    let catalog: Vec<CatalogEntry> = Vec::new();
    assert(catalog.deep_view() =~= Seq::<CatalogEntryView>::empty());
    catalog
}

fn linux_tool_entries() -> (r: Vec<CatalogEntry>)
    ensures
        r.deep_view() == linux_tools(),
{
    let mut c = empty_catalog();
    add_binary(&mut c, "Git", "git", "--version");
    add_binary(&mut c, "CMake", "cmake", "--version");
    add_binary(&mut c, "Ninja", "ninja", "--version");
    add_binary(&mut c, "Gperf", "gperf", "--version");
    add_binary(&mut c, "CCache", "ccache", "--version");
    add_binary(&mut c, "Dfu-util", "dfu-util", "--version");
    add_binary(&mut c, "DTC", "dtc", "--version");
    add_binary(&mut c, "Wget", "wget", "--version");
    add_binary(&mut c, "Python 3", "python3", "--version");
    add_binary(&mut c, "XZ Utils", "xz", "--version");
    add_binary(&mut c, "File", "file", "--version");
    add_binary(&mut c, "Make", "make", "--version");
    add_binary(&mut c, "GCC", "gcc", "--version");
    add_binary(&mut c, "G++", "g++", "--version");
    c
}

fn linux_library_entries() -> (r: Vec<CatalogEntry>)
    ensures
        r.deep_view() == linux_libraries(),
{
    let mut c = empty_catalog();
    add_shell(&mut c, "python3-dev", "dpkg -l | grep python3-dev || rpm -qa | grep python3-devel");
    add_shell(&mut c, "python3-venv", "python3 -m venv --help");
    add_shell(&mut c, "python3-tk", "dpkg -l | grep python3-tk || rpm -qa | grep python3-tkinter");
    add_shell(
        &mut c,
        "libsdl2-dev",
        "dpkg -l | grep libsdl2-dev || rpm -qa | grep sdl2-compat-devel",
    );
    add_shell(&mut c, "libmagic1", "dpkg -l | grep libmagic1 || rpm -qa | grep file-libs");
    add_shell(
        &mut c,
        "gcc-multilib",
        "dpkg -l | grep gcc-multilib || rpm -qa | grep \"glibc-devel.*i686\"",
    );
    add_shell(
        &mut c,
        "g++-multilib",
        "dpkg -l | grep g++-multilib || rpm -qa | grep \"libstdc++-devel.*i686\"",
    );
    c
}

/// The catalog for Linux.
pub fn linux_catalog() -> (r: Vec<CatalogEntry>)
    ensures
        r.deep_view() == linux_entries(),
{
    let mut c = linux_tool_entries();
    let mut libraries = linux_library_entries();
    let ghost tools = c.deep_view();
    let ghost rest = libraries.deep_view();
    c.append(&mut libraries);
    assert(c.deep_view() =~= tools + rest);
    c
}

/// The catalog for Windows.
pub fn windows_catalog() -> (r: Vec<CatalogEntry>)
    ensures
        r.deep_view() == windows_entries(),
{
    let mut c = empty_catalog();
    add_binary(&mut c, "CMake", "cmake", "--version");
    add_binary(&mut c, "Ninja", "ninja", "--version");
    add_binary(&mut c, "Gperf", "gperf", "--version");
    add_binary(&mut c, "Python 3.12", "python", "--version");
    add_binary(&mut c, "Git", "git", "--version");
    add_binary(&mut c, "DTC", "dtc", "--version");
    add_binary(&mut c, "Wget", "wget", "--version");
    add_binary(&mut c, "7-Zip", "7z", "--help");
    c
}

} // verus!
