use zephyr_provision::catalog::{linux_catalog, windows_catalog};
use zephyr_provision::env_manager::{
    build_report, check_binary, check_command, check_command_version, check_dependencies,
    check_dpkg, check_environment, check_linux_dependencies, check_shell_dependency,
    check_windows_dependencies, choose_interpreter, configured_interpreter, dependency_probes,
    readiness_probes, sdk_present, CatalogEntry, Dependency, EnvStatus, Probe, ProbeOutcome,
};
use zephyr_provision::platform::Platform;
use zephyr_provision::process::{EnvOverlay, ProcessSpec};

fn ran(success: bool, stdout: &str) -> ProbeOutcome {
    ProbeOutcome::Finished { success, stdout: stdout.to_string() }
}

fn plain(program: &str, args: &[&str]) -> ProcessSpec {
    ProcessSpec {
        program: program.to_string(),
        args: args.iter().map(|s| s.to_string()).collect(),
        cwd: None,
        env: EnvOverlay::empty(),
        hide_window: false,
    }
}

#[test]
fn a_tool_that_reports_its_version_is_installed() {
    assert_eq!(
        check_binary("Git", &ran(true, "git version 2.43.0\n")),
        Dependency {
            name: "Git".to_string(),
            installed: true,
            version: Some("git version 2.43.0".to_string()),
            critical: true,
        }
    );
    assert_eq!(
        check_binary("Git", &ran(true, "")),
        Dependency {
            name: "Git".to_string(),
            installed: true,
            version: Some("".to_string()),
            critical: true,
        }
    );
}

#[test]
fn a_tool_that_fails_or_is_absent_is_not_installed() {
    let missing =
        Dependency { name: "Ninja".to_string(), installed: false, version: None, critical: true };
    assert_eq!(check_binary("Ninja", &ran(false, "1.11.1\n")), missing);
    assert_eq!(check_binary("Ninja", &ProbeOutcome::Absent), missing);
    assert_eq!(check_command_version(&ProbeOutcome::Absent), None);
    assert_eq!(check_command_version(&ran(true, " 3.12 ")), Some("3.12".to_string()));
    assert!(check_command(&ran(true, "")));
    assert!(!check_command(&ran(false, "")));
    assert!(!check_command(&ProbeOutcome::Absent));
}

#[test]
fn an_absent_probe_means_not_installed_and_does_not_stop_the_check() {
    let mut outcomes = vec![ran(true, "ok\n"); 21];
    outcomes[2] = ProbeOutcome::Absent;
    let report = check_linux_dependencies(&outcomes);
    assert_eq!(report.dependencies.len(), 21);
    assert_eq!(
        report.dependencies[2],
        Dependency { name: "Ninja".to_string(), installed: false, version: None, critical: true }
    );
    assert!(report.dependencies.iter().enumerate().all(|(i, d)| d.installed == (i != 2)));
    assert!(!report.all_satisfied);
    for entry in linux_catalog().iter().chain(windows_catalog().iter()) {
        let judged = entry.judge(&ProbeOutcome::Absent);
        assert!(!judged.installed);
        assert_eq!(judged.version, None);
    }
}

#[test]
fn a_package_is_judged_by_the_mark_of_the_database() {
    let yes = check_dpkg("libmagic1", &ran(true, "'install ok installed'"));
    assert!(yes.installed);
    assert_eq!(yes.name, "libmagic1");
    assert_eq!(yes.version, None);
    assert!(check_dpkg("libmagic1", &ran(false, "install ok installed")).installed);
    assert!(!check_dpkg("libmagic1", &ran(true, "'deinstall ok config-files'")).installed);
    assert!(!check_dpkg("libmagic1", &ran(true, "")).installed);
    assert!(!check_dpkg("libmagic1", &ProbeOutcome::Absent).installed);
}

#[test]
fn a_shell_probe_is_judged_by_its_exit() {
    assert!(check_shell_dependency("python3-dev", &ran(true, "")).installed);
    assert!(!check_shell_dependency("python3-dev", &ran(false, "ii python3-dev")).installed);
    let absent = check_shell_dependency("python3-dev", &ProbeOutcome::Absent);
    assert_eq!(
        absent,
        Dependency {
            name: "python3-dev".to_string(),
            installed: false,
            version: None,
            critical: true
        }
    );
}

#[test]
fn the_report_is_satisfied_exactly_if_everything_is_installed() {
    let all = vec![ran(true, "v1\n"); 21];
    let report = check_linux_dependencies(&all);
    assert_eq!(report.os, "linux");
    assert!(report.all_satisfied);
    assert!(report.dependencies.iter().all(|d| d.installed && d.critical));
    for broken in 0..21 {
        let mut outcomes = all.clone();
        outcomes[broken] = ran(false, "");
        let report = check_linux_dependencies(&outcomes);
        assert!(!report.all_satisfied);
        assert_eq!(report.dependencies.iter().filter(|d| !d.installed).count(), 1);
    }
    let windows = check_windows_dependencies(&vec![ran(true, "v\n"); 8]);
    assert_eq!(windows.os, "windows");
    assert!(windows.all_satisfied);
    assert_eq!(windows.dependencies.len(), 8);
}

#[test]
fn outcomes_that_were_not_reported_count_as_absent() {
    let report = check_windows_dependencies(&vec![ran(true, "3.28\n")]);
    assert_eq!(report.dependencies.len(), 8);
    assert!(report.dependencies[0].installed);
    assert_eq!(report.dependencies[0].version, Some("3.28".to_string()));
    assert!(report.dependencies[1..].iter().all(|d| !d.installed && d.version.is_none()));
    assert!(!report.all_satisfied);
    let none = check_linux_dependencies(&vec![]);
    assert!(!none.all_satisfied);
    let extra = check_windows_dependencies(&vec![ran(true, "v"); 20]);
    assert_eq!(extra.dependencies.len(), 8);
    assert!(extra.all_satisfied);
}

#[test]
fn the_linux_catalog_lists_tools_then_libraries() {
    let names: Vec<String> = linux_catalog().into_iter().map(|e| e.name).collect();
    assert_eq!(
        names,
        vec![
            "Git", "CMake", "Ninja", "Gperf", "CCache", "Dfu-util", "DTC", "Wget", "Python 3",
            "XZ Utils", "File", "Make", "GCC", "G++", "python3-dev", "python3-venv",
            "python3-tk", "libsdl2-dev", "libmagic1", "gcc-multilib", "g++-multilib",
        ]
    );
    let probes = dependency_probes(Platform::Linux);
    assert_eq!(probes.len(), 21);
    assert_eq!(probes[0], plain("git", &["--version"]));
    assert_eq!(probes[13], plain("g++", &["--version"]));
    assert_eq!(
        probes[14],
        plain("sh", &["-c", "dpkg -l | grep python3-dev || rpm -qa | grep python3-devel"])
    );
    assert_eq!(probes[15], plain("sh", &["-c", "python3 -m venv --help"]));
    assert_eq!(
        probes[20],
        plain(
            "sh",
            &["-c", "dpkg -l | grep g++-multilib || rpm -qa | grep \"libstdc++-devel.*i686\""]
        )
    );
}

#[test]
fn the_windows_catalog_asks_each_tool_for_its_version() {
    let probes = dependency_probes(Platform::Windows);
    assert_eq!(
        probes,
        vec![
            plain("cmake", &["--version"]),
            plain("ninja", &["--version"]),
            plain("gperf", &["--version"]),
            plain("python", &["--version"]),
            plain("git", &["--version"]),
            plain("dtc", &["--version"]),
            plain("wget", &["--version"]),
            plain("7z", &["--help"]),
        ]
    );
    let names: Vec<String> = windows_catalog().into_iter().map(|e| e.name).collect();
    assert_eq!(
        names,
        vec!["CMake", "Ninja", "Gperf", "Python 3.12", "Git", "DTC", "Wget", "7-Zip"]
    );
}

#[test]
fn an_unsupported_system_has_nothing_to_check() {
    assert!(dependency_probes(Platform::Other).is_empty());
    let report = check_dependencies(Platform::Other, &vec![ran(false, "x")]);
    assert_eq!(report.os, "unsupported");
    assert!(report.dependencies.is_empty());
    assert_eq!(report.all_satisfied, report.dependencies.iter().all(|d| d.installed));
    let outcomes = vec![ran(true, "v\n"); 21];
    assert_eq!(check_dependencies(Platform::Linux, &outcomes), check_linux_dependencies(&outcomes));
    assert_eq!(
        check_dependencies(Platform::Windows, &outcomes),
        check_windows_dependencies(&outcomes)
    );
}

#[test]
fn a_package_probe_queries_the_database() {
    let probe = Probe::Package { package: "libmagic1".to_string() };
    assert_eq!(probe.command(), plain("dpkg-query", &["-W", "-f='${Status}'", "libmagic1"]));
    let entry = CatalogEntry { name: "Magic".to_string(), probe };
    assert_eq!(entry.judge(&ran(true, "install ok installed")).name, "libmagic1");
    let catalog = vec![entry];
    let report = build_report("custom", &catalog, &vec![ran(false, "install ok installed")]);
    assert_eq!(report.os, "custom");
    assert!(report.all_satisfied);
    let empty = build_report("none", &vec![], &vec![]);
    assert!(empty.all_satisfied);
    assert!(empty.dependencies.is_empty());
}

#[test]
fn readiness_uses_the_interpreter_of_the_installation_if_it_exists() {
    let venv = "/opt/venv".to_string();
    let candidate = configured_interpreter(Some(&venv), Platform::Linux);
    assert_eq!(candidate, Some("/opt/venv/bin/python".to_string()));
    assert_eq!(
        configured_interpreter(Some(&"C:\\v".to_string()), Platform::Windows),
        Some("C:\\v\\Scripts\\python.exe".to_string())
    );
    assert_eq!(configured_interpreter(None, Platform::Linux), None);
    assert_eq!(choose_interpreter(candidate.clone(), true), "/opt/venv/bin/python");
    assert_eq!(choose_interpreter(candidate, false), "python");
    assert_eq!(choose_interpreter(None, true), "python");
    assert_eq!(
        readiness_probes("/opt/venv/bin/python"),
        vec![
            plain("git", &["--version"]),
            plain("/opt/venv/bin/python", &["--version"]),
            plain("/opt/venv/bin/python", &["-m", "west", "--version"]),
        ]
    );
}

#[test]
fn readiness_reports_four_findings() {
    let status =
        check_environment(&ran(true, "git 2"), &ProbeOutcome::Absent, &ran(false, ""), true);
    assert_eq!(status, EnvStatus { git: true, python: false, west: false, sdk: true });
    let base = "/opt/zephyr".to_string();
    assert!(sdk_present(Some(&base), true, false));
    assert!(!sdk_present(Some(&base), false, true));
    assert!(sdk_present(None, false, true));
    assert!(!sdk_present(None, true, false));
}
