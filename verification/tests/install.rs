use zephyr_provision::env_manager::{Dependency, EnvReport};
use zephyr_provision::install::{
    collect_packages, find_package, install_dependencies, install_linux_dependencies,
    install_windows_dependencies, is_fedora, linux_packages, mentions_fedora,
    missing_dependencies, probe_terminals, terminals, winget_packages, InstallError,
};
use zephyr_provision::platform::Platform;
use zephyr_provision::process::{EnvOverlay, ProcessSpec};

fn lacking(name: &str) -> Dependency {
    Dependency { name: name.to_string(), installed: false, version: None, critical: true }
}

fn present(name: &str) -> Dependency {
    Dependency { name: name.to_string(), installed: true, version: None, critical: true }
}

fn command(program: &str, args: &[&str]) -> ProcessSpec {
    ProcessSpec {
        program: program.to_string(),
        args: args.iter().map(|s| s.to_string()).collect(),
        cwd: None,
        env: EnvOverlay::empty(),
        hide_window: false,
    }
}

#[test]
fn packages_are_looked_up_per_distribution() {
    let debian = linux_packages(false);
    let fedora = linux_packages(true);
    assert_eq!(debian.len(), 21);
    assert_eq!(fedora.len(), 21);
    let dtc = "DTC".to_string();
    assert_eq!(find_package(&debian, &dtc), Some("device-tree-compiler".to_string()));
    assert_eq!(find_package(&fedora, &dtc), Some("dtc".to_string()));
    let multilib = "g++-multilib".to_string();
    assert_eq!(find_package(&debian, &multilib), Some("g++-multilib".to_string()));
    assert_eq!(find_package(&fedora, &multilib), Some("libstdc++-devel.i686".to_string()));
    assert_eq!(find_package(&fedora, &"G++".to_string()), Some("gcc-c++".to_string()));
    assert_eq!(find_package(&debian, &"7-Zip".to_string()), None);
    assert_eq!(find_package(&debian, &"git".to_string()), None);
    assert_eq!(find_package(&winget_packages(), &"7-Zip".to_string()), Some("7zip.7zip".to_string()));
    assert_eq!(find_package(&winget_packages(), &"GCC".to_string()), None);
}

#[test]
fn unknown_dependencies_contribute_no_package() {
    let missing = vec![lacking("XZ Utils"), lacking("Unknown"), lacking("python3-venv")];
    assert_eq!(collect_packages(&missing, &linux_packages(false)), vec!["xz-utils", "python3-venv"]);
    assert_eq!(collect_packages(&missing, &linux_packages(true)), vec!["xz", "python3"]);
    assert_eq!(collect_packages(&vec![], &linux_packages(true)), Vec::<String>::new());
}

#[test]
fn missing_dependencies_are_those_not_installed() {
    let report = EnvReport {
        os: "linux".to_string(),
        dependencies: vec![present("Git"), lacking("CMake"), present("Ninja"), lacking("DTC")],
        all_satisfied: false,
    };
    assert_eq!(missing_dependencies(&report), vec![lacking("CMake"), lacking("DTC")]);
}

#[test]
fn debian_packages_are_installed_with_apt_in_the_first_terminal_found() {
    let missing = vec![lacking("CMake"), lacking("DTC")];
    let plan = install_linux_dependencies(&missing, false, &vec![false, true, false, true]);
    assert_eq!(
        plan,
        Ok(Some(command(
            "konsole",
            &[
                "-e",
                "bash",
                "-c",
                "sudo apt install -y --no-install-recommends cmake device-tree-compiler; echo 'Press Enter to close...'; read",
            ]
        )))
    );
}

#[test]
fn fedora_packages_are_installed_with_dnf() {
    let missing = vec![lacking("CMake"), lacking("DTC")];
    let plan = install_linux_dependencies(&missing, true, &vec![true, true, true, true]);
    assert_eq!(
        plan,
        Ok(Some(command(
            "gnome-terminal",
            &[
                "--",
                "bash",
                "-c",
                "sudo dnf install -y cmake dtc; echo 'Press Enter to close...'; read",
            ]
        )))
    );
}

#[test]
fn each_terminal_takes_its_command_after_its_own_argument() {
    let missing = vec![lacking("Git")];
    let expected = [("gnome-terminal", "--"), ("konsole", "-e"), ("xfce4-terminal", "--"), ("xterm", "-e")];
    let table = terminals();
    assert_eq!(table.len(), 4);
    for (i, (name, flag)) in expected.iter().enumerate() {
        assert_eq!(table[i], (name.to_string(), flag.to_string()));
        let mut found = vec![false; 4];
        found[i] = true;
        let plan = install_linux_dependencies(&missing, true, &found).unwrap().unwrap();
        assert_eq!(plan.program, *name);
        assert_eq!(plan.args[0], *flag);
        assert_eq!(plan.args[1..3], ["bash".to_string(), "-c".to_string()]);
    }
}

#[test]
fn without_a_terminal_nothing_can_be_installed() {
    let missing = vec![lacking("Git")];
    assert_eq!(
        install_linux_dependencies(&missing, false, &vec![false; 4]),
        Err(InstallError::NoTerminal)
    );
    assert_eq!(install_linux_dependencies(&missing, false, &vec![]), Err(InstallError::NoTerminal));
    assert_eq!(
        install_linux_dependencies(&missing, false, &vec![false, false, false, false, true]),
        Err(InstallError::NoTerminal)
    );
    assert_eq!(
        InstallError::NoTerminal.message(),
        "No supported terminal emulator found. Please install dependencies manually."
    );
    assert_eq!(InstallError::UnsupportedSystem.message(), "Unsupported operating system");
}

#[test]
fn nothing_is_launched_when_no_package_is_needed() {
    assert_eq!(install_linux_dependencies(&vec![], false, &vec![true; 4]), Ok(None));
    assert_eq!(
        install_linux_dependencies(&vec![lacking("Unknown")], true, &vec![false; 4]),
        Ok(None)
    );
    assert_eq!(install_windows_dependencies(&vec![]), None);
    assert_eq!(install_windows_dependencies(&vec![lacking("GCC")]), None);
}

#[test]
fn windows_packages_are_installed_from_an_elevated_shell() {
    let plan = install_windows_dependencies(&vec![lacking("CMake"), lacking("7-Zip")]);
    assert_eq!(
        plan,
        Some(command(
            "powershell",
            &[
                "Start-Process",
                "powershell",
                "-Verb",
                "RunAs",
                "-ArgumentList",
                "\"-NoExit -Command winget source remove winget; winget source add winget https://mirrors.ustc.edu.cn/winget-source --trust-level trusted; winget install Kitware.CMake; winget install 7zip.7zip; Read-Host 'Press Enter to exit'\"",
            ]
        ))
    );
}

#[test]
fn fedora_is_recognised_whatever_the_case() {
    assert!(is_fedora("NAME=\"Fedora Linux\"\nID=fedora\n"));
    assert!(is_fedora("NAME=\"FEDORA\"\n"));
    assert!(is_fedora("PRETTY_NAME=\"Fedora 40\""));
    assert!(!is_fedora("NAME=\"Ubuntu\"\nID=ubuntu\nID_LIKE=debian\n"));
    assert!(!is_fedora(""));
    assert!(mentions_fedora("id=fedora"));
    assert!(!mentions_fedora("ID=Fedora"));
}

#[test]
fn the_whole_plan_depends_on_the_platform() {
    let satisfied = EnvReport {
        os: "linux".to_string(),
        dependencies: vec![present("Git")],
        all_satisfied: true,
    };
    for p in [Platform::Linux, Platform::Windows, Platform::Other] {
        assert_eq!(install_dependencies(&satisfied, p, "ID=fedora"), Ok(None));
    }
    let report = EnvReport {
        os: "x".to_string(),
        dependencies: vec![present("Git"), lacking("CMake")],
        all_satisfied: false,
    };
    assert_eq!(
        install_dependencies(&report, Platform::Other, ""),
        Err(InstallError::UnsupportedSystem)
    );
    let windows = install_dependencies(&report, Platform::Windows, "").unwrap().unwrap();
    assert_eq!(windows.program, "powershell");
    match install_dependencies(&report, Platform::Linux, "ID=Fedora") {
        Ok(Some(plan)) => {
            assert!(plan.args[3].starts_with("sudo dnf install -y cmake;"));
        }
        Ok(None) => panic!("a package is missing"),
        Err(e) => assert_eq!(e, InstallError::NoTerminal),
    }
    assert_eq!(probe_terminals().len(), 4);
}
