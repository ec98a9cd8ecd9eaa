use zephyr_provision::cmake::{cmake_lists_path, detect_project_name, name_in_line, DetectError};
use zephyr_provision::platform::Platform;

fn file(lines: &[&str]) -> Vec<String> {
    lines.iter().map(|s| s.to_string()).collect()
}

#[test]
fn the_build_description_lies_two_levels_below_the_workspace() {
    assert_eq!(cmake_lists_path("/ws", Platform::Linux), "/ws/app/app/CMakeLists.txt");
    assert_eq!(cmake_lists_path("/ws/", Platform::Linux), "/ws/app/app/CMakeLists.txt");
    assert_eq!(cmake_lists_path("C:\\ws", Platform::Windows), "C:\\ws\\app\\app\\CMakeLists.txt");
}

#[test]
fn the_project_name_is_the_first_word_of_the_directive() {
    let lines = file(&[
        "cmake_minimum_required(VERSION 3.20.0)",
        "find_package(Zephyr REQUIRED HINTS $ENV{ZEPHYR_BASE})",
        "  project(my_app VERSION 1.0 LANGUAGES C)",
        "project(second)",
    ]);
    assert_eq!(detect_project_name(Some(&lines)), Ok("my_app".to_string()));
}

#[test]
fn the_directive_is_found_whatever_its_case() {
    assert_eq!(detect_project_name(Some(&file(&["PROJECT(Blinky)"]))), Ok("Blinky".to_string()));
    assert_eq!(detect_project_name(Some(&file(&["Project( spaced\tout )"]))), Ok("spaced".to_string()));
    assert_eq!(detect_project_name(Some(&file(&["project()"]))), Ok("".to_string()));
    assert_eq!(detect_project_name(Some(&file(&["project(a(b)c) # x)"]))), Ok("a(b)c)".to_string()));
}

#[test]
fn without_a_directive_or_a_file_there_is_no_name() {
    let lines = file(&["# project(commented)", "add_subdirectory(src)", "project (spaced)", "project(open"]);
    assert_eq!(detect_project_name(Some(&lines)), Err(DetectError::NoDirective));
    assert_eq!(detect_project_name(Some(&vec![])), Err(DetectError::NoDirective));
    assert_eq!(detect_project_name(None), Err(DetectError::FileNotFound));
    assert_eq!(
        DetectError::FileNotFound.message(),
        "CMakeLists.txt not found in app/app/ directory"
    );
    assert_eq!(
        DetectError::NoDirective.message(),
        "No project() directive found in CMakeLists.txt"
    );
}

#[test]
fn a_line_is_read_against_its_lowered_form() {
    assert_eq!(name_in_line("PROJECT(X y)", "project(x y)"), Some("X".to_string()));
    assert_eq!(name_in_line("PROJECT(X y)", "PROJECT(X y)"), None);
    assert_eq!(name_in_line("project(x)", "other"), None);
    assert_eq!(name_in_line(") (", "project("), None);
    assert_eq!(name_in_line("no parens", "project("), None);
}
