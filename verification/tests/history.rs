use zephyr_provision::config_manager::{
    add_project_to_history, add_recent_project, create_project, get_project_history,
    open_project, remove_project_from_history, set_venv_path, set_zephyr_path, PlanError,
    UserConfig,
};
use zephyr_provision::history::{
    find_path, find_project, move_to_front, register, sort_newest_first, ProjectMetadata,
    MAX_PROJECTS,
};
use zephyr_provision::platform::Platform;

fn project(path: &str, name: &str, at: u64) -> ProjectMetadata {
    ProjectMetadata {
        path: path.to_string(),
        name: name.to_string(),
        last_opened: at,
        project_type: None,
        zephyr_version: None,
    }
}

fn paths_of(list: &[ProjectMetadata]) -> Vec<&str> {
    list.iter().map(|p| p.path.as_str()).collect()
}

#[test]
fn a_fresh_configuration_is_blank() {
    let config = UserConfig::default();
    assert_eq!(config.zephyr_base, None);
    assert_eq!(config.venv_path, None);
    assert!(config.recent_projects.is_empty());
    assert!(config.project_history.is_empty());
}

#[test]
fn paths_are_recorded_without_touching_the_rest() {
    let mut config = UserConfig::default();
    add_recent_project(&mut config, "/p/one".to_string());
    set_zephyr_path(&mut config, "/opt/zephyr".to_string());
    set_venv_path(&mut config, "/opt/venv".to_string());
    assert_eq!(config.zephyr_base, Some("/opt/zephyr".to_string()));
    assert_eq!(config.venv_path, Some("/opt/venv".to_string()));
    assert_eq!(config.recent_projects, vec!["/p/one".to_string()]);
    set_venv_path(&mut config, "/other".to_string());
    assert_eq!(config.venv_path, Some("/other".to_string()));
    assert_eq!(config.zephyr_base, Some("/opt/zephyr".to_string()));
}

#[test]
fn recent_paths_hold_the_ten_most_recent_newest_first() {
    let mut config = UserConfig::default();
    config.recent_projects = vec!["/old/a".to_string(), "/old/b".to_string()];
    for i in 1..=13 {
        add_recent_project(&mut config, format!("/p/{}", i));
    }
    let expected: Vec<String> = (4..=13).rev().map(|i| format!("/p/{}", i)).collect();
    assert_eq!(config.recent_projects, expected);
    assert_eq!(config.recent_projects.len(), MAX_PROJECTS);
}

#[test]
fn touching_a_recent_path_again_moves_it_to_the_front() {
    let mut config = UserConfig::default();
    for p in ["/a", "/b", "/c"] {
        add_recent_project(&mut config, p.to_string());
    }
    add_recent_project(&mut config, "/a".to_string());
    assert_eq!(config.recent_projects, vec!["/a", "/c", "/b"]);
    add_recent_project(&mut config, "/a".to_string());
    assert_eq!(config.recent_projects, vec!["/a", "/c", "/b"]);
    let mut list = vec!["/x".to_string(), "/y".to_string(), "/x".to_string()];
    assert_eq!(find_path(&list, &"/x".to_string()), Some(0));
    assert_eq!(find_path(&list, &"/z".to_string()), None);
    move_to_front(&mut list, "/y".to_string());
    assert_eq!(list, vec!["/y", "/x", "/x"]);
}

#[test]
fn history_holds_the_ten_most_recent_projects_newest_first() {
    let mut config = UserConfig::default();
    config.project_history = vec![project("/old/a", "a", 5), project("/old/b", "b", 9)];
    for i in 1..=12u64 {
        add_project_to_history(&mut config, format!("/p/{}", i), None, 100 + i, Platform::Linux);
    }
    let expected: Vec<String> = (3..=12).rev().map(|i| format!("/p/{}", i)).collect();
    assert_eq!(paths_of(&config.project_history), expected);
    assert_eq!(config.project_history.len(), 10);
    assert_eq!(config.project_history[0], project("/p/12", "12", 112));
    assert_eq!(get_project_history(&config), config.project_history);
}

#[test]
fn a_new_project_is_named_after_its_directory_unless_a_name_is_given() {
    let mut config = UserConfig::default();
    add_project_to_history(&mut config, "/home/u/blinky/".to_string(), None, 1, Platform::Linux);
    add_project_to_history(
        &mut config,
        "/home/u/other".to_string(),
        Some("Given".to_string()),
        2,
        Platform::Linux,
    );
    add_project_to_history(&mut config, "/".to_string(), None, 3, Platform::Linux);
    assert_eq!(
        config.project_history,
        vec![project("/", "/", 3), project("/home/u/other", "Given", 2), project("/home/u/blinky/", "blinky", 1)]
    );
}

#[test]
fn touching_a_listed_project_updates_its_time_and_keeps_its_name() {
    let mut config = UserConfig::default();
    add_project_to_history(&mut config, "/a".to_string(), Some("A".to_string()), 10, Platform::Linux);
    add_project_to_history(&mut config, "/b".to_string(), Some("B".to_string()), 20, Platform::Linux);
    add_project_to_history(&mut config, "/a".to_string(), Some("Renamed".to_string()), 30, Platform::Linux);
    assert_eq!(config.project_history, vec![project("/a", "A", 30), project("/b", "B", 20)]);
}

#[test]
fn projects_of_the_same_age_keep_their_order() {
    let list = vec![
        project("/a", "a", 5),
        project("/b", "b", 7),
        project("/c", "c", 5),
        project("/d", "d", 7),
        project("/e", "e", 1),
    ];
    assert_eq!(paths_of(&sort_newest_first(&list)), vec!["/b", "/d", "/a", "/c", "/e"]);
    assert_eq!(sort_newest_first(&vec![]), vec![]);
}

#[test]
fn a_new_project_of_the_same_second_is_listed_first() {
    let mut list: Vec<ProjectMetadata> =
        (0..10).map(|i| project(&format!("/p/{}", i), "n", 50)).collect();
    register(&mut list, project("/late", "late", 50), false);
    assert_eq!(list.len(), 10);
    assert_eq!(find_project(&list, &"/late".to_string()), Some(0));
    assert_eq!(find_project(&list, &"/p/9".to_string()), None);
    assert_eq!(
        paths_of(&list),
        vec!["/late", "/p/0", "/p/1", "/p/2", "/p/3", "/p/4", "/p/5", "/p/6", "/p/7", "/p/8"]
    );
}

#[test]
fn touches_within_one_second_keep_the_ten_most_recent_newest_first() {
    let mut config = UserConfig::default();
    for i in 1..=13 {
        add_project_to_history(&mut config, format!("/p/{}", i), None, 1000, Platform::Linux);
    }
    let expected: Vec<String> = (4..=13).rev().map(|i| format!("/p/{}", i)).collect();
    assert_eq!(paths_of(&config.project_history), expected);
}

#[test]
fn a_project_touched_again_in_the_same_second_moves_to_the_front() {
    let mut config = UserConfig::default();
    config.project_history = vec![project("/a", "A", 7), project("/b", "B", 7), project("/c", "C", 3)];
    add_project_to_history(&mut config, "/b".to_string(), None, 7, Platform::Linux);
    assert_eq!(
        config.project_history,
        vec![project("/b", "B", 7), project("/a", "A", 7), project("/c", "C", 3)]
    );
    add_project_to_history(&mut config, "/c".to_string(), None, 7, Platform::Linux);
    assert_eq!(
        config.project_history,
        vec![project("/c", "C", 7), project("/b", "B", 7), project("/a", "A", 7)]
    );
}

#[test]
fn a_touch_leads_the_entries_of_its_own_time_behind_newer_ones() {
    let mut list = vec![
        project("/x", "x", 9),
        project("/y", "y", 5),
        project("/z", "z", 5),
        project("/w", "w", 2),
    ];
    register(&mut list, project("/new", "new", 5), false);
    assert_eq!(paths_of(&list), vec!["/x", "/new", "/y", "/z", "/w"]);
    register(&mut list, project("/w", "ignored", 5), false);
    assert_eq!(paths_of(&list), vec!["/x", "/w", "/new", "/y", "/z"]);
    assert_eq!(list[1], project("/w", "w", 5));
}

#[test]
fn the_touched_project_is_never_the_one_that_is_cut() {
    let mut list: Vec<ProjectMetadata> =
        (0..10).map(|i| project(&format!("/p/{}", i), "n", 100 - i as u64)).collect();
    register(&mut list, project("/early", "early", 1), false);
    assert_eq!(list.len(), 10);
    assert_eq!(
        paths_of(&list),
        vec!["/p/0", "/p/1", "/p/2", "/p/3", "/p/4", "/p/5", "/p/6", "/p/7", "/p/8", "/early"]
    );
    assert!(list.windows(2).all(|w| w[0].last_opened >= w[1].last_opened));
    register(&mut list, project("/p/3", "n", 0), false);
    assert_eq!(list.len(), 10);
    assert_eq!(find_project(&list, &"/p/3".to_string()), Some(9));
    assert_eq!(find_project(&list, &"/early".to_string()), Some(8));
}

#[test]
fn an_unordered_history_is_put_in_order_by_a_touch() {
    let mut list = vec![project("/a", "a", 1), project("/b", "b", 9), project("/c", "c", 4)];
    register(&mut list, project("/d", "d", 4), false);
    assert_eq!(paths_of(&list), vec!["/b", "/d", "/c", "/a"]);
}

#[test]
fn creating_a_project_keeps_its_registration_in_a_full_history_of_the_same_second() {
    let mut config = UserConfig::default();
    config.project_history = (0..10).map(|i| project(&format!("/p/{}", i), "n", 77)).collect();
    let r = create_project(
        &mut config,
        "demo".to_string(),
        "/home/u/demo".to_string(),
        false,
        77,
        Platform::Linux,
    );
    assert_eq!(r, Err(PlanError::VenvNotConfigured));
    assert_eq!(config.project_history.len(), 10);
    assert_eq!(config.project_history[0].path, "/home/u/demo");
    assert_eq!(config.project_history[0].name, "demo");
    assert_eq!(config.project_history[0].project_type, Some("zephyr".to_string()));
    assert_eq!(config.recent_projects, vec!["/home/u/demo"]);
}

#[test]
fn removing_a_project_leaves_the_others_in_order() {
    let mut config = UserConfig::default();
    config.project_history =
        vec![project("/a", "a", 3), project("/b", "b", 2), project("/a", "again", 1)];
    config.recent_projects = vec!["/a".to_string()];
    remove_project_from_history(&mut config, "/a".to_string());
    assert_eq!(config.project_history, vec![project("/b", "b", 2)]);
    assert_eq!(config.recent_projects, vec!["/a".to_string()]);
    remove_project_from_history(&mut config, "/missing".to_string());
    assert_eq!(config.project_history, vec![project("/b", "b", 2)]);
}

#[test]
fn opening_a_project_renames_it_and_moves_it_to_the_front() {
    let mut config = UserConfig::default();
    config.project_history = vec![project("/a", "old", 3), project("/b", "b", 2)];
    config.recent_projects = vec!["/b".to_string(), "/a".to_string()];
    open_project(&mut config, "/a".to_string(), "new".to_string(), 9);
    assert_eq!(config.project_history, vec![project("/a", "new", 9), project("/b", "b", 2)]);
    assert_eq!(config.recent_projects, vec!["/a", "/b"]);
    open_project(&mut config, "/c".to_string(), "c".to_string(), 10);
    let mut fresh = project("/c", "c", 10);
    fresh.project_type = Some("zephyr".to_string());
    assert_eq!(config.project_history[0], fresh);
    assert_eq!(config.recent_projects, vec!["/c", "/a", "/b"]);
}

#[test]
fn creating_a_project_registers_it_even_when_no_plan_can_be_made() {
    let mut config = UserConfig::default();
    let r = create_project(
        &mut config,
        "demo".to_string(),
        "/home/u/demo".to_string(),
        false,
        77,
        Platform::Linux,
    );
    assert_eq!(r, Err(PlanError::VenvNotConfigured));
    let mut listed = project("/home/u/demo", "demo", 77);
    listed.project_type = Some("zephyr".to_string());
    assert_eq!(config.project_history, vec![listed.clone()]);
    assert_eq!(config.recent_projects, vec!["/home/u/demo"]);

    set_venv_path(&mut config, "/opt/venv".to_string());
    let r = create_project(
        &mut config,
        "other name".to_string(),
        "/home/u/demo".to_string(),
        false,
        78,
        Platform::Linux,
    );
    assert!(r.is_ok());
    listed.last_opened = 78;
    assert_eq!(config.project_history, vec![listed]);
}

#[test]
fn opening_or_creating_a_project_keeps_the_recent_paths_within_ten() {
    let mut config = UserConfig::default();
    config.recent_projects = (0..10).map(|i| format!("/p/{}", i)).collect();
    open_project(&mut config, "/new".to_string(), "n".to_string(), 1);
    assert_eq!(config.recent_projects.len(), 10);
    assert_eq!(config.recent_projects[0], "/new");
    assert_eq!(config.recent_projects[9], "/p/8");
    let _ = create_project(
        &mut config,
        "c".to_string(),
        "/created".to_string(),
        false,
        2,
        Platform::Linux,
    );
    assert_eq!(config.recent_projects.len(), 10);
    assert_eq!(config.recent_projects[0], "/created");
    assert_eq!(config.recent_projects[1], "/new");
    open_project(&mut config, "/p/3".to_string(), "n".to_string(), 3);
    assert_eq!(config.recent_projects.len(), 10);
    assert_eq!(config.recent_projects[0], "/p/3");
    assert_eq!(config.recent_projects.iter().filter(|p| p.as_str() == "/p/3").count(), 1);
}
