use zephyr_provision::overlay::activation_overlay;
use zephyr_provision::platform::Platform;

fn binding(name: &str, value: &str) -> (String, String) {
    (name.to_string(), value.to_string())
}

#[test]
fn activation_puts_the_installation_first_on_the_search_path() {
    let overlay = activation_overlay("/ws/.venv", Some("/usr/bin:/bin"), Platform::Linux);
    assert_eq!(
        overlay.vars,
        vec![
            binding("PATH", "/ws/.venv/bin:/usr/bin:/bin"),
            binding("VIRTUAL_ENV", "/ws/.venv"),
        ]
    );
}

#[test]
fn activation_on_windows_uses_its_separators_and_directory() {
    let overlay =
        activation_overlay("C:\\ws\\.venv", Some("C:\\Windows;C:\\Git\\bin"), Platform::Windows);
    assert_eq!(
        overlay.vars,
        vec![
            binding("PATH", "C:\\ws\\.venv\\Scripts;C:\\Windows;C:\\Git\\bin"),
            binding("VIRTUAL_ENV", "C:\\ws\\.venv"),
        ]
    );
}

#[test]
fn activation_without_a_search_path_sets_the_marker_only() {
    let overlay = activation_overlay("/ws/.venv", None, Platform::Linux);
    assert_eq!(overlay.vars, vec![binding("VIRTUAL_ENV", "/ws/.venv")]);
}

#[test]
fn activation_with_an_empty_search_path_still_prefixes_it() {
    let overlay = activation_overlay("/ws/.venv", Some(""), Platform::Other);
    assert_eq!(
        overlay.vars,
        vec![binding("PATH", "/ws/.venv/bin:"), binding("VIRTUAL_ENV", "/ws/.venv")]
    );
}
