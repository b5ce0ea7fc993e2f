use ai_terminal::capability::{display_capabilities, is_screenshot_command};

#[test]
fn screenshot_tools_are_detected() {
    assert!(is_screenshot_command("scrot shot.png"));
    assert!(is_screenshot_command("gnome-screenshot -f out.png"));
    assert!(is_screenshot_command("import -window root shot.png"));
    assert!(is_screenshot_command("screencapture out.png"));
}

#[test]
fn screenshot_detection_ignores_case() {
    assert!(is_screenshot_command("SCROT x.png"));
    assert!(is_screenshot_command("Gnome-Screenshot"));
}

#[test]
fn ordinary_commands_are_not_screenshots() {
    assert!(!is_screenshot_command("ls -la"));
    assert!(!is_screenshot_command("echo hello"));
}

#[test]
fn capability_triple_from_environment_markers() {
    assert_eq!(display_capabilities(false, false), (false, false, false));
    assert_eq!(display_capabilities(true, false), (true, false, true));
    assert_eq!(display_capabilities(false, true), (true, true, false));
    // Wayland wins over X11 when both markers are present.
    assert_eq!(display_capabilities(true, true), (true, true, false));
}
