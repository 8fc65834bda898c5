use vibebar::brightness::{click_command, display_is_off, initial_label, label, scroll_command};
use vibebar::command::Scroll;

fn args(c: &vibebar::command::CommandLine) -> Vec<&str> {
    c.args.iter().map(|a| a.as_str()).collect()
}

#[test]
fn scroll_changes_brightness_by_five_percent() {
    let up = scroll_command(Scroll::Up);
    assert_eq!(up.program, "brightnessctl");
    assert_eq!(args(&up), ["set", "5%+"]);
    let down = scroll_command(Scroll::Down);
    assert_eq!(args(&down), ["set", "5%-"]);
}

#[test]
fn single_click_toggles_the_panel() {
    let c = click_command(1).unwrap();
    assert_eq!(c.program, "swaymsg");
    assert_eq!(args(&c), ["output", "eDP-1", "toggle"]);
    assert!(click_command(2).is_none());
    assert!(click_command(0).is_none());
}

#[test]
fn panel_state_from_outputs() {
    let on = br#"[{"name": "HDMI-A-1", "active": false}, {"name": "eDP-1", "active": true, "power": true}]"#;
    assert!(!display_is_off(Some(on)));
    let inactive = br#"[{"name": "eDP-1", "active": false, "power": true}]"#;
    assert!(display_is_off(Some(inactive)));
    let unpowered = br#"[{"name": "eDP-1", "active": true, "power": false}]"#;
    assert!(display_is_off(Some(unpowered)));
    let first_counts = br#"[{"name": "eDP-1", "active": true}, {"name": "eDP-1", "active": false}]"#;
    assert!(!display_is_off(Some(first_counts)));
    let not_bool = br#"[{"name": "eDP-1", "active": "false"}]"#;
    assert!(!display_is_off(Some(not_bool)));
}

#[test]
fn no_reading_means_on() {
    assert!(!display_is_off(None));
    assert!(!display_is_off(Some(b"garbage")));
    assert!(!display_is_off(Some(br#"{"name": "eDP-1", "active": false}"#)));
    assert!(!display_is_off(Some(b"[]")));
}

#[test]
fn brightness_labels() {
    assert_eq!(label(None), "\u{f185}  off");
    assert_eq!(label(Some(42)), "\u{f185}  42%");
    assert_eq!(label(Some(0)), "\u{f185}  0%");
    assert_eq!(initial_label(), "\u{f185}  ...%");
}
