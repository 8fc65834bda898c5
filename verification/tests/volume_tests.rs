use vibebar::command::Scroll;
use vibebar::volume::{
    click_command, connect_step, device_to_query, initial_label, is_good, is_loud,
    is_readable_report, label, report_notes, scroll_command, should_refresh, tooltip,
    volume_percent, ConnectStep, ContextState, Facility,
};

#[test]
fn percent_rounds_to_nearest() {
    assert_eq!(volume_percent(0), 0);
    assert_eq!(volume_percent(65536), 100);
    assert_eq!(volume_percent(32768), 50);
    assert_eq!(volume_percent(327), 0);
    assert_eq!(volume_percent(328), 1);
    assert_eq!(volume_percent(98304), 150);
    assert_eq!(volume_percent(u32::MAX), 6553600);
}

#[test]
fn percent_agrees_with_float_rounding() {
    let mut raw: u32 = 0;
    while raw < 200_000 {
        let f = (raw as f64 / 65536.0 * 100.0).round() as i32;
        assert_eq!(volume_percent(raw), f, "{}", raw);
        raw += 7;
    }
    for raw in [u32::MAX, u32::MAX - 1, 0x7fff_ffff, 1 << 31] {
        let f = (raw as f64 / 65536.0 * 100.0).round() as i32;
        assert_eq!(volume_percent(raw), f, "{}", raw);
    }
}

#[test]
fn loudness_warning_above_100() {
    assert!(!is_loud(100));
    assert!(is_loud(101));
    assert!(!is_loud(0));
}

#[test]
fn volume_labels() {
    assert_eq!(label(false, 45), "\u{f028}  45%");
    assert_eq!(label(true, 45), "\u{f6a9}  45%");
    assert_eq!(initial_label(), "\u{f028} ...%");
}

#[test]
fn volume_commands() {
    let up = scroll_command(Scroll::Up);
    assert_eq!(up.program, "pactl");
    assert_eq!(up.args, ["set-sink-volume", "@DEFAULT_SINK@", "+5%"]);
    assert_eq!(scroll_command(Scroll::Down).args, ["set-sink-volume", "@DEFAULT_SINK@", "-5%"]);
    let c = click_command();
    assert_eq!(c.program, "pactl");
    assert_eq!(c.args, ["set-sink-mute", "@DEFAULT_SINK@", "toggle"]);
}

#[test]
fn connection_steps() {
    assert!(connect_step(ContextState::Ready) == ConnectStep::Proceed);
    assert!(connect_step(ContextState::Connecting) == ConnectStep::Wait);
    assert!(connect_step(ContextState::Authorizing) == ConnectStep::Wait);
    assert!(connect_step(ContextState::SettingName) == ConnectStep::Wait);
    assert!(connect_step(ContextState::Failed) == ConnectStep::GiveUp);
    assert!(connect_step(ContextState::Terminated) == ConnectStep::GiveUp);
    assert!(connect_step(ContextState::Unconnected) == ConnectStep::GiveUp);
    assert!(is_good(ContextState::Ready));
    assert!(!is_good(ContextState::Unconnected));
}

#[test]
fn refresh_on_sink_and_server_changes() {
    assert!(should_refresh(Some(Facility::Sink)));
    assert!(should_refresh(Some(Facility::Server)));
    assert!(!should_refresh(Some(Facility::Source)));
    assert!(!should_refresh(Some(Facility::Card)));
    assert!(!should_refresh(None));
}

#[test]
fn bluetooth_device_is_queried() {
    assert_eq!(device_to_query(Some("bluez5"), Some("AA:BB")), Some("AA:BB"));
    assert_eq!(device_to_query(Some("bluez5"), None), None);
    assert_eq!(device_to_query(Some("alsa"), Some("hw:0")), None);
    assert_eq!(device_to_query(None, Some("x")), None);
}

const REPORT: &str = "Device AA:BB (public)\n\tName: Headset\n\tBattery Percentage: 0x50 (80)\n\tConnected: yes\n";

#[test]
fn battery_notes_from_report() {
    assert!(is_readable_report(REPORT));
    assert_eq!(report_notes(REPORT), "\nBattery: 80%");
    assert_eq!(report_notes("no battery here\n"), "");
    assert_eq!(report_notes(""), "");
    assert_eq!(report_notes("Battery Percentage: (1)\r\nBattery Percentage: (2)"), "\nBattery: 1%\nBattery: 2%");
    assert_eq!(report_notes("Battery Percentage: 80"), "");
    assert_eq!(report_notes("Battery Percentage: ()"), "\nBattery: %");
}

#[test]
fn unreadable_report() {
    assert!(!is_readable_report("x\n)( Battery Percentage:\n"));
    assert!(is_readable_report(") no marker ("));
}

#[test]
fn tooltips() {
    assert_eq!(tooltip(Some("Speakers"), Some("alsa"), None, None), "Speakers");
    assert_eq!(tooltip(None, None, None, None), "Unknown Sink");
    assert_eq!(
        tooltip(Some("Headset"), Some("bluez5"), Some("aac"), Some(REPORT)),
        "Headset\n<span size='small'><i>Bluetooth Device</i>\nCodec: aac\nBattery: 80%</span>"
    );
    assert_eq!(
        tooltip(Some("Headset"), Some("bluez5"), None, None),
        "Headset\n<span size='small'><i>Bluetooth Device</i></span>"
    );
}

#[test]
fn louder_never_shows_less() {
    let mut prev = volume_percent(0);
    let mut raw: u32 = 0;
    while raw < 300_000 {
        let p = volume_percent(raw);
        assert!(p >= prev);
        prev = p;
        raw += 13;
    }
}
