use pinpoint::keys::{click_action, presentation_key_action, speaker_key_action, Action};
use pinpoint::speaker::{
    format_time, monitor_index, monitor_is_builtin, monitor_name, position_label, prefer_audience_monitor, previews,
    swap_displays, DisplaySelection, MonitorInfo, Previews,
};

fn monitor(id: u64, name: &str, builtin: bool) -> MonitorInfo {
    MonitorInfo { id, name: name.into(), builtin }
}

#[test]
fn builtin_displays_are_recognised_by_connector() {
    assert!(monitor_is_builtin(Some("eDP-1")));
    assert!(monitor_is_builtin(Some("LVDS-1")));
    assert!(monitor_is_builtin(Some("DSI-2")));
    assert!(!monitor_is_builtin(Some("HDMI-A-1")));
    assert!(!monitor_is_builtin(None));
    assert_eq!(monitor_name(None, Some("Dell"), "unknown"), "Dell");
    assert_eq!(monitor_name(Some("DP-1"), Some("Dell"), "unknown"), "DP-1");
    assert_eq!(monitor_name(None, None, "Display"), "Display");
}

#[test]
fn preferring_an_audience_display_puts_the_presenter_on_the_laptop() {
    let monitors = vec![monitor(1, "HDMI-A-1", false), monitor(2, "DP-1", false), monitor(3, "eDP-1", true)];
    assert_eq!(
        prefer_audience_monitor(&monitors, "HDMI-A-1"),
        Some(DisplaySelection { presenter: Some(3), audience: Some(1) })
    );
    assert_eq!(
        prefer_audience_monitor(&monitors, "eDP-1"),
        Some(DisplaySelection { presenter: Some(1), audience: Some(3) })
    );
    assert_eq!(prefer_audience_monitor(&monitors, "VGA-1"), None);
    assert_eq!(
        prefer_audience_monitor(&vec![monitor(5, "DP-1", false)], "DP-1"),
        Some(DisplaySelection { presenter: None, audience: Some(5) })
    );
}

#[test]
fn swapping_displays_twice_restores_them() {
    let selection = DisplaySelection { presenter: Some(1), audience: Some(2) };
    let swapped = swap_displays(selection).expect("both displays chosen");
    assert_eq!(swapped, DisplaySelection { presenter: Some(2), audience: Some(1) });
    assert_eq!(swap_displays(swapped), Some(selection));
    assert_eq!(swap_displays(DisplaySelection { presenter: None, audience: Some(2) }), None);
    assert_eq!(monitor_index(&vec![4, 5, 6], Some(6)), Some(2));
    assert_eq!(monitor_index(&vec![4, 5, 6], Some(7)), None);
    assert_eq!(monitor_index(&vec![4, 5, 6], None), None);
}

#[test]
fn previews_and_clock() {
    assert_eq!(previews(0, 3), Previews { previous: None, current: 0, next: Some(1) });
    assert_eq!(previews(2, 3), Previews { previous: Some(1), current: 2, next: None });
    assert_eq!(position_label(1, 3), "Slide 2 of 3");
    assert_eq!(format_time(0), "0:00");
    assert_eq!(format_time(125), "2:05");
    assert_eq!(format_time(-61), "−1:01");
    assert_eq!(format_time(3600), "60:00");
}

#[test]
fn presentation_keys_match_the_documented_controls() {
    for key in ["Right", "Down", "Page_Down", "space"] {
        assert_eq!(presentation_key_action(key), Some(Action::Next));
    }
    for key in ["Left", "Up", "BackSpace", "Page_Up"] {
        assert_eq!(presentation_key_action(key), Some(Action::Previous));
    }
    assert_eq!(presentation_key_action("Home"), Some(Action::First));
    assert_eq!(presentation_key_action("H"), Some(Action::First));
    assert_eq!(presentation_key_action("End"), Some(Action::Last));
    assert_eq!(presentation_key_action("F"), Some(Action::ToggleFullscreen));
    assert_eq!(presentation_key_action("F11"), Some(Action::ToggleFullscreen));
    assert_eq!(presentation_key_action("b"), Some(Action::ToggleBlank));
    assert_eq!(presentation_key_action("Return"), Some(Action::RunCommand));
    assert_eq!(presentation_key_action("Escape"), Some(Action::Close));
    assert_eq!(presentation_key_action("q"), Some(Action::Close));
    assert_eq!(presentation_key_action("Tab"), None);
    assert_eq!(presentation_key_action("s"), None);
    assert_eq!(presentation_key_action("F1"), None);
}

#[test]
fn speaker_keys_add_display_and_window_controls() {
    assert_eq!(speaker_key_action("AudioNext"), Some(Action::Next));
    assert_eq!(speaker_key_action("Back"), Some(Action::Previous));
    assert_eq!(speaker_key_action("S"), Some(Action::SwapDisplays));
    assert_eq!(speaker_key_action("F1"), Some(Action::ToggleSpeakerWindow));
    assert_eq!(speaker_key_action("KP_Enter"), Some(Action::RunCommand));
    assert_eq!(speaker_key_action("Tab"), None);
    assert_eq!(click_action(1), Some(Action::Next));
    assert_eq!(click_action(3), Some(Action::Previous));
    assert_eq!(click_action(2), None);
}
