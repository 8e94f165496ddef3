use pinpoint::deck::{BackgroundType, Slide};
use pinpoint::setup::{
    audience_monitor_name, audience_monitor_names, audience_monitor_selection, presentation_details,
    select_presentations, FolderEntry,
};

fn slide(kind: BackgroundType, notes: Option<&str>) -> Slide {
    let mut slide = Slide::with_transition("");
    slide.background_type = kind;
    slide.speaker_notes = notes.map(str::to_owned);
    slide
}

#[test]
fn parsed_details_match_the_c_setup_summary() {
    // "-- [photo.jpg]\nFirst\n#Remember this\n-- [clip.mp4]\nSecond\n-- [logo.svg]\nThird\n"
    let slides = vec![
        slide(BackgroundType::Image, Some("Remember this")),
        slide(BackgroundType::Video, None),
        slide(BackgroundType::Svg, None),
    ];
    assert_eq!(presentation_details(&slides), "3 slides · 2 visual assets · 1 video · speaker notes");
}

#[test]
fn details_count_in_the_singular() {
    assert_eq!(presentation_details(&vec![slide(BackgroundType::Unset, None)]), "1 slide");
    assert_eq!(presentation_details(&vec![]), "0 slides");
    assert_eq!(
        presentation_details(&vec![slide(BackgroundType::Svg, Some("")), slide(BackgroundType::Video, None)]),
        "2 slides · 1 visual asset · 1 video"
    );
}

#[test]
fn audience_monitor_selection_keeps_automatic_as_the_default() {
    let names = vec!["Automatic".into(), "eDP-1".into(), "HDMI-A-1".into()];
    assert_eq!(audience_monitor_name(&names, 0), None);
    assert_eq!(audience_monitor_name(&names, 1), Some("eDP-1".into()));
    assert_eq!(audience_monitor_name(&names, 3), None);
}

#[test]
fn audience_monitor_refresh_preserves_a_connected_display_or_falls_back() {
    let connected = vec!["Automatic".into(), "eDP-1".into(), "HDMI-A-1".into()];
    assert_eq!(audience_monitor_selection(Some("HDMI-A-1"), &connected), 2);

    let disconnected = vec!["Automatic".into(), "eDP-1".into()];
    assert_eq!(audience_monitor_selection(Some("HDMI-A-1"), &disconnected), 0);
}

#[test]
fn monitor_choices_start_with_automatic() {
    let names = audience_monitor_names(&vec!["eDP-1".to_string(), "DP-2".to_string()]);
    assert_eq!(names, vec!["Automatic".to_string(), "eDP-1".to_string(), "DP-2".to_string()]);
    assert_eq!(audience_monitor_selection(None, &names), 0);
}

fn entry(name: &str, is_file: bool) -> FolderEntry {
    FolderEntry { name: name.into(), is_file }
}

#[test]
fn folder_contract_is_sorted_and_bounded_to_regular_pin_files() {
    let entries = vec![entry("b.pin", true), entry("a.pin", true), entry("ignored.txt", true), entry("directory.pin", false)];
    let files = select_presentations("/tmp/deck", &entries).expect("setup folder contract");
    assert_eq!(files.len(), 2);
    assert_eq!(files, vec!["a.pin".to_string(), "b.pin".to_string()]);
    assert_eq!(entries.len() - files.len() - 1, 1);
}

#[test]
fn folder_limits_and_extension_rules() {
    let entries = vec![entry(".pin", true), entry("..pin", true), entry("x.PIN", true), entry("Z.pin", true)];
    assert_eq!(select_presentations("f", &entries).unwrap(), vec!["..pin".to_string(), "Z.pin".to_string()]);
    let crowded: Vec<FolderEntry> = (0..10_001).map(|i| entry(&format!("{i}.txt"), true)).collect();
    assert_eq!(select_presentations("f", &crowded).unwrap_err(), "f contains too many entries to inspect safely");
    let decks: Vec<FolderEntry> = (0..1_001).map(|i| entry(&format!("{i}.pin"), true)).collect();
    assert_eq!(select_presentations("f", &decks).unwrap_err(), "f contains more than 1000 presentation files");
}
