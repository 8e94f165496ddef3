use pinpoint::check::{
    asset_errors_report, background_error, diagnostics_error, sorted_unique, transition_error, transition_file,
    Resolution, TransitionCheck,
};
use pinpoint::pdf::{rgba_to_argb32, temporary_name};

#[test]
fn temporary_names_carry_pid_and_hex_serial() {
    assert_eq!(temporary_name(4242, 0, "talk.pdf"), ".pinpoint-pdf-4242-00000000-talk.pdf");
    assert_eq!(temporary_name(1, 1023, "x.pdf"), ".pinpoint-pdf-1-000003ff-x.pdf");
    assert_eq!(temporary_name(1, u32::MAX, "x.pdf"), ".pinpoint-pdf-1-ffffffff-x.pdf");
}

#[test]
fn rgba_frames_become_little_endian_argb() {
    let source = vec![1, 2, 3, 4, 5, 6, 7, 8, 99, 99, 9, 10, 11, 12, 13, 14, 15, 16, 99, 99];
    let pixels = rgba_to_argb32(2, 2, &source, 10, 12).expect("valid frame");
    assert_eq!(pixels, vec![3, 2, 1, 4, 7, 6, 5, 8, 0, 0, 0, 0, 11, 10, 9, 12, 15, 14, 13, 16, 0, 0, 0, 0]);
    assert_eq!(rgba_to_argb32(0, 2, &source, 10, 12).unwrap_err(), "decoded frame has invalid dimensions");
    assert_eq!(rgba_to_argb32(2, 2, &source, 7, 12).unwrap_err(), "decoded frame has an unsafe RGBA layout");
    assert_eq!(rgba_to_argb32(2, 3, &source, 10, 12).unwrap_err(), "decoded frame has an unsafe RGBA layout");
}

#[test]
fn check_messages() {
    assert_eq!(diagnostics_error(&vec![]), None);
    assert_eq!(
        diagnostics_error(&vec!["a".to_string(), "b".to_string()]),
        Some("source diagnostics: a; b".to_string())
    );
    assert_eq!(transition_file("swoosh"), "swoosh.json");
    assert_eq!(transition_file("swoosh.json"), "swoosh.json");
    assert_eq!(background_error("a.png", Resolution::Present), None);
    assert_eq!(background_error("a.png", Resolution::Missing), Some("missing background asset: a.png".to_string()));
    assert_eq!(
        background_error("../a.png", Resolution::Outside),
        Some("outside-folder or unsupported background asset: ../a.png".to_string())
    );
    assert_eq!(
        transition_error("s.json", &TransitionCheck::Invalid("bad".into())),
        Some("invalid transition s.json: bad".to_string())
    );
    assert_eq!(
        transition_error("s.json", &TransitionCheck::Outside),
        Some("outside-folder or unsupported transition asset: s.json".to_string())
    );
    assert_eq!(transition_error("s.json", &TransitionCheck::Valid), None);
}

#[test]
fn asset_error_reports_are_sorted_deduplicated_and_bounded() {
    let errors: Vec<String> = vec!["b".into(), "a".into(), "b".into(), "c".into()];
    assert_eq!(sorted_unique(&errors), vec!["a".to_string(), "b".to_string(), "c".to_string()]);
    assert_eq!(asset_errors_report(&errors), Some("a\nb\nc".to_string()));
    assert_eq!(asset_errors_report(&vec![]), None);
    let many: Vec<String> = (0..25).map(|i| format!("missing background asset: {i:02}.png")).collect();
    let report = asset_errors_report(&many).expect("report");
    assert!(report.starts_with("missing background asset: 00.png\n"));
    assert!(report.ends_with("missing background asset: 19.png\n…and 5 more asset errors"));
}
