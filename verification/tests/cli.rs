use pinpoint::cli::{parse_options_from, AssetAccess, CliRequest, Orientation, PageSize};

fn arguments(values: &[&str]) -> Vec<String> {
    values.iter().map(|value| value.to_string()).collect()
}

#[test]
fn long_options_accept_separate_values_like_the_c_cli() {
    let options = parse_options_from(&arguments(&[
        "--output",
        "talk.pdf",
        "--pdf-page-size",
        "letter",
        "--pdf-orientation",
        "portrait",
        "talk.pin",
    ]))
    .expect("valid options")
    .run_options()
    .expect("run options");

    assert_eq!(options.output, Some("talk.pdf".to_string()));
    assert_eq!(options.presentation, Some("talk.pin".to_string()));
    assert!(matches!(options.pdf_page_size, PageSize::Letter));
    assert!(matches!(options.pdf_orientation, Orientation::Portrait));
}

#[test]
fn format_assistance_accepts_separate_values() {
    let options = parse_options_from(&arguments(&[
        "--format-assist",
        "completions",
        "--complete-position",
        "2:3",
        "talk.pin",
    ]))
    .expect("valid options")
    .run_options()
    .expect("run options");

    assert_eq!(options.format_assist.as_deref(), Some("completions"));
    assert_eq!(options.complete_position.as_deref(), Some("2:3"));
}

#[test]
fn separate_value_options_report_missing_arguments() {
    assert!(parse_options_from(&arguments(&["--output"]))
        .expect_err("missing output path")
        .contains("requires a filename"));
    assert!(parse_options_from(&arguments(&["--format-assist"]))
        .expect_err("missing format-assist kind")
        .contains("requires a kind"));
}

#[test]
fn external_asset_compatibility_is_explicit_and_requires_a_deck() {
    let options = parse_options_from(&arguments(&["--allow-external-assets", "talk.pin"]))
        .expect("valid compatibility options")
        .run_options()
        .expect("run options");
    assert_eq!(options.asset_access(), AssetAccess::Compatible);
    assert!(parse_options_from(&arguments(&["--allow-external-assets"]))
        .expect_err("compatibility mode without a deck")
        .contains("requires a presentation"));
}

#[test]
fn help_and_version_stop_reading() {
    assert!(matches!(
        parse_options_from(&arguments(&["--help", "--bogus"])),
        Ok(CliRequest::Help)
    ));
    assert!(matches!(
        parse_options_from(&arguments(&["-h"])),
        Ok(CliRequest::Help)
    ));
    assert!(matches!(
        parse_options_from(&arguments(&["--version"])),
        Ok(CliRequest::Version)
    ));
}

#[test]
fn rehearsal_implies_speaker_mode() {
    let options = parse_options_from(&arguments(&["-r", "talk.pin"]))
        .unwrap()
        .run_options()
        .unwrap();
    assert!(options.rehearse);
    assert!(options.speaker_mode);
    assert_eq!(options.asset_access(), AssetAccess::Confined);
}

#[test]
fn equals_forms_and_capture_values_are_read() {
    let options = parse_options_from(&arguments(&[
        "--output=slides.pdf",
        "--pdf-page-size=a4",
        "--pdf-orientation=landscape",
        "--pdf-no-speaker-notes",
        "deck.pin",
    ]))
    .unwrap()
    .run_options()
    .unwrap();
    assert_eq!(options.output.as_deref(), Some("slides.pdf"));
    assert!(!options.pdf_speaker_notes);
    let options = parse_options_from(&arguments(&[
        "--capture-size=+640x480",
        "--capture-slide=3",
        "--capture-page-curl=curl.png",
    ]))
    .unwrap()
    .run_options()
    .unwrap();
    assert_eq!(options.capture.width, 640);
    assert_eq!(options.capture.height, 480);
    assert_eq!(options.capture.slide, 3);
    assert_eq!(options.capture.page_curl.as_deref(), Some("curl.png"));
}

#[test]
fn bad_values_and_combinations_are_refused() {
    let error = |values: &[&str]| parse_options_from(&arguments(values)).unwrap_err();
    assert_eq!(error(&["--capture-size=640"]), "--capture-size must be WIDTHxHEIGHT");
    assert_eq!(error(&["--capture-size=0x480"]), "--capture-size width must be positive");
    assert_eq!(error(&["--capture-size=640x-1"]), "--capture-size height must be positive");
    assert_eq!(
        error(&["--capture-slide=-1"]),
        "--capture-slide must be a non-negative integer"
    );
    assert_eq!(error(&["--pdf-page-size", "a5"]), "unsupported PDF page size: a5");
    assert_eq!(
        error(&["--pdf-orientation=sideways"]),
        "unsupported PDF orientation: sideways"
    );
    assert_eq!(error(&["--frobnicate"]), "unknown option: --frobnicate");
    assert_eq!(
        error(&["a.pin", "b.pin"]),
        "exactly one presentation may be supplied"
    );
    assert!(error(&["--camera=/dev/video0"]).starts_with("--camera=DEVICE is no longer supported"));
    assert_eq!(
        error(&["--edit", "--fullscreen", "a.pin"]),
        "--edit cannot be combined with rehearsal, fullscreen, speaker mode, check, or PDF output"
    );
    assert_eq!(
        error(&["--check"]),
        "--check and --format-assist require a presentation"
    );
    assert_eq!(
        error(&["--complete-position=1:1", "--format-assist=symbols", "a.pin"]),
        "--complete-position requires --format-assist=completions"
    );
    assert_eq!(
        error(&["--validate-media", "a.pin"]),
        "media validation creates its own pressure fixture"
    );
}

#[test]
fn inline_and_separate_values_parse_alike() {
    let pairs: [(&[&str], &[&str]); 3] = [
        (&["--output=slides.pdf", "talk.pin"], &["--output", "slides.pdf", "talk.pin"]),
        (&["talk.pin", "--pdf-page-size=letter"], &["talk.pin", "--pdf-page-size", "letter"]),
        (&["--pdf-orientation=sideways", "talk.pin"], &["--pdf-orientation", "sideways", "talk.pin"]),
    ];
    for (inline, separate) in pairs {
        let a = parse_options_from(&arguments(inline));
        let b = parse_options_from(&arguments(separate));
        match (a, b) {
            (Ok(a), Ok(b)) => assert_eq!(format!("{:?}", a), format!("{:?}", b)),
            (Err(a), Err(b)) => assert_eq!(a, b),
            _ => panic!("the two forms disagree"),
        }
    }
}

#[test]
fn a_value_consumed_option_does_not_wait() {
    let inline = parse_options_from(&arguments(&["--output", "--output", "--pdf-page-size=letter", "talk.pin"]));
    let separate = parse_options_from(&arguments(&["--output", "--output", "--pdf-page-size", "letter", "talk.pin"]));
    assert_eq!(format!("{:?}", inline), format!("{:?}", separate));
}
