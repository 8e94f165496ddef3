use pinpoint::accessibility::context_update;
use pinpoint::cli::parse_options_from;
use pinpoint::deck::{BackgroundType, Slide};
use pinpoint::menu::{documentation, documentation_uri, validate_menu, validate_menu_contract, DocumentationItem};
use pinpoint::modes::{assist_kind, check_summary, help_text, run_mode, version_text, AssistKind, Mode, VERSION};
use pinpoint::problems::{first_media_error, problem_keys, AssetStatus};
use pinpoint::stage::{curl_prewarm_status, CurlCache, OutputKey};
use pinpoint::working_set::{monitored_assets, plan_working_set};

fn args(values: &[&str]) -> Vec<String> {
    values.iter().map(|value| value.to_string()).collect()
}

#[test]
fn runs_pick_their_mode() {
    let run = |values: &[&str]| {
        let options = parse_options_from(&args(values)).expect("valid").run_options().expect("run");
        run_mode(&options)
    };
    assert_eq!(run(&["talk.pin"]), Mode::Application);
    assert_eq!(run(&["--check", "talk.pin"]), Mode::Check);
    assert_eq!(run(&["--output=talk.pdf", "talk.pin"]), Mode::Export);
    assert_eq!(run(&["--format-assist=symbols", "talk.pin"]), Mode::FormatAssist);
}

#[test]
fn program_texts() {
    assert!(help_text().starts_with("Pinpoint 0.3.0\n\nUsage: pinpoint [OPTIONS] [PRESENTATION.pin]"));
    assert!(help_text().ends_with("  --help               Show this help"));
    assert_eq!(version_text(), format!("pinpoint {VERSION}"));
    assert_eq!(check_summary("talk.pin", 12), "talk.pin: 12 slides");
    assert_eq!(assist_kind("symbols", false), Ok(AssistKind::Symbols));
    assert_eq!(assist_kind("completions", true), Ok(AssistKind::Completions));
    assert_eq!(
        assist_kind("completions", false),
        Err("--format-assist=completions requires --complete-position=LINE:COLUMN".to_string())
    );
    assert_eq!(
        assist_kind("outline", false),
        Err("--format-assist must be diagnostics, symbols, assets, or completions".to_string())
    );
}

#[test]
fn the_application_menu_is_consistent() {
    assert_eq!(validate_menu_contract(), Ok(()));
    assert_eq!(documentation().len(), 4);
    assert_eq!(
        documentation_uri("accessibility.md"),
        "https://github.com/nedrichards/pinpoint-ng/blob/main/docs/accessibility.md"
    );
    let item = |action: &str, document: &str| DocumentationItem {
        action: action.into(),
        label: "Label".into(),
        document: document.into(),
    };
    assert_eq!(
        validate_menu(&vec![item("a", "a.md"), item("a", "b.md")], "https://x", "https://y"),
        Err("application menu repeats the a action".to_string())
    );
    assert_eq!(
        validate_menu(&vec![item("a", "a.txt")], "https://x", "https://y"),
        Err("application documentation menu contains an invalid item".to_string())
    );
    assert_eq!(validate_menu(&vec![], "http://x", "https://y"), Err("application links are not HTTPS".to_string()));
}

#[test]
fn accessible_context_changes_only_to_new_text() {
    assert_eq!(context_update("Presentation slide", "  Editor preview "), Some("Editor preview".to_string()));
    assert_eq!(context_update("Editor preview", "Editor preview"), None);
    assert_eq!(context_update("Editor preview", "   "), None);
}

fn with_background(kind: BackgroundType, name: &str, transition: &str) -> Slide {
    let mut slide = Slide::with_transition(transition);
    slide.background_type = kind;
    slide.background = Some(name.into());
    slide
}

#[test]
fn watched_assets_are_listed_once() {
    let slides = vec![
        with_background(BackgroundType::Image, "a.png", "swoosh"),
        with_background(BackgroundType::Color, "#000", ""),
        with_background(BackgroundType::Image, "a.png", "swoosh"),
        with_background(BackgroundType::Video, "v.webm", "fade"),
    ];
    let backgrounds = vec![Some(1), None, Some(1), Some(3)];
    let transitions = vec![Some(2), None, Some(2), None];
    assert_eq!(monitored_assets(&slides, &backgrounds, &transitions), vec![1, 2, 3]);
}

#[test]
fn retries_reload_failed_and_missing_assets() {
    let slides = vec![
        with_background(BackgroundType::Image, "a.png", ""),
        with_background(BackgroundType::Video, "v.webm", ""),
        with_background(BackgroundType::Image, "b.png", ""),
    ];
    let status = |key: u64, exists: bool, media_error: Option<&str>| AssetStatus {
        key,
        name: String::new(),
        resolved: true,
        exists,
        failure: None,
        media_error: media_error.map(str::to_owned),
    };
    let statuses = vec![status(1, false, None), status(2, true, Some("no decoder")), status(3, true, None)];
    assert_eq!(problem_keys(&vec![9, 1], &slides, &statuses), vec![9, 1, 2]);
    assert_eq!(
        first_media_error(None, None, None, &vec![None, Some("broken".into()), Some("later".into())]),
        Some("broken".to_string())
    );
    assert_eq!(
        first_media_error(None, Some("camera".into()), None, &vec![Some("video".into())]),
        Some("camera".to_string())
    );
    assert_eq!(first_media_error(None, None, None, &vec![None]), None);
}

#[test]
fn prewarm_status_lists_the_cache() {
    let output = OutputKey { width: 1920, height: 1080, scale: 2 };
    let mut cache = CurlCache::new();
    assert_eq!(curl_prewarm_status(0, None, &cache), "current=0 output=none cache=");
    cache.insert(0, 1, output, 5, 2);
    cache.insert(1, 0, output, 6, 2);
    assert_eq!(
        curl_prewarm_status(1, Some(output), &cache),
        "current=1 output=1920x1080@2 cache=0<->1 1920x1080@2,1<->0 1920x1080@2"
    );
}

#[test]
fn the_current_image_is_prefetched_first() {
    let slides = vec![
        with_background(BackgroundType::Image, "a.png", ""),
        with_background(BackgroundType::Image, "b.png", ""),
    ];
    let set = plan_working_set(&slides, &vec![Some(1), Some(2)], 1, 3, 2, false, true);
    assert_eq!(set.images, vec![2, 1]);
}
