use pinpoint::accessibility::accessibility_text;
use pinpoint::deck::{BackgroundType, Slide};
use pinpoint::problems::{add_asset_problem, asset_problem_summary, format_slide_numbers, AssetStatus};
use pinpoint::stage::{
    camera_portal_state, camera_portal_state_name, camera_status_message, curl_cache_capacity, curl_pair_is_static,
    curl_prewarm_pairs_ready, media_offload_has_current_allocation, motion_duration, offload_target, prewarm_pairs,
    CameraPortalState, CameraState, CurlCache, CurlPair, OutputKey, ReducedMotion,
};
use std::time::Duration;

fn plain() -> Slide {
    Slide::with_transition("")
}

#[test]
fn curl_prewarm_only_caches_static_pairs() {
    let mut outgoing = Slide::with_transition("page-curl");
    let incoming = plain();
    let deck = vec![outgoing.clone(), incoming.clone()];
    assert!(curl_pair_is_static(&deck, 0, 1, false));

    outgoing.background_type = BackgroundType::Video;
    let deck = vec![outgoing, incoming];
    assert!(!curl_pair_is_static(&deck, 0, 1, false));
}

#[test]
fn curl_cache_budget_keeps_two_common_hidpi_pairs() {
    assert_eq!(curl_cache_capacity(OutputKey { width: 1920, height: 1080, scale: 2 }), 2);
    assert_eq!(curl_cache_capacity(OutputKey { width: 3840, height: 2160, scale: 2 }), 1);
}

#[test]
fn asset_problem_slide_lists_are_concise() {
    assert_eq!(format_slide_numbers(&vec![2]), " 2");
    assert_eq!(format_slide_numbers(&vec![2, 5]), "s 2 and 5");
    assert_eq!(format_slide_numbers(&vec![2, 5, 9]), "s 2, 5, and 9");

    let mut problems = Vec::new();
    add_asset_problem(&mut problems, 1, "missing.png".into(), "missing".into(), 2);
    add_asset_problem(&mut problems, 1, "missing.png".into(), "missing".into(), 5);
    assert_eq!(problems[0].slides, vec![2, 5]);
}

#[test]
fn camera_statuses_are_actionable_without_a_device_path() {
    assert_eq!(
        camera_status_message(CameraPortalState::Pending),
        Some(("Camera permission requested", "Approve the desktop camera request to continue.",))
    );
    assert_eq!(
        camera_status_message(CameraPortalState::Denied),
        Some(("Camera access was denied", "Press C to request access again.",))
    );
    assert_eq!(camera_status_message(CameraPortalState::Ready), None);
}

#[test]
fn offload_snapshot_waits_for_matching_allocation() {
    let video = 7;
    let previous_video = 8;

    assert!(!media_offload_has_current_allocation(Some(video), None));
    assert!(!media_offload_has_current_allocation(Some(video), Some(previous_video)));
    assert!(media_offload_has_current_allocation(Some(video), Some(video)));
    assert!(!media_offload_has_current_allocation(None, None));
}

#[test]
fn accessibility_text_matches_the_stage_contract() {
    let mut slide = plain();
    slide.text = Some("<b>Visible audience text</b>".into());
    slide.visual_description = Some("A chart with an upward trend".into());
    let slides = vec![slide];
    // What the markup parser makes of the slide's markup.
    let plain_text = Some("Visible audience text");
    let text = accessibility_text(Some(&slides), 0, false, "Editor preview", CameraPortalState::Ready, plain_text);
    assert_eq!(text.label, "Editor preview 1 of 1");
    assert_eq!(text.description, "Visible audience text\nVisual description: A chart with an upward trend");
    assert_eq!(
        accessibility_text(Some(&slides), 0, true, "Presentation slide", CameraPortalState::Ready, plain_text)
            .description,
        "Blank screen"
    );
}

#[test]
fn reduced_motion_completes_transitions_immediately() {
    let duration = Duration::from_millis(800);
    let ms = duration.as_millis() as u64;
    assert_eq!(Duration::from_millis(motion_duration(ms, false, ReducedMotion::NoPreference)), Duration::ZERO);
    assert_eq!(Duration::from_millis(motion_duration(ms, true, ReducedMotion::Reduce)), Duration::ZERO);
    assert_eq!(Duration::from_millis(motion_duration(ms, true, ReducedMotion::NoPreference)), duration);
}

#[test]
fn accessibility_without_a_deck_or_text() {
    let none = accessibility_text(None, 0, false, "", CameraPortalState::Idle, None);
    assert_eq!(none.label, "Presentation slide");
    assert_eq!(none.description, "No presentation loaded");
    let mut camera = plain();
    camera.background_type = BackgroundType::Camera;
    camera.text = Some("   ".into());
    let slides = vec![plain(), camera];
    let text = accessibility_text(Some(&slides), 1, false, "", CameraPortalState::Denied, None);
    assert_eq!(text.label, "Presentation slide 2 of 2");
    assert_eq!(text.description, "Slide has no audience text\nCamera access was denied. Press C to request access again.");
    let mut described = plain();
    described.visual_description = Some("  A diagram  ".into());
    described.use_markup = false;
    described.text = Some("  Hello  ".into());
    let slides = vec![described];
    let text = accessibility_text(Some(&slides), 0, false, "", CameraPortalState::Ready, None);
    assert_eq!(text.description, "Hello\nVisual description: A diagram");
}

#[test]
fn camera_portal_states_in_priority_order() {
    assert_eq!(camera_portal_state(true, true, true, true), CameraPortalState::Ready);
    assert_eq!(camera_portal_state(false, true, true, true), CameraPortalState::Pending);
    assert_eq!(camera_portal_state(false, false, true, true), CameraPortalState::Error);
    assert_eq!(camera_portal_state(false, false, true, false), CameraPortalState::Denied);
    assert_eq!(camera_portal_state(false, false, false, false), CameraPortalState::Idle);
    assert_eq!(camera_portal_state_name(CameraPortalState::Denied), "denied");
    assert_eq!(
        camera_status_message(CameraPortalState::Error),
        Some(("Camera is unavailable", "Press C to retry. Technical details are available in the terminal."))
    );
}

#[test]
fn curl_cache_capacity_edges() {
    assert_eq!(curl_cache_capacity(OutputKey { width: 0, height: 1080, scale: 2 }), 0);
    assert_eq!(curl_cache_capacity(OutputKey { width: -5, height: 1080, scale: 1 }), 0);
    assert_eq!(curl_cache_capacity(OutputKey { width: 7680, height: 4320, scale: 2 }), 0);
    assert_eq!(curl_cache_capacity(OutputKey { width: 1920, height: 1080, scale: 0 }), 2);
    assert_eq!(curl_cache_capacity(OutputKey { width: i32::MAX, height: i32::MAX, scale: i32::MAX }), 0);
}

#[test]
fn curl_cache_finds_pairs_in_either_direction_and_evicts_the_oldest() {
    let output = OutputKey { width: 1920, height: 1080, scale: 2 };
    let mut cache = CurlCache::new();
    cache.insert(0, 1, output, 10, 2);
    cache.insert(1, 2, output, 11, 2);
    assert_eq!(cache.lookup(1, 0, output).map(|hit| (hit.textures, hit.swapped)), Some((10, true)));
    cache.insert(2, 3, output, 12, 2);
    assert!(cache.lookup(0, 1, output).is_none());
    assert_eq!(cache.lookup(2, 3, output).map(|hit| (hit.textures, hit.swapped)), Some((12, false)));
    let other = OutputKey { width: 1280, height: 720, scale: 1 };
    cache.insert(3, 4, other, 13, 2);
    assert_eq!(cache.entries.len(), 1);
    assert!(cache.lookup(2, 3, output).is_none());
    cache.insert(5, 6, other, 14, 0);
    assert_eq!(cache.entries.len(), 1);
}

#[test]
fn prewarm_pairs_around_the_current_slide() {
    let deck = vec![
        Slide::with_transition("page-curl"),
        Slide::with_transition("page-curl"),
        Slide::with_transition("page-curl"),
    ];
    assert_eq!(
        prewarm_pairs(&deck, 1, 2),
        vec![
            CurlPair { previous: 1, current: 2, backwards: false },
            CurlPair { previous: 1, current: 0, backwards: true }
        ]
    );
    assert_eq!(prewarm_pairs(&deck, 2, 1), vec![]);
    let output = OutputKey { width: 1920, height: 1080, scale: 2 };
    let mut cache = CurlCache::new();
    assert!(!curl_prewarm_pairs_ready(&deck, 1, &cache, output));
    cache.insert(1, 2, output, 1, 2);
    cache.insert(1, 0, output, 2, 2);
    assert!(curl_prewarm_pairs_ready(&deck, 1, &cache, output));
}

#[test]
fn asset_problem_summary_groups_assets() {
    let mut image = plain();
    image.background_type = BackgroundType::Image;
    image.background = Some("missing.png".into());
    let mut video = plain();
    video.background_type = BackgroundType::Video;
    video.background = Some("clip.webm".into());
    let slides = vec![image.clone(), plain(), video, image];
    let missing = AssetStatus { key: 1, name: "missing.png".into(), resolved: true, exists: false, failure: None, media_error: None };
    let fine = AssetStatus { key: 0, name: String::new(), resolved: true, exists: true, failure: None, media_error: None };
    let broken = AssetStatus {
        key: 2,
        name: "clip.webm".into(),
        resolved: true,
        exists: true,
        failure: None,
        media_error: Some("no decoder".into()),
    };
    let statuses = vec![missing.clone(), fine.clone(), broken, missing];
    let summary = asset_problem_summary(&slides, &statuses).expect("problems");
    assert_eq!(summary.message, "2 asset problems · slides 1, 3, and 4");
    assert_eq!(summary.details, "missing.png — missing or inaccessible (slides 1 and 4)\nclip.webm — no decoder (slide 3)");
    assert!(asset_problem_summary(&vec![plain()], &vec![fine]).is_none());
    let outside = AssetStatus { key: 9, name: "x.svg".into(), resolved: false, exists: false, failure: None, media_error: None };
    let mut svg = plain();
    svg.background_type = BackgroundType::Svg;
    svg.background = Some("../x.svg".into());
    let summary = asset_problem_summary(&vec![svg], &vec![outside]).expect("problem");
    assert_eq!(summary.message, "1 asset problem · slide 1");
    assert_eq!(summary.details, "x.svg — outside the presentation folder or unsupported (slide 1)");
}

#[test]
fn camera_requests_once_and_retries_in_inactive_windows() {
    let mut camera = CameraState::new();
    let step = camera.prepare(true, false);
    assert!(step.schedule_retry && !step.start_request);
    assert!(!camera.prepare(true, false).schedule_retry);
    camera.retry_due();
    let step = camera.prepare(true, true);
    assert!(step.start_request);
    assert!(!camera.prepare(true, true).start_request);
    camera.portal_answered(false, None);
    assert_eq!(camera.portal_state(), CameraPortalState::Denied);
    assert!(camera.retry(true));
    assert_eq!(camera.portal_state(), CameraPortalState::Idle);
    let step = camera.prepare(false, true);
    assert!(step.drop_request && step.set_playing.is_none());
    assert_eq!(offload_target(false, false, true, Some(3)), Some(3));
    assert_eq!(offload_target(true, false, true, Some(3)), None);
}

#[test]
fn curl_lookup_in_the_other_direction_trades_places() {
    let output = OutputKey { width: 800, height: 600, scale: 1 };
    let mut cache = CurlCache::new();
    cache.insert(3, 4, output, 9, 2);
    let forward = cache.lookup(3, 4, output).expect("stored");
    let backward = cache.lookup(4, 3, output).expect("stored");
    assert_eq!((forward.textures, forward.swapped), (9, false));
    assert_eq!((backward.textures, backward.swapped), (9, true));
    assert!(cache.lookup(3, 5, output).is_none());
}
