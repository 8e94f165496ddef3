use pinpoint::command_runner::completion_notice;
use pinpoint::deck::Slide;
use pinpoint::navigation::StageState;
use pinpoint::stage::{
    curl_pair_ready, curl_prewarm_ready, should_schedule_prewarm, switch, CameraState, CurlCache, OutputKey,
    ReducedMotion,
};

#[test]
fn command_notices() {
    assert_eq!(completion_notice(&Ok(())), "Slide command finished");
    assert_eq!(completion_notice(&Err("exit 2".into())), "Slide command failed — exit 2");
}

#[test]
fn transition_ticks_until_due() {
    let mut stage = StageState::new();
    stage.set_presentation_at(vec![Slide::with_transition("fade"), Slide::with_transition("fade")], "talk.pin".into(), 0);
    assert!(stage.next(None, None, true, ReducedMotion::NoPreference));
    let generation = stage.transition.expect("transition").generation;
    assert!(stage.tick(generation, 799));
    assert!(!stage.tick(generation.wrapping_add(1), 0));
    assert!(stage.transition.is_some());
    assert!(!stage.tick(generation, 800));
    assert!(stage.transition.is_none());
}

#[test]
fn curl_readiness_and_prewarm_scheduling() {
    let deck = vec![Slide::with_transition("page-curl"), Slide::with_transition("")];
    let output = OutputKey { width: 1920, height: 1080, scale: 1 };
    let mut cache = CurlCache::new();
    assert!(curl_pair_ready(None, 0, 1, false, None, &cache));
    assert!(!curl_pair_ready(Some(&deck), 0, 1, false, None, &cache));
    assert!(!curl_prewarm_ready(Some(&deck), 0, Some(output), &cache));
    cache.insert(0, 1, output, 3, 2);
    assert!(curl_pair_ready(Some(&deck), 0, 1, false, Some(output), &cache));
    assert!(curl_prewarm_ready(Some(&deck), 0, Some(output), &cache));
    assert!(curl_prewarm_ready(Some(&deck), 1, None, &cache));
    assert!(curl_pair_ready(Some(&deck), 1, 0, true, None, &cache) == false);
    assert!(should_schedule_prewarm(false, false, false));
    assert!(!should_schedule_prewarm(true, false, false));
    assert!(!should_schedule_prewarm(false, true, false));
    assert!(!should_schedule_prewarm(false, false, true));
}

#[test]
fn media_switches_report_changes() {
    let mut enabled = true;
    assert!(!switch(&mut enabled, true));
    assert!(switch(&mut enabled, false));
    assert!(!enabled);
    let mut camera = CameraState::new();
    camera.prepare(true, true);
    camera.portal_answered(true, None);
    camera.camera_switched(true);
    assert!(camera.has_media && !camera.attempted);
    camera.media_disabled();
    assert!(!camera.has_media && !camera.has_request);
}
