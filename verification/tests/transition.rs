use pinpoint::deck::{LegacyTiming, Slide, TransitionMode};
use pinpoint::transition::{
    curl_period, duration_with_legacy, is_page_curl, plan, plan_with_legacy, side_enabled, CurlPeriod, CurlSide,
    LayerSource, TransitionPlan,
};
use std::time::Duration;

fn slide(name: &str) -> Slide {
    Slide::with_transition(name)
}

/// The curl period a plan side stands for at eased progress `progress`.
fn period_at(period: CurlPeriod, progress: f64) -> f64 {
    match period {
        CurlPeriod::Flat => 0.0,
        CurlPeriod::Progress => progress,
        CurlPeriod::Remaining => 1.0 - progress,
    }
}

fn angle_of(side: CurlSide) -> f64 {
    if side.angled { 15.0 } else { 0.0 }
}

#[test]
fn duration_matches_c_page_curl_defaults() {
    assert_eq!(
        Duration::from_millis(duration_with_legacy(&slide("page-curl"), false, false, None)),
        Duration::from_millis(2000)
    );
    assert_eq!(
        Duration::from_millis(duration_with_legacy(&slide("page-curl-both"), true, false, None)),
        Duration::from_millis(1000)
    );
}

#[test]
fn transition_mode_disables_the_opposite_side() {
    let mut incoming = slide("page-curl");
    incoming.transition_mode = TransitionMode::In;
    assert!(!side_enabled(&incoming, false));
    assert!(side_enabled(&incoming, true));
    assert_eq!(
        Duration::from_millis(duration_with_legacy(&incoming, false, false, None)),
        Duration::ZERO
    );
}

#[test]
fn forward_page_curl_turns_the_outgoing_page() {
    let plan = plan(&slide("page-curl"), &slide("fade"), false, false, true);
    let TransitionPlan::PageCurl(plan) = plan else {
        panic!("expected curl plan");
    };
    assert_eq!(period_at(plan.previous.period, 0.25), 0.25);
    assert_eq!(period_at(plan.current.period, 0.25), 0.0);
    assert!(!plan.backwards);
}

#[test]
fn backwards_page_curl_turns_the_incoming_page() {
    let plan = plan(&slide("fade"), &slide("page-curl"), true, true, false);
    let TransitionPlan::PageCurl(plan) = plan else {
        panic!("expected curl plan");
    };
    assert_eq!(period_at(plan.previous.period, 0.25), 0.0);
    assert_eq!(period_at(plan.current.period, 0.25), 0.75);
    assert!(plan.backwards);
}

#[test]
fn page_curl_both_turns_both_pages_at_an_angle() {
    let plan = plan(&slide("page-curl-both"), &slide("page-curl-both"), false, false, false);
    let TransitionPlan::PageCurl(plan) = plan else {
        panic!("expected curl plan");
    };
    assert_eq!((period_at(plan.previous.period, 0.4), angle_of(plan.previous)), (0.4, 15.0));
    assert_eq!((period_at(plan.current.period, 0.4), angle_of(plan.current)), (0.6, 15.0));
}

#[test]
fn only_the_two_curl_names_are_page_curls() {
    assert!(is_page_curl("page-curl"));
    assert!(is_page_curl("page-curl-both"));
    assert!(!is_page_curl("page-curl-"));
    assert!(!is_page_curl("fade"));
    assert!(!is_page_curl(""));
}

#[test]
fn builtin_defaults_explicit_durations_and_legacy_timings() {
    assert_eq!(duration_with_legacy(&slide("fade"), true, false, None), 800);
    assert_eq!(duration_with_legacy(&slide("spin-text"), false, true, None), 800);
    assert_eq!(duration_with_legacy(&slide(""), true, false, None), 0);
    let mut explicit = slide("page-curl");
    explicit.transition_duration_ms = 350;
    assert_eq!(duration_with_legacy(&explicit, true, false, None), 350);
    let timing = LegacyTiming { incoming_forward: 1, incoming_backward: 2, outgoing_forward: 3, outgoing_backward: 4 };
    let legacy = slide("swoosh");
    assert_eq!(duration_with_legacy(&legacy, true, false, Some(timing)), 1);
    assert_eq!(duration_with_legacy(&legacy, true, true, Some(timing)), 2);
    assert_eq!(duration_with_legacy(&legacy, false, false, Some(timing)), 3);
    assert_eq!(duration_with_legacy(&legacy, false, true, Some(timing)), 4);
    assert_eq!(duration_with_legacy(&legacy, false, true, None), 1000);
}

#[test]
fn curl_periods_follow_the_direction() {
    assert_eq!(curl_period("page-curl", false, false), CurlPeriod::Progress);
    assert_eq!(curl_period("page-curl", true, false), CurlPeriod::Flat);
    assert_eq!(curl_period("page-curl", true, true), CurlPeriod::Remaining);
    assert_eq!(curl_period("page-curl", false, true), CurlPeriod::Flat);
    assert_eq!(curl_period("page-curl-both", true, false), CurlPeriod::Remaining);
    assert_eq!(curl_period("fade", false, false), CurlPeriod::Flat);
}

#[test]
fn layered_plans_pick_their_sources() {
    let mut outgoing = slide("fade");
    outgoing.transition_mode = TransitionMode::In;
    let incoming = slide("swoosh");
    let TransitionPlan::Layers(layers) = plan_with_legacy(&outgoing, &incoming, false, true, false, false, true) else {
        panic!("expected layered plan");
    };
    assert_eq!(layers.previous, LayerSource::Rest);
    assert_eq!(layers.current, LayerSource::Legacy);
    assert!(!layers.previous_above);

    let TransitionPlan::Layers(layers) = plan(&slide("fade"), &slide(""), false, true, false) else {
        panic!("expected layered plan");
    };
    assert_eq!(layers.previous, LayerSource::Builtin);
    assert_eq!(layers.current, LayerSource::Rest);
    assert!(layers.previous_above);

    let TransitionPlan::Layers(layers) = plan(&slide("unknown"), &slide("unknown"), false, false, false) else {
        panic!("expected layered plan");
    };
    assert_eq!(layers.previous, LayerSource::Fade);
    assert_eq!(layers.current, LayerSource::Fade);
}

#[test]
fn a_disabled_curl_side_does_not_curl() {
    let mut outgoing = slide("page-curl");
    outgoing.transition_mode = TransitionMode::In;
    assert!(matches!(plan(&outgoing, &slide("fade"), false, false, true), TransitionPlan::Layers(_)));
}

#[test]
fn builtins_use_layer_transforms_instead_of_fading_everything() {
    // "slide" (upwards) arriving after "fade": both built in, at progress 0.25.
    let TransitionPlan::Layers(plan) = plan(&slide("fade"), &slide("slide"), false, true, true) else {
        panic!("expected layered transition plan");
    };
    assert_eq!(plan.current, LayerSource::Builtin);
    assert_eq!(plan.previous, LayerSource::Builtin);
}

#[test]
fn legacy_transitions_supply_their_own_layer_states() {
    let TransitionPlan::Layers(plan) =
        plan_with_legacy(&slide("legacy-transition"), &slide("fade"), false, false, true, true, false)
    else {
        panic!("expected layered transition plan");
    };
    assert_eq!(plan.previous, LayerSource::Legacy);
    assert_eq!(plan.current, LayerSource::Builtin);
}
