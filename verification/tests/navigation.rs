use pinpoint::deck::{LegacyTiming, Slide};
use pinpoint::navigation::{StageState, Transition};
use pinpoint::stage::ReducedMotion;
use pinpoint::working_set::{active_video, plan_working_set};
use pinpoint::deck::BackgroundType;

fn deck(n: usize) -> Vec<Slide> {
    (0..n).map(|_| Slide::with_transition("fade")).collect()
}

#[test]
fn navigation_moves_within_the_deck() {
    let mut stage = StageState::new();
    assert!(!stage.next(None, None, true, ReducedMotion::NoPreference));
    stage.set_presentation_at(deck(3), "/home/me/deck/talk.pin".into(), 7);
    assert_eq!(stage.current, 2);
    assert_eq!(stage.generation, 1);
    assert!(!stage.next(None, None, true, ReducedMotion::NoPreference));
    assert!(stage.previous(None, None, true, ReducedMotion::NoPreference));
    assert_eq!(stage.current, 1);
    assert_eq!(
        stage.transition,
        Some(Transition { previous: 2, backwards: true, duration_ms: 800, generation: stage.transition_generation })
    );
    assert!(stage.first(None, None, false, ReducedMotion::NoPreference));
    assert_eq!(stage.current, 0);
    assert_eq!(stage.transition, None);
    assert!(!stage.previous(None, None, true, ReducedMotion::NoPreference));
    assert!(stage.last(None, None, true, ReducedMotion::Reduce));
    assert_eq!(stage.current, 2);
    assert_eq!(stage.transition, None);
    assert!(!stage.go_to(5, None, None, true, ReducedMotion::NoPreference));
    assert!(!stage.go_to(2, None, None, true, ReducedMotion::NoPreference));
}

#[test]
fn transitions_take_the_longer_side_and_end_by_generation() {
    let mut slides = deck(2);
    slides[0] = Slide::with_transition("swoosh");
    slides[1] = Slide::with_transition("page-curl");
    let mut stage = StageState::new();
    stage.set_presentation_at(slides, "talk.pin".into(), 0);
    let timing = LegacyTiming { incoming_forward: 100, incoming_backward: 200, outgoing_forward: 3000, outgoing_backward: 400 };
    assert!(stage.next(Some(timing), None, true, ReducedMotion::NoPreference));
    let transition = stage.transition.expect("running transition");
    assert_eq!(transition.duration_ms, 3000);
    assert!(!stage.finish_transition(transition.generation.wrapping_add(1)));
    assert!(stage.transition.is_some());
    assert!(stage.finish_transition(transition.generation));
    assert!(stage.transition.is_none());
    assert!(stage.set_slide_without_transition(0));
    assert!(!stage.set_slide_without_transition(2));
    stage.toggle_blank();
    assert!(stage.blank);
    stage.toggle_blank();
    assert!(!stage.blank);
}

#[test]
fn slide_commands_come_from_the_slide_on_screen() {
    let mut slides = deck(2);
    slides[1].command = Some("make demo".into());
    let mut stage = StageState::new();
    stage.set_presentation_at(slides, "talk.pin".into(), 1);
    assert_eq!(stage.current_command(), Some("make demo".to_string()));
    stage.set_slide_without_transition(0);
    assert_eq!(stage.current_command(), None);
}

fn with_background(kind: BackgroundType, name: &str) -> Slide {
    let mut slide = Slide::with_transition("");
    slide.background_type = kind;
    slide.background = Some(name.into());
    slide
}

#[test]
fn working_set_visits_forward_then_back() {
    let slides = vec![
        with_background(BackgroundType::Image, "a.png"),
        with_background(BackgroundType::Video, "v.webm"),
        with_background(BackgroundType::Image, "b.png"),
        with_background(BackgroundType::Video, "v.webm"),
        with_background(BackgroundType::Image, "c.png"),
    ];
    let resolved = vec![Some(1), Some(5), Some(2), Some(5), None];
    let set = plan_working_set(&slides, &resolved, 2, 3, 2, false, true);
    assert_eq!(set.images, vec![2, 1]);
    assert_eq!(set.videos, vec![5]);
    assert_eq!(set.current_video, None);
    let set = plan_working_set(&slides, &resolved, 3, 0, 2, false, true);
    assert_eq!(set.images, vec![2]);
    assert_eq!(set.current_video, Some(5));
    let set = plan_working_set(&slides, &resolved, 3, 8, 2, true, true);
    assert!(set.videos.is_empty());
    assert_eq!(set.current_video, None);
    assert_eq!(active_video(Some(5), false, &vec![4, 5]), Some(5));
    assert_eq!(active_video(Some(5), true, &vec![5]), None);
    assert_eq!(active_video(Some(5), false, &vec![4]), None);
}

#[test]
fn the_presentation_folder_is_the_files_parent() {
    let mut stage = StageState::new();
    assert_eq!(stage.presentation_folder(), None);
    stage.set_presentation_at(deck(1), "/home/me/deck/talk.pin".into(), 0);
    assert_eq!(stage.presentation_folder(), Some("/home/me/deck".to_string()));
    stage.set_presentation_at(deck(1), "talk.pin".into(), 0);
    assert_eq!(stage.presentation_folder(), Some(String::new()));
    stage.set_presentation_at(deck(1), "./talk.pin".into(), 0);
    assert_eq!(stage.presentation_folder(), Some(".".to_string()));
    stage.set_presentation_at(deck(1), "/talk.pin".into(), 0);
    assert_eq!(stage.presentation_folder(), Some("/".to_string()));
    stage.set_presentation_at(deck(1), "/".into(), 0);
    assert_eq!(stage.presentation_folder(), None);
}
