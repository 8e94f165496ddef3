use pinpoint::camera::{portal_response, portal_sender, request_path, request_token, PortalResponse, TokenCounter};
use pinpoint::mpris::{
    bus_name, name_taken_message, player_method, player_property, root_method, root_property, set_root_property,
    Command, Property, Reply, State,
};

#[test]
fn request_tokens_are_distinct() {
    let mut tokens = TokenCounter::new();
    assert_ne!(tokens.take(), tokens.take());
}

#[test]
fn portal_request_paths_use_a_sanitized_sender() {
    assert_eq!(portal_sender(Some(":1.42")), "1_42");
    assert_eq!(portal_sender(Some("::a-b")), "a_b");
    assert_eq!(portal_sender(None), "pinpoint");
    assert_eq!(request_token(1234, 7), "pinpoint_1234_7");
    assert_eq!(
        request_path("1_42", "pinpoint_1234_7"),
        "/org/freedesktop/portal/desktop/request/1_42/pinpoint_1234_7"
    );
}

#[test]
fn portal_response_codes() {
    assert!(matches!(portal_response(0), PortalResponse::Granted));
    assert!(matches!(portal_response(1), PortalResponse::Denied));
    match portal_response(2) {
        PortalResponse::Failed(message) => assert_eq!(message, "Camera portal request failed with response 2"),
        _ => panic!("expected a failure"),
    }
}

fn state(presenting: bool, slide: usize, slides: usize) -> State {
    State { presenting, slide, slides, fullscreen: false }
}

#[test]
fn remote_control_follows_the_presentation() {
    assert!(state(true, 0, 3).can_next());
    assert!(!state(true, 2, 3).can_next());
    assert!(!state(false, 0, 3).can_next());
    assert!(state(true, 1, 3).can_previous());
    assert!(!state(true, 0, 3).can_previous());
    let metadata = state(true, 1, 3).metadata().expect("metadata");
    assert_eq!(metadata.track_id, "/com/nedrichards/pinpoint/Slide/s2");
    assert_eq!(metadata.title, "Slide 2 of 3");
    assert_eq!(metadata.album, "Pinpoint presentation");
    assert!(state(false, 1, 3).metadata().is_none());
    assert!(state(true, 0, 0).metadata().is_none());
}

#[test]
fn remote_control_methods_and_properties() {
    assert_eq!(player_method(&state(true, 0, 3), "Next"), Reply::Done(Some(Command::Next)));
    assert_eq!(player_method(&state(true, 2, 3), "Next"), Reply::Done(None));
    assert_eq!(player_method(&state(true, 2, 3), "Previous"), Reply::Done(Some(Command::Previous)));
    assert_eq!(player_method(&state(true, 2, 3), "Pause"), Reply::NotSupported);
    assert_eq!(root_method("Raise"), Reply::Done(None));
    assert_eq!(root_method("Stop"), Reply::NotSupported);
    assert_eq!(set_root_property(&state(true, 0, 3), "Fullscreen", Some(true)), Some(Command::Fullscreen(true)));
    assert_eq!(set_root_property(&state(false, 0, 3), "Fullscreen", Some(true)), None);
    assert_eq!(set_root_property(&state(true, 0, 3), "Fullscreen", None), None);
    assert!(matches!(root_property(&state(true, 0, 3), "Identity"), Property::Text(text) if text == "Pinpoint"));
    assert!(matches!(root_property(&state(true, 0, 3), "CanSetFullscreen"), Property::Bool(true)));
    assert!(matches!(root_property(&state(true, 0, 3), "CanQuit"), Property::Bool(false)));
    assert!(matches!(player_property(&state(true, 0, 3), "PlaybackStatus"), Property::Text(text) if text == "Stopped"));
    assert!(matches!(player_property(&state(true, 0, 3), "CanGoNext"), Property::Bool(true)));
    assert!(matches!(player_property(&state(true, 0, 3), "Rate"), Property::Unit));
    assert!(matches!(player_property(&state(true, 0, 3), "Position"), Property::Origin));
    assert!(matches!(player_property(&state(true, 0, 3), "Metadata"), Property::Metadata(Some(_))));
}

#[test]
fn bus_names_are_per_instance() {
    assert_eq!(
        bus_name("com.nedrichards.pinpoint", ":1.42-x"),
        "org.mpris.MediaPlayer2.com.nedrichards.pinpoint.instance_1_42_x"
    );
    assert_eq!(name_taken_message("org.x"), "MPRIS name org.x is already owned");
}
