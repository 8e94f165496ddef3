use pinpoint::command_runner::CommandRunner;
use pinpoint::curl_textures::{check_layout, SlotChoice, TextureSlots};
use pinpoint::lifecycle::LifecycleState;
use pinpoint::media::{EosAction, MediaControl};
use pinpoint::renderer_policy::{card_entry, id_matches, should_force_gl};

#[test]
fn only_the_current_command_run_reports() {
    let mut runner = CommandRunner::new();
    assert!(runner.check_idle().is_ok());
    let first = runner.started();
    assert_eq!(runner.check_idle().unwrap_err(), "a slide command is already running");
    assert!(runner.cancel());
    assert!(!runner.completed(first, Ok(())));
    assert_eq!(runner.status, None);
    let second = runner.started();
    assert!(runner.is_running());
    assert!(runner.completed(second, Err("exit 1".into())));
    assert_eq!(runner.status, Some(Err("exit 1".to_string())));
    assert!(!runner.is_running());
    assert!(!runner.cancel());
}

#[test]
fn media_restarts_only_when_played_again() {
    let mut media = MediaControl::new(true);
    assert!(!media.set_playing(true));
    assert!(!media.set_playing(true));
    assert!(!media.set_playing(false));
    assert!(media.set_playing(true));
    assert_eq!(media.on_eos(), EosAction { rewind: true, play: true });
    media.set_looping(false);
    assert_eq!(media.on_eos(), EosAction { rewind: false, play: false });
    assert_eq!(media.eos_count, 2);
    assert!(media.on_async_done());
    assert!(!media.is_prepared(false));
    assert!(!media.expire_prepare(19_999, false));
    assert!(media.expire_prepare(20_000, false));
    assert_eq!(media.error, Some("media preparation timed out after 20 seconds".to_string()));
    assert!(!media.desired_playing);
    assert!(!media.expire_prepare(40_000, false));
    assert!(media.is_prepared(false));
}

#[test]
fn lifecycle_counts_and_announces_each_generation_once() {
    let mut lifecycle = LifecycleState::new();
    let first = lifecycle.poll(true, 1);
    assert!(first.show_stage && first.announce);
    let again = lifecycle.poll(true, 1);
    assert!(again.show_stage && !again.announce);
    let loading = lifecycle.poll(false, 2);
    assert!(!loading.show_stage && !loading.announce);
    lifecycle.reload_failed("parse error".into());
    assert_eq!(lifecycle.last_error, Some("parse error".to_string()));
    lifecycle.reload_succeeded();
    assert_eq!((lifecycle.reloads, lifecycle.last_error.clone()), (1, None));
    lifecycle.asset_invalidated();
    assert_eq!(lifecycle.asset_invalidations, 1);
}

#[test]
fn renderer_workaround_matches_cards_by_id() {
    assert!(card_entry("card0"));
    assert!(card_entry("card12"));
    assert!(!card_entry("card"));
    assert!(!card_entry("card0-eDP-1"));
    assert!(!card_entry("renderD128"));
    assert!(id_matches("0x8086\n", "0x8086"));
    assert!(id_matches(" 0x9A49 ", "0x9a49"));
    assert!(!id_matches("0x1002", "0x8086"));
    assert!(should_force_gl(false, true));
    assert!(!should_force_gl(true, true));
}

#[test]
fn curl_texture_slots_reuse_then_fill_then_replace_the_oldest() {
    let mut slots = TextureSlots::new();
    let mut upload = |slots: &mut TextureSlots, texture: u64| match slots.slot_for(texture) {
        SlotChoice::Upload(slot) => {
            slots.uploaded_into(slot, texture);
            slot
        }
        SlotChoice::Reuse(slot) => slot + 100,
    };
    assert_eq!(upload(&mut slots, 10), 0);
    assert_eq!(upload(&mut slots, 11), 1);
    assert_eq!(upload(&mut slots, 12), 2);
    assert_eq!(upload(&mut slots, 13), 3);
    assert_eq!(upload(&mut slots, 10), 100);
    assert_eq!(upload(&mut slots, 14), 1);
    slots.clear();
    assert_eq!(upload(&mut slots, 10), 0);
    assert!(check_layout(2, 2, 8, 16).is_ok());
    assert_eq!(check_layout(2, 2, 6, 16).unwrap_err(), "page-curl texture has an invalid pixel layout");
    assert_eq!(check_layout(2, 2, 8, 15).unwrap_err(), "page-curl texture has an invalid pixel layout");
    assert_eq!(check_layout(2, 3, usize::MAX, 16).unwrap_err(), "page-curl texture dimensions overflowed");
}
