use pinpoint::editor::{external_change, preview_status, relevant_file_event, EditorStatus, ExternalChange, FileEvent};
use pinpoint::speaker::{next_step, rehearsal_slide_check, rehearsal_source_check, NextStep};

#[test]
fn preview_status_counts_in_the_singular() {
    assert_eq!(preview_status(1, 0), "1 slide · 0 problems · safe preview");
    assert_eq!(preview_status(3, 1), "3 slides · 1 problem · safe preview");
}

#[test]
fn editor_status_messages() {
    assert_eq!(EditorStatus::Imported("photo-3.png".into()).text(), "Imported photo-3.png · save when ready");
    assert_eq!(EditorStatus::Importing("photo.png".into()).text(), "Importing photo.png…");
    assert_eq!(EditorStatus::PreviewPaused("line 3: bad".into()).text(), "Preview paused · line 3: bad");
    assert_eq!(EditorStatus::Saved.text(), "Saved · live preview remains local");
    assert_eq!(EditorStatus::ExternalChangeRefused.text(), "External change detected · save refused");
}

#[test]
fn outside_changes_respect_unsaved_edits() {
    assert!(matches!(external_change(true, Ok(("new".into(), None)), "old"), ExternalChange::Refuse));
    match external_change(false, Ok(("new".into(), Some("e2".into()))), "old") {
        ExternalChange::Reload { source, etag } => {
            assert_eq!(source, "new");
            assert_eq!(etag, Some("e2".to_string()));
        }
        _ => panic!("expected a reload"),
    }
    assert!(matches!(external_change(false, Ok(("old".into(), None)), "old"), ExternalChange::KeepEtag(None)));
    assert!(matches!(external_change(false, Err("gone".into()), "old"), ExternalChange::Failed(e) if e == "gone"));
    assert!(relevant_file_event(FileEvent::Renamed));
    assert!(!relevant_file_event(FileEvent::Deleted));
}

#[test]
fn speaker_next_and_rehearsal_rules() {
    assert_eq!(next_step(true, true, true), NextStep::Moved);
    assert_eq!(next_step(false, true, true), NextStep::FinishRehearsal);
    assert_eq!(next_step(false, false, true), NextStep::StopAutoadvance);
    assert_eq!(next_step(false, false, false), NextStep::Stay);
    assert!(rehearsal_slide_check(2, 2).is_ok());
    assert_eq!(
        rehearsal_slide_check(2, 3).unwrap_err(),
        "rehearsal timing did not match the current presentation slide"
    );
    assert_eq!(
        rehearsal_source_check(false).unwrap_err(),
        "the presentation source is unavailable for rehearsal writeback"
    );
}
