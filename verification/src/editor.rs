//! The composition editor's decisions and status line: the preview summary,
//! what an outside change to the file does, and the messages of saving and
//! importing.
use vstd::prelude::*;
use crate::text::{append_chars, append_str, chars_of, decimal, decimal_chars, eq_str, owned, string_of};

verus! {

/// The word for `n` things: `one`, or `one` with an "s".
pub open spec fn counted_word(n: nat, one: Seq<char>) -> Seq<char> {
    if n == 1 { one } else { one + "s"@ }
}

/// "<n> slides · <p> problems · safe preview", in the singular where one.
pub open spec fn preview_status_spec(slides: nat, problems: nat) -> Seq<char> {
    decimal(slides) + " "@ + counted_word(slides, "slide"@) + " · "@ + decimal(problems) + " "@
        + counted_word(problems, "problem"@) + " · safe preview"@
}

fn count_words(v: &mut Vec<char>, n: usize, one: &str)
    ensures
        final(v)@ == old(v)@ + decimal(n as nat) + " "@ + counted_word(n as nat, one@),
{
    let d = decimal_chars(n as u64);
    append_chars(v, &d);
    append_str(v, " ");
    append_str(v, one);
    if n != 1 {
        append_str(v, "s");
    }
}

/// The status line after the buffer parsed into a preview.
pub fn preview_status(slides: usize, problems: usize) -> (s: String)
    ensures
        s@ == preview_status_spec(slides as nat, problems as nat),
{
    let mut v: Vec<char> = Vec::new();
    count_words(&mut v, slides, "slide");
    append_str(&mut v, " · ");
    count_words(&mut v, problems, "problem");
    append_str(&mut v, " · safe preview");
    proof {
        reveal_strlit("");
    }
    assert(v@ =~= preview_status_spec(slides as nat, problems as nat));
    string_of(&v)
}

/// `prefix` followed by `detail`.
pub fn status_with(prefix: &str, detail: &str) -> (s: String)
    ensures
        s@ == prefix@ + detail@,
{
    let mut v = chars_of(prefix);
    append_str(&mut v, detail);
    string_of(&v)
}

/// The status messages of the editor.
#[derive(Clone, Debug)]
pub enum EditorStatus {
    PreviewPaused(String),
    Importing(String),
    ImportFailed(String),
    Imported(String),
    InsertFailed,
    Saved,
    SaveFailed(String),
    ExternalChangeRefused,
    ExternalChangeReloaded,
    ExternalChangeFailed(String),
    TimingsApplied,
    TimingsFailed(String),
    RehearsalStarted,
    RehearsalFailed(String),
}

/// The text of a status message.
pub open spec fn status_text_spec(s: EditorStatus) -> Seq<char> {
    match s {
        EditorStatus::PreviewPaused(e) => "Preview paused · "@ + e@,
        EditorStatus::Importing(n) => "Importing "@ + n@ + "…"@,
        EditorStatus::ImportFailed(e) => "Unable to import asset · "@ + e@,
        EditorStatus::Imported(n) => "Imported "@ + n@ + " · save when ready"@,
        EditorStatus::InsertFailed => "Unable to insert the imported asset into this presentation"@,
        EditorStatus::Saved => "Saved · live preview remains local"@,
        EditorStatus::SaveFailed(e) => "Unable to save · "@ + e@,
        EditorStatus::ExternalChangeRefused => "External change detected · save refused"@,
        EditorStatus::ExternalChangeReloaded => "Reloaded external change"@,
        EditorStatus::ExternalChangeFailed(e) => "External change · "@ + e@,
        EditorStatus::TimingsApplied => "Timings applied · save when ready"@,
        EditorStatus::TimingsFailed(e) => "Unable to apply timings · "@ + e@,
        EditorStatus::RehearsalStarted => "Rehearsal started · timings will update this buffer"@,
        EditorStatus::RehearsalFailed(e) => "Unable to start rehearsal · "@ + e@,
    }
}

impl EditorStatus {
    /// The message shown.
    pub fn text(&self) -> (t: String)
        ensures
            t@ == status_text_spec(*self),
    {
        match self {
            EditorStatus::PreviewPaused(e) => status_with("Preview paused · ", e.as_str()),
            EditorStatus::Importing(n) => {
                let mut v = chars_of("Importing ");
                append_str(&mut v, n.as_str());
                append_str(&mut v, "…");
                string_of(&v)
            },
            EditorStatus::ImportFailed(e) => status_with("Unable to import asset · ", e.as_str()),
            EditorStatus::Imported(n) => {
                let mut v = chars_of("Imported ");
                append_str(&mut v, n.as_str());
                append_str(&mut v, " · save when ready");
                string_of(&v)
            },
            EditorStatus::InsertFailed => owned("Unable to insert the imported asset into this presentation"),
            EditorStatus::Saved => owned("Saved · live preview remains local"),
            EditorStatus::SaveFailed(e) => status_with("Unable to save · ", e.as_str()),
            EditorStatus::ExternalChangeRefused => owned("External change detected · save refused"),
            EditorStatus::ExternalChangeReloaded => owned("Reloaded external change"),
            EditorStatus::ExternalChangeFailed(e) => status_with("External change · ", e.as_str()),
            EditorStatus::TimingsApplied => owned("Timings applied · save when ready"),
            EditorStatus::TimingsFailed(e) => status_with("Unable to apply timings · ", e.as_str()),
            EditorStatus::RehearsalStarted => owned("Rehearsal started · timings will update this buffer"),
            EditorStatus::RehearsalFailed(e) => status_with("Unable to start rehearsal · ", e.as_str()),
        }
    }
}

/// What the editor does when the file changed outside it.
#[derive(Clone, Debug)]
pub enum ExternalChange {
    /// The buffer has unsaved edits: nothing is loaded and saving is refused.
    Refuse,
    /// The file holds other text: the buffer takes it, unmodified, and the
    /// preview is parsed again.
    Reload { source: String, etag: Option<String> },
    /// The file holds the saved text: only its entity tag is kept.
    KeepEtag(Option<String>),
    /// The file could not be read.
    Failed(String),
}

pub open spec fn opt_chars(s: Option<String>) -> Option<Seq<char>> {
    match s {
        Some(s) => Some(s@),
        None => None,
    }
}

/// Decides what an outside change does: `modified` tells whether the buffer
/// has unsaved edits, `loaded` is what reading the file gave (its text and
/// entity tag), and `saved` the text last saved or loaded.
pub fn external_change(modified: bool, loaded: Result<(String, Option<String>), String>, saved: &str) -> (r: ExternalChange)
    ensures
        modified ==> r is Refuse,
        !modified ==> match loaded {
            Ok((source, etag)) => if source@ != saved@ {
                r matches ExternalChange::Reload { source: s, etag: e } && s@ == source@ && opt_chars(e) == opt_chars(etag)
            } else {
                r matches ExternalChange::KeepEtag(e) && opt_chars(e) == opt_chars(etag)
            },
            Err(error) => r matches ExternalChange::Failed(e) && e@ == error@,
        },
{
    if modified {
        return ExternalChange::Refuse;
    }
    match loaded {
        Ok((source, etag)) => {
            let text = chars_of(source.as_str());
            if eq_str(&text, saved) {
                ExternalChange::KeepEtag(etag)
            } else {
                ExternalChange::Reload { source, etag }
            }
        },
        Err(error) => ExternalChange::Failed(error),
    }
}

/// The kinds of file-monitor events.
#[derive(Clone, Copy, Debug, PartialEq, Eq, Structural)]
pub enum FileEvent {
    Changed,
    ChangesDoneHint,
    Renamed,
    Deleted,
    Created,
    AttributeChanged,
    Other,
}

/// Whether a monitor event may have changed the file's text.
pub fn relevant_file_event(event: FileEvent) -> (r: bool)
    ensures
        r == (event == FileEvent::Changed || event == FileEvent::ChangesDoneHint || event == FileEvent::Renamed),
{
    match event {
        FileEvent::Changed | FileEvent::ChangesDoneHint | FileEvent::Renamed => true,
        _ => false,
    }
}

} // verus!
