//! The slides of a presentation as the presentation logic reads them.
use vstd::prelude::*;
use crate::text::owned;

verus! {

/// What fills a slide's background.
#[derive(Clone, Copy, Debug, PartialEq, Eq, Structural)]
pub enum BackgroundType {
    /// No background is set.
    Unset,
    Color,
    Image,
    Svg,
    Video,
    Camera,
}

/// Which sides of a slide change a slide's transition applies to.
#[derive(Clone, Copy, Debug, PartialEq, Eq, Structural)]
pub enum TransitionMode {
    /// The slide animates both when it arrives and when it leaves.
    Both,
    /// The slide animates only when it arrives.
    In,
    /// The slide animates only when it leaves.
    Out,
}

/// The durations, in milliseconds, that a legacy transition definition gives
/// for each side and direction of a slide change.
#[derive(Clone, Copy, Debug, PartialEq, Eq, Structural)]
pub struct LegacyTiming {
    pub incoming_forward: u32,
    pub incoming_backward: u32,
    pub outgoing_forward: u32,
    pub outgoing_backward: u32,
}

impl LegacyTiming {
    /// The duration for the given side and direction.
    pub fn duration(&self, incoming: bool, backwards: bool) -> (ms: u32)
        ensures
            ms == self.duration_spec(incoming, backwards),
    {
        if incoming {
            if backwards { self.incoming_backward } else { self.incoming_forward }
        } else {
            if backwards { self.outgoing_backward } else { self.outgoing_forward }
        }
    }

    pub open spec fn duration_spec(&self, incoming: bool, backwards: bool) -> u32 {
        if incoming {
            if backwards { self.incoming_backward } else { self.incoming_forward }
        } else {
            if backwards { self.outgoing_backward } else { self.outgoing_forward }
        }
    }
}

/// One slide.
#[derive(Clone, Debug)]
pub struct Slide {
    /// The transition's name; empty for none.
    pub transition: String,
    pub transition_mode: TransitionMode,
    /// An explicit duration in milliseconds; 0 asks for the transition's default.
    pub transition_duration_ms: u32,
    pub background_type: BackgroundType,
    /// The background asset or colour, as written in the presentation.
    pub background: Option<String>,
    /// The audience text.
    pub text: Option<String>,
    /// The text is Pango markup.
    pub use_markup: bool,
    /// A description of the slide's visuals for assistive technology.
    pub visual_description: Option<String>,
    /// A shell command attached to the slide.
    pub command: Option<String>,
    /// Notes shown to the speaker only.
    pub speaker_notes: Option<String>,
}

impl Slide {
    /// A plain slide with the named transition on both sides, its default
    /// duration, no background, no text and no command.
    pub fn with_transition(name: &str) -> (s: Slide)
        ensures
            s.transition@ == name@,
            s.transition_mode == TransitionMode::Both,
            s.transition_duration_ms == 0,
            s.background_type == BackgroundType::Unset,
            s.background is None,
            s.text is None,
            s.use_markup,
            s.visual_description is None,
            s.command is None,
            s.speaker_notes is None,
    {
        Slide {
            transition: owned(name),
            transition_mode: TransitionMode::Both,
            transition_duration_ms: 0,
            background_type: BackgroundType::Unset,
            background: None,
            text: None,
            use_markup: true,
            visual_description: None,
            command: None,
            speaker_notes: None,
        }
    }
}

} // verus!
