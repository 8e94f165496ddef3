//! What the MPRIS remote-control interface reports and accepts: the
//! presentation is a player whose tracks are slides.
use vstd::prelude::*;
use crate::text::{append_chars, append_str, chars_of, decimal, decimal_chars, eq_str, string_of, trim_start_matches, trim_start_str};

verus! {

/// A request from a remote control.
#[derive(Clone, Copy, Debug, PartialEq, Eq, Structural)]
pub enum Command {
    Next,
    Previous,
    Fullscreen(bool),
}

/// What the remote control sees.
#[derive(Clone, Copy, Debug, PartialEq, Eq, Structural)]
pub struct State {
    pub presenting: bool,
    pub slide: usize,
    pub slides: usize,
    pub fullscreen: bool,
}

impl State {
    /// There is a next slide to go to.
    pub fn can_next(&self) -> (r: bool)
        ensures
            r == (self.presenting && self.slide + 1 < self.slides),
    {
        self.presenting && self.slide < usize::MAX && self.slide + 1 < self.slides
    }

    /// There is a previous slide to go to.
    pub fn can_previous(&self) -> (r: bool)
        ensures
            r == (self.presenting && self.slide > 0),
    {
        self.presenting && self.slide > 0
    }

    /// The track metadata: the slide's track id, a "Slide n of m" title and
    /// the album, while a presentation with slides is shown.
    pub fn metadata(&self) -> (m: Option<Metadata>)
        requires
            self.slide < usize::MAX,
        ensures
            (self.presenting && self.slides > 0) ==> (m matches Some(d) && metadata_spec(*self, d)),
            !(self.presenting && self.slides > 0) ==> m is None,
    {
        if !(self.presenting && self.slides > 0) {
            return None;
        }
        let number = decimal_chars(self.slide as u64 + 1);
        let mut track = chars_of("/com/nedrichards/pinpoint/Slide/s");
        append_chars(&mut track, &number);
        let mut title = chars_of("Slide ");
        append_chars(&mut title, &number);
        append_str(&mut title, " of ");
        let total = decimal_chars(self.slides as u64);
        append_chars(&mut title, &total);
        Some(Metadata {
            track_id: string_of(&track),
            title: string_of(&title),
            album: crate::text::owned("Pinpoint presentation"),
        })
    }
}

/// `d` is the metadata of the slide `state` shows: its track id, its
/// "Slide n of m" title and the album.
pub open spec fn metadata_spec(state: State, d: Metadata) -> bool {
    &&& d.track_id@ == "/com/nedrichards/pinpoint/Slide/s"@ + decimal(state.slide as nat + 1)
    &&& d.title@ == "Slide "@ + decimal(state.slide as nat + 1) + " of "@ + decimal(state.slides as nat)
    &&& d.album@ == "Pinpoint presentation"@
}

/// The metadata of the current track.
#[derive(Clone, Debug)]
pub struct Metadata {
    pub track_id: String,
    pub title: String,
    pub album: String,
}

/// The bus name: "org.mpris.MediaPlayer2.<application id>.instance_<n>",
/// where `n` is the connection's unique name without leading colons and
/// with '.' and '-' turned into '_'.
pub open spec fn bus_name_spec(application_id: Seq<char>, unique_name: Seq<char>) -> Seq<char> {
    "org.mpris.MediaPlayer2."@ + application_id + ".instance_"@
        + trim_start_matches(unique_name, ":"@).map_values(|c: char| if c == '.' || c == '-' { '_' } else { c })
}

/// The well-known name under which the presentation offers remote control.
pub fn bus_name(application_id: &str, unique_name: &str) -> (n: String)
    ensures
        n@ == bus_name_spec(application_id@, unique_name@),
{
    let u = chars_of(unique_name);
    let trimmed = trim_start_str(&u, ":");
    let mut instance: Vec<char> = Vec::new();
    let mut i: usize = 0;
    while i < trimmed.len()
        invariant
            i <= trimmed@.len(),
            instance@ == trimmed@.take(i as int).map_values(|c: char| if c == '.' || c == '-' { '_' } else { c }),
        decreases trimmed@.len() - i,
    {
        let c = trimmed[i];
        instance.push(if c == '.' || c == '-' { '_' } else { c });
        i += 1;
        assert(instance@ =~= trimmed@.take(i as int).map_values(|c: char| if c == '.' || c == '-' { '_' } else { c }));
    }
    assert(trimmed@.take(i as int) =~= trimmed@);
    let mut v = chars_of("org.mpris.MediaPlayer2.");
    append_str(&mut v, application_id);
    append_str(&mut v, ".instance_");
    append_chars(&mut v, &instance);
    string_of(&v)
}

/// The error for a bus name another process owns.
pub fn name_taken_message(bus_name: &str) -> (m: String)
    ensures
        m@ == "MPRIS name "@ + bus_name@ + " is already owned"@,
{
    let mut v = chars_of("MPRIS name ");
    append_str(&mut v, bus_name);
    append_str(&mut v, " is already owned");
    string_of(&v)
}

/// How a method call on the interface is answered.
#[derive(Clone, Copy, Debug, PartialEq, Eq, Structural)]
pub enum Reply {
    /// Acknowledge the call, first carrying out the command where there is one.
    Done(Option<Command>),
    /// Refuse the call as not meaningful for a presentation.
    NotSupported,
}

/// The root interface acknowledges Raise and Quit and refuses the rest.
pub fn root_method(method: &str) -> (r: Reply)
    ensures
        (method@ == "Raise"@ || method@ == "Quit"@) ==> r == Reply::Done(None),
        !(method@ == "Raise"@ || method@ == "Quit"@) ==> r == Reply::NotSupported,
{
    let m = chars_of(method);
    if eq_str(&m, "Raise") || eq_str(&m, "Quit") {
        Reply::Done(None)
    } else {
        Reply::NotSupported
    }
}

/// The player interface: Next and Previous move where they can and are
/// acknowledged either way; other methods are refused.
pub fn player_method(state: &State, method: &str) -> (r: Reply)
    ensures
        r == (if method@ == "Next"@ {
            Reply::Done(if state.presenting && state.slide + 1 < state.slides { Some(Command::Next) } else { None })
        } else if method@ == "Previous"@ {
            Reply::Done(if state.presenting && state.slide > 0 { Some(Command::Previous) } else { None })
        } else {
            Reply::NotSupported
        }),
{
    let m = chars_of(method);
    if eq_str(&m, "Next") {
        if state.can_next() { Reply::Done(Some(Command::Next)) } else { Reply::Done(None) }
    } else if eq_str(&m, "Previous") {
        if state.can_previous() { Reply::Done(Some(Command::Previous)) } else { Reply::Done(None) }
    } else {
        Reply::NotSupported
    }
}

/// A property write on the root interface: only Fullscreen, with a boolean,
/// while presenting. `value` is the written value where it is a boolean.
pub fn set_root_property(state: &State, property: &str, value: Option<bool>) -> (c: Option<Command>)
    ensures
        c == (if property@ == "Fullscreen"@ && value is Some && state.presenting {
            Some(Command::Fullscreen(value->Some_0))
        } else {
            None
        }),
{
    let p = chars_of(property);
    if eq_str(&p, "Fullscreen") && state.presenting {
        match value {
            Some(v) => Some(Command::Fullscreen(v)),
            None => None,
        }
    } else {
        None
    }
}

/// The value of a property.
#[derive(Clone, Debug)]
pub enum Property {
    Bool(bool),
    Text(String),
    /// An empty list of strings.
    NoStrings,
    /// The track metadata (an empty dictionary for `None`).
    Metadata(Option<Metadata>),
    /// The rate and volume: one.
    Unit,
    /// The position: zero.
    Origin,
}

/// A property value, its text as characters and its metadata left out.
pub enum PropertyView {
    Bool(bool),
    Text(Seq<char>),
    NoStrings,
    Metadata,
    Unit,
    Origin,
}

pub open spec fn property_view(p: Property) -> PropertyView {
    match p {
        Property::Bool(b) => PropertyView::Bool(b),
        Property::Text(t) => PropertyView::Text(t@),
        Property::NoStrings => PropertyView::NoStrings,
        Property::Metadata(_) => PropertyView::Metadata,
        Property::Unit => PropertyView::Unit,
        Property::Origin => PropertyView::Origin,
    }
}

/// The root interface's properties: its identity and desktop entry, no URI
/// schemes or MIME types, and the fullscreen state, which may be set while
/// presenting; anything else reads false.
pub open spec fn root_property_spec(state: State, property: Seq<char>) -> PropertyView {
    if property == "Identity"@ {
        PropertyView::Text("Pinpoint"@)
    } else if property == "DesktopEntry"@ {
        PropertyView::Text("com.nedrichards.pinpoint"@)
    } else if property == "SupportedUriSchemes"@ || property == "SupportedMimeTypes"@ {
        PropertyView::NoStrings
    } else if property == "Fullscreen"@ {
        PropertyView::Bool(state.fullscreen)
    } else if property == "CanSetFullscreen"@ {
        PropertyView::Bool(state.presenting)
    } else {
        PropertyView::Bool(false)
    }
}

/// The value of a property of the root interface.
pub fn root_property(state: &State, property: &str) -> (v: Property)
    ensures
        property_view(v) == root_property_spec(*state, property@),
{
    let p = chars_of(property);
    if eq_str(&p, "Identity") {
        Property::Text(crate::text::owned("Pinpoint"))
    } else if eq_str(&p, "DesktopEntry") {
        Property::Text(crate::text::owned("com.nedrichards.pinpoint"))
    } else if eq_str(&p, "SupportedUriSchemes") || eq_str(&p, "SupportedMimeTypes") {
        Property::NoStrings
    } else if eq_str(&p, "Fullscreen") {
        Property::Bool(state.fullscreen)
    } else if eq_str(&p, "CanSetFullscreen") {
        Property::Bool(state.presenting)
    } else {
        Property::Bool(false)
    }
}

/// The player interface's properties: a stopped player without looping
/// whose track is the slide, which can go next or back where the slides
/// allow, at unit rate and position zero; anything else reads false.
pub open spec fn player_property_spec(state: State, property: Seq<char>) -> PropertyView {
    if property == "PlaybackStatus"@ {
        PropertyView::Text("Stopped"@)
    } else if property == "LoopStatus"@ {
        PropertyView::Text("None"@)
    } else if property == "Metadata"@ {
        PropertyView::Metadata
    } else if property == "CanGoNext"@ {
        PropertyView::Bool(state.presenting && state.slide + 1 < state.slides)
    } else if property == "CanGoPrevious"@ {
        PropertyView::Bool(state.presenting && state.slide > 0)
    } else if property == "CanControl"@ {
        PropertyView::Bool(state.presenting)
    } else if property == "Rate"@ || property == "Volume"@ || property == "MinimumRate"@ || property == "MaximumRate"@ {
        PropertyView::Unit
    } else if property == "Position"@ {
        PropertyView::Origin
    } else {
        PropertyView::Bool(false)
    }
}

/// The value of a property of the player interface.
pub fn player_property(state: &State, property: &str) -> (v: Property)
    requires
        state.slide < usize::MAX,
    ensures
        property_view(v) == player_property_spec(*state, property@),
        v matches Property::Metadata(m) ==> (m is Some <==> (state.presenting && state.slides > 0)),
        v matches Property::Metadata(Some(d)) ==> metadata_spec(*state, d),
{
    let p = chars_of(property);
    if eq_str(&p, "PlaybackStatus") {
        Property::Text(crate::text::owned("Stopped"))
    } else if eq_str(&p, "LoopStatus") {
        Property::Text(crate::text::owned("None"))
    } else if eq_str(&p, "Metadata") {
        Property::Metadata(state.metadata())
    } else if eq_str(&p, "CanGoNext") {
        Property::Bool(state.can_next())
    } else if eq_str(&p, "CanGoPrevious") {
        Property::Bool(state.can_previous())
    } else if eq_str(&p, "CanControl") {
        Property::Bool(state.presenting)
    } else if eq_str(&p, "Rate") || eq_str(&p, "Volume") || eq_str(&p, "MinimumRate") || eq_str(&p, "MaximumRate") {
        Property::Unit
    } else if eq_str(&p, "Position") {
        Property::Origin
    } else {
        Property::Bool(false)
    }
}

} // verus!
