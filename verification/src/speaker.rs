//! Speaker view decisions: which displays show the audience and the
//! presenter, the slide previews, and the clock text.
use vstd::prelude::*;
use crate::text::{
    append_chars, append_str, chars_of, decimal, decimal_chars, eq_chars, has_prefix, owned, starts_with_str, string_of,
};

verus! {

/// A connector of a display built into the machine: eDP, LVDS or DSI.
pub open spec fn builtin_connector(connector: Seq<char>) -> bool {
    has_prefix(connector, "eDP"@) || has_prefix(connector, "LVDS"@) || has_prefix(connector, "DSI"@)
}

pub open spec fn opt_chars(s: Option<&str>) -> Option<Seq<char>> {
    match s {
        Some(s) => Some(s@),
        None => None,
    }
}

/// Whether a display with this connector name is built in.
pub fn monitor_is_builtin(connector: Option<&str>) -> (r: bool)
    ensures
        r == (connector matches Some(c) && builtin_connector(c@)),
{
    match connector {
        Some(c) => {
            let v = chars_of(c);
            starts_with_str(&v, "eDP") || starts_with_str(&v, "LVDS") || starts_with_str(&v, "DSI")
        },
        None => false,
    }
}

/// The name shown for a display: its connector, else its model, else `fallback`.
pub fn monitor_name(connector: Option<&str>, model: Option<&str>, fallback: &str) -> (name: String)
    ensures
        name@ == match opt_chars(connector) {
            Some(c) => c,
            None => match opt_chars(model) {
                Some(m) => m,
                None => fallback@,
            },
        },
{
    match connector {
        Some(c) => crate::text::owned(c),
        None => match model {
            Some(m) => crate::text::owned(m),
            None => crate::text::owned(fallback),
        },
    }
}

/// A connected display: an identity, its name, and whether it is built in.
#[derive(Clone, Debug)]
pub struct MonitorInfo {
    pub id: u64,
    pub name: String,
    pub builtin: bool,
}

/// The displays chosen for the presenter and for the audience.
#[derive(Clone, Copy, Debug, PartialEq, Eq, Structural)]
pub struct DisplaySelection {
    pub presenter: Option<u64>,
    pub audience: Option<u64>,
}

/// The first position of `id` in `monitors`.
pub open spec fn first_index(monitors: Seq<u64>, id: u64) -> Option<int>
    decreases monitors.len(),
{
    if monitors.len() == 0 {
        None
    } else if monitors[0] == id {
        Some(0)
    } else {
        match first_index(monitors.drop_first(), id) {
            Some(k) => Some(k + 1),
            None => None,
        }
    }
}

/// The position of `selected` among `monitors` (as a `u32`, as the display
/// model counts), if it is one of them.
pub fn monitor_index(monitors: &Vec<u64>, selected: Option<u64>) -> (r: Option<u32>)
    ensures
        r == match selected {
            Some(s) => match first_index(monitors@, s) {
                Some(k) => Some(k as u32),
                None => None,
            },
            None => None,
        },
{
    let s = match selected {
        Some(s) => s,
        None => return None,
    };
    let mut i: usize = 0;
    assert(monitors@.skip(0) =~= monitors@);
    while i < monitors.len()
        invariant
            i <= monitors@.len(),
            selected == Some(s),
            first_index(monitors@, s) == match first_index(monitors@.skip(i as int), s) {
                Some(k) => Some(k + i),
                None => None,
            },
        decreases monitors@.len() - i,
    {
        assert(monitors@.skip(i as int).drop_first() =~= monitors@.skip(i + 1));
        if monitors[i] == s {
            assert(monitors@.skip(i as int)[0] == s);
            assert(first_index(monitors@, s) == Some(i as int));
            return Some(i as u32);
        }
        i += 1;
    }
    None
}

/// The first display of `monitors` from position `from` that satisfies
/// the choice: not `excluded`, and built in where `builtin_only`.
pub open spec fn first_other(monitors: Seq<MonitorInfo>, excluded: u64, builtin_only: bool) -> Option<u64>
    decreases monitors.len(),
{
    if monitors.len() == 0 {
        None
    } else if monitors[0].id != excluded && (!builtin_only || monitors[0].builtin) {
        Some(monitors[0].id)
    } else {
        first_other(monitors.drop_first(), excluded, builtin_only)
    }
}

/// The first display named `name`.
pub open spec fn first_named(monitors: Seq<MonitorInfo>, name: Seq<char>) -> Option<u64>
    decreases monitors.len(),
{
    if monitors.len() == 0 {
        None
    } else if monitors[0].name@ == name {
        Some(monitors[0].id)
    } else {
        first_named(monitors.drop_first(), name)
    }
}

fn find_named(monitors: &Vec<MonitorInfo>, name: &str) -> (r: Option<u64>)
    ensures
        r == first_named(monitors@, name@),
{
    let target = chars_of(name);
    let mut i: usize = 0;
    assert(monitors@.skip(0) =~= monitors@);
    while i < monitors.len()
        invariant
            i <= monitors@.len(),
            target@ == name@,
            first_named(monitors@, name@) == first_named(monitors@.skip(i as int), name@),
        decreases monitors@.len() - i,
    {
        assert(monitors@.skip(i as int).drop_first() =~= monitors@.skip(i + 1));
        let candidate = chars_of(monitors[i].name.as_str());
        if eq_chars(&candidate, &target) {
            return Some(monitors[i].id);
        }
        i += 1;
    }
    None
}

fn find_other(monitors: &Vec<MonitorInfo>, excluded: u64, builtin_only: bool) -> (r: Option<u64>)
    ensures
        r == first_other(monitors@, excluded, builtin_only),
{
    let mut i: usize = 0;
    assert(monitors@.skip(0) =~= monitors@);
    while i < monitors.len()
        invariant
            i <= monitors@.len(),
            first_other(monitors@, excluded, builtin_only) == first_other(monitors@.skip(i as int), excluded, builtin_only),
        decreases monitors@.len() - i,
    {
        assert(monitors@.skip(i as int).drop_first() =~= monitors@.skip(i + 1));
        if monitors[i].id != excluded && (!builtin_only || monitors[i].builtin) {
            return Some(monitors[i].id);
        }
        i += 1;
    }
    None
}

/// The selection after the audience was asked to go to the display named
/// `name`: the presenter gets another display, a built-in one where there is
/// one. Nothing changes where no display has that name.
pub open spec fn prefer_audience_spec(monitors: Seq<MonitorInfo>, name: Seq<char>) -> Option<DisplaySelection> {
    match first_named(monitors, name) {
        None => None,
        Some(audience) => Some(DisplaySelection {
            presenter: match first_other(monitors, audience, true) {
                Some(p) => Some(p),
                None => first_other(monitors, audience, false),
            },
            audience: Some(audience),
        }),
    }
}

/// Chooses the displays for an audience display asked for by name.
pub fn prefer_audience_monitor(monitors: &Vec<MonitorInfo>, name: &str) -> (r: Option<DisplaySelection>)
    ensures
        r == prefer_audience_spec(monitors@, name@),
{
    let audience = match find_named(monitors, name) {
        Some(a) => a,
        None => return None,
    };
    let presenter = match find_other(monitors, audience, true) {
        Some(p) => Some(p),
        None => find_other(monitors, audience, false),
    };
    Some(DisplaySelection { presenter, audience: Some(audience) })
}

proof fn lemma_first_other_differs(monitors: Seq<MonitorInfo>, excluded: u64, builtin_only: bool)
    ensures
        first_other(monitors, excluded, builtin_only) != Some(excluded),
    decreases monitors.len(),
{
    if monitors.len() > 0 {
        lemma_first_other_differs(monitors.drop_first(), excluded, builtin_only);
    }
}

/// The presenter never gets the display chosen for the audience.
pub proof fn law_presenter_and_audience_differ(monitors: Seq<MonitorInfo>, name: Seq<char>)
    requires
        prefer_audience_spec(monitors, name) is Some,
    ensures
        prefer_audience_spec(monitors, name)->Some_0.presenter != prefer_audience_spec(monitors, name)->Some_0.audience,
{
    let audience = first_named(monitors, name)->Some_0;
    lemma_first_other_differs(monitors, audience, true);
    lemma_first_other_differs(monitors, audience, false);
}

/// The selection with the two displays exchanged, where both are chosen.
pub open spec fn swap_spec(s: DisplaySelection) -> Option<DisplaySelection> {
    if s.presenter is Some && s.audience is Some {
        Some(DisplaySelection { presenter: s.audience, audience: s.presenter })
    } else {
        None
    }
}

/// Exchanges the audience and presenter displays; `None` where either is
/// not chosen.
pub fn swap_displays(selection: DisplaySelection) -> (r: Option<DisplaySelection>)
    ensures
        r == swap_spec(selection),
{
    if selection.presenter.is_some() && selection.audience.is_some() {
        Some(DisplaySelection { presenter: selection.audience, audience: selection.presenter })
    } else {
        None
    }
}

/// Swapping twice restores the selection.
pub proof fn law_swap_twice_restores(s: DisplaySelection)
    requires
        swap_spec(s) is Some,
    ensures
        swap_spec(swap_spec(s)->Some_0) == Some(s),
{
}

/// The slides the three previews show.
#[derive(Clone, Copy, Debug, PartialEq, Eq, Structural)]
pub struct Previews {
    pub previous: Option<usize>,
    pub current: usize,
    pub next: Option<usize>,
}

/// The previews around slide `current` of `count`: the one before where
/// there is one, the current one, and the one after where there is one.
pub fn previews(current: usize, count: usize) -> (p: Previews)
    ensures
        p.previous == (if current > 0 { Some((current - 1) as usize) } else { None }),
        p.current == current,
        p.next == (if current + 1 < count { Some((current + 1) as usize) } else { None }),
{
    Previews {
        previous: if current > 0 { Some(current - 1) } else { None },
        current,
        next: if current < usize::MAX && current + 1 < count { Some(current + 1) } else { None },
    }
}

/// "Slide <current + 1> of <count>".
pub fn position_label(current: usize, count: usize) -> (s: String)
    requires
        current < usize::MAX,
    ensures
        s@ == "Slide "@ + decimal(current as nat + 1) + " of "@ + decimal(count as nat),
{
    let mut v = chars_of("Slide ");
    let n = decimal_chars(current as u64 + 1);
    append_chars(&mut v, &n);
    append_str(&mut v, " of ");
    let c = decimal_chars(count as u64);
    append_chars(&mut v, &c);
    string_of(&v)
}

/// The digits of `n` with a leading zero below ten.
pub open spec fn two_digits(n: nat) -> Seq<char> {
    if n < 10 { "0"@ + decimal(n) } else { decimal(n) }
}

/// A clock reading of `seconds` whole seconds: minutes, a colon and two
/// digits of seconds, with a minus sign (U+2212) when negative.
pub open spec fn format_time_spec(seconds: i64) -> Seq<char> {
    let magnitude: nat = if seconds < 0 { (-(seconds as int)) as nat } else { seconds as nat };
    (if seconds < 0 { "−"@ } else { ""@ }) + decimal(magnitude / 60) + ":"@ + two_digits(magnitude % 60)
}

/// Formats a remaining time, already rounded to whole seconds.
pub fn format_time(seconds: i64) -> (s: String)
    ensures
        s@ == format_time_spec(seconds),
{
    let magnitude: u64 = if seconds < 0 {
        if seconds == i64::MIN { 9223372036854775808u64 } else { (-seconds) as u64 }
    } else {
        seconds as u64
    };
    let mut v: Vec<char> = Vec::new();
    if seconds < 0 {
        append_str(&mut v, "−");
    } else {
        proof {
            reveal_strlit("");
        }
    }
    let ghost head = v@;
    assert(head == (if seconds < 0 { "−"@ } else { ""@ }));
    let m = decimal_chars(magnitude / 60);
    append_chars(&mut v, &m);
    append_str(&mut v, ":");
    let rest = magnitude % 60;
    if rest < 10 {
        append_str(&mut v, "0");
    }
    let d = decimal_chars(rest);
    append_chars(&mut v, &d);
    assert(v@ =~= format_time_spec(seconds));
    string_of(&v)
}

/// What the speaker view does after asking the audience stage for the next
/// slide.
#[derive(Clone, Copy, Debug, PartialEq, Eq, Structural)]
pub enum NextStep {
    /// The slide changed: time the old slide, start timing the new one, and
    /// refresh the views.
    Moved,
    /// The last slide was passed during a rehearsal: it ends.
    FinishRehearsal,
    /// The last slide was passed while advancing automatically: that stops.
    StopAutoadvance,
    /// Nothing happens.
    Stay,
}

/// The step after a request for the next slide.
pub fn next_step(changed: bool, rehearsal_active: bool, autoadvance: bool) -> (s: NextStep)
    ensures
        s == (if changed {
            NextStep::Moved
        } else if rehearsal_active {
            NextStep::FinishRehearsal
        } else if autoadvance {
            NextStep::StopAutoadvance
        } else {
            NextStep::Stay
        }),
{
    if changed {
        NextStep::Moved
    } else if rehearsal_active {
        NextStep::FinishRehearsal
    } else if autoadvance {
        NextStep::StopAutoadvance
    } else {
        NextStep::Stay
    }
}

/// A rehearsal records a slide's time only for the slide it is timing.
pub fn rehearsal_slide_check(timed_slide: usize, expected_slide: usize) -> (r: Result<(), String>)
    ensures
        timed_slide == expected_slide ==> r is Ok,
        timed_slide != expected_slide ==> (r matches Err(e)
            && e@ == "rehearsal timing did not match the current presentation slide"@),
{
    if timed_slide == expected_slide {
        Ok(())
    } else {
        Err(owned("rehearsal timing did not match the current presentation slide"))
    }
}

/// A rehearsal needs the presentation's source to write its timings back.
pub fn rehearsal_source_check(source_available: bool) -> (r: Result<(), String>)
    ensures
        source_available ==> r is Ok,
        !source_available ==> (r matches Err(e)
            && e@ == "the presentation source is unavailable for rehearsal writeback"@),
{
    if source_available {
        Ok(())
    } else {
        Err(owned("the presentation source is unavailable for rehearsal writeback"))
    }
}

} // verus!
