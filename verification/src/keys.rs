//! What keys and pointer buttons do while presenting, in the audience
//! window and in the speaker view. Keys are given by their key names.
use vstd::prelude::*;
use crate::text::{chars_of, eq_str};

verus! {

/// What a key or button asks for.
#[derive(Clone, Copy, Debug, PartialEq, Eq, Structural)]
pub enum Action {
    Next,
    Previous,
    First,
    Last,
    ToggleBlank,
    RetryCamera,
    ToggleFullscreen,
    /// Review or run the slide's command.
    RunCommand,
    Close,
    /// Exchange the audience and speaker displays.
    SwapDisplays,
    /// Show or hide the speaker window.
    ToggleSpeakerWindow,
}

/// The audience window's keys.
pub open spec fn presentation_key_spec(k: Seq<char>) -> Option<Action> {
    if k == "Right"@ || k == "Down"@ || k == "space"@ || k == "Page_Down"@ {
        Some(Action::Next)
    } else if k == "Left"@ || k == "Up"@ || k == "BackSpace"@ || k == "Page_Up"@ {
        Some(Action::Previous)
    } else if k == "Home"@ || k == "h"@ || k == "H"@ {
        Some(Action::First)
    } else if k == "End"@ {
        Some(Action::Last)
    } else if k == "b"@ || k == "B"@ {
        Some(Action::ToggleBlank)
    } else if k == "c"@ || k == "C"@ {
        Some(Action::RetryCamera)
    } else if k == "F11"@ || k == "f"@ || k == "F"@ {
        Some(Action::ToggleFullscreen)
    } else if k == "Return"@ || k == "KP_Enter"@ {
        Some(Action::RunCommand)
    } else if k == "Escape"@ || k == "q"@ || k == "Q"@ {
        Some(Action::Close)
    } else {
        None
    }
}

/// The action of the key named `key` in the audience window, if it has one.
pub fn presentation_key_action(key: &str) -> (a: Option<Action>)
    ensures
        a == presentation_key_spec(key@),
{
    let k = chars_of(key);
    if eq_str(&k, "Right") || eq_str(&k, "Down") || eq_str(&k, "space") || eq_str(&k, "Page_Down") {
        Some(Action::Next)
    } else if eq_str(&k, "Left") || eq_str(&k, "Up") || eq_str(&k, "BackSpace") || eq_str(&k, "Page_Up") {
        Some(Action::Previous)
    } else if eq_str(&k, "Home") || eq_str(&k, "h") || eq_str(&k, "H") {
        Some(Action::First)
    } else if eq_str(&k, "End") {
        Some(Action::Last)
    } else if eq_str(&k, "b") || eq_str(&k, "B") {
        Some(Action::ToggleBlank)
    } else if eq_str(&k, "c") || eq_str(&k, "C") {
        Some(Action::RetryCamera)
    } else if eq_str(&k, "F11") || eq_str(&k, "f") || eq_str(&k, "F") {
        Some(Action::ToggleFullscreen)
    } else if eq_str(&k, "Return") || eq_str(&k, "KP_Enter") {
        Some(Action::RunCommand)
    } else if eq_str(&k, "Escape") || eq_str(&k, "q") || eq_str(&k, "Q") {
        Some(Action::Close)
    } else {
        None
    }
}

/// The speaker view's keys: those of the audience window, media keys for
/// next and previous, S to swap displays and F1 for the speaker window.
pub open spec fn speaker_key_spec(k: Seq<char>) -> Option<Action> {
    if k == "Right"@ || k == "Down"@ || k == "space"@ || k == "Page_Down"@ || k == "AudioNext"@ || k == "Forward"@ {
        Some(Action::Next)
    } else if k == "Left"@ || k == "Up"@ || k == "BackSpace"@ || k == "Page_Up"@ || k == "AudioPrev"@ || k == "Back"@ {
        Some(Action::Previous)
    } else if k == "Home"@ || k == "h"@ || k == "H"@ {
        Some(Action::First)
    } else if k == "End"@ {
        Some(Action::Last)
    } else if k == "b"@ || k == "B"@ {
        Some(Action::ToggleBlank)
    } else if k == "c"@ || k == "C"@ {
        Some(Action::RetryCamera)
    } else if k == "s"@ || k == "S"@ {
        Some(Action::SwapDisplays)
    } else if k == "F11"@ || k == "f"@ || k == "F"@ {
        Some(Action::ToggleFullscreen)
    } else if k == "F1"@ {
        Some(Action::ToggleSpeakerWindow)
    } else if k == "Return"@ || k == "KP_Enter"@ {
        Some(Action::RunCommand)
    } else if k == "Escape"@ || k == "q"@ || k == "Q"@ {
        Some(Action::Close)
    } else {
        None
    }
}

/// The action of the key named `key` in the speaker view, if it has one.
pub fn speaker_key_action(key: &str) -> (a: Option<Action>)
    ensures
        a == speaker_key_spec(key@),
{
    let k = chars_of(key);
    if eq_str(&k, "Right") || eq_str(&k, "Down") || eq_str(&k, "space") || eq_str(&k, "Page_Down")
        || eq_str(&k, "AudioNext") || eq_str(&k, "Forward") {
        Some(Action::Next)
    } else if eq_str(&k, "Left") || eq_str(&k, "Up") || eq_str(&k, "BackSpace") || eq_str(&k, "Page_Up")
        || eq_str(&k, "AudioPrev") || eq_str(&k, "Back") {
        Some(Action::Previous)
    } else if eq_str(&k, "Home") || eq_str(&k, "h") || eq_str(&k, "H") {
        Some(Action::First)
    } else if eq_str(&k, "End") {
        Some(Action::Last)
    } else if eq_str(&k, "b") || eq_str(&k, "B") {
        Some(Action::ToggleBlank)
    } else if eq_str(&k, "c") || eq_str(&k, "C") {
        Some(Action::RetryCamera)
    } else if eq_str(&k, "s") || eq_str(&k, "S") {
        Some(Action::SwapDisplays)
    } else if eq_str(&k, "F11") || eq_str(&k, "f") || eq_str(&k, "F") {
        Some(Action::ToggleFullscreen)
    } else if eq_str(&k, "F1") {
        Some(Action::ToggleSpeakerWindow)
    } else if eq_str(&k, "Return") || eq_str(&k, "KP_Enter") {
        Some(Action::RunCommand)
    } else if eq_str(&k, "Escape") || eq_str(&k, "q") || eq_str(&k, "Q") {
        Some(Action::Close)
    } else {
        None
    }
}

/// A click: the primary button advances, the secondary goes back.
pub fn click_action(button: u32) -> (a: Option<Action>)
    ensures
        a == (if button == 1 { Some(Action::Next) } else if button == 3 { Some(Action::Previous) } else { None }),
{
    if button == 1 {
        Some(Action::Next)
    } else if button == 3 {
        Some(Action::Previous)
    } else {
        None
    }
}

/// The characters of the key names bound while presenting.
proof fn lemma_key_names()
    ensures
        "Right"@ == seq!['R', 'i', 'g', 'h', 't'],
        "Down"@ == seq!['D', 'o', 'w', 'n'],
        "space"@ == seq!['s', 'p', 'a', 'c', 'e'],
        "Page_Down"@ == seq!['P', 'a', 'g', 'e', '_', 'D', 'o', 'w', 'n'],
        "AudioNext"@ == seq!['A', 'u', 'd', 'i', 'o', 'N', 'e', 'x', 't'],
        "Forward"@ == seq!['F', 'o', 'r', 'w', 'a', 'r', 'd'],
        "Left"@ == seq!['L', 'e', 'f', 't'],
        "Up"@ == seq!['U', 'p'],
        "BackSpace"@ == seq!['B', 'a', 'c', 'k', 'S', 'p', 'a', 'c', 'e'],
        "Page_Up"@ == seq!['P', 'a', 'g', 'e', '_', 'U', 'p'],
        "AudioPrev"@ == seq!['A', 'u', 'd', 'i', 'o', 'P', 'r', 'e', 'v'],
        "Back"@ == seq!['B', 'a', 'c', 'k'],
        "Home"@ == seq!['H', 'o', 'm', 'e'],
        "h"@ == seq!['h'],
        "H"@ == seq!['H'],
        "End"@ == seq!['E', 'n', 'd'],
        "b"@ == seq!['b'],
        "B"@ == seq!['B'],
        "c"@ == seq!['c'],
        "C"@ == seq!['C'],
        "s"@ == seq!['s'],
        "S"@ == seq!['S'],
        "F11"@ == seq!['F', '1', '1'],
        "f"@ == seq!['f'],
        "F"@ == seq!['F'],
        "F1"@ == seq!['F', '1'],
        "Return"@ == seq!['R', 'e', 't', 'u', 'r', 'n'],
        "KP_Enter"@ == seq!['K', 'P', '_', 'E', 'n', 't', 'e', 'r'],
        "Escape"@ == seq!['E', 's', 'c', 'a', 'p', 'e'],
        "q"@ == seq!['q'],
        "Q"@ == seq!['Q'],
        "Tab"@ == seq!['T', 'a', 'b'],
{
    reveal_strlit("Right");
    assert("Right"@ =~= seq!['R', 'i', 'g', 'h', 't']);
    reveal_strlit("Down");
    assert("Down"@ =~= seq!['D', 'o', 'w', 'n']);
    reveal_strlit("space");
    assert("space"@ =~= seq!['s', 'p', 'a', 'c', 'e']);
    reveal_strlit("Page_Down");
    assert("Page_Down"@ =~= seq!['P', 'a', 'g', 'e', '_', 'D', 'o', 'w', 'n']);
    reveal_strlit("AudioNext");
    assert("AudioNext"@ =~= seq!['A', 'u', 'd', 'i', 'o', 'N', 'e', 'x', 't']);
    reveal_strlit("Forward");
    assert("Forward"@ =~= seq!['F', 'o', 'r', 'w', 'a', 'r', 'd']);
    reveal_strlit("Left");
    assert("Left"@ =~= seq!['L', 'e', 'f', 't']);
    reveal_strlit("Up");
    assert("Up"@ =~= seq!['U', 'p']);
    reveal_strlit("BackSpace");
    assert("BackSpace"@ =~= seq!['B', 'a', 'c', 'k', 'S', 'p', 'a', 'c', 'e']);
    reveal_strlit("Page_Up");
    assert("Page_Up"@ =~= seq!['P', 'a', 'g', 'e', '_', 'U', 'p']);
    reveal_strlit("AudioPrev");
    assert("AudioPrev"@ =~= seq!['A', 'u', 'd', 'i', 'o', 'P', 'r', 'e', 'v']);
    reveal_strlit("Back");
    assert("Back"@ =~= seq!['B', 'a', 'c', 'k']);
    reveal_strlit("Home");
    assert("Home"@ =~= seq!['H', 'o', 'm', 'e']);
    reveal_strlit("h");
    assert("h"@ =~= seq!['h']);
    reveal_strlit("H");
    assert("H"@ =~= seq!['H']);
    reveal_strlit("End");
    assert("End"@ =~= seq!['E', 'n', 'd']);
    reveal_strlit("b");
    assert("b"@ =~= seq!['b']);
    reveal_strlit("B");
    assert("B"@ =~= seq!['B']);
    reveal_strlit("c");
    assert("c"@ =~= seq!['c']);
    reveal_strlit("C");
    assert("C"@ =~= seq!['C']);
    reveal_strlit("s");
    assert("s"@ =~= seq!['s']);
    reveal_strlit("S");
    assert("S"@ =~= seq!['S']);
    reveal_strlit("F11");
    assert("F11"@ =~= seq!['F', '1', '1']);
    reveal_strlit("f");
    assert("f"@ =~= seq!['f']);
    reveal_strlit("F");
    assert("F"@ =~= seq!['F']);
    reveal_strlit("F1");
    assert("F1"@ =~= seq!['F', '1']);
    reveal_strlit("Return");
    assert("Return"@ =~= seq!['R', 'e', 't', 'u', 'r', 'n']);
    reveal_strlit("KP_Enter");
    assert("KP_Enter"@ =~= seq!['K', 'P', '_', 'E', 'n', 't', 'e', 'r']);
    reveal_strlit("Escape");
    assert("Escape"@ =~= seq!['E', 's', 'c', 'a', 'p', 'e']);
    reveal_strlit("q");
    assert("q"@ =~= seq!['q']);
    reveal_strlit("Q");
    assert("Q"@ =~= seq!['Q']);
    reveal_strlit("Tab");
    assert("Tab"@ =~= seq!['T', 'a', 'b']);
}

/// Brings the first characters of a key name into play, which tells the
/// bound names apart.
proof fn lemma_key_shape(k: Seq<char>)
    ensures
        k.len() > 0 ==> k[0] == k[0],
        k.len() > 1 ==> k[1] == k[1],
        k.len() > 2 ==> k[2] == k[2],
        k.len() > 5 ==> k[5] == k[5],
{
}

/// The speaker view keeps every binding of the audience window: a key that
/// does something there does the same in the speaker view.
pub proof fn law_speaker_view_keeps_audience_keys(k: Seq<char>)
    ensures
        presentation_key_spec(k) is Some ==> speaker_key_spec(k) == presentation_key_spec(k),
{
    lemma_key_names();
    lemma_key_shape(k);
    let n = k.len();
    if n > 0 {
        let c0 = k[0];
    }
    if n > 1 {
        let c1 = k[1];
    }
    if n > 5 {
        let c5 = k[5];
    }
}

/// The documented controls: Right, Down, Page Down and Space go to the next
/// slide; Left, Up, Backspace and Page Up to the previous one; Home or H to
/// the first; End to the last; F or F11 toggle fullscreen; B blanks; Return
/// reviews or runs the slide command; Escape or Q closes; in the speaker
/// view S swaps the displays and F1 shows or hides the speaker window; Tab
/// does nothing while presenting.
pub proof fn law_documented_controls(k: Seq<char>)
    ensures
        (k == "Right"@ || k == "Down"@ || k == "Page_Down"@ || k == "space"@)
            ==> presentation_key_spec(k) == Some(Action::Next) && speaker_key_spec(k) == Some(Action::Next),
        (k == "Left"@ || k == "Up"@ || k == "BackSpace"@ || k == "Page_Up"@)
            ==> presentation_key_spec(k) == Some(Action::Previous) && speaker_key_spec(k) == Some(Action::Previous),
        (k == "Home"@ || k == "h"@ || k == "H"@)
            ==> presentation_key_spec(k) == Some(Action::First) && speaker_key_spec(k) == Some(Action::First),
        k == "End"@ ==> presentation_key_spec(k) == Some(Action::Last) && speaker_key_spec(k) == Some(Action::Last),
        (k == "F"@ || k == "f"@ || k == "F11"@) ==> presentation_key_spec(k) == Some(Action::ToggleFullscreen)
            && speaker_key_spec(k) == Some(Action::ToggleFullscreen),
        (k == "b"@ || k == "B"@) ==> presentation_key_spec(k) == Some(Action::ToggleBlank)
            && speaker_key_spec(k) == Some(Action::ToggleBlank),
        (k == "Return"@ || k == "KP_Enter"@) ==> presentation_key_spec(k) == Some(Action::RunCommand)
            && speaker_key_spec(k) == Some(Action::RunCommand),
        (k == "Escape"@ || k == "q"@ || k == "Q"@) ==> presentation_key_spec(k) == Some(Action::Close)
            && speaker_key_spec(k) == Some(Action::Close),
        (k == "s"@ || k == "S"@) ==> speaker_key_spec(k) == Some(Action::SwapDisplays),
        k == "F1"@ ==> speaker_key_spec(k) == Some(Action::ToggleSpeakerWindow),
        k == "Tab"@ ==> presentation_key_spec(k) is None && speaker_key_spec(k) is None,
{
    lemma_key_names();
    lemma_key_shape(k);
    let n = k.len();
    if n > 0 {
        let c0 = k[0];
    }
    if n > 1 {
        let c1 = k[1];
    }
    if n > 5 {
        let c5 = k[5];
    }
}

} // verus!
