//! What the stage tells assistive technology about the slide on screen.
use vstd::prelude::*;
use crate::deck::{BackgroundType, Slide};
use crate::stage::{camera_status_message, camera_status_spec, CameraPortalState};
use crate::text::{append_chars, append_str, chars_of, decimal, decimal_chars, string_of, trim_chars, trim_ws};

verus! {

/// The slide's audience text as plain text: the trimmed text, or for markup
/// what the markup parser made of it (`plain`; the text itself where the
/// parser refused it), trimmed again; nothing where that leaves nothing.
pub open spec fn audience_text_spec(text: Option<Seq<char>>, use_markup: bool, plain: Option<Seq<char>>) -> Option<Seq<char>> {
    match text {
        None => None,
        Some(t) => {
            let trimmed = trim_ws(t);
            if trimmed.len() == 0 {
                None
            } else {
                let body = if use_markup {
                    match plain {
                        Some(p) => p,
                        None => trimmed,
                    }
                } else {
                    trimmed
                };
                if trim_ws(body).len() == 0 { None } else { Some(trim_ws(body)) }
            }
        },
    }
}

pub open spec fn opt_seq(s: Option<String>) -> Option<Seq<char>> {
    match s {
        Some(s) => Some(s@),
        None => None,
    }
}

pub open spec fn opt_str(s: Option<&str>) -> Option<Seq<char>> {
    match s {
        Some(s) => Some(s@),
        None => None,
    }
}

/// The slide's text for assistive technology; `markup_plain` is what the
/// markup parser made of the trimmed text, where the slide uses markup and
/// the parser accepted it.
pub fn slide_accessible_text(slide: &Slide, markup_plain: Option<&str>) -> (r: Option<String>)
    ensures
        opt_seq(r) == audience_text_spec(opt_seq(slide.text), slide.use_markup, opt_str(markup_plain)),
{
    let text = match &slide.text {
        Some(t) => t,
        None => return None,
    };
    let chars = chars_of(text.as_str());
    let trimmed = trim_chars(&chars);
    if trimmed.len() == 0 {
        return None;
    }
    let body = if slide.use_markup {
        match markup_plain {
            Some(p) => chars_of(p),
            None => trimmed,
        }
    } else {
        trimmed
    };
    let result = trim_chars(&body);
    if result.len() == 0 { None } else { Some(string_of(&result)) }
}

/// The accessible name and description of the stage.
#[derive(Clone, Debug)]
pub struct AccessibilityText {
    pub label: String,
    pub description: String,
}

/// The description of a slide that is shown.
pub open spec fn slide_description_spec(
    audience: Option<Seq<char>>,
    visual: Option<Seq<char>>,
) -> Seq<char> {
    match (audience, visual) {
        (Some(a), Some(v)) => a + "\nVisual description: "@ + v,
        (None, Some(v)) => "Visual description: "@ + v,
        (Some(a), None) => a,
        (None, None) => "Slide has no audience text"@,
    }
}

/// The trimmed visual description, where one is given and not blank.
pub open spec fn visual_spec(description: Option<Seq<char>>) -> Option<Seq<char>> {
    match description {
        Some(d) => if trim_ws(d).len() == 0 { None } else { Some(trim_ws(d)) },
        None => None,
    }
}

/// The camera status appended to a camera slide's description.
pub open spec fn camera_suffix(slide: Slide, camera: CameraPortalState) -> Seq<char> {
    if slide.background_type == BackgroundType::Camera {
        match camera_status_spec(camera) {
            Some((h, d)) => "\n"@ + h + ". "@ + d,
            None => Seq::empty(),
        }
    } else {
        Seq::empty()
    }
}

/// What the stage announces: with no presentation, the context and "No
/// presentation loaded"; else "<context> <n> of <count>" and the slide's
/// text, visual description and camera status, or "Blank screen".
pub open spec fn accessibility_spec(
    slides: Option<Seq<Slide>>,
    current: usize,
    blank: bool,
    context: Seq<char>,
    camera: CameraPortalState,
    markup_plain: Option<Seq<char>>,
) -> (Seq<char>, Seq<char>) {
    let ctx = if context.len() == 0 { "Presentation slide"@ } else { context };
    match slides {
        None => (ctx, "No presentation loaded"@),
        Some(s) => {
            let number = if current == usize::MAX { current as nat } else { (current + 1) as nat };
            let label = ctx + " "@ + decimal(number) + " of "@ + decimal(s.len());
            if blank {
                (label, "Blank screen"@)
            } else if current < s.len() {
                let slide = s[current as int];
                let audience = audience_text_spec(opt_seq(slide.text), slide.use_markup, markup_plain);
                (label, slide_description_spec(audience, visual_spec(opt_seq(slide.visual_description))) + camera_suffix(slide, camera))
            } else {
                (label, "Slide has no audience text"@)
            }
        },
    }
}

fn visual_of(slide: &Slide) -> (r: Option<Vec<char>>)
    ensures
        match r {
            Some(v) => visual_spec(opt_seq(slide.visual_description)) == Some(v@),
            None => visual_spec(opt_seq(slide.visual_description)) is None,
        },
{
    match &slide.visual_description {
        Some(d) => {
            let c = chars_of(d.as_str());
            let t = trim_chars(&c);
            if t.len() == 0 { None } else { Some(t) }
        },
        None => None,
    }
}

/// The accessible name and description of the stage showing slide `current`
/// of `slides` (`None`: no presentation); `context` names the view, and
/// `markup_plain` is what the markup parser made of the current slide's
/// trimmed text, where it uses markup and the parser accepted it.
pub fn accessibility_text(
    slides: Option<&Vec<Slide>>,
    current: usize,
    blank: bool,
    context: &str,
    camera_state: CameraPortalState,
    markup_plain: Option<&str>,
) -> (r: AccessibilityText)
    ensures
        (r.label@, r.description@) == accessibility_spec(
            match slides { Some(s) => Some(s@), None => None },
            current,
            blank,
            context@,
            camera_state,
            opt_str(markup_plain),
        ),
{
    let ctx: &str = if context.is_empty() { "Presentation slide" } else { context };
    let slides = match slides {
        None => {
            return AccessibilityText {
                label: crate::text::owned(ctx),
                description: crate::text::owned("No presentation loaded"),
            };
        },
        Some(s) => s,
    };
    let count = slides.len();
    let mut label: Vec<char> = chars_of(ctx);
    append_str(&mut label, " ");
    let number = if current == usize::MAX { current } else { current + 1 };
    let n = decimal_chars(number as u64);
    append_chars(&mut label, &n);
    append_str(&mut label, " of ");
    let c = decimal_chars(count as u64);
    append_chars(&mut label, &c);
    let label = string_of(&label);
    if blank {
        return AccessibilityText { label, description: crate::text::owned("Blank screen") };
    }
    if current >= count {
        return AccessibilityText { label, description: crate::text::owned("Slide has no audience text") };
    }
    let slide = &slides[current];
    let audience = slide_accessible_text(slide, markup_plain);
    let visual = visual_of(slide);
    let mut description: Vec<char> = Vec::new();
    match (&audience, &visual) {
        (Some(a), Some(v)) => {
            append_str(&mut description, a.as_str());
            append_str(&mut description, "\nVisual description: ");
            append_chars(&mut description, v);
        },
        (None, Some(v)) => {
            append_str(&mut description, "Visual description: ");
            append_chars(&mut description, v);
        },
        (Some(a), None) => {
            append_str(&mut description, a.as_str());
        },
        (None, None) => {
            append_str(&mut description, "Slide has no audience text");
        },
    }
    let ghost base = description@;
    if slide.background_type == BackgroundType::Camera {
        if let Some((heading, detail)) = camera_status_message(camera_state) {
            append_str(&mut description, "\n");
            append_str(&mut description, heading);
            append_str(&mut description, ". ");
            append_str(&mut description, detail);
        }
    }
    assert(description@ =~= base + camera_suffix(*slide, camera_state));
    AccessibilityText { label, description: string_of(&description) }
}

/// The accessible context after asking for `requested` while `current` is
/// set: the trimmed request, where it is not blank and differs; `None` where
/// nothing changes.
pub fn context_update(current: &str, requested: &str) -> (r: Option<String>)
    ensures
        match r {
            Some(c) => c@ == trim_ws(requested@) && c@.len() > 0 && c@ != current@,
            None => trim_ws(requested@).len() == 0 || trim_ws(requested@) == current@,
        },
{
    let chars = chars_of(requested);
    let trimmed = trim_chars(&chars);
    if trimmed.len() == 0 {
        return None;
    }
    let existing = chars_of(current);
    if crate::text::eq_chars(&trimmed, &existing) {
        return None;
    }
    Some(string_of(&trimmed))
}

} // verus!
