//! Slide transitions: which side of a slide change animates, for how long,
//! and whether the change is drawn as a page curl or as two layers.
use vstd::prelude::*;
use crate::deck::{LegacyTiming, Slide, TransitionMode};
use crate::text::{chars_of, eq_str};

verus! {

broadcast use vstd::string::group_string_axioms;

/// A slide in `mode` animates on the side given by `incoming`.
pub open spec fn side_enabled_spec(mode: TransitionMode, incoming: bool) -> bool {
    !((incoming && mode == TransitionMode::Out) || (!incoming && mode == TransitionMode::In))
}

/// Whether the slide's transition applies when the slide arrives (`incoming`)
/// or when it leaves.
pub fn side_enabled(slide: &Slide, incoming: bool) -> (r: bool)
    ensures
        r == side_enabled_spec(slide.transition_mode, incoming),
{
    match slide.transition_mode {
        TransitionMode::Out => !incoming,
        TransitionMode::In => incoming,
        TransitionMode::Both => true,
    }
}

/// The names drawn as a page curl.
pub open spec fn is_page_curl_name(name: Seq<char>) -> bool {
    name == "page-curl"@ || name == "page-curl-both"@
}

/// The transitions whose default duration is 800 ms.
pub open spec fn is_short_builtin(name: Seq<char>) -> bool {
    name == "fade"@ || name == "spin"@ || name == "spin-bg"@ || name == "spin-text"@
}

/// The default duration of the named transition, in milliseconds, on the
/// given side and in the given direction; `legacy` holds the durations of a
/// legacy transition definition of that name, if there is one.
pub open spec fn default_duration_ms(name: Seq<char>, incoming: bool, backwards: bool, legacy: Option<LegacyTiming>) -> nat {
    if is_short_builtin(name) {
        800
    } else if name == "page-curl"@ {
        2000
    } else {
        match legacy {
            Some(t) => t.duration_spec(incoming, backwards) as nat,
            None => 1000,
        }
    }
}

/// How long, in milliseconds, `slide`'s transition runs on the given side.
pub open spec fn duration_spec(slide: Slide, incoming: bool, backwards: bool, legacy: Option<LegacyTiming>) -> nat {
    if slide.transition@.len() == 0 || !side_enabled_spec(slide.transition_mode, incoming) {
        0
    } else if slide.transition_duration_ms > 0 {
        slide.transition_duration_ms as nat
    } else {
        default_duration_ms(slide.transition@, incoming, backwards, legacy)
    }
}

/// The duration in milliseconds of `slide`'s transition on one side of a
/// slide change. `legacy` holds the timings of the legacy transition
/// definition of the slide's name, where one was loaded. No transition, or a
/// disabled side, takes no time; an explicit duration wins over the defaults.
pub fn duration_with_legacy(slide: &Slide, incoming: bool, backwards: bool, legacy: Option<LegacyTiming>) -> (ms: u64)
    ensures
        ms == duration_spec(*slide, incoming, backwards, legacy),
{
    let name = chars_of(slide.transition.as_str());
    if name.len() == 0 || !side_enabled(slide, incoming) {
        return 0;
    }
    if slide.transition_duration_ms > 0 {
        return slide.transition_duration_ms as u64;
    }
    if eq_str(&name, "fade") || eq_str(&name, "spin") || eq_str(&name, "spin-bg") || eq_str(&name, "spin-text") {
        800
    } else if eq_str(&name, "page-curl") {
        2000
    } else {
        match legacy {
            Some(t) => t.duration(incoming, backwards) as u64,
            None => 1000,
        }
    }
}

/// Whether the named transition is drawn as a page curl.
pub fn is_page_curl(name: &str) -> (r: bool)
    ensures
        r == is_page_curl_name(name@),
{
    let n = chars_of(name);
    eq_str(&n, "page-curl") || eq_str(&n, "page-curl-both")
}

/// The slide's transition is a page curl and applies on the given side.
pub open spec fn uses_page_curl_spec(slide: Slide, incoming: bool) -> bool {
    side_enabled_spec(slide.transition_mode, incoming) && is_page_curl_name(slide.transition@)
}

/// Whether the slide turns as a page curl on the given side.
pub fn uses_page_curl(slide: &Slide, incoming: bool) -> (r: bool)
    ensures
        r == uses_page_curl_spec(*slide, incoming),
{
    side_enabled(slide, incoming) && is_page_curl(slide.transition.as_str())
}

/// How far a page is curled as the transition's eased progress `p` runs from 0 to 1.
#[derive(Clone, Copy, Debug, PartialEq, Eq, Structural)]
pub enum CurlPeriod {
    /// The page lies flat: 0 throughout.
    Flat,
    /// The page curls away: `p`.
    Progress,
    /// The page uncurls: `1 - p`.
    Remaining,
}

/// The curl period of one side of a slide change.
pub open spec fn curl_period_spec(name: Seq<char>, incoming: bool, backwards: bool) -> CurlPeriod {
    if !is_page_curl_name(name) {
        CurlPeriod::Flat
    } else if name == "page-curl-both"@ {
        if incoming { CurlPeriod::Remaining } else { CurlPeriod::Progress }
    } else if backwards {
        if incoming { CurlPeriod::Remaining } else { CurlPeriod::Flat }
    } else if incoming {
        CurlPeriod::Flat
    } else {
        CurlPeriod::Progress
    }
}

/// How the named transition curls the incoming or the outgoing page. A plain
/// page curl turns the outgoing page going forward and the incoming page
/// going backwards; "page-curl-both" turns both.
pub fn curl_period(name: &str, incoming: bool, backwards: bool) -> (r: CurlPeriod)
    ensures
        r == curl_period_spec(name@, incoming, backwards),
{
    let n = chars_of(name);
    if !is_page_curl(name) {
        CurlPeriod::Flat
    } else if eq_str(&n, "page-curl-both") {
        if incoming { CurlPeriod::Remaining } else { CurlPeriod::Progress }
    } else if backwards {
        if incoming { CurlPeriod::Remaining } else { CurlPeriod::Flat }
    } else if incoming {
        CurlPeriod::Flat
    } else {
        CurlPeriod::Progress
    }
}

/// One page of a page-curl transition.
#[derive(Clone, Copy, Debug, PartialEq, Eq, Structural)]
pub struct CurlSide {
    pub period: CurlPeriod,
    /// The page turns at an angle of 15 degrees rather than straight.
    pub angled: bool,
}

/// A slide change drawn as a page curl.
#[derive(Clone, Copy, Debug, PartialEq, Eq, Structural)]
pub struct PageCurlPlan {
    pub previous: CurlSide,
    pub current: CurlSide,
    pub backwards: bool,
}

/// Where one layer of a layered slide change takes its state from.
#[derive(Clone, Copy, Debug, PartialEq, Eq, Structural)]
pub enum LayerSource {
    /// The layer stays at rest: the side is disabled or has no transition.
    Rest,
    /// The built-in transition of that name transforms the layer.
    Builtin,
    /// The legacy transition definition of that name supplies the state.
    Legacy,
    /// The layer fades by the transition's easing: in when arriving, out when leaving.
    Fade,
}

/// A slide change drawn as two layers.
#[derive(Clone, Copy, Debug, PartialEq, Eq, Structural)]
pub struct LayerPlan {
    pub previous: LayerSource,
    pub current: LayerSource,
    /// The outgoing layer is drawn above the incoming one.
    pub previous_above: bool,
}

/// How a slide change is drawn.
#[derive(Clone, Copy, Debug, PartialEq, Eq, Structural)]
pub enum TransitionPlan {
    Layers(LayerPlan),
    PageCurl(PageCurlPlan),
}

/// The side of `slide` animates at all: it is enabled and names a transition.
pub open spec fn layer_enabled(slide: Slide, incoming: bool) -> bool {
    side_enabled_spec(slide.transition_mode, incoming) && slide.transition@.len() > 0
}

/// Where a layer's state comes from; `builtin` tells whether the slide's
/// transition is a built-in one, `legacy` whether a legacy definition of it
/// was supplied.
pub open spec fn layer_source_spec(enabled: bool, builtin: bool, legacy: bool) -> LayerSource {
    if !enabled {
        LayerSource::Rest
    } else if builtin {
        LayerSource::Builtin
    } else if legacy {
        LayerSource::Legacy
    } else {
        LayerSource::Fade
    }
}

/// The plan of a slide change from `previous` to `current`.
pub open spec fn plan_spec(
    previous: Slide,
    current: Slide,
    backwards: bool,
    previous_builtin: bool,
    current_builtin: bool,
    previous_legacy: bool,
    current_legacy: bool,
) -> TransitionPlan {
    if uses_page_curl_spec(previous, false) || uses_page_curl_spec(current, true) {
        TransitionPlan::PageCurl(PageCurlPlan {
            previous: CurlSide {
                period: if uses_page_curl_spec(previous, false) {
                    curl_period_spec(previous.transition@, false, backwards)
                } else {
                    CurlPeriod::Flat
                },
                angled: previous.transition@ == "page-curl-both"@,
            },
            current: CurlSide {
                period: if uses_page_curl_spec(current, true) {
                    curl_period_spec(current.transition@, true, backwards)
                } else {
                    CurlPeriod::Flat
                },
                angled: current.transition@ == "page-curl-both"@,
            },
            backwards,
        })
    } else {
        let pe = layer_enabled(previous, false);
        let ce = layer_enabled(current, true);
        TransitionPlan::Layers(LayerPlan {
            previous: layer_source_spec(pe, previous_builtin, previous_legacy),
            current: layer_source_spec(ce, current_builtin, current_legacy),
            previous_above: !ce && pe,
        })
    }
}

fn layer_source(enabled: bool, builtin: bool, legacy: bool) -> (r: LayerSource)
    ensures
        r == layer_source_spec(enabled, builtin, legacy),
{
    if !enabled {
        LayerSource::Rest
    } else if builtin {
        LayerSource::Builtin
    } else if legacy {
        LayerSource::Legacy
    } else {
        LayerSource::Fade
    }
}

fn is_angled(slide: &Slide) -> (r: bool)
    ensures
        r == (slide.transition@ == "page-curl-both"@),
{
    let n = chars_of(slide.transition.as_str());
    eq_str(&n, "page-curl-both")
}

/// How the change from `previous` to `current` is drawn. A page curl on
/// either side makes it a page curl; otherwise each layer takes its state
/// from the slide's built-in transition (`*_builtin`), from a supplied legacy
/// definition (`*_legacy`), or fades.
pub fn plan_with_legacy(
    previous: &Slide,
    current: &Slide,
    backwards: bool,
    previous_builtin: bool,
    current_builtin: bool,
    previous_legacy: bool,
    current_legacy: bool,
) -> (p: TransitionPlan)
    ensures
        p == plan_spec(
            *previous,
            *current,
            backwards,
            previous_builtin,
            current_builtin,
            previous_legacy,
            current_legacy,
        ),
{
    let prev_curl = uses_page_curl(previous, false);
    let cur_curl = uses_page_curl(current, true);
    if prev_curl || cur_curl {
        let previous_side = CurlSide {
            period: if prev_curl {
                curl_period(previous.transition.as_str(), false, backwards)
            } else {
                CurlPeriod::Flat
            },
            angled: is_angled(previous),
        };
        let current_side = CurlSide {
            period: if cur_curl {
                curl_period(current.transition.as_str(), true, backwards)
            } else {
                CurlPeriod::Flat
            },
            angled: is_angled(current),
        };
        return TransitionPlan::PageCurl(PageCurlPlan { previous: previous_side, current: current_side, backwards });
    }
    let pe = side_enabled(previous, false) && !previous.transition.as_str().is_empty();
    let ce = side_enabled(current, true) && !current.transition.as_str().is_empty();
    TransitionPlan::Layers(LayerPlan {
        previous: layer_source(pe, previous_builtin, previous_legacy),
        current: layer_source(ce, current_builtin, current_legacy),
        previous_above: !ce && pe,
    })
}

/// `plan_with_legacy` with no legacy definitions supplied.
pub fn plan(
    previous: &Slide,
    current: &Slide,
    backwards: bool,
    previous_builtin: bool,
    current_builtin: bool,
) -> (p: TransitionPlan)
    ensures
        p == plan_spec(*previous, *current, backwards, previous_builtin, current_builtin, false, false),
{
    plan_with_legacy(previous, current, backwards, previous_builtin, current_builtin, false, false)
}

/// A side of a slide change that the slide's transition mode disables takes
/// no time and never curls, whatever the transition and its timings.
pub proof fn law_disabled_side_is_still(slide: Slide, incoming: bool, backwards: bool, legacy: Option<LegacyTiming>)
    requires
        !side_enabled_spec(slide.transition_mode, incoming),
    ensures
        duration_spec(slide, incoming, backwards, legacy) == 0,
        !uses_page_curl_spec(slide, incoming),
{
}

/// The characters of the built-in transition names with default durations.
proof fn lemma_transition_names()
    ensures
        "fade"@ == seq!['f', 'a', 'd', 'e'],
        "spin"@ == seq!['s', 'p', 'i', 'n'],
        "spin-bg"@ == seq!['s', 'p', 'i', 'n', '-', 'b', 'g'],
        "spin-text"@ == seq!['s', 'p', 'i', 'n', '-', 't', 'e', 'x', 't'],
        "page-curl"@ == seq!['p', 'a', 'g', 'e', '-', 'c', 'u', 'r', 'l'],
        "page-curl-both"@ == seq!['p', 'a', 'g', 'e', '-', 'c', 'u', 'r', 'l', '-', 'b', 'o', 't', 'h'],
{
    reveal_strlit("fade");
    assert("fade"@ =~= seq!['f', 'a', 'd', 'e']);
    reveal_strlit("spin");
    assert("spin"@ =~= seq!['s', 'p', 'i', 'n']);
    reveal_strlit("spin-bg");
    assert("spin-bg"@ =~= seq!['s', 'p', 'i', 'n', '-', 'b', 'g']);
    reveal_strlit("spin-text");
    assert("spin-text"@ =~= seq!['s', 'p', 'i', 'n', '-', 't', 'e', 'x', 't']);
    reveal_strlit("page-curl");
    assert("page-curl"@ =~= seq!['p', 'a', 'g', 'e', '-', 'c', 'u', 'r', 'l']);
    reveal_strlit("page-curl-both");
    assert("page-curl-both"@ =~= seq!['p', 'a', 'g', 'e', '-', 'c', 'u', 'r', 'l', '-', 'b', 'o', 't', 'h']);
}

/// A side animates when the slide names a transition and its mode does not
/// leave that side out.
pub open spec fn animates(slide: Slide, incoming: bool) -> bool {
    slide.transition@.len() > 0 && !(incoming && slide.transition_mode == TransitionMode::Out)
        && !(!incoming && slide.transition_mode == TransitionMode::In)
}

/// The default durations on a side that animates and sets no duration of
/// its own: "fade", "spin", "spin-bg" and "spin-text" last 800 ms,
/// "page-curl" 2000 ms, a legacy definition gives its own time for the side
/// and direction, and anything else lasts 1000 ms.
pub proof fn law_default_durations(slide: Slide, incoming: bool, backwards: bool, legacy: Option<LegacyTiming>)
    requires
        animates(slide, incoming),
        slide.transition_duration_ms == 0,
    ensures
        (slide.transition@ == "fade"@ || slide.transition@ == "spin"@ || slide.transition@ == "spin-bg"@
            || slide.transition@ == "spin-text"@) ==> duration_spec(slide, incoming, backwards, legacy) == 800,
        slide.transition@ == "page-curl"@ ==> duration_spec(slide, incoming, backwards, legacy) == 2000,
        (slide.transition@ != "fade"@ && slide.transition@ != "spin"@ && slide.transition@ != "spin-bg"@
            && slide.transition@ != "spin-text"@ && slide.transition@ != "page-curl"@) ==> duration_spec(
            slide, incoming, backwards, legacy) == match legacy {
            None => 1000,
            Some(t) => if incoming {
                if backwards { t.incoming_backward as int } else { t.incoming_forward as int }
            } else {
                if backwards { t.outgoing_backward as int } else { t.outgoing_forward as int }
            },
        },
{
    lemma_transition_names();
}

/// An explicit duration wins on a side that animates, whatever the
/// transition and its timings; a side that does not animate takes no time.
pub proof fn law_explicit_duration_wins(slide: Slide, incoming: bool, backwards: bool, legacy: Option<LegacyTiming>)
    ensures
        animates(slide, incoming) && slide.transition_duration_ms > 0
            ==> duration_spec(slide, incoming, backwards, legacy) == slide.transition_duration_ms,
        !animates(slide, incoming) ==> duration_spec(slide, incoming, backwards, legacy) == 0,
{
}

/// In a layered slide change a layer rests exactly when its side does not
/// animate, and the outgoing layer is drawn above the incoming one exactly
/// when the outgoing layer animates and the incoming one rests: an
/// animating incoming slide is never covered.
pub proof fn law_animating_layer_is_on_top(
    previous: Slide,
    current: Slide,
    backwards: bool,
    previous_builtin: bool,
    current_builtin: bool,
    previous_legacy: bool,
    current_legacy: bool,
)
    ensures
        plan_spec(previous, current, backwards, previous_builtin, current_builtin, previous_legacy, current_legacy)
            matches TransitionPlan::Layers(l) ==> {
            &&& (l.previous == LayerSource::Rest <==> !animates(previous, false))
            &&& (l.current == LayerSource::Rest <==> !animates(current, true))
            &&& (l.previous_above <==> (animates(previous, false) && !animates(current, true)))
        },
{
}

} // verus!
