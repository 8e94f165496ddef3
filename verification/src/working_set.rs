//! Which assets the stage prepares ahead: images to prefetch and videos to
//! keep prepared, nearest the current slide first.
use vstd::prelude::*;
use crate::deck::{BackgroundType, Slide};

verus! {

/// How many slides come in the visiting order from `current` in a deck of
/// `n`: those from `current` to the end, then those before it.
pub open spec fn first_leg(current: nat, n: nat) -> nat {
    if current < n { (n - current) as nat } else { 0 }
}

pub open spec fn order_len(current: nat, n: nat) -> nat {
    first_leg(current, n) + current
}

/// The slide visited at step `p`: `current`, `current + 1`, … up to the last
/// slide, then `current - 1` down to 0.
pub open spec fn order_at(current: nat, n: nat, p: nat) -> nat {
    if p < first_leg(current, n) {
        current + p
    } else {
        (current - 1 - (p - first_leg(current, n))) as nat
    }
}

/// The slide at `index` exists, has a background of type `t`, and its
/// asset resolved.
pub open spec fn is_candidate(slides: Seq<Slide>, resolved: Seq<Option<u64>>, index: nat, t: BackgroundType) -> bool {
    index < slides.len() && slides[index as int].background_type == t && slides[index as int].background is Some
        && resolved[index as int] is Some
}

/// The assets of type `t` met in the first `p` steps of the visiting order.
pub open spec fn candidates(slides: Seq<Slide>, resolved: Seq<Option<u64>>, current: nat, t: BackgroundType, p: nat) -> Seq<u64>
    decreases p,
{
    if p == 0 {
        Seq::empty()
    } else {
        let prev = candidates(slides, resolved, current, t, (p - 1) as nat);
        let index = order_at(current, slides.len(), (p - 1) as nat);
        if is_candidate(slides, resolved, index, t) {
            prev.push(resolved[index as int]->Some_0)
        } else {
            prev
        }
    }
}

/// `s` with each value after its first occurrence left out.
pub open spec fn first_occurrences(s: Seq<u64>) -> Seq<u64>
    decreases s.len(),
{
    if s.len() == 0 {
        s
    } else {
        let prev = first_occurrences(s.drop_last());
        if prev.contains(s.last()) { prev } else { prev.push(s.last()) }
    }
}

/// What the stage prepares.
#[derive(Clone, Debug)]
pub struct WorkingSet {
    /// Images to prefetch, in order (an image used by several slides comes
    /// once per slide).
    pub images: Vec<u64>,
    /// Videos to keep prepared, each once, in order.
    pub videos: Vec<u64>,
    /// The video the current slide shows, if it shows one and media may play.
    pub current_video: Option<u64>,
}

pub open spec fn min_nat(a: nat, b: nat) -> nat {
    if a <= b { a } else { b }
}

/// The images prefetched: the image assets in visiting order, as many as
/// there are prefetch slots, and at least one.
pub open spec fn images_spec(slides: Seq<Slide>, resolved: Seq<Option<u64>>, current: nat, slots: nat) -> Seq<u64> {
    let all = candidates(slides, resolved, current, BackgroundType::Image, order_len(current, slides.len()));
    all.take(min_nat(all.len(), if slots == 0 { 1 } else { slots }) as int)
}

/// The videos prepared: none where media may not play; else the distinct
/// video assets in visiting order, as many as there are media slots.
pub open spec fn videos_spec(slides: Seq<Slide>, resolved: Seq<Option<u64>>, current: nat, media_slots: nat, media_allowed: bool) -> Seq<u64> {
    if !media_allowed {
        Seq::empty()
    } else {
        let all = first_occurrences(candidates(slides, resolved, current, BackgroundType::Video, order_len(current, slides.len())));
        all.take(min_nat(all.len(), media_slots) as int)
    }
}

pub open spec fn current_video_spec(slides: Seq<Slide>, resolved: Seq<Option<u64>>, current: nat, suppress_media: bool) -> Option<u64> {
    if !suppress_media && is_candidate(slides, resolved, current, BackgroundType::Video) {
        resolved[current as int]
    } else {
        None
    }
}

proof fn lemma_candidates_prefix(slides: Seq<Slide>, resolved: Seq<Option<u64>>, current: nat, t: BackgroundType, p: nat, q: nat)
    requires
        p <= q,
    ensures
        candidates(slides, resolved, current, t, p).len() <= candidates(slides, resolved, current, t, q).len(),
        candidates(slides, resolved, current, t, p) == candidates(slides, resolved, current, t, q).take(
            candidates(slides, resolved, current, t, p).len() as int,
        ),
    decreases q - p,
{
    if p < q {
        lemma_candidates_prefix(slides, resolved, current, t, p, (q - 1) as nat);
        let a = candidates(slides, resolved, current, t, p);
        let b = candidates(slides, resolved, current, t, (q - 1) as nat);
        let c = candidates(slides, resolved, current, t, q);
        assert(c.take(a.len() as int) =~= b.take(a.len() as int));
    } else {
        let a = candidates(slides, resolved, current, t, p);
        assert(a.take(a.len() as int) =~= a);
    }
}

fn visit_index(current: usize, n: usize, p: usize) -> (index: usize)
    requires
        p < order_len(current as nat, n as nat),
    ensures
        index as nat == order_at(current as nat, n as nat, p as nat),
{
    let first: usize = if current < n { n - current } else { 0 };
    if p < first {
        current + p
    } else {
        current - 1 - (p - first)
    }
}

fn is_candidate_at(slides: &Vec<Slide>, resolved: &Vec<Option<u64>>, index: usize, t: BackgroundType) -> (r: bool)
    requires
        resolved@.len() == slides@.len(),
    ensures
        r == is_candidate(slides@, resolved@, index as nat, t),
{
    index < slides.len() && slides[index].background_type == t && slides[index].background.is_some()
        && resolved[index].is_some()
}

/// What to prepare around slide `current`: `resolved[i]` identifies slide
/// `i`'s background asset where it resolved; `prefetch_slots` and
/// `media_slots` bound the images and videos; media may play unless
/// suppressed or disabled.
pub fn plan_working_set(
    slides: &Vec<Slide>,
    resolved: &Vec<Option<u64>>,
    current: usize,
    prefetch_slots: usize,
    media_slots: usize,
    suppress_media: bool,
    media_enabled: bool,
) -> (w: WorkingSet)
    requires
        resolved@.len() == slides@.len(),
    ensures
        w.images@ == images_spec(slides@, resolved@, current as nat, prefetch_slots as nat),
        w.videos@ == videos_spec(slides@, resolved@, current as nat, media_slots as nat, !suppress_media && media_enabled),
        w.current_video == current_video_spec(slides@, resolved@, current as nat, suppress_media),
{
    let n = slides.len();
    let total: usize = if current < n { n } else { current };
    assert(total as nat == order_len(current as nat, n as nat));
    let ghost limit: nat = if prefetch_slots == 0 { 1 } else { prefetch_slots as nat };

    let mut images: Vec<u64> = Vec::new();
    let mut full = false;
    let mut p: usize = 0;
    while p < total && !full
        invariant
            resolved@.len() == slides@.len(),
            n == slides@.len(),
            total as nat == order_len(current as nat, n as nat),
            p <= total,
            images@ == candidates(slides@, resolved@, current as nat, BackgroundType::Image, p as nat),
            limit == (if prefetch_slots == 0 { 1 } else { prefetch_slots as nat }),
            full ==> images@.len() == limit,
            !full ==> images@.len() < limit,
        decreases total - p,
    {
        let index = visit_index(current, n, p);
        if is_candidate_at(slides, resolved, index, BackgroundType::Image) {
            let key = match resolved[index] {
                Some(k) => k,
                None => 0,
            };
            images.push(key);
            full = images.len() >= prefetch_slots;
        }
        p += 1;
    }
    proof {
        lemma_candidates_prefix(slides@, resolved@, current as nat, BackgroundType::Image, p as nat, total as nat);
        assert(images@ =~= images_spec(slides@, resolved@, current as nat, prefetch_slots as nat));
    }

    let mut videos: Vec<u64> = Vec::new();
    if !suppress_media && media_enabled {
        let mut q: usize = 0;
        while q < total
            invariant
                resolved@.len() == slides@.len(),
                n == slides@.len(),
                q <= total,
                total as nat == order_len(current as nat, n as nat),
                videos@ == first_occurrences(candidates(slides@, resolved@, current as nat, BackgroundType::Video, q as nat)),
            decreases total - q,
        {
            let index = visit_index(current, n, q);
            let ghost prev = candidates(slides@, resolved@, current as nat, BackgroundType::Video, q as nat);
            if is_candidate_at(slides, resolved, index, BackgroundType::Video) {
                let key = match resolved[index] {
                    Some(k) => k,
                    None => 0,
                };
                let ghost next = prev.push(key);
                assert(next.drop_last() =~= prev);
                let mut seen = false;
                let mut k: usize = 0;
                while k < videos.len()
                    invariant
                        k <= videos@.len(),
                        seen == videos@.take(k as int).contains(key),
                    decreases videos@.len() - k,
                {
                    let ghost t = videos@;
                    assert(t.take(k + 1) =~= t.take(k as int).push(t[k as int]));
                    if videos[k] == key {
                        seen = true;
                    }
                    proof {
                        if t.take(k + 1).contains(key) && !t.take(k as int).contains(key) {
                            let w = choose|w: int| 0 <= w < t.take(k + 1).len() && #[trigger] t.take(k + 1)[w] == key;
                            if w < k {
                                assert(t.take(k as int)[w] == key);
                            }
                        }
                        if t.take(k as int).contains(key) {
                            let w = choose|w: int| 0 <= w < t.take(k as int).len() && #[trigger] t.take(k as int)[w] == key;
                            assert(t.take(k + 1)[w] == key);
                        }
                        if videos[k as int] == key {
                            assert(t.take(k + 1)[k as int] == key);
                        }
                    }
                    k += 1;
                }
                assert(videos@.take(k as int) =~= videos@);
                if !seen {
                    videos.push(key);
                }
            }
            q += 1;
        }
        if videos.len() > media_slots {
            videos.truncate(media_slots);
        }
        assert(videos@ =~= videos_spec(slides@, resolved@, current as nat, media_slots as nat, true));
    } else {
        assert(videos@ =~= videos_spec(slides@, resolved@, current as nat, media_slots as nat, false));
    }

    let current_video = if !suppress_media && is_candidate_at(slides, resolved, current, BackgroundType::Video) {
        resolved[current]
    } else {
        None
    };
    WorkingSet { images, videos, current_video }
}

/// The video that plays: the current slide's, where the screen is not
/// blanked and that video was prepared.
pub fn active_video(current_video: Option<u64>, blank: bool, prepared: &Vec<u64>) -> (r: Option<u64>)
    ensures
        r == (if !blank && current_video is Some && prepared@.contains(current_video->Some_0) {
            current_video
        } else {
            None
        }),
{
    if blank {
        return None;
    }
    let key = match current_video {
        Some(k) => k,
        None => return None,
    };
    let mut i: usize = 0;
    while i < prepared.len()
        invariant
            i <= prepared@.len(),
            current_video == Some(key),
            !blank,
            forall|j: int| 0 <= j < i ==> prepared@[j] != key,
        decreases prepared@.len() - i,
    {
        if prepared[i] == key {
            assert(prepared@[i as int] == key);
            return Some(key);
        }
        i += 1;
    }
    None
}

proof fn lemma_first_occurrences_distinct(s: Seq<u64>)
    ensures
        first_occurrences(s).no_duplicates(),
        first_occurrences(s).len() <= s.len(),
    decreases s.len(),
{
    if s.len() > 0 {
        lemma_first_occurrences_distinct(s.drop_last());
    }
}

/// The working set is bounded: at most as many images as prefetch slots
/// (at least one is always allowed), at most as many videos as media slots,
/// and no video twice.
pub proof fn law_working_set_is_bounded(
    slides: Seq<Slide>,
    resolved: Seq<Option<u64>>,
    current: nat,
    prefetch_slots: nat,
    media_slots: nat,
    media_allowed: bool,
)
    ensures
        images_spec(slides, resolved, current, prefetch_slots).len() <= (if prefetch_slots == 0 { 1 } else { prefetch_slots }),
        videos_spec(slides, resolved, current, media_slots, media_allowed).len() <= media_slots,
        videos_spec(slides, resolved, current, media_slots, media_allowed).no_duplicates(),
{
    let all = first_occurrences(candidates(slides, resolved, current, BackgroundType::Video, order_len(current, slides.len())));
    lemma_first_occurrences_distinct(candidates(slides, resolved, current, BackgroundType::Video, order_len(current, slides.len())));
    if media_allowed {
        let v = all.take(min_nat(all.len(), media_slots) as int);
        assert forall|i: int, j: int| 0 <= i < v.len() && 0 <= j < v.len() && i != j implies v[i] != v[j] by {
            assert(v[i] == all[i] && v[j] == all[j]);
        }
    }
}

/// The current slide's own image is the first one prefetched.
pub proof fn law_current_image_comes_first(
    slides: Seq<Slide>,
    resolved: Seq<Option<u64>>,
    current: nat,
    prefetch_slots: nat,
)
    requires
        is_candidate(slides, resolved, current, BackgroundType::Image),
    ensures
        images_spec(slides, resolved, current, prefetch_slots).len() > 0,
        images_spec(slides, resolved, current, prefetch_slots)[0] == resolved[current as int]->Some_0,
{
    let n = slides.len();
    let total = order_len(current, n);
    assert(order_at(current, n, 0) == current);
    let one = candidates(slides, resolved, current, BackgroundType::Image, 1);
    assert(candidates(slides, resolved, current, BackgroundType::Image, 0) =~= Seq::<u64>::empty());
    assert(one =~= seq![resolved[current as int]->Some_0]);
    lemma_candidates_prefix(slides, resolved, current, BackgroundType::Image, 1, total);
    let all = candidates(slides, resolved, current, BackgroundType::Image, total);
    assert(all[0] == one[0]);
}

/// The assets the slides from `n` on would add to the watch list: each
/// slide's background asset (for images, SVG and video), then its legacy
/// transition file, each where it resolved.
pub open spec fn watched(slides: Seq<Slide>, backgrounds: Seq<Option<u64>>, transitions: Seq<Option<u64>>, n: nat) -> Seq<u64>
    decreases n,
{
    if n == 0 {
        Seq::empty()
    } else {
        let prev = watched(slides, backgrounds, transitions, (n - 1) as nat);
        let s = slides[n - 1];
        let shows = s.background_type == BackgroundType::Image || s.background_type == BackgroundType::Svg
            || s.background_type == BackgroundType::Video;
        let with_bg = if shows && s.background is Some && backgrounds[n - 1] is Some {
            prev.push(backgrounds[n - 1]->Some_0)
        } else {
            prev
        };
        if transitions[n - 1] is Some { with_bg.push(transitions[n - 1]->Some_0) } else { with_bg }
    }
}

pub(crate) fn push_once(v: &mut Vec<u64>, key: u64)
    ensures
        final(v)@ == (if old(v)@.contains(key) { old(v)@ } else { old(v)@.push(key) }),
{
    let mut i: usize = 0;
    while i < v.len()
        invariant
            i <= v@.len(),
            v@ == old(v)@,
            forall|j: int| 0 <= j < i ==> v@[j] != key,
        decreases v@.len() - i,
    {
        if v[i] == key {
            assert(v@[i as int] == key);
            return;
        }
        i += 1;
    }
    v.push(key);
}

/// Pushing a value extends the first occurrences by it, unless it occurred
/// before.
proof fn lemma_first_occurrences_push(s: Seq<u64>, x: u64)
    ensures
        first_occurrences(s.push(x)) == (if first_occurrences(s).contains(x) { first_occurrences(s) } else {
            first_occurrences(s).push(x)
        }),
{
    assert(s.push(x).drop_last() =~= s);
}

/// The files to watch for changes: the slides' asset files (see `watched`),
/// each once, in order. `backgrounds[i]` and `transitions[i]` identify what
/// slide `i`'s background and legacy transition file resolved to, where
/// they did (a transition only where the slide names one that is not built in).
pub fn monitored_assets(slides: &Vec<Slide>, backgrounds: &Vec<Option<u64>>, transitions: &Vec<Option<u64>>) -> (keys: Vec<u64>)
    requires
        backgrounds@.len() == slides@.len(),
        transitions@.len() == slides@.len(),
    ensures
        keys@ == first_occurrences(watched(slides@, backgrounds@, transitions@, slides@.len())),
{
    let mut keys: Vec<u64> = Vec::new();
    let mut i: usize = 0;
    while i < slides.len()
        invariant
            i <= slides@.len(),
            backgrounds@.len() == slides@.len(),
            transitions@.len() == slides@.len(),
            keys@ == first_occurrences(watched(slides@, backgrounds@, transitions@, i as nat)),
        decreases slides@.len() - i,
    {
        let s = &slides[i];
        let shows = match s.background_type {
            BackgroundType::Image | BackgroundType::Svg | BackgroundType::Video => true,
            _ => false,
        };
        let ghost prev = watched(slides@, backgrounds@, transitions@, i as nat);
        let ghost with_bg = if shows && s.background is Some && backgrounds@[i as int] is Some {
            prev.push(backgrounds@[i as int]->Some_0)
        } else {
            prev
        };
        if shows && s.background.is_some() {
            if let Some(k) = backgrounds[i] {
                proof {
                    lemma_first_occurrences_push(prev, k);
                }
                push_once(&mut keys, k);
            }
        }
        assert(keys@ == first_occurrences(with_bg));
        if let Some(k) = transitions[i] {
            proof {
                lemma_first_occurrences_push(with_bg, k);
            }
            push_once(&mut keys, k);
        }
        i += 1;
    }
    keys
}

} // verus!
