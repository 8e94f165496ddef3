//! Decisions of the audience stage: camera status, motion, page-curl texture
//! caching and prewarming.
use vstd::prelude::*;
use crate::deck::{BackgroundType, Slide};
use crate::text::{append_chars, append_str, chars_of, decimal, decimal_chars, signed_decimal, signed_decimal_chars, string_of};
use crate::transition::{plan, plan_spec, TransitionPlan};

verus! {

/// Where a camera background stands with the desktop camera portal.
#[derive(Clone, Copy, Debug, PartialEq, Eq, Structural)]
pub enum CameraPortalState {
    Idle,
    Pending,
    Denied,
    Error,
    Ready,
}

pub open spec fn camera_portal_state_spec(
    has_media: bool,
    has_request: bool,
    attempted: bool,
    has_error: bool,
) -> CameraPortalState {
    if has_media {
        CameraPortalState::Ready
    } else if has_request {
        CameraPortalState::Pending
    } else if has_error {
        CameraPortalState::Error
    } else if attempted {
        CameraPortalState::Denied
    } else {
        CameraPortalState::Idle
    }
}

/// The portal state from what the stage holds: a camera stream, a request
/// in flight, a request made before, an error.
pub fn camera_portal_state(
    has_media: bool,
    has_request: bool,
    attempted: bool,
    has_error: bool,
) -> (s: CameraPortalState)
    ensures
        s == camera_portal_state_spec(has_media, has_request, attempted, has_error),
{
    if has_media {
        CameraPortalState::Ready
    } else if has_request {
        CameraPortalState::Pending
    } else if has_error {
        CameraPortalState::Error
    } else if attempted {
        CameraPortalState::Denied
    } else {
        CameraPortalState::Idle
    }
}

pub open spec fn camera_portal_state_name_spec(state: CameraPortalState) -> Seq<char> {
    match state {
        CameraPortalState::Ready => "ready"@,
        CameraPortalState::Pending => "pending"@,
        CameraPortalState::Denied => "denied"@,
        CameraPortalState::Error => "error"@,
        CameraPortalState::Idle => "idle"@,
    }
}

/// The name by which the stage reports a portal state.
pub fn camera_portal_state_name(state: CameraPortalState) -> (name: &'static str)
    ensures
        name@ == camera_portal_state_name_spec(state),
{
    match state {
        CameraPortalState::Ready => "ready",
        CameraPortalState::Pending => "pending",
        CameraPortalState::Denied => "denied",
        CameraPortalState::Error => "error",
        CameraPortalState::Idle => "idle",
    }
}

/// The heading and detail shown for a portal state; nothing once the camera runs.
pub open spec fn camera_status_spec(state: CameraPortalState) -> Option<(Seq<char>, Seq<char>)> {
    match state {
        CameraPortalState::Ready => None,
        CameraPortalState::Idle => Some((
            "Camera access needed"@,
            "Activate this presentation to request access through the desktop portal."@,
        )),
        CameraPortalState::Pending => Some((
            "Camera permission requested"@,
            "Approve the desktop camera request to continue."@,
        )),
        CameraPortalState::Denied => Some((
            "Camera access was denied"@,
            "Press C to request access again."@,
        )),
        CameraPortalState::Error => Some((
            "Camera is unavailable"@,
            "Press C to retry. Technical details are available in the terminal."@,
        )),
    }
}

/// What the stage tells the audience about the camera.
pub fn camera_status_message(state: CameraPortalState) -> (r: Option<(&'static str, &'static str)>)
    ensures
        match r {
            Some((heading, detail)) => camera_status_spec(state) == Some((heading@, detail@)),
            None => camera_status_spec(state) is None,
        },
{
    match state {
        CameraPortalState::Ready => None,
        CameraPortalState::Idle => Some((
            "Camera access needed",
            "Activate this presentation to request access through the desktop portal.",
        )),
        CameraPortalState::Pending => Some((
            "Camera permission requested",
            "Approve the desktop camera request to continue.",
        )),
        CameraPortalState::Denied => Some(("Camera access was denied", "Press C to request access again.")),
        CameraPortalState::Error => Some((
            "Camera is unavailable",
            "Press C to retry. Technical details are available in the terminal.",
        )),
    }
}

/// The desktop's reduced-motion preference.
#[derive(Clone, Copy, Debug, PartialEq, Eq, Structural)]
pub enum ReducedMotion {
    NoPreference,
    Reduce,
}

pub open spec fn motion_duration_spec(duration_ms: u64, animations_enabled: bool, reduced_motion: ReducedMotion) -> u64 {
    if !animations_enabled || reduced_motion == ReducedMotion::Reduce {
        0
    } else {
        duration_ms
    }
}

/// How long a transition of `duration_ms` runs: not at all where animations
/// are off or reduced motion is asked for.
pub fn motion_duration(duration_ms: u64, animations_enabled: bool, reduced_motion: ReducedMotion) -> (ms: u64)
    ensures
        ms == motion_duration_spec(duration_ms, animations_enabled, reduced_motion),
{
    if !animations_enabled || reduced_motion == ReducedMotion::Reduce {
        0
    } else {
        duration_ms
    }
}

/// Whether the video handed to graphics offload has been allocated its
/// place: both name the same asset.
pub fn media_offload_has_current_allocation(offloaded: Option<u64>, allocated: Option<u64>) -> (r: bool)
    ensures
        r == (offloaded is Some && offloaded == allocated),
{
    match (offloaded, allocated) {
        (Some(a), Some(b)) => a == b,
        _ => false,
    }
}

/// How much texture memory prewarmed page-curl pairs may hold.
pub const CURL_PREWARM_BUDGET_BYTES: usize = 268435456;

/// The size of the stage's output in logical pixels, and its scale.
#[derive(Clone, Copy, Debug, PartialEq, Eq, Structural)]
pub struct OutputKey {
    pub width: i32,
    pub height: i32,
    pub scale: i32,
}

/// The bytes of one pair of RGBA slide textures at `output`.
pub open spec fn pair_bytes(output: OutputKey) -> int {
    let w = if output.width > 0 { output.width as int } else { 0 };
    let h = if output.height > 0 { output.height as int } else { 0 };
    let s = if output.scale > 1 { output.scale as int } else { 1 };
    w * h * s * s * 4 * 2
}

/// How many texture pairs fit the prewarm budget: two where a pair takes at
/// most half of it, one where it takes at most all of it, else none.
pub open spec fn curl_cache_capacity_spec(output: OutputKey) -> int {
    let b = pair_bytes(output);
    if b == 0 || b > CURL_PREWARM_BUDGET_BYTES as int {
        0
    } else if b <= CURL_PREWARM_BUDGET_BYTES as int / 2 {
        2
    } else {
        1
    }
}

/// How many page-curl texture pairs are kept for `output`.
pub fn curl_cache_capacity(output: OutputKey) -> (n: usize)
    ensures
        n as int == curl_cache_capacity_spec(output),
{
    let w: u128 = if output.width > 0 { output.width as u128 } else { 0 };
    let h: u128 = if output.height > 0 { output.height as u128 } else { 0 };
    let s: u128 = if output.scale > 1 { output.scale as u128 } else { 1 };
    assert(w * h <= 0x4000_0000_0000_0000u128) by (nonlinear_arith)
        requires w <= 0x8000_0000u128, h <= 0x8000_0000u128;
    let wh: u128 = w * h;
    assert(wh * s <= 0x2000_0000_0000_0000_0000_0000u128) by (nonlinear_arith)
        requires wh <= 0x4000_0000_0000_0000u128, s <= 0x8000_0000u128;
    let whs: u128 = wh * s;
    assert(whs * s <= 0x1000_0000_0000_0000_0000_0000_0000_0000u128) by (nonlinear_arith)
        requires whs <= 0x2000_0000_0000_0000_0000_0000u128, s <= 0x8000_0000u128;
    let whss: u128 = whs * s;
    let bytes: u128 = whss * 4 * 2;
    assert(bytes == w * h * s * s * 4 * 2);
    if bytes == 0 || bytes > CURL_PREWARM_BUDGET_BYTES as u128 {
        0
    } else if bytes <= (CURL_PREWARM_BUDGET_BYTES / 2) as u128 {
        2
    } else {
        1
    }
}

/// A cached pair of page-curl textures: the slides it shows, the output it
/// was drawn for, and the handle of the textures.
#[derive(Clone, Copy, Debug, PartialEq, Eq, Structural)]
pub struct CurlEntry {
    pub previous_index: usize,
    pub current_index: usize,
    pub output: OutputKey,
    pub textures: u64,
}

/// A texture pair found in the cache; `swapped` where it was drawn for the
/// change in the other direction, so its two textures trade places.
#[derive(Clone, Copy, Debug, PartialEq, Eq, Structural)]
pub struct CurlHit {
    pub textures: u64,
    pub swapped: bool,
}

/// What entry `e` offers for the change from `previous` to `current` at `output`.
pub open spec fn entry_hit(e: CurlEntry, previous: usize, current: usize, output: OutputKey) -> Option<CurlHit> {
    if e.output != output {
        None
    } else if e.previous_index == previous && e.current_index == current {
        Some(CurlHit { textures: e.textures, swapped: false })
    } else if e.previous_index == current && e.current_index == previous {
        Some(CurlHit { textures: e.textures, swapped: true })
    } else {
        None
    }
}

/// The first entry of `entries` that offers the pair.
pub open spec fn lookup_spec(entries: Seq<CurlEntry>, previous: usize, current: usize, output: OutputKey) -> Option<CurlHit>
    decreases entries.len(),
{
    if entries.len() == 0 {
        None
    } else {
        match entry_hit(entries[0], previous, current, output) {
            Some(h) => Some(h),
            None => lookup_spec(entries.drop_first(), previous, current, output),
        }
    }
}

/// The entries of `entries` drawn for `output`, in order.
pub open spec fn for_output(entries: Seq<CurlEntry>, output: OutputKey) -> Seq<CurlEntry>
    decreases entries.len(),
{
    if entries.len() == 0 {
        Seq::empty()
    } else {
        let rest = for_output(entries.drop_last(), output);
        if entries.last().output == output { rest.push(entries.last()) } else { rest }
    }
}

/// The entries after `entry` is stored with room for `capacity`: those of
/// other outputs go, and the oldest leaves where the rest are full.
pub open spec fn insert_spec(entries: Seq<CurlEntry>, entry: CurlEntry, capacity: usize) -> Seq<CurlEntry> {
    if capacity == 0 {
        entries
    } else {
        let kept = for_output(entries, entry.output);
        if kept.len() >= capacity { kept.drop_first().push(entry) } else { kept.push(entry) }
    }
}

/// The page-curl textures kept for quick slide changes, oldest first.
#[derive(Clone, Debug)]
pub struct CurlCache {
    pub entries: Vec<CurlEntry>,
}

impl CurlCache {
    pub fn new() -> (c: CurlCache)
        ensures
            c.entries@.len() == 0,
    {
        CurlCache { entries: Vec::new() }
    }

    /// The textures cached for the change from `previous` to `current` at
    /// `output`, drawn for either direction.
    pub fn lookup(&self, previous: usize, current: usize, output: OutputKey) -> (r: Option<CurlHit>)
        ensures
            r == lookup_spec(self.entries@, previous, current, output),
    {
        let mut i: usize = 0;
        assert(self.entries@.skip(0) =~= self.entries@);
        while i < self.entries.len()
            invariant
                i <= self.entries@.len(),
                lookup_spec(self.entries@, previous, current, output)
                    == lookup_spec(self.entries@.skip(i as int), previous, current, output),
            decreases self.entries@.len() - i,
        {
            let e = self.entries[i];
            assert(self.entries@.skip(i as int)[0] == e);
            assert(self.entries@.skip(i as int).drop_first() =~= self.entries@.skip(i + 1));
            if e.output == output {
                if e.previous_index == previous && e.current_index == current {
                    return Some(CurlHit { textures: e.textures, swapped: false });
                } else if e.previous_index == current && e.current_index == previous {
                    return Some(CurlHit { textures: e.textures, swapped: true });
                }
            }
            i += 1;
        }
        None
    }

    /// Stores a freshly drawn pair for `output`, which keeps `capacity`
    /// pairs: entries drawn for another output are dropped, and where the
    /// cache is full the oldest pair leaves. With no capacity nothing is kept.
    pub fn insert(&mut self, previous: usize, current: usize, output: OutputKey, textures: u64, capacity: usize)
        ensures
            final(self).entries@ == insert_spec(
                old(self).entries@,
                CurlEntry { previous_index: previous, current_index: current, output, textures },
                capacity,
            ),
    {
        if capacity == 0 {
            return;
        }
        let ghost old_entries = self.entries@;
        let mut kept: Vec<CurlEntry> = Vec::new();
        let mut i: usize = 0;
        while i < self.entries.len()
            invariant
                i <= self.entries@.len(),
                self.entries@ == old_entries,
                kept@ == for_output(old_entries.take(i as int), output),
            decreases self.entries@.len() - i,
        {
            let e = self.entries[i];
            assert(old_entries.take(i + 1).drop_last() =~= old_entries.take(i as int));
            if e.output == output {
                kept.push(e);
            }
            i += 1;
        }
        assert(old_entries.take(i as int) =~= old_entries);
        if kept.len() >= capacity {
            kept.remove(0);
            assert(kept@ =~= for_output(old_entries, output).drop_first());
        }
        kept.push(CurlEntry { previous_index: previous, current_index: current, output, textures });
        self.entries = kept;
    }
}

proof fn lemma_lookup_finds_present(entries: Seq<CurlEntry>, k: int, previous: usize, current: usize, output: OutputKey)
    requires
        0 <= k < entries.len(),
        entry_hit(entries[k], previous, current, output) is Some,
    ensures
        lookup_spec(entries, previous, current, output) is Some,
    decreases entries.len(),
{
    if k > 0 && entry_hit(entries[0], previous, current, output) is None {
        assert(entries.drop_first()[k - 1] == entries[k]);
        lemma_lookup_finds_present(entries.drop_first(), k - 1, previous, current, output);
    }
}

proof fn lemma_for_output_len(entries: Seq<CurlEntry>, output: OutputKey)
    ensures
        for_output(entries, output).len() <= entries.len(),
        forall|i: int| 0 <= i < for_output(entries, output).len() ==> (#[trigger] for_output(entries, output)[i]).output == output,
    decreases entries.len(),
{
    if entries.len() > 0 {
        lemma_for_output_len(entries.drop_last(), output);
    }
}

/// A pair stored in the cache is found again, in either direction, and
/// every entry then belongs to the output it was stored for.
pub proof fn law_curl_cache_finds_what_it_stored(
    entries: Seq<CurlEntry>,
    previous: usize,
    current: usize,
    output: OutputKey,
    textures: u64,
    capacity: usize,
)
    requires
        capacity > 0,
    ensures
        ({
            let after = insert_spec(entries, CurlEntry { previous_index: previous, current_index: current, output, textures }, capacity);
            &&& lookup_spec(after, previous, current, output) is Some
            &&& lookup_spec(after, current, previous, output) is Some
            &&& forall|i: int| 0 <= i < after.len() ==> (#[trigger] after[i]).output == output
        }),
{
    let e = CurlEntry { previous_index: previous, current_index: current, output, textures };
    let after = insert_spec(entries, e, capacity);
    lemma_for_output_len(entries, output);
    let kept = for_output(entries, output);
    assert(after[after.len() - 1] == e);
    lemma_lookup_finds_present(after, after.len() - 1, previous, current, output);
    lemma_lookup_finds_present(after, after.len() - 1, current, previous, output);
    assert forall|i: int| 0 <= i < after.len() implies (#[trigger] after[i]).output == output by {
        if i < after.len() - 1 {
            if kept.len() >= capacity {
                assert(after[i] == kept[i + 1]);
            } else {
                assert(after[i] == kept[i]);
            }
        }
    }
}

/// The hit with its two textures trading places.
pub open spec fn flipped(h: Option<CurlHit>) -> Option<CurlHit> {
    match h {
        Some(h) => Some(CurlHit { textures: h.textures, swapped: !h.swapped }),
        None => None,
    }
}

/// Some entry drawn for `output` shows the slides `a` and `b`, in either order.
pub open spec fn holds_pair(entries: Seq<CurlEntry>, a: usize, b: usize, output: OutputKey) -> bool {
    exists|i: int| 0 <= i < entries.len() && (#[trigger] entries[i]).output == output
        && ((entries[i].previous_index == a && entries[i].current_index == b)
            || (entries[i].previous_index == b && entries[i].current_index == a))
}

/// Looking a change up in the other direction finds the same textures with
/// their places traded; and a change is found exactly when an entry for the
/// output shows its two slides.
pub proof fn law_curl_lookup_is_symmetric(entries: Seq<CurlEntry>, a: usize, b: usize, output: OutputKey)
    requires
        a != b,
    ensures
        lookup_spec(entries, a, b, output) == flipped(lookup_spec(entries, b, a, output)),
        lookup_spec(entries, a, b, output) is Some <==> holds_pair(entries, a, b, output),
    decreases entries.len(),
{
    if entries.len() > 0 {
        let rest = entries.drop_first();
        law_curl_lookup_is_symmetric(rest, a, b, output);
        if holds_pair(rest, a, b, output) {
            let i = choose|i: int| 0 <= i < rest.len() && (#[trigger] rest[i]).output == output
                && ((rest[i].previous_index == a && rest[i].current_index == b)
                    || (rest[i].previous_index == b && rest[i].current_index == a));
            assert(entries[i + 1] == rest[i]);
        }
        if holds_pair(entries, a, b, output) && entry_hit(entries[0], a, b, output) is None {
            let i = choose|i: int| 0 <= i < entries.len() && (#[trigger] entries[i]).output == output
                && ((entries[i].previous_index == a && entries[i].current_index == b)
                    || (entries[i].previous_index == b && entries[i].current_index == a));
            assert(i != 0);
            assert(rest[i - 1] == entries[i]);
        }
        if entry_hit(entries[0], a, b, output) is Some {
            assert(holds_pair(entries, a, b, output)) by {
                assert(entries[0].output == output);
            }
        }
    }
}

/// The cache never holds more pairs than its capacity allows.
pub proof fn law_curl_cache_stays_within_capacity(entries: Seq<CurlEntry>, entry: CurlEntry, capacity: usize)
    requires
        entries.len() <= capacity,
    ensures
        insert_spec(entries, entry, capacity).len() <= capacity,
{
    lemma_for_output_len(entries, entry.output);
}

/// The slide has a moving background, which a cached texture cannot show.
pub open spec fn is_live_background(b: BackgroundType) -> bool {
    b == BackgroundType::Video || b == BackgroundType::Camera
}

/// The change from slide `previous` to slide `current` is a page curl
/// between two still slides, whose textures can be drawn ahead of time.
pub open spec fn curl_pair_is_static_spec(slides: Seq<Slide>, previous: usize, current: usize, backwards: bool) -> bool {
    &&& previous < slides.len()
    &&& current < slides.len()
    &&& plan_spec(slides[previous as int], slides[current as int], backwards, false, false, false, false) is PageCurl
    &&& !is_live_background(slides[previous as int].background_type)
    &&& !is_live_background(slides[current as int].background_type)
}

/// Whether the pair's page-curl textures can be prepared ahead of time.
pub fn curl_pair_is_static(slides: &Vec<Slide>, previous: usize, current: usize, backwards: bool) -> (r: bool)
    ensures
        r == curl_pair_is_static_spec(slides@, previous, current, backwards),
{
    if previous >= slides.len() || current >= slides.len() {
        return false;
    }
    let p = &slides[previous];
    let c = &slides[current];
    let curl = match plan(p, c, backwards, false, false) {
        TransitionPlan::PageCurl(_) => true,
        TransitionPlan::Layers(_) => false,
    };
    let p_live = match p.background_type {
        BackgroundType::Video | BackgroundType::Camera => true,
        _ => false,
    };
    let c_live = match c.background_type {
        BackgroundType::Video | BackgroundType::Camera => true,
        _ => false,
    };
    curl && !p_live && !c_live
}

/// A slide change whose page-curl textures are worth drawing ahead of time.
#[derive(Clone, Copy, Debug, PartialEq, Eq, Structural)]
pub struct CurlPair {
    pub previous: usize,
    pub current: usize,
    pub backwards: bool,
}

/// The pairs to prewarm from slide `current`: the step forward where it is
/// a static page curl, then, where the cache keeps two pairs, the step back.
pub open spec fn prewarm_pairs_spec(slides: Seq<Slide>, current: usize, capacity: usize) -> Seq<CurlPair> {
    let forward = if current + 1 < slides.len() && curl_pair_is_static_spec(slides, current, (current + 1) as usize, false) {
        seq![CurlPair { previous: current, current: (current + 1) as usize, backwards: false }]
    } else {
        Seq::empty()
    };
    if capacity > 1 && current > 0 && curl_pair_is_static_spec(slides, current, (current - 1) as usize, true) {
        forward.push(CurlPair { previous: current, current: (current - 1) as usize, backwards: true })
    } else {
        forward
    }
}

/// The slide changes next to `current` whose textures should be prewarmed.
pub fn prewarm_pairs(slides: &Vec<Slide>, current: usize, capacity: usize) -> (pairs: Vec<CurlPair>)
    ensures
        pairs@ == prewarm_pairs_spec(slides@, current, capacity),
{
    let n = slides.len();
    let forward = current < usize::MAX && current + 1 < n && curl_pair_is_static(slides, current, current + 1, false);
    let backward = capacity > 1 && current > 0 && curl_pair_is_static(slides, current, current - 1, true);
    let mut pairs: Vec<CurlPair> = Vec::new();
    if forward {
        pairs.push(CurlPair { previous: current, current: current + 1, backwards: false });
    }
    let ghost first = pairs@;
    if backward {
        pairs.push(CurlPair { previous: current, current: current - 1, backwards: true });
    }
    proof {
        let f = if forward {
            seq![CurlPair { previous: current, current: (current + 1) as usize, backwards: false }]
        } else {
            Seq::<CurlPair>::empty()
        };
        assert(first =~= f);
        if backward {
            assert(pairs@ =~= f.push(CurlPair { previous: current, current: (current - 1) as usize, backwards: true }));
        }
    }
    pairs
}

/// Every page-curl pair next to `current` that is worth prewarming is
/// already in the cache (or nothing can be cached at `output`).
pub open spec fn prewarm_ready_spec(slides: Seq<Slide>, current: usize, cache: Seq<CurlEntry>, output: OutputKey) -> bool {
    let capacity = curl_cache_capacity_spec(output);
    let forward_ready = current + 1 >= slides.len()
        || !curl_pair_is_static_spec(slides, current, (current + 1) as usize, false)
        || lookup_spec(cache, current, (current + 1) as usize, output) is Some;
    let backward_ready = capacity <= 1
        || current == 0
        || !curl_pair_is_static_spec(slides, current, (current - 1) as usize, true)
        || lookup_spec(cache, current, (current - 1) as usize, output) is Some;
    capacity == 0 || (forward_ready && backward_ready)
}

/// Whether prewarming has nothing left to do around slide `current`.
pub fn curl_prewarm_pairs_ready(slides: &Vec<Slide>, current: usize, cache: &CurlCache, output: OutputKey) -> (r: bool)
    ensures
        r == prewarm_ready_spec(slides@, current, cache.entries@, output),
{
    let n = slides.len();
    let capacity = curl_cache_capacity(output);
    if capacity == 0 {
        return true;
    }
    let forward_ready = current == usize::MAX || current + 1 >= n
        || !curl_pair_is_static(slides, current, current + 1, false)
        || cache.lookup(current, current + 1, output).is_some();
    let backward_ready = capacity <= 1 || current == 0
        || !curl_pair_is_static(slides, current, current - 1, true)
        || cache.lookup(current, current - 1, output).is_some();
    forward_ready && backward_ready
}

/// Where the stage stands with the camera.
#[derive(Clone, Debug)]
pub struct CameraState {
    pub has_media: bool,
    pub has_request: bool,
    pub attempted: bool,
    pub retry_pending: bool,
    pub error: Option<String>,
}

/// What preparing the camera does.
#[derive(Clone, Copy, Debug, PartialEq, Eq, Structural)]
pub struct CameraStep {
    /// Play (true) or pause (false) the camera stream, where there is one.
    pub set_playing: Option<bool>,
    /// Drop any request in flight.
    pub drop_request: bool,
    /// Try again shortly (the window is not active yet).
    pub schedule_retry: bool,
    /// Ask the portal for access now.
    pub start_request: bool,
}

/// The camera is wanted: media and camera enabled, not suppressed, not
/// blanked, and the slide on screen has a camera background.
pub fn camera_wanted(media_enabled: bool, camera_enabled: bool, suppress_media: bool, blank: bool, on_camera_slide: bool) -> (r: bool)
    ensures
        r == (media_enabled && camera_enabled && !suppress_media && !blank && on_camera_slide),
{
    media_enabled && camera_enabled && !suppress_media && !blank && on_camera_slide
}

impl CameraState {
    pub fn new() -> (c: CameraState)
        ensures
            !c.has_media && !c.has_request && !c.attempted && !c.retry_pending && c.error is None,
    {
        CameraState { has_media: false, has_request: false, attempted: false, retry_pending: false, error: None }
    }

    /// The portal state of this camera.
    pub fn portal_state(&self) -> (s: CameraPortalState)
        ensures
            s == camera_portal_state_spec(self.has_media, self.has_request, self.attempted, self.error is Some),
    {
        camera_portal_state(self.has_media, self.has_request, self.attempted, self.error.is_some())
    }

    /// Brings the camera in line with the stage: the stream plays only while
    /// wanted in an active window; an unwanted camera forgets its request; a
    /// wanted camera in an inactive window retries shortly; otherwise access
    /// is requested once.
    pub fn prepare(&mut self, wanted: bool, active_window: bool) -> (step: CameraStep)
        ensures
            step.set_playing == (if old(self).has_media { Some(wanted && active_window) } else { None }),
            !wanted ==> step.drop_request && !step.schedule_retry && !step.start_request
                && !final(self).has_request && !final(self).attempted
                && final(self).retry_pending == old(self).retry_pending,
            wanted && !active_window ==> !step.drop_request && !step.start_request
                && step.schedule_retry == !old(self).retry_pending && final(self).retry_pending
                && final(self).has_request == old(self).has_request && final(self).attempted == old(self).attempted,
            wanted && active_window ==> !step.drop_request && !step.schedule_retry
                && step.start_request == !(old(self).has_media || old(self).has_request || old(self).attempted)
                && (step.start_request ==> final(self).attempted && !final(self).retry_pending && final(self).has_request)
                && (!step.start_request ==> final(self).attempted == old(self).attempted
                    && final(self).retry_pending == old(self).retry_pending
                    && final(self).has_request == old(self).has_request),
            final(self).has_media == old(self).has_media,
            final(self).error == old(self).error,
    {
        let set_playing = if self.has_media { Some(wanted && active_window) } else { None };
        if !wanted {
            self.has_request = false;
            self.attempted = false;
            return CameraStep { set_playing, drop_request: true, schedule_retry: false, start_request: false };
        }
        if !active_window {
            let schedule_retry = !self.retry_pending;
            self.retry_pending = true;
            return CameraStep { set_playing, drop_request: false, schedule_retry, start_request: false };
        }
        if self.has_media || self.has_request || self.attempted {
            return CameraStep { set_playing, drop_request: false, schedule_retry: false, start_request: false };
        }
        self.attempted = true;
        self.retry_pending = false;
        self.has_request = true;
        CameraStep { set_playing, drop_request: false, schedule_retry: false, start_request: true }
    }

    /// The scheduled retry came due.
    pub fn retry_due(&mut self)
        ensures
            !final(self).retry_pending,
            final(self).has_media == old(self).has_media,
            final(self).has_request == old(self).has_request,
            final(self).attempted == old(self).attempted,
            final(self).error == old(self).error,
    {
        self.retry_pending = false;
    }

    /// The user asked to try the camera again: allowed while the camera is
    /// wanted and neither streaming nor being requested; it clears the
    /// earlier attempt and error.
    pub fn retry(&mut self, wanted: bool) -> (allowed: bool)
        ensures
            allowed == (wanted && !old(self).has_media && !old(self).has_request),
            allowed ==> !final(self).attempted && final(self).error is None
                && final(self).has_media == old(self).has_media && final(self).has_request == old(self).has_request,
            !allowed ==> final(self).attempted == old(self).attempted && final(self).error == old(self).error
                && final(self).has_request == old(self).has_request,
            final(self).retry_pending == old(self).retry_pending,
    {
        if !wanted || self.has_media || self.has_request {
            return false;
        }
        self.attempted = false;
        self.error = None;
        true
    }

    /// The portal answered: with a stream, which plays (or fails to), with a
    /// refusal, or with an error.
    pub fn portal_answered(&mut self, stream: bool, error: Option<String>)
        ensures
            !final(self).has_request,
            final(self).has_media == (old(self).has_media || (stream && error is None)),
            final(self).error == (if error is Some { error } else { old(self).error }),
            final(self).attempted == old(self).attempted,
    {
        self.has_request = false;
        match error {
            Some(e) => {
                self.error = Some(e);
            },
            None => {
                if stream {
                    self.has_media = true;
                }
            },
        }
    }
}

/// The video handed to graphics offload: the active one, while the screen
/// is not blanked, no transition runs and the slide shows a video.
pub fn offload_target(blank: bool, transitioning: bool, current_is_video: bool, active: Option<u64>) -> (r: Option<u64>)
    ensures
        r == (if !blank && !transitioning && current_is_video { active } else { None }),
{
    if !blank && !transitioning && current_is_video { active } else { None }
}

/// An output as "<width>x<height>@<scale>".
pub open spec fn output_text(o: OutputKey) -> Seq<char> {
    signed_decimal(o.width as int) + "x"@ + signed_decimal(o.height as int) + "@"@ + signed_decimal(o.scale as int)
}

/// A cached pair as "<previous><-><current> <output>".
pub open spec fn entry_text(e: CurlEntry) -> Seq<char> {
    decimal(e.previous_index as nat) + "<->"@ + decimal(e.current_index as nat) + " "@ + output_text(e.output)
}

/// The cached pairs, joined by commas.
pub open spec fn entries_text(entries: Seq<CurlEntry>) -> Seq<char>
    decreases entries.len(),
{
    if entries.len() == 0 {
        Seq::empty()
    } else if entries.len() == 1 {
        entry_text(entries[0])
    } else {
        entries_text(entries.drop_last()) + ","@ + entry_text(entries.last())
    }
}

fn output_chars(o: OutputKey) -> (r: Vec<char>)
    ensures
        r@ == output_text(o),
{
    let mut v = signed_decimal_chars(o.width as i64);
    append_str(&mut v, "x");
    let h = signed_decimal_chars(o.height as i64);
    append_chars(&mut v, &h);
    append_str(&mut v, "@");
    let s = signed_decimal_chars(o.scale as i64);
    append_chars(&mut v, &s);
    v
}

/// The prewarm status line: "current=<n> output=<output or none> cache=<pairs>".
pub fn curl_prewarm_status(current: usize, output: Option<OutputKey>, cache: &CurlCache) -> (s: String)
    ensures
        s@ == "current="@ + decimal(current as nat) + " output="@
            + match output { Some(o) => output_text(o), None => "none"@ }
            + " cache="@ + entries_text(cache.entries@),
{
    let mut v = chars_of("current=");
    let c = decimal_chars(current as u64);
    append_chars(&mut v, &c);
    append_str(&mut v, " output=");
    match output {
        Some(o) => {
            let t = output_chars(o);
            append_chars(&mut v, &t);
        },
        None => append_str(&mut v, "none"),
    }
    append_str(&mut v, " cache=");
    let ghost head = v@;
    let mut i: usize = 0;
    while i < cache.entries.len()
        invariant
            i <= cache.entries@.len(),
            v@ == head + entries_text(cache.entries@.take(i as int)),
        decreases cache.entries@.len() - i,
    {
        let ghost before = v@;
        let e = cache.entries[i];
        let ghost t = cache.entries@.take(i + 1);
        assert(t.drop_last() =~= cache.entries@.take(i as int));
        if i > 0 {
            append_str(&mut v, ",");
        }
        let p = decimal_chars(e.previous_index as u64);
        append_chars(&mut v, &p);
        append_str(&mut v, "<->");
        let q = decimal_chars(e.current_index as u64);
        append_chars(&mut v, &q);
        append_str(&mut v, " ");
        let o = output_chars(e.output);
        append_chars(&mut v, &o);
        if i == 0 {
            assert(v@ =~= head + entries_text(t));
        } else {
            assert(v@ =~= before + ","@ + entry_text(e));
            assert(v@ =~= head + entries_text(t));
        }
        i += 1;
    }
    assert(cache.entries@.take(i as int) =~= cache.entries@);
    string_of(&v)
}

/// Whether the change from `previous` to `current` is ready to curl without
/// drawing: there is nothing to prewarm (no presentation, or not a static
/// page curl), or its textures are cached (or cannot be at this output). Not
/// ready before the stage knows its output.
pub fn curl_pair_ready(
    slides: Option<&Vec<Slide>>,
    previous: usize,
    current: usize,
    backwards: bool,
    output: Option<OutputKey>,
    cache: &CurlCache,
) -> (r: bool)
    ensures
        r == match slides {
            None => true,
            Some(s) => if !curl_pair_is_static_spec(s@, previous, current, backwards) {
                true
            } else {
                match output {
                    None => false,
                    Some(o) => curl_cache_capacity_spec(o) == 0 || lookup_spec(cache.entries@, previous, current, o) is Some,
                }
            },
        },
{
    let s = match slides {
        None => return true,
        Some(s) => s,
    };
    if !curl_pair_is_static(s, previous, current, backwards) {
        return true;
    }
    match output {
        None => false,
        Some(o) => curl_cache_capacity(o) == 0 || cache.lookup(previous, current, o).is_some(),
    }
}

/// Whether the step forward from slide `current` is ready to curl (true
/// where there is no next slide).
pub fn curl_prewarm_ready(
    slides: Option<&Vec<Slide>>,
    current: usize,
    output: Option<OutputKey>,
    cache: &CurlCache,
) -> (r: bool)
    ensures
        r == match slides {
            None => true,
            Some(s) => if current + 1 < s@.len() {
                !curl_pair_is_static_spec(s@, current, (current + 1) as usize, false) || match output {
                    None => false,
                    Some(o) => curl_cache_capacity_spec(o) == 0
                        || lookup_spec(cache.entries@, current, (current + 1) as usize, o) is Some,
                }
            } else {
                true
            },
        },
{
    match slides {
        None => true,
        Some(s) => {
            let n = s.len();
            if current < usize::MAX && current + 1 < n {
                curl_pair_ready(slides, current, current + 1, false, output, cache)
            } else {
                true
            }
        },
    }
}

/// Whether to schedule a prewarm: not when the pairs are ready, one is
/// already scheduled, or a transition runs.
pub fn should_schedule_prewarm(pairs_ready: bool, scheduled: bool, transitioning: bool) -> (r: bool)
    ensures
        r == (!pairs_ready && !scheduled && !transitioning),
{
    !pairs_ready && !scheduled && !transitioning
}

/// A media switch (video, audio or camera) set to `enabled`; returns whether
/// it changed, which is when the stage rebuilds what depends on it.
pub fn switch(setting: &mut bool, enabled: bool) -> (changed: bool)
    ensures
        changed == (*old(setting) != enabled),
        *final(setting) == enabled,
{
    let changed = *setting != enabled;
    *setting = enabled;
    changed
}

impl CameraState {
    /// Media playback was switched off: the camera's stream and request go
    /// and access may be asked again later.
    pub fn media_disabled(&mut self)
        ensures
            !final(self).has_media && !final(self).has_request && !final(self).attempted,
            final(self).retry_pending == old(self).retry_pending,
            final(self).error == old(self).error,
    {
        self.has_request = false;
        self.has_media = false;
        self.attempted = false;
    }

    /// The camera was switched on or off: any request goes, a switched-off
    /// camera loses its stream, and the attempt and error are forgotten.
    pub fn camera_switched(&mut self, enabled: bool)
        ensures
            !final(self).has_request,
            final(self).has_media == (enabled && old(self).has_media),
            !final(self).attempted,
            final(self).error is None,
            final(self).retry_pending == old(self).retry_pending,
    {
        self.has_request = false;
        if !enabled {
            self.has_media = false;
        }
        self.attempted = false;
        self.error = None;
    }
}

} // verus!
