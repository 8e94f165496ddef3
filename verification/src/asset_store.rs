//! The bookkeeping of the shared image store: which images are cached,
//! queued, loading or failed, how many loads run at once, and what each
//! finished load changes. Assets are identified by keys; the loading itself
//! happens outside, started by the tickets this store hands out.
use vstd::prelude::*;
use crate::memory::{media_prefetch_slots, media_prefetch_slots_spec, prefetch_slots, prefetch_slots_spec};
use crate::text::{append_chars, append_str, decimal, decimal_chars, owned, string_of};
use crate::texture_cache::{has_key, inserted, touched, without_key, TextureCache};

verus! {

pub const MAX_TRACKED_ASSETS: usize = 1024;
pub const MAX_FAILURES: usize = 1024;
pub const MAX_SVG_CACHE: usize = 64;
pub const MAX_SVG_BYTES: u64 = 16777216;

/// The load generation of one asset: how often it was invalidated.
#[derive(Clone, Copy, Debug, PartialEq, Eq, Structural)]
pub struct PathGeneration {
    pub key: u64,
    pub generation: u64,
}

/// Why an asset failed to load.
#[derive(Clone, Debug)]
pub struct Failure {
    pub key: u64,
    pub error: String,
}

/// A load to start: the asset, and the generations it was started under.
#[derive(Clone, Copy, Debug, PartialEq, Eq, Structural)]
pub struct LoadTicket {
    pub key: u64,
    pub generation: u64,
    pub path_generation: u64,
}

/// What a load produced.
#[derive(Clone, Debug)]
pub enum LoadOutcome {
    /// A texture of this size in pixels.
    Decoded { width: i32, height: i32 },
    Failed(String),
}

/// The answer to a prefetch request.
#[derive(Clone, Debug)]
pub enum Prefetch {
    /// The texture is cached: the request is answered at once.
    Ready,
    /// The asset failed before: the request is answered with this error.
    Failed(String),
    /// Too many distinct loads are pending: the request is refused.
    Refused,
    /// A load of the asset is already pending: the request waits for it.
    Waiting,
    /// The asset was queued; these loads start now.
    Queued(Vec<LoadTicket>),
}

/// What a finished load asks for.
#[derive(Clone, Debug)]
pub struct LoadFinish {
    /// The answer for the requests waiting on the asset, where there are any.
    pub notify: Option<Result<(), String>>,
    /// Loads to start now.
    pub start: Vec<LoadTicket>,
}

/// Counters of the store.
#[derive(Clone, Copy, Debug, PartialEq, Eq, Structural)]
pub struct Stats {
    pub textures: usize,
    pub pending: usize,
    pub failures: usize,
    pub svg_sources: usize,
    pub active_loaders: usize,
    pub loader_limit: usize,
    pub texture_bytes: u64,
    pub texture_budget: u64,
}

/// `s` without the occurrences of `k`.
pub open spec fn without(s: Seq<u64>, k: u64) -> Seq<u64>
    decreases s.len(),
{
    if s.len() == 0 {
        s
    } else {
        let rest = without(s.drop_last(), k);
        if s.last() == k { rest } else { rest.push(s.last()) }
    }
}

/// The generation recorded for `key`, 0 where none is.
pub open spec fn generation_of(g: Seq<PathGeneration>, key: u64) -> u64
    decreases g.len(),
{
    if g.len() == 0 {
        0
    } else if g.last().key == key {
        g.last().generation
    } else {
        generation_of(g.drop_last(), key)
    }
}

/// The error recorded for `key`, if any.
pub open spec fn failure_of(f: Seq<Failure>, key: u64) -> Option<Seq<char>>
    decreases f.len(),
{
    if f.len() == 0 {
        None
    } else if f.last().key == key {
        Some(f.last().error@)
    } else {
        failure_of(f.drop_last(), key)
    }
}

/// One round of the loader pump over `queue`: while fewer than `limit`
/// loads run, the asset at the front leaves the queue and starts loading,
/// or goes to the back where it is loading already. Gives the queue, the
/// assets in flight, the number of running loads and the assets started.
pub open spec fn pump_spec(queue: Seq<u64>, in_flight: Seq<u64>, active: nat, limit: nat, steps: nat)
    -> (Seq<u64>, Seq<u64>, nat, Seq<u64>)
    decreases steps,
{
    if steps == 0 || active >= limit || queue.len() == 0 {
        (queue, in_flight, active, Seq::empty())
    } else {
        let k = queue[0];
        if in_flight.contains(k) {
            pump_spec(queue.drop_first().push(k), in_flight, active, limit, (steps - 1) as nat)
        } else {
            let r = pump_spec(queue.drop_first(), in_flight.push(k), active + 1, limit, (steps - 1) as nat);
            (r.0, r.1, r.2, seq![k] + r.3)
        }
    }
}

/// The tickets for loads of `keys` started in generation `generation`.
pub open spec fn tickets_spec(keys: Seq<u64>, generation: u64, path_generations: Seq<PathGeneration>) -> Seq<LoadTicket> {
    keys.map_values(|k: u64| LoadTicket { key: k, generation, path_generation: generation_of(path_generations, k) })
}

/// The bytes of a decoded RGBA texture of the given size.
pub open spec fn decoded_bytes_spec(width: i32, height: i32) -> u64 {
    let w = if width > 0 { width as int } else { 0 };
    let h = if height > 0 { height as int } else { 0 };
    if w * h * 4 > u64::MAX { u64::MAX } else { (w * h * 4) as u64 }
}

/// The bytes a decoded texture of `width` by `height` pixels takes.
pub fn decoded_texture_bytes(width: i32, height: i32) -> (b: u64)
    ensures
        b == decoded_bytes_spec(width, height),
{
    let w: u64 = if width > 0 { width as u64 } else { 0 };
    let h: u64 = if height > 0 { height as u64 } else { 0 };
    assert(w * h <= 0x8000_0000u64 * 0x8000_0000u64) by (nonlinear_arith)
        requires w <= 0x8000_0000u64, h <= 0x8000_0000u64;
    let wh = w * h;
    if wh > u64::MAX / 4 { u64::MAX } else { wh * 4 }
}

/// The message for a decoded image larger than the whole budget.
pub open spec fn over_budget_message(bytes: u64, budget: u64) -> Seq<char> {
    "decoded image requires "@ + decimal((bytes / 1024 / 1024) as nat) + " MiB, exceeding the "@
        + decimal((budget / 1024 / 1024) as nat) + " MiB texture budget"@
}

fn over_budget(bytes: u64, budget: u64) -> (m: String)
    ensures
        m@ == over_budget_message(bytes, budget),
{
    let mut v: Vec<char> = Vec::new();
    append_str(&mut v, "decoded image requires ");
    let a = decimal_chars(bytes / 1024 / 1024);
    append_chars(&mut v, &a);
    append_str(&mut v, " MiB, exceeding the ");
    let b = decimal_chars(budget / 1024 / 1024);
    append_chars(&mut v, &b);
    append_str(&mut v, " MiB texture budget");
    string_of(&v)
}

fn contains_key(v: &Vec<u64>, k: u64) -> (r: bool)
    ensures
        r == v@.contains(k),
{
    let mut i: usize = 0;
    while i < v.len()
        invariant
            i <= v@.len(),
            forall|j: int| 0 <= j < i ==> v@[j] != k,
        decreases v@.len() - i,
    {
        if v[i] == k {
            assert(v@[i as int] == k);
            return true;
        }
        i += 1;
    }
    false
}

fn remove_key(v: &mut Vec<u64>, k: u64)
    ensures
        final(v)@ == without(old(v)@, k),
{
    let ghost start = v@;
    let mut kept: Vec<u64> = Vec::new();
    let mut i: usize = 0;
    while i < v.len()
        invariant
            i <= v@.len(),
            v@ == start,
            kept@ == without(start.take(i as int), k),
        decreases v@.len() - i,
    {
        assert(start.take(i + 1).drop_last() =~= start.take(i as int));
        if v[i] != k {
            kept.push(v[i]);
        }
        i += 1;
    }
    assert(start.take(i as int) =~= start);
    *v = kept;
}

proof fn lemma_without(s: Seq<u64>, k: u64)
    ensures
        !without(s, k).contains(k),
        without(s, k).len() <= s.len(),
        forall|x: u64| x != k ==> (without(s, k).contains(x) == s.contains(x)),
        s.no_duplicates() ==> without(s, k).no_duplicates(),
    decreases s.len(),
{
    if s.len() > 0 {
        let d = s.drop_last();
        lemma_without(d, k);
        let r = without(d, k);
        let t = without(s, k);
        assert forall|y: u64| r.contains(y) implies t.contains(y) by {
            let w = choose|w: int| 0 <= w < r.len() && r[w] == y;
            assert(t[w] == y);
        }
        assert forall|x: u64| x != k implies (without(s, k).contains(x) == s.contains(x)) by {
            if s.contains(x) {
                let w = choose|w: int| 0 <= w < s.len() && s[w] == x;
                if w < d.len() {
                    assert(d[w] == x);
                    assert(d.contains(x));
                    assert(r.contains(x));
                } else {
                    assert(t[t.len() - 1] == x);
                }
            }
            if without(s, k).contains(x) {
                let w = choose|w: int| 0 <= w < without(s, k).len() && without(s, k)[w] == x;
                if w < r.len() {
                    assert(r[w] == x);
                    assert(r.contains(x));
                    assert(d.contains(x));
                    let v = choose|v: int| 0 <= v < d.len() && d[v] == x;
                    assert(s[v] == d[v]);
                } else {
                    assert(s[s.len() - 1] == x);
                }
            }
        }
        if without(s, k).contains(k) {
            let w = choose|w: int| 0 <= w < without(s, k).len() && without(s, k)[w] == k;
            if w < r.len() {
                assert(r[w] == k);
            }
        }
        if s.no_duplicates() {
            assert(d.no_duplicates()) by {
                assert forall|i: int, j: int| 0 <= i < d.len() && 0 <= j < d.len() && i != j implies d[i] != d[j] by {
                    assert(d[i] == s[i] && d[j] == s[j]);
                }
            }
            if s.last() != k {
                assert(!d.contains(s.last())) by {
                    if d.contains(s.last()) {
                        let w = choose|w: int| 0 <= w < d.len() && d[w] == s.last();
                        assert(s[w] == s[s.len() - 1]);
                    }
                }
                assert(!r.contains(s.last()));
                let t = without(s, k);
                assert forall|i: int, j: int| 0 <= i < t.len() && 0 <= j < t.len() && i != j implies t[i] != t[j] by {
                    if i < r.len() && j < r.len() {
                    } else if i < r.len() {
                        assert(t[j] == s.last());
                        assert(r[i] == t[i]);
                    } else if j < r.len() {
                        assert(t[i] == s.last());
                        assert(r[j] == t[j]);
                    }
                }
            }
        }
    }
}

/// The accounting of prefetch requests: how many were made, answered and
/// dropped, and how many wait on each asset.
pub struct Requests {
    pub asked: nat,
    pub answered: nat,
    pub dropped: nat,
    pub waiting: Map<u64, nat>,
}

/// The requests waiting on the assets `keys`.
pub open spec fn waiting_total(keys: Seq<u64>, waiting: Map<u64, nat>) -> int
    decreases keys.len(),
{
    if keys.len() == 0 { 0 } else { waiting_total(keys.drop_last(), waiting) + waiting[keys.last()] }
}

proof fn lemma_total_nonneg(keys: Seq<u64>, waiting: Map<u64, nat>)
    ensures
        waiting_total(keys, waiting) >= 0,
    decreases keys.len(),
{
    if keys.len() > 0 {
        lemma_total_nonneg(keys.drop_last(), waiting);
    }
}

proof fn lemma_total_outside(keys: Seq<u64>, waiting: Map<u64, nat>, k: u64, n: nat)
    requires
        !keys.contains(k),
    ensures
        waiting_total(keys, waiting.insert(k, n)) == waiting_total(keys, waiting),
    decreases keys.len(),
{
    if keys.len() > 0 {
        assert(!keys.drop_last().contains(k)) by {
            if keys.drop_last().contains(k) {
                let w = choose|w: int| 0 <= w < keys.drop_last().len() && keys.drop_last()[w] == k;
                assert(keys[w] == k);
            }
        }
        assert(keys.last() != k) by {
            assert(keys[keys.len() - 1] == keys.last());
        }
        lemma_total_outside(keys.drop_last(), waiting, k, n);
    }
}

proof fn lemma_total_without(keys: Seq<u64>, waiting: Map<u64, nat>, k: u64)
    requires
        keys.no_duplicates(),
    ensures
        waiting_total(keys, waiting) == waiting_total(without(keys, k), waiting) + (if keys.contains(k) { waiting[k] as int } else { 0 }),
    decreases keys.len(),
{
    if keys.len() > 0 {
        let d = keys.drop_last();
        assert(d.no_duplicates()) by {
            assert forall|i: int, j: int| 0 <= i < d.len() && 0 <= j < d.len() && i != j implies d[i] != d[j] by {
                assert(d[i] == keys[i] && d[j] == keys[j]);
            }
        }
        lemma_total_without(d, waiting, k);
        assert(keys.drop_last() == d);
        if keys.last() != k {
            assert(without(d, k).push(keys.last()).drop_last() =~= without(d, k));
        }
        if keys.last() == k {
            assert(!d.contains(k)) by {
                if d.contains(k) {
                    let w = choose|w: int| 0 <= w < d.len() && d[w] == k;
                    assert(keys[w] == keys[keys.len() - 1]);
                }
            }
            assert(keys.contains(k)) by { assert(keys[keys.len() - 1] == k); }
        } else {
            assert(keys.contains(k) == d.contains(k)) by {
                if keys.contains(k) {
                    let w = choose|w: int| 0 <= w < keys.len() && keys[w] == k;
                    assert(w < keys.len() - 1);
                    assert(d[w] == k);
                }
                if d.contains(k) {
                    let w = choose|w: int| 0 <= w < d.len() && d[w] == k;
                    assert(keys[w] == k);
                }
            }
        }
    }
}

proof fn lemma_total_inside(keys: Seq<u64>, waiting: Map<u64, nat>, k: u64, n: nat)
    requires
        keys.no_duplicates(),
        keys.contains(k),
    ensures
        waiting_total(keys, waiting.insert(k, n)) == waiting_total(keys, waiting) - waiting[k] + n,
{
    let w2 = waiting.insert(k, n);
    lemma_total_without(keys, waiting, k);
    lemma_total_without(keys, w2, k);
    lemma_without(keys, k);
    lemma_total_outside(without(keys, k), waiting, k, n);
}

/// The image store's bookkeeping.
#[derive(Clone)]
pub struct AssetStore {
    pub textures: TextureCache,
    /// Assets waiting for a loader, front first.
    pub queue: Vec<u64>,
    /// Assets with requests waiting for their load.
    pub pending: Vec<u64>,
    /// Assets being loaded.
    pub in_flight: Vec<u64>,
    pub path_generations: Vec<PathGeneration>,
    pub failures: Vec<Failure>,
    /// Assets whose parsed SVG is cached.
    pub svg: Vec<u64>,
    /// Counts `clear`s; loads started before the last one are ignored.
    pub generation: u64,
    pub active_loaders: usize,
    pub loader_limit: usize,
    pub load_delay_ms: u64,
    /// The generation each asset in flight was started under.
    pub flight_generations: Ghost<Map<u64, u64>>,
    /// The accounting of prefetch requests.
    pub requests: Ghost<Requests>,
}

impl AssetStore {
    /// The texture cache is consistent and within budget, loads in flight
    /// are distinct and no more than the limit run.
    pub open spec fn wf(&self) -> bool {
        &&& self.textures.wf()
        &&& self.textures.texture_bytes <= self.textures.texture_budget
        &&& self.textures.texture_budget <= u64::MAX / 2
        &&& self.active_loaders <= self.loader_limit
        &&& self.in_flight@.no_duplicates()
        &&& self.pending@.no_duplicates()
        &&& self.waiting_served()
        &&& self.accounted()
    }

    /// Every request made was answered, dropped, or waits on an asset with
    /// waiting requests, and each such asset has at least one.
    pub open spec fn accounted(&self) -> bool {
        &&& self.requests@.asked == self.requests@.answered + self.requests@.dropped
            + waiting_total(self.pending@, self.requests@.waiting)
        &&& forall|k: u64| #[trigger] self.pending@.contains(k) ==> self.requests@.waiting.contains_key(k)
            && self.requests@.waiting[k] >= 1
    }

    /// Every asset with waiting requests is queued, or loading in its
    /// current generation, so a load will answer it.
    pub open spec fn waiting_served(&self) -> bool {
        forall|k: u64| #[trigger] self.pending@.contains(k) ==> self.queue@.contains(k)
            || (self.in_flight@.contains(k) && self.flight_generations@.contains_key(k)
                && self.flight_generations@[k] == generation_of(self.path_generations@, k))
    }

    /// An empty store running up to `loader_limit` loads with a texture
    /// budget of `texture_budget` bytes.
    pub fn new(loader_limit: usize, texture_budget: u64) -> (s: AssetStore)
        requires
            texture_budget <= u64::MAX / 2,
        ensures
            s.wf(),
            s.textures.entries@.len() == 0,
            s.textures.texture_budget == texture_budget,
            s.loader_limit == loader_limit,
            s.queue@.len() == 0,
            s.pending@.len() == 0,
            s.in_flight@.len() == 0,
            s.failures@.len() == 0,
            s.svg@.len() == 0,
            s.active_loaders == 0,
            s.generation == 0,
            s.load_delay_ms == 0,
    {
        AssetStore {
            textures: TextureCache::new(texture_budget),
            queue: Vec::new(),
            pending: Vec::new(),
            in_flight: Vec::new(),
            path_generations: Vec::new(),
            failures: Vec::new(),
            svg: Vec::new(),
            generation: 0,
            active_loaders: 0,
            loader_limit,
            load_delay_ms: 0,
            flight_generations: Ghost(Map::empty()),
            requests: Ghost(Requests { asked: 0, answered: 0, dropped: 0, waiting: Map::empty() }),
        }
    }

    /// Delays every load by `ms` milliseconds (for validation runs).
    pub fn set_load_delay(&mut self, ms: u64)
        ensures
            final(self).load_delay_ms == ms,
            final(self).textures == old(self).textures,
            final(self).queue == old(self).queue,
            final(self).pending == old(self).pending,
            final(self).in_flight == old(self).in_flight,
            final(self).active_loaders == old(self).active_loaders,
            final(self).loader_limit == old(self).loader_limit,
            final(self).generation == old(self).generation,
    {
        self.load_delay_ms = ms;
    }

    /// Forgets everything and starts a new generation; returns the assets
    /// whose loads were in flight, to be cancelled.
    pub fn clear(&mut self) -> (cancel: Vec<u64>)
        requires
            old(self).wf(),
        ensures
            final(self).wf(),
            cancel@ == old(self).in_flight@,
            final(self).generation == old(self).generation.wrapping_add(1),
            final(self).textures.entries@.len() == 0,
            final(self).textures.texture_bytes == 0,
            final(self).textures.texture_budget == old(self).textures.texture_budget,
            final(self).queue@.len() == 0,
            final(self).pending@.len() == 0,
            final(self).in_flight@.len() == 0,
            final(self).path_generations@.len() == 0,
            final(self).failures@.len() == 0,
            final(self).svg@.len() == 0,
            final(self).active_loaders == 0,
            final(self).loader_limit == old(self).loader_limit,
            final(self).requests@.asked == old(self).requests@.asked,
            final(self).requests@.answered == old(self).requests@.answered,
            final(self).requests@.dropped == old(self).requests@.dropped
                + waiting_total(old(self).pending@, old(self).requests@.waiting),
    {
        self.generation = self.generation.wrapping_add(1);
        let cancel = self.in_flight.clone();
        self.textures.clear();
        self.queue.clear();
        self.pending.clear();
        self.in_flight.clear();
        self.path_generations.clear();
        self.failures.clear();
        self.svg.clear();
        self.active_loaders = 0;
        proof {
            lemma_total_nonneg(old(self).pending@, old(self).requests@.waiting);
        }
        let ghost r = self.requests@;
        self.requests = Ghost(Requests {
            dropped: r.dropped + waiting_total(old(self).pending@, r.waiting) as nat,
            ..r
        });
        proof {
            assert(waiting_total(self.pending@, self.requests@.waiting) == 0);
        }
        cancel
    }

    /// The generation recorded for `key`.
    pub fn path_generation(&self, key: u64) -> (g: u64)
        ensures
            g == generation_of(self.path_generations@, key),
    {
        let mut i = self.path_generations.len();
        assert(self.path_generations@.take(i as int) =~= self.path_generations@);
        while i > 0
            invariant
                i <= self.path_generations@.len(),
                generation_of(self.path_generations@, key) == generation_of(self.path_generations@.take(i as int), key),
            decreases i,
        {
            let ghost t = self.path_generations@.take(i as int);
            assert(t.drop_last() =~= self.path_generations@.take(i - 1));
            if self.path_generations[i - 1].key == key {
                return self.path_generations[i - 1].generation;
            }
            i -= 1;
        }
        assert(self.path_generations@.take(0) =~= Seq::<PathGeneration>::empty());
        0
    }

    /// Records why `key` failed, where fewer than the maximum of failures
    /// are recorded.
    fn record_failure(&mut self, key: u64, error: String)
        ensures
            final(self).failures@.len() < MAX_FAILURES ==> failure_of(final(self).failures@, key) == Some(error@),
            old(self).failures@.len() >= MAX_FAILURES ==> final(self).failures@ == old(self).failures@,
            final(self).textures == old(self).textures,
            final(self).queue == old(self).queue,
            final(self).pending == old(self).pending,
            final(self).in_flight == old(self).in_flight,
            final(self).path_generations == old(self).path_generations,
            final(self).svg == old(self).svg,
            final(self).active_loaders == old(self).active_loaders,
            final(self).loader_limit == old(self).loader_limit,
            final(self).generation == old(self).generation,
            final(self).load_delay_ms == old(self).load_delay_ms,
            final(self).flight_generations == old(self).flight_generations,
            final(self).requests == old(self).requests,
    {
        if self.failures.len() < MAX_FAILURES {
            self.failures.push(Failure { key, error });
        }
    }

    /// The error recorded for `key`, if it failed.
    pub fn failure(&self, key: u64) -> (r: Option<String>)
        ensures
            match r {
                Some(e) => failure_of(self.failures@, key) == Some(e@),
                None => failure_of(self.failures@, key) is None,
            },
    {
        let mut i = self.failures.len();
        assert(self.failures@.take(i as int) =~= self.failures@);
        while i > 0
            invariant
                i <= self.failures@.len(),
                failure_of(self.failures@, key) == failure_of(self.failures@.take(i as int), key),
            decreases i,
        {
            let ghost t = self.failures@.take(i as int);
            assert(t.drop_last() =~= self.failures@.take(i - 1));
            if self.failures[i - 1].key == key {
                return Some(self.failures[i - 1].error.clone());
            }
            i -= 1;
        }
        assert(self.failures@.take(0) =~= Seq::<Failure>::empty());
        None
    }

    /// The assets that failed, in the order they failed.
    pub fn failed_keys(&self) -> (keys: Vec<u64>)
        ensures
            keys@.len() == self.failures@.len(),
            forall|i: int| 0 <= i < keys@.len() ==> keys@[i] == #[trigger] self.failures@[i].key,
    {
        let mut keys: Vec<u64> = Vec::new();
        let mut i: usize = 0;
        while i < self.failures.len()
            invariant
                i <= self.failures@.len(),
                keys@.len() == i,
                forall|j: int| 0 <= j < i ==> keys@[j] == #[trigger] self.failures@[j].key,
            decreases self.failures@.len() - i,
        {
            keys.push(self.failures[i].key);
            i += 1;
        }
        keys
    }

    /// Starts loads from the queue while loaders are free (see `pump_spec`).
    pub fn pump(&mut self) -> (tickets: Vec<LoadTicket>)
        requires
            old(self).wf(),
        ensures
            final(self).wf(),
            ({
                let r = pump_spec(
                    old(self).queue@,
                    old(self).in_flight@,
                    old(self).active_loaders as nat,
                    old(self).loader_limit as nat,
                    old(self).queue@.len(),
                );
                &&& final(self).queue@ == r.0
                &&& final(self).in_flight@ == r.1
                &&& final(self).active_loaders == r.2
                &&& tickets@ == tickets_spec(r.3, old(self).generation, old(self).path_generations@)
            }),
            forall|i: int| 0 <= i < tickets@.len() ==> final(self).in_flight@.contains(#[trigger] tickets@[i].key)
                && final(self).flight_generations@.contains_key(tickets@[i].key)
                && final(self).flight_generations@[tickets@[i].key] == tickets@[i].path_generation,
            final(self).textures == old(self).textures,
            final(self).pending == old(self).pending,
            final(self).requests == old(self).requests,
            final(self).failures == old(self).failures,
            final(self).path_generations == old(self).path_generations,
            final(self).svg == old(self).svg,
            final(self).generation == old(self).generation,
            final(self).loader_limit == old(self).loader_limit,
            final(self).load_delay_ms == old(self).load_delay_ms,
    {
        let queued = self.queue.len();
        let ghost total = pump_spec(
            self.queue@,
            self.in_flight@,
            self.active_loaders as nat,
            self.loader_limit as nat,
            queued as nat,
        );
        let mut tickets: Vec<LoadTicket> = Vec::new();
        let mut step: usize = 0;
        let mut stopped = false;
        let ghost mut started: Seq<u64> = Seq::empty();
        while step < queued && !stopped
            invariant
                self.wf(),
                step <= queued,
                self.textures == old(self).textures,
                self.pending == old(self).pending,
                self.requests == old(self).requests,
                self.failures == old(self).failures,
                self.path_generations == old(self).path_generations,
                self.svg == old(self).svg,
                self.generation == old(self).generation,
                self.loader_limit == old(self).loader_limit,
                self.load_delay_ms == old(self).load_delay_ms,
                !stopped ==> ({
                    let r = pump_spec(self.queue@, self.in_flight@, self.active_loaders as nat, self.loader_limit as nat, (queued - step) as nat);
                    &&& total.0 == r.0
                    &&& total.1 == r.1
                    &&& total.2 == r.2
                    &&& total.3 == started + r.3
                }),
                stopped ==> total.0 == self.queue@ && total.1 == self.in_flight@
                    && total.2 == self.active_loaders && total.3 == started,
                tickets@.len() == started.len(),
                forall|i: int| 0 <= i < tickets@.len() ==> self.in_flight@.contains(#[trigger] tickets@[i].key)
                    && self.flight_generations@.contains_key(tickets@[i].key)
                    && self.flight_generations@[tickets@[i].key] == tickets@[i].path_generation,
                forall|i: int| 0 <= i < tickets@.len() ==> #[trigger] tickets@[i] == (LoadTicket {
                    key: started[i],
                    generation: self.generation,
                    path_generation: generation_of(self.path_generations@, started[i]),
                }),
            decreases queued - step + (if stopped { 0int } else { 1int }),
        {
            if self.active_loaders >= self.loader_limit || self.queue.len() == 0 {
                stopped = true;
                assert(started + Seq::<u64>::empty() =~= started);
            } else {
                let ghost before = *self;
                let key = self.queue.remove(0);
                proof {
                    assert forall|x: u64| x != key && #[trigger] before.queue@.contains(x) implies self.queue@.contains(x) by {
                        let w = choose|w: int| 0 <= w < before.queue@.len() && before.queue@[w] == x;
                        assert(w != 0);
                        assert(self.queue@[w - 1] == x);
                    }
                }
                if contains_key(&self.in_flight, key) {
                    self.queue.push(key);
                    proof {
                        assert forall|x: u64| #[trigger] self.pending@.contains(x) implies self.queue@.contains(x)
                            || (self.in_flight@.contains(x) && self.flight_generations@.contains_key(x)
                                && self.flight_generations@[x] == generation_of(self.path_generations@, x)) by {
                            assert(self.queue@[self.queue@.len() - 1] == key);
                            if x != key && before.queue@.contains(x) {
                                let w = choose|w: int| 0 <= w < before.queue@.len() - 1 && before.queue@.remove(0)[w] == x;
                                assert(self.queue@[w] == x);
                            }
                        }
                    }
                } else {
                    let ghost fl0 = self.in_flight@;
                    let ghost q0 = self.queue@;
                    self.active_loaders = self.active_loaders + 1;
                    self.in_flight.push(key);
                    let path_generation = self.path_generation(key);
                    self.flight_generations = Ghost(self.flight_generations@.insert(key, path_generation));
                    tickets.push(LoadTicket { key, generation: self.generation, path_generation });
                    proof {
                        assert forall|i: int| 0 <= i < tickets@.len() implies self.in_flight@.contains(#[trigger] tickets@[i].key)
                            && self.flight_generations@.contains_key(tickets@[i].key)
                            && self.flight_generations@[tickets@[i].key] == tickets@[i].path_generation by {
                            assert(self.in_flight@[self.in_flight@.len() - 1] == key);
                            if i < tickets@.len() - 1 {
                                let k = tickets@[i].key;
                                assert(fl0.contains(k));
                                assert(k != key);
                                let w = choose|w: int| 0 <= w < fl0.len() && fl0[w] == k;
                                assert(self.in_flight@[w] == k);
                            }
                        }
                        assert forall|x: u64| #[trigger] self.pending@.contains(x) implies self.queue@.contains(x)
                            || (self.in_flight@.contains(x) && self.flight_generations@.contains_key(x)
                                && self.flight_generations@[x] == generation_of(self.path_generations@, x)) by {
                            assert(self.in_flight@[self.in_flight@.len() - 1] == key);
                            if x != key && before.in_flight@.contains(x) {
                                let w = choose|w: int| 0 <= w < fl0.len() && fl0[w] == x;
                                assert(self.in_flight@[w] == x);
                            }
                        }
                        let r = pump_spec(self.queue@, self.in_flight@, self.active_loaders as nat, self.loader_limit as nat, (queued - step - 1) as nat);
                        assert(started.push(key) + r.3 =~= started + (seq![key] + r.3));
                        started = started.push(key);
                        assert(self.in_flight@.no_duplicates()) by {
                            let f = self.in_flight@;
                            assert forall|i: int, j: int| 0 <= i < f.len() && 0 <= j < f.len() && i != j implies f[i] != f[j] by {
                                if i == f.len() - 1 {
                                    assert(f[j] == fl0[j]);
                                    assert(fl0[j] != key);
                                } else if j == f.len() - 1 {
                                    assert(f[i] == fl0[i]);
                                    assert(fl0[i] != key);
                                } else {
                                    assert(f[i] == fl0[i] && f[j] == fl0[j]);
                                }
                            }
                        }
                    }
                }
                step = step + 1;
            }
        }
        proof {
            if !stopped {
                let r = pump_spec(self.queue@, self.in_flight@, self.active_loaders as nat, self.loader_limit as nat, 0);
                assert(started + r.3 =~= started);
            }
            assert(tickets@ =~= tickets_spec(started, self.generation, self.path_generations@));
        }
        tickets
    }

    /// Looks the texture for `key` up, marking it as used (see `TextureCache::texture`).
    pub fn texture(&mut self, key: u64) -> (found: bool)
        requires
            old(self).wf(),
        ensures
            final(self).wf(),
            found == has_key(old(self).textures.entries@, key),
            final(self).textures.use_serial == old(self).textures.use_serial.wrapping_add(1),
            final(self).textures.entries@.len() == old(self).textures.entries@.len(),
            forall|i: int| 0 <= i < old(self).textures.entries@.len() ==> #[trigger] final(self).textures.entries@[i]
                == touched(old(self).textures.entries@[i], key, final(self).textures.use_serial),
            final(self).textures.texture_bytes == old(self).textures.texture_bytes,
            final(self).queue == old(self).queue,
            final(self).pending == old(self).pending,
            final(self).in_flight == old(self).in_flight,
            final(self).failures == old(self).failures,
            final(self).active_loaders == old(self).active_loaders,
            final(self).generation == old(self).generation,
    {
        self.textures.texture(key)
    }

    /// Sets the generation recorded for `key`.
    fn set_path_generation(&mut self, key: u64, generation: u64)
        ensures
            generation_of(final(self).path_generations@, key) == generation,
            forall|k: u64| k != key ==> generation_of(final(self).path_generations@, k) == generation_of(old(self).path_generations@, k),
            final(self).textures == old(self).textures,
            final(self).queue == old(self).queue,
            final(self).pending == old(self).pending,
            final(self).in_flight == old(self).in_flight,
            final(self).failures == old(self).failures,
            final(self).svg == old(self).svg,
            final(self).active_loaders == old(self).active_loaders,
            final(self).loader_limit == old(self).loader_limit,
            final(self).generation == old(self).generation,
            final(self).load_delay_ms == old(self).load_delay_ms,
            final(self).flight_generations == old(self).flight_generations,
            final(self).requests == old(self).requests,
    {
        let ghost start = self.path_generations@;
        let mut kept: Vec<PathGeneration> = Vec::new();
        let mut i: usize = 0;
        while i < self.path_generations.len()
            invariant
                i <= self.path_generations@.len(),
                self.path_generations@ == start,
                generation_of(kept@, key) == 0,
                forall|k: u64| k != key ==> generation_of(kept@, k) == generation_of(start.take(i as int), k),
            decreases self.path_generations@.len() - i,
        {
            let g = self.path_generations[i];
            let ghost t = start.take(i + 1);
            assert(t.drop_last() =~= start.take(i as int));
            assert(t.last() == g);
            let ghost before = kept@;
            if g.key != key {
                kept.push(g);
                assert(kept@.drop_last() =~= before);
            }
            assert forall|k: u64| k != key implies generation_of(kept@, k) == generation_of(t, k) by {
                assert(generation_of(t, k) == if g.key == k { g.generation } else { generation_of(start.take(i as int), k) });
                assert(generation_of(before, k) == generation_of(start.take(i as int), k));
                if g.key != key {
                    assert(kept@.drop_last() == before);
                    assert(kept@.last() == g);
                    assert(generation_of(kept@, k) == if g.key == k { g.generation } else { generation_of(before, k) });
                }
            }
            i += 1;
        }
        assert(start.take(i as int) =~= start);
        let ghost before = kept@;
        kept.push(PathGeneration { key, generation });
        assert(kept@.drop_last() =~= before);
        assert forall|k: u64| k != key implies generation_of(kept@, k) == generation_of(start, k) by {
            assert(generation_of(before, k) == generation_of(start.take(i as int), k));
            assert(kept@.last().key == key);
            assert(generation_of(kept@, k) == generation_of(before, k));
        }
        self.path_generations = kept;
    }

    /// Forgets the failure of `key`.
    fn forget_failure(&mut self, key: u64)
        ensures
            failure_of(final(self).failures@, key) is None,
            forall|k: u64| k != key ==> failure_of(final(self).failures@, k) == failure_of(old(self).failures@, k),
            final(self).failures@.len() <= old(self).failures@.len(),
            final(self).textures == old(self).textures,
            final(self).queue == old(self).queue,
            final(self).pending == old(self).pending,
            final(self).in_flight == old(self).in_flight,
            final(self).path_generations == old(self).path_generations,
            final(self).svg == old(self).svg,
            final(self).active_loaders == old(self).active_loaders,
            final(self).loader_limit == old(self).loader_limit,
            final(self).generation == old(self).generation,
            final(self).load_delay_ms == old(self).load_delay_ms,
            final(self).flight_generations == old(self).flight_generations,
            final(self).requests == old(self).requests,
    {
        let ghost start = self.failures@;
        let mut kept: Vec<Failure> = Vec::new();
        let mut i: usize = 0;
        while i < self.failures.len()
            invariant
                i <= self.failures@.len(),
                self.failures@ == start,
                kept@.len() <= i,
                failure_of(kept@, key) is None,
                forall|k: u64| k != key ==> failure_of(kept@, k) == failure_of(start.take(i as int), k),
            decreases self.failures@.len() - i,
        {
            let f = Failure { key: self.failures[i].key, error: self.failures[i].error.clone() };
            let ghost t = start.take(i + 1);
            assert(t.drop_last() =~= start.take(i as int));
            assert(t.last().key == f.key && t.last().error@ == f.error@);
            let ghost before = kept@;
            if f.key != key {
                kept.push(f);
                assert(kept@.drop_last() =~= before);
            }
            assert forall|k: u64| k != key implies failure_of(kept@, k) == failure_of(t, k) by {
                assert(failure_of(t, k) == if t.last().key == k { Some(t.last().error@) } else { failure_of(start.take(i as int), k) });
                assert(failure_of(before, k) == failure_of(start.take(i as int), k));
                if f.key != key {
                    assert(kept@.drop_last() == before);
                    assert(failure_of(kept@, k) == if f.key == k { Some(f.error@) } else { failure_of(before, k) });
                }
            }
            i += 1;
        }
        assert(start.take(i as int) =~= start);
        self.failures = kept;
    }

    /// Forgets all that is known of `key` and advances its generation, so
    /// that a load of it that is in flight is ignored when it finishes.
    /// Returns whether such a load is in flight, to be cancelled.
    pub fn invalidate(&mut self, key: u64) -> (cancel: bool)
        requires
            old(self).wf(),
        ensures
            final(self).wf(),
            cancel == old(self).in_flight@.contains(key),
            generation_of(final(self).path_generations@, key) == generation_of(old(self).path_generations@, key).wrapping_add(1),
            forall|k: u64| k != key ==> generation_of(final(self).path_generations@, k) == generation_of(old(self).path_generations@, k),
            final(self).queue@ == without(old(self).queue@, key),
            final(self).pending@ == without(old(self).pending@, key),
            failure_of(final(self).failures@, key) is None,
            forall|k: u64| k != key ==> failure_of(final(self).failures@, k) == failure_of(old(self).failures@, k),
            final(self).svg@ == without(old(self).svg@, key),
            !has_key(final(self).textures.entries@, key),
            final(self).textures.entries@ == without_key(old(self).textures.entries@, key),
            final(self).textures.texture_budget == old(self).textures.texture_budget,
            final(self).in_flight == old(self).in_flight,
            final(self).active_loaders == old(self).active_loaders,
            final(self).generation == old(self).generation,
            final(self).loader_limit == old(self).loader_limit,
            final(self).requests@.asked == old(self).requests@.asked,
            final(self).requests@.answered == old(self).requests@.answered,
            final(self).requests@.dropped == old(self).requests@.dropped
                + (if old(self).pending@.contains(key) { old(self).requests@.waiting[key] } else { 0 }),
    {
        let ghost before = *self;
        let next = self.path_generation(key).wrapping_add(1);
        self.set_path_generation(key, next);
        let cancel = contains_key(&self.in_flight, key);
        proof {
            lemma_without(self.queue@, key);
        }
        remove_key(&mut self.queue, key);
        proof {
            lemma_without(self.pending@, key);
        }
        remove_key(&mut self.pending, key);
        self.forget_failure(key);
        remove_key(&mut self.svg, key);
        self.textures.remove(key);
        let ghost r = self.requests@;
        self.requests = Ghost(Requests {
            dropped: r.dropped + (if before.pending@.contains(key) { r.waiting[key] } else { 0 }),
            ..r
        });
        proof {
            lemma_total_without(before.pending@, r.waiting, key);
            assert forall|x: u64| #[trigger] self.pending@.contains(x) implies self.requests@.waiting.contains_key(x)
                && self.requests@.waiting[x] >= 1 by {
                assert(before.pending@.contains(x));
            }
            assert forall|x: u64| #[trigger] self.pending@.contains(x) implies self.queue@.contains(x)
                || (self.in_flight@.contains(x) && self.flight_generations@.contains_key(x)
                    && self.flight_generations@[x] == generation_of(self.path_generations@, x)) by {
                assert(x != key);
                assert(before.pending@.contains(x));
            }
        }
        cancel
    }

    /// A request answered at once: it is counted as made and answered.
    fn answer_now(&mut self)
        requires
            old(self).wf(),
        ensures
            final(self).wf(),
            final(self).requests@ == (Requests {
                asked: old(self).requests@.asked + 1,
                answered: old(self).requests@.answered + 1,
                ..old(self).requests@
            }),
            *final(self) == (AssetStore { requests: final(self).requests, ..*old(self) }),
    {
        let ghost r = self.requests@;
        self.requests = Ghost(Requests { asked: r.asked + 1, answered: r.answered + 1, ..r });
    }

    /// Asks for the texture of `key` (see `Prefetch`).
    pub fn prefetch_texture(&mut self, key: u64) -> (r: Prefetch)
        requires
            old(self).wf(),
        ensures
            final(self).wf(),
            final(self).requests@.asked == old(self).requests@.asked + 1,
            (r is Ready || r is Failed || r is Refused) ==> final(self).requests@ == (Requests {
                asked: old(self).requests@.asked + 1,
                answered: old(self).requests@.answered + 1,
                ..old(self).requests@
            }) && *final(self) == (AssetStore { requests: final(self).requests, ..*old(self) }),
            r is Waiting ==> final(self).requests@ == (Requests {
                asked: old(self).requests@.asked + 1,
                waiting: old(self).requests@.waiting.insert(key, old(self).requests@.waiting[key] + 1),
                ..old(self).requests@
            }) && *final(self) == (AssetStore { requests: final(self).requests, ..*old(self) }),
            r is Queued ==> final(self).requests@ == (Requests {
                asked: old(self).requests@.asked + 1,
                waiting: old(self).requests@.waiting.insert(key, 1),
                ..old(self).requests@
            }),
            has_key(old(self).textures.entries@, key) ==> r is Ready,
            !has_key(old(self).textures.entries@, key) && failure_of(old(self).failures@, key) is Some ==> (
                r matches Prefetch::Failed(e) && failure_of(old(self).failures@, key) == Some(e@)),
            !has_key(old(self).textures.entries@, key) && failure_of(old(self).failures@, key) is None
                && old(self).pending@.len() >= MAX_TRACKED_ASSETS ==> r is Refused,
            !has_key(old(self).textures.entries@, key) && failure_of(old(self).failures@, key) is None
                && old(self).pending@.len() < MAX_TRACKED_ASSETS && old(self).pending@.contains(key)
                ==> r is Waiting,
            !has_key(old(self).textures.entries@, key) && failure_of(old(self).failures@, key) is None
                && old(self).pending@.len() < MAX_TRACKED_ASSETS && !old(self).pending@.contains(key) ==> ({
                    let q = old(self).queue@.push(key);
                    let p = pump_spec(q, old(self).in_flight@, old(self).active_loaders as nat, old(self).loader_limit as nat, q.len());
                    &&& (r matches Prefetch::Queued(t) && t@ == tickets_spec(p.3, old(self).generation, old(self).path_generations@))
                    &&& final(self).pending@ == old(self).pending@.push(key)
                    &&& final(self).queue@ == p.0
                    &&& final(self).in_flight@ == p.1
                    &&& final(self).active_loaders == p.2
                    &&& final(self).textures == old(self).textures
                    &&& final(self).failures == old(self).failures
                }),
    {
        let ghost r0 = self.requests@;
        if self.textures.contains(key) {
            self.answer_now();
            return Prefetch::Ready;
        }
        if let Some(e) = self.failure(key) {
            self.answer_now();
            return Prefetch::Failed(e);
        }
        if self.pending.len() >= MAX_TRACKED_ASSETS {
            self.answer_now();
            return Prefetch::Refused;
        }
        if contains_key(&self.pending, key) {
            self.requests = Ghost(Requests {
                asked: r0.asked + 1,
                waiting: r0.waiting.insert(key, r0.waiting[key] + 1),
                ..r0
            });
            proof {
                lemma_total_inside(self.pending@, r0.waiting, key, r0.waiting[key] + 1);
                assert forall|x: u64| #[trigger] self.pending@.contains(x) implies self.requests@.waiting.contains_key(x)
                    && self.requests@.waiting[x] >= 1 by {
                    assert(old(self).pending@.contains(x));
                }
            }
            return Prefetch::Waiting;
        }
        self.requests = Ghost(Requests { asked: r0.asked + 1, waiting: r0.waiting.insert(key, 1), ..r0 });
        proof {
            lemma_total_outside(self.pending@, r0.waiting, key, 1);
        }
        let ghost p0 = self.pending@;
        self.pending.push(key);
        proof {
            let p = self.pending@;
            assert forall|i: int, j: int| 0 <= i < p.len() && 0 <= j < p.len() && i != j implies p[i] != p[j] by {
                if i == p.len() - 1 {
                    assert(p[j] == p0[j]);
                } else if j == p.len() - 1 {
                    assert(p[i] == p0[i]);
                } else {
                    assert(p[i] == p0[i] && p[j] == p0[j]);
                }
            }
        }
        let ghost q0 = self.queue@;
        self.queue.push(key);
        proof {
            assert(self.pending@.drop_last() =~= p0);
            assert forall|x: u64| #[trigger] self.pending@.contains(x) implies self.requests@.waiting.contains_key(x)
                && self.requests@.waiting[x] >= 1 by {
                if x != key {
                    let w = choose|w: int| 0 <= w < p0.len() + 1 && self.pending@[w] == x;
                    assert(w < p0.len());
                    assert(p0[w] == x);
                    assert(old(self).pending@.contains(x));
                }
            }
            assert forall|x: u64| #[trigger] self.pending@.contains(x) implies self.queue@.contains(x)
                || (self.in_flight@.contains(x) && self.flight_generations@.contains_key(x)
                    && self.flight_generations@[x] == generation_of(self.path_generations@, x)) by {
                assert(self.queue@[self.queue@.len() - 1] == key);
                if x != key {
                    let w = choose|w: int| 0 <= w < p0.len() + 1 && self.pending@[w] == x;
                    assert(w < p0.len());
                    assert(p0[w] == x);
                    assert(p0.contains(x));
                    assert(old(self).pending@.contains(x));
                    if q0.contains(x) {
                        let v = choose|v: int| 0 <= v < q0.len() && q0[v] == x;
                        assert(self.queue@[v] == x);
                    }
                }
            }
        }
        let tickets = self.pump();
        Prefetch::Queued(tickets)
    }

    /// Applies the outcome of a finished load: a load of an earlier
    /// generation changes nothing; otherwise it no longer runs, and unless the
    /// asset was invalidated meanwhile, the texture is cached or the failure
    /// recorded and the waiting requests are answered. Free loaders then take
    /// from the queue.
    pub fn finish_load(&mut self, ticket: LoadTicket, outcome: LoadOutcome) -> (r: LoadFinish)
        requires
            old(self).wf(),
            ticket.generation == old(self).generation ==> old(self).in_flight@.contains(ticket.key)
                && old(self).flight_generations@.contains_key(ticket.key)
                && old(self).flight_generations@[ticket.key] == ticket.path_generation,
        ensures
            final(self).wf(),
            r.notify is Some ==> old(self).pending@.contains(ticket.key) && !final(self).pending@.contains(ticket.key),
            final(self).requests@ == (Requests {
                answered: old(self).requests@.answered + (if r.notify is Some { old(self).requests@.waiting[ticket.key] } else { 0 }),
                ..old(self).requests@
            }),
            ticket.generation != old(self).generation ==> *final(self) == *old(self) && r.notify is None && r.start@.len() == 0,
            ticket.generation == old(self).generation ==> ({
                let fl = without(old(self).in_flight@, ticket.key);
                let active = if old(self).active_loaders > 0 { (old(self).active_loaders - 1) as nat } else { 0 };
                let p = pump_spec(old(self).queue@, fl, active, old(self).loader_limit as nat, old(self).queue@.len());
                let current = generation_of(old(self).path_generations@, ticket.key) == ticket.path_generation;
                &&& r.start@ == tickets_spec(p.3, old(self).generation, old(self).path_generations@)
                &&& final(self).queue@ == p.0
                &&& final(self).in_flight@ == p.1
                &&& final(self).active_loaders == p.2
                &&& final(self).generation == old(self).generation
                &&& final(self).path_generations == old(self).path_generations
                &&& !current ==> r.notify is None && final(self).pending == old(self).pending
                    && final(self).textures == old(self).textures && final(self).failures == old(self).failures
                &&& current ==> ({
                    let result = outcome_result(outcome, final(self).textures.texture_budget);
                    &&& final(self).pending@ == without(old(self).pending@, ticket.key)
                    &&& (r.notify matches Some(n) ==> old(self).pending@.contains(ticket.key) && result_matches(n, result))
                    &&& (r.notify is None ==> !old(self).pending@.contains(ticket.key))
                    &&& (result is Ok ==> has_key(final(self).textures.entries@, ticket.key)
                        && final(self).failures == old(self).failures
                        && (outcome matches LoadOutcome::Decoded { width, height }
                            && inserted(old(self).textures, final(self).textures, ticket.key, decoded_bytes_spec(width, height))))
                    &&& (result is Err ==> final(self).textures == old(self).textures
                        && (final(self).failures@.len() < MAX_FAILURES ==> failure_of(final(self).failures@, ticket.key) == Some(result->Err_0))
                        && (old(self).failures@.len() >= MAX_FAILURES ==> final(self).failures@ == old(self).failures@))
                })
            }),
    {
        if ticket.generation != self.generation {
            return LoadFinish { notify: None, start: Vec::new() };
        }
        proof {
            lemma_without(self.in_flight@, ticket.key);
        }
        remove_key(&mut self.in_flight, ticket.key);
        self.active_loaders = if self.active_loaders > 0 { self.active_loaders - 1 } else { 0 };
        if self.path_generation(ticket.key) != ticket.path_generation {
            proof {
                assert forall|x: u64| #[trigger] self.pending@.contains(x) implies self.queue@.contains(x)
                    || (self.in_flight@.contains(x) && self.flight_generations@.contains_key(x)
                        && self.flight_generations@[x] == generation_of(self.path_generations@, x)) by {
                    assert(old(self).pending@.contains(x));
                }
            }
            let start = self.pump();
            return LoadFinish { notify: None, start };
        }
        let result: Result<(), String> = match outcome {
            LoadOutcome::Decoded { width, height } => {
                let bytes = decoded_texture_bytes(width, height);
                if bytes > self.textures.texture_budget {
                    let error = over_budget(bytes, self.textures.texture_budget);
                    self.record_failure(ticket.key, error.clone());
                    Err(error)
                } else {
                    self.textures.insert(ticket.key, bytes);
                    Ok(())
                }
            },
            LoadOutcome::Failed(error) => {
                self.record_failure(ticket.key, error.clone());
                Err(error)
            },
        };
        let waiting = contains_key(&self.pending, ticket.key);
        proof {
            lemma_without(self.pending@, ticket.key);
        }
        remove_key(&mut self.pending, ticket.key);
        let ghost r = self.requests@;
        self.requests = Ghost(Requests {
            answered: r.answered + (if old(self).pending@.contains(ticket.key) { r.waiting[ticket.key] } else { 0 }),
            ..r
        });
        proof {
            lemma_total_without(old(self).pending@, r.waiting, ticket.key);
            assert forall|x: u64| #[trigger] self.pending@.contains(x) implies self.requests@.waiting.contains_key(x)
                && self.requests@.waiting[x] >= 1 by {
                assert(old(self).pending@.contains(x));
            }
            assert forall|x: u64| #[trigger] self.pending@.contains(x) implies self.queue@.contains(x)
                || (self.in_flight@.contains(x) && self.flight_generations@.contains_key(x)
                    && self.flight_generations@[x] == generation_of(self.path_generations@, x)) by {
                assert(x != ticket.key);
                assert(old(self).pending@.contains(x));
            }
        }
        let start = self.pump();
        LoadFinish { notify: if waiting { Some(result) } else { None }, start }
    }

    /// The store's counters.
    pub fn stats(&self) -> (s: Stats)
        ensures
            s.textures == self.textures.entries@.len(),
            s.pending == self.pending@.len(),
            s.failures == self.failures@.len(),
            s.svg_sources == self.svg@.len(),
            s.active_loaders == self.active_loaders,
            s.loader_limit == self.loader_limit,
            s.texture_bytes == self.textures.texture_bytes,
            s.texture_budget == self.textures.texture_budget,
    {
        Stats {
            textures: self.textures.entries.len(),
            pending: self.pending.len(),
            failures: self.failures.len(),
            svg_sources: self.svg.len(),
            active_loaders: self.active_loaders,
            loader_limit: self.loader_limit,
            texture_bytes: self.textures.texture_bytes,
            texture_budget: self.textures.texture_budget,
        }
    }

    /// How many images are prefetched with this store's budget.
    pub fn prefetch_slots(&self) -> (n: usize)
        ensures
            n == prefetch_slots_spec(self.textures.texture_budget),
    {
        prefetch_slots(self.textures.texture_budget)
    }

    /// How many videos are kept prepared with this store's budget.
    pub fn media_prefetch_slots(&self) -> (n: usize)
        ensures
            n == media_prefetch_slots_spec(self.textures.texture_budget),
    {
        media_prefetch_slots(self.textures.texture_budget)
    }

    /// Whether the parsed SVG of `key` is cached.
    pub fn svg_cached(&self, key: u64) -> (r: bool)
        ensures
            r == self.svg@.contains(key),
    {
        contains_key(&self.svg, key)
    }

    /// Records that the SVG of `key` was parsed and cached; a full cache is
    /// emptied first.
    pub fn svg_loaded(&mut self, key: u64)
        ensures
            final(self).svg@ == (if old(self).svg@.len() >= MAX_SVG_CACHE { seq![key] } else { old(self).svg@.push(key) }),
            final(self).textures == old(self).textures,
            final(self).queue == old(self).queue,
            final(self).pending == old(self).pending,
            final(self).in_flight == old(self).in_flight,
            final(self).failures == old(self).failures,
            final(self).path_generations == old(self).path_generations,
            final(self).active_loaders == old(self).active_loaders,
            final(self).loader_limit == old(self).loader_limit,
            final(self).generation == old(self).generation,
    {
        if self.svg.len() >= MAX_SVG_CACHE {
            self.svg.clear();
        }
        self.svg.push(key);
        proof {
            if old(self).svg@.len() >= MAX_SVG_CACHE {
                assert(self.svg@ =~= seq![key]);
            }
        }
    }

    /// Records that the SVG of `key` could not be loaded.
    pub fn svg_failed(&mut self, key: u64, error: String)
        requires
            old(self).wf(),
        ensures
            final(self).wf(),
            final(self).failures@.len() < MAX_FAILURES ==> failure_of(final(self).failures@, key) == Some(error@),
            old(self).failures@.len() >= MAX_FAILURES ==> final(self).failures@ == old(self).failures@,
            final(self).svg == old(self).svg,
            final(self).textures == old(self).textures,
            final(self).pending == old(self).pending,
    {
        self.record_failure(key, error);
    }
}

/// Every prefetch request is answered exactly once, unless dropped. Each
/// request is counted once when made (`prefetch_texture`): it is answered at
/// once (cached, failed before, or refused), or waits on its asset. The
/// finished load of the asset's current generation answers all requests
/// waiting on it, together and once, for the asset then waits no more
/// (`finish_load`); invalidating the asset or clearing the store drops them
/// unanswered (`invalidate`, `clear`). So at every point the requests made
/// are those answered, those dropped and those waiting; and an asset with
/// waiting requests is queued, or loading in its current generation, so a
/// load will answer them.
pub proof fn law_every_request_is_answered_or_dropped(store: AssetStore, key: u64)
    requires
        store.wf(),
    ensures
        store.requests@.asked == store.requests@.answered + store.requests@.dropped
            + waiting_total(store.pending@, store.requests@.waiting),
        store.pending@.contains(key) ==> store.requests@.waiting[key] >= 1 && (store.queue@.contains(key)
            || (store.in_flight@.contains(key) && store.flight_generations@.contains_key(key)
                && store.flight_generations@[key] == generation_of(store.path_generations@, key))),
{
}

/// What a load's outcome gives the waiting requests: `Ok` for a texture
/// within `budget`, else the error.
pub open spec fn outcome_result(outcome: LoadOutcome, budget: u64) -> Result<(), Seq<char>> {
    match outcome {
        LoadOutcome::Decoded { width, height } => {
            let bytes = decoded_bytes_spec(width, height);
            if bytes > budget { Err(over_budget_message(bytes, budget)) } else { Ok(()) }
        },
        LoadOutcome::Failed(e) => Err(e@),
    }
}

pub open spec fn result_matches(r: Result<(), String>, s: Result<(), Seq<char>>) -> bool {
    match (r, s) {
        (Ok(()), Ok(())) => true,
        (Err(a), Err(b)) => a@ == b,
        _ => false,
    }
}

/// The check made before an SVG file is read: its size in bytes is within
/// the limit.
pub fn svg_size_allowed(size: u64) -> (r: Result<(), String>)
    ensures
        size > MAX_SVG_BYTES ==> (r matches Err(e) && e@ == "SVG exceeds the 16 MiB safety limit"@),
        size <= MAX_SVG_BYTES ==> r is Ok,
{
    if size > MAX_SVG_BYTES {
        Err(owned("SVG exceeds the 16 MiB safety limit"))
    } else {
        Ok(())
    }
}

/// The error given to a prefetch request that is refused.
pub fn refused_message() -> (m: String)
    ensures
        m@ == "too many distinct image loads are pending"@,
{
    owned("too many distinct image loads are pending")
}

} // verus!
