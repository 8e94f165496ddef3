//! Decoded textures kept within a byte budget, the least recently used
//! leaving first.
use vstd::prelude::*;

verus! {

/// One decoded texture: the asset it shows, its size in bytes, and the
/// use serial of its last use.
#[derive(Clone, Copy, Debug, PartialEq, Eq, Structural)]
pub struct CachedTexture {
    pub key: u64,
    pub bytes: u64,
    pub last_used: u64,
}

/// The total size of the entries.
pub open spec fn sum_bytes(s: Seq<CachedTexture>) -> int
    decreases s.len(),
{
    if s.len() == 0 { 0 } else { sum_bytes(s.drop_last()) + s.last().bytes }
}

/// The position of the entry for `key`, if any.
pub open spec fn position_of(s: Seq<CachedTexture>, key: u64) -> Option<int>
    decreases s.len(),
{
    if s.len() == 0 {
        None
    } else {
        match position_of(s.drop_last(), key) {
            Some(i) => Some(i),
            None => if s.last().key == key { Some(s.len() - 1) } else { None },
        }
    }
}

/// No two entries are for the same asset.
pub open spec fn distinct_keys(s: Seq<CachedTexture>) -> bool {
    forall|i: int, j: int| 0 <= i < s.len() && 0 <= j < s.len() && i != j ==> s[i].key != s[j].key
}

/// Some entry is for `key`.
pub open spec fn has_key(s: Seq<CachedTexture>, key: u64) -> bool {
    exists|i: int| 0 <= i < s.len() && s[i].key == key
}

/// The textures, their accounted size, the budget, and the use serial.
#[derive(Clone, Debug)]
pub struct TextureCache {
    pub entries: Vec<CachedTexture>,
    pub texture_bytes: u64,
    pub texture_budget: u64,
    pub use_serial: u64,
}

proof fn lemma_position_of(s: Seq<CachedTexture>, key: u64)
    ensures
        match position_of(s, key) {
            Some(i) => 0 <= i < s.len() && s[i].key == key && forall|j: int| 0 <= j < i ==> s[j].key != key,
            None => !has_key(s, key),
        },
    decreases s.len(),
{
    if s.len() > 0 {
        let d = s.drop_last();
        lemma_position_of(d, key);
        assert forall|j: int| 0 <= j < d.len() implies d[j] == s[j] by {}
        if position_of(s, key) is None {
            assert forall|j: int| 0 <= j < s.len() implies s[j].key != key by {
                if j < d.len() {
                    assert(d[j] == s[j]);
                }
            }
        }
    }
}

proof fn lemma_sum_remove(s: Seq<CachedTexture>, i: int)
    requires
        0 <= i < s.len(),
    ensures
        sum_bytes(s.remove(i)) == sum_bytes(s) - s[i].bytes,
    decreases s.len(),
{
    if i < s.len() - 1 {
        lemma_sum_remove(s.drop_last(), i);
        assert(s.remove(i).drop_last() =~= s.drop_last().remove(i));
        assert(s.remove(i).last() == s.last());
    } else {
        assert(s.remove(i) =~= s.drop_last());
    }
}

proof fn lemma_sum_update(s: Seq<CachedTexture>, i: int, e: CachedTexture)
    requires
        0 <= i < s.len(),
        e.bytes == s[i].bytes,
    ensures
        sum_bytes(s.update(i, e)) == sum_bytes(s),
    decreases s.len(),
{
    if i < s.len() - 1 {
        lemma_sum_update(s.drop_last(), i, e);
        assert(s.update(i, e).drop_last() =~= s.drop_last().update(i, e));
    } else {
        assert(s.update(i, e).drop_last() =~= s.drop_last());
    }
}

proof fn lemma_sum_nonneg(s: Seq<CachedTexture>)
    ensures
        sum_bytes(s) >= 0,
        forall|i: int| 0 <= i < s.len() ==> s[i].bytes <= sum_bytes(s),
    decreases s.len(),
{
    if s.len() > 0 {
        lemma_sum_nonneg(s.drop_last());
        assert forall|i: int| 0 <= i < s.len() implies s[i].bytes <= sum_bytes(s) by {
            if i < s.len() - 1 {
                assert(s.drop_last()[i] == s[i]);
            }
        }
    }
}

/// What trimming keeping `keep` to a budget of `budget` bytes made of the
/// entries `before` (of `before_bytes` bytes) as `after` (of `after_bytes`):
/// within budget unless only `keep` is left; nothing evicted from a cache
/// within budget, and eviction stopped as soon as it was; only entries of
/// `before` remain, `keep` among them; and every evicted entry was used no
/// later than every remaining entry other than `keep`.
pub open spec fn trimmed(before: Seq<CachedTexture>, after: Seq<CachedTexture>, keep: u64, budget: u64, before_bytes: u64, after_bytes: u64) -> bool {
    &&& (after_bytes <= budget || forall|i: int| 0 <= i < after.len() ==> after[i].key == keep)
    &&& (before_bytes <= budget ==> after == before)
    &&& (after != before ==> exists|e: CachedTexture| before.contains(e) && !after.contains(e)
        && #[trigger] (after_bytes + e.bytes) > budget)
    &&& (has_key(before, keep) ==> has_key(after, keep))
    &&& (forall|i: int| 0 <= i < after.len() ==> before.contains(#[trigger] after[i]))
    &&& (forall|e: CachedTexture, f: CachedTexture|
        before.contains(e) && !after.contains(e) && after.contains(f) && f.key != keep
        ==> #[trigger] e.last_used <= #[trigger] f.last_used)
}

/// `s` without the entry for `key`.
pub open spec fn without_key(s: Seq<CachedTexture>, key: u64) -> Seq<CachedTexture> {
    match position_of(s, key) {
        Some(i) => s.remove(i),
        None => s,
    }
}

/// `after` is `before` with a texture of `bytes` bytes for `key` stored as
/// used now (replacing any texture for it), then trimmed keeping it.
pub open spec fn inserted(before: TextureCache, after: TextureCache, key: u64, bytes: u64) -> bool {
    let pushed = without_key(before.entries@, key).push(CachedTexture { key, bytes, last_used: after.use_serial });
    &&& after.wf()
    &&& after.texture_bytes <= after.texture_budget
    &&& after.texture_budget == before.texture_budget
    &&& after.use_serial == before.use_serial.wrapping_add(1)
    &&& trimmed(pushed, after.entries@, key, before.texture_budget, sum_bytes(pushed) as u64, after.texture_bytes)
}

/// The entry `e` after a use of `key` with serial `serial`.
pub open spec fn touched(e: CachedTexture, key: u64, serial: u64) -> CachedTexture {
    if e.key == key { CachedTexture { key: e.key, bytes: e.bytes, last_used: serial } } else { e }
}

impl TextureCache {
    /// The entries are for distinct assets and `texture_bytes` is their total size.
    pub open spec fn wf(&self) -> bool {
        &&& distinct_keys(self.entries@)
        &&& self.texture_bytes as int == sum_bytes(self.entries@)
    }

    /// An empty cache with `texture_budget` bytes.
    pub fn new(texture_budget: u64) -> (c: TextureCache)
        ensures
            c.wf(),
            c.entries@.len() == 0,
            c.texture_bytes == 0,
            c.texture_budget == texture_budget,
            c.use_serial == 0,
    {
        TextureCache { entries: Vec::new(), texture_bytes: 0, texture_budget, use_serial: 0 }
    }

    fn find(&self, key: u64) -> (r: Option<usize>)
        ensures
            match r {
                Some(i) => position_of(self.entries@, key) == Some(i as int),
                None => position_of(self.entries@, key) is None,
            },
    {
        proof {
            lemma_position_of(self.entries@, key);
        }
        let mut i: usize = 0;
        while i < self.entries.len()
            invariant
                i <= self.entries@.len(),
                forall|j: int| 0 <= j < i ==> self.entries@[j].key != key,
            decreases self.entries@.len() - i,
        {
            if self.entries[i].key == key {
                proof {
                    lemma_position_of(self.entries@, key);
                    match position_of(self.entries@, key) {
                        Some(p) => {
                            if p > i {
                                assert(self.entries@[i as int].key != key);
                            }
                        },
                        None => {
                            assert(has_key(self.entries@, key));
                        },
                    }
                }
                return Some(i);
            }
            i += 1;
        }
        None
    }

    /// Whether a texture is cached for `key`.
    pub fn contains(&self, key: u64) -> (r: bool)
        ensures
            r == has_key(self.entries@, key),
    {
        proof {
            lemma_position_of(self.entries@, key);
        }
        self.find(key).is_some()
    }

    /// Looks the texture for `key` up and, where it is there, marks it as
    /// used now. The use serial advances either way.
    pub fn texture(&mut self, key: u64) -> (found: bool)
        requires
            old(self).wf(),
        ensures
            final(self).wf(),
            found == has_key(old(self).entries@, key),
            final(self).use_serial == old(self).use_serial.wrapping_add(1),
            final(self).texture_bytes == old(self).texture_bytes,
            final(self).texture_budget == old(self).texture_budget,
            final(self).entries@.len() == old(self).entries@.len(),
            forall|i: int| 0 <= i < old(self).entries@.len() ==> #[trigger] final(self).entries@[i] == touched(old(self).entries@[i], key, final(self).use_serial),
    {
        let serial = self.use_serial.wrapping_add(1);
        self.use_serial = serial;
        proof {
            lemma_position_of(self.entries@, key);
        }
        match self.find(key) {
            Some(i) => {
                let e = self.entries[i];
                let ghost before = self.entries@;
                let updated = CachedTexture { key: e.key, bytes: e.bytes, last_used: serial };
                self.entries.set(i, updated);
                proof {
                    lemma_sum_update(before, i as int, updated);
                    assert forall|a: int, b: int| 0 <= a < self.entries@.len() && 0 <= b < self.entries@.len() && a != b
                        implies self.entries@[a].key != self.entries@[b].key by {
                        assert(before[a].key == self.entries@[a].key);
                        assert(before[b].key == self.entries@[b].key);
                    }
                    assert forall|j: int| 0 <= j < before.len() && before[j].key == key implies j == i by {
                        if j != i {
                            assert(before[j].key != before[i as int].key);
                        }
                    }
                }
                true
            },
            None => false,
        }
    }

    /// Forgets the texture for `key`, giving its bytes back.
    pub fn remove(&mut self, key: u64)
        requires
            old(self).wf(),
        ensures
            final(self).wf(),
            !has_key(final(self).entries@, key),
            final(self).entries@ == match position_of(old(self).entries@, key) {
                Some(i) => old(self).entries@.remove(i),
                None => old(self).entries@,
            },
            final(self).texture_budget == old(self).texture_budget,
            final(self).use_serial == old(self).use_serial,
            final(self).texture_bytes <= old(self).texture_bytes,
    {
        proof {
            lemma_position_of(self.entries@, key);
        }
        match self.find(key) {
            Some(i) => {
                let ghost before = self.entries@;
                let e = self.entries.remove(i);
                proof {
                    lemma_sum_remove(before, i as int);
                    lemma_sum_nonneg(before);
                    assert forall|a: int, b: int| 0 <= a < self.entries@.len() && 0 <= b < self.entries@.len() && a != b
                        implies self.entries@[a].key != self.entries@[b].key by {
                        let oa = if a < i { a } else { a + 1 };
                        let ob = if b < i { b } else { b + 1 };
                        assert(self.entries@[a] == before[oa]);
                        assert(self.entries@[b] == before[ob]);
                    }
                    assert forall|j: int| 0 <= j < self.entries@.len() implies self.entries@[j].key != key by {
                        let oj = if j < i { j } else { j + 1 };
                        assert(self.entries@[j] == before[oj]);
                        assert(before[i as int].key == key);
                    }
                }
                self.texture_bytes = self.texture_bytes - e.bytes;
            },
            None => {},
        }
    }

    /// Empties the cache.
    pub fn clear(&mut self)
        ensures
            final(self).wf(),
            final(self).entries@.len() == 0,
            final(self).texture_bytes == 0,
            final(self).texture_budget == old(self).texture_budget,
            final(self).use_serial == old(self).use_serial,
    {
        self.entries.clear();
        self.texture_bytes = 0;
    }

    fn oldest_except(&self, keep: u64) -> (r: Option<usize>)
        ensures
            match r {
                Some(i) => i < self.entries@.len() && self.entries@[i as int].key != keep
                    && forall|j: int| 0 <= j < self.entries@.len() && self.entries@[j].key != keep
                        ==> self.entries@[i as int].last_used <= self.entries@[j].last_used,
                None => forall|j: int| 0 <= j < self.entries@.len() ==> self.entries@[j].key == keep,
            },
    {
        let mut best: Option<usize> = None;
        let mut i: usize = 0;
        while i < self.entries.len()
            invariant
                i <= self.entries@.len(),
                match best {
                    Some(b) => b < i && self.entries@[b as int].key != keep
                        && forall|j: int| 0 <= j < i && self.entries@[j].key != keep
                            ==> self.entries@[b as int].last_used <= self.entries@[j].last_used,
                    None => forall|j: int| 0 <= j < i ==> self.entries@[j].key == keep,
                },
            decreases self.entries@.len() - i,
        {
            let e = self.entries[i];
            if e.key != keep {
                match best {
                    Some(b) => {
                        if e.last_used < self.entries[b].last_used {
                            best = Some(i);
                        }
                    },
                    None => {
                        best = Some(i);
                    },
                }
            }
            i += 1;
        }
        best
    }

    /// Evicts the least recently used textures other than `keep` until the
    /// cache fits its budget or only `keep` is left.
    pub fn trim(&mut self, keep: u64)
        requires
            old(self).wf(),
        ensures
            final(self).wf(),
            final(self).texture_budget == old(self).texture_budget,
            final(self).use_serial == old(self).use_serial,
            trimmed(old(self).entries@, final(self).entries@, keep, old(self).texture_budget,
                old(self).texture_bytes, final(self).texture_bytes),
    {
        let ghost initial = self.entries@;
        let mut done = false;
        while self.texture_bytes > self.texture_budget && !done
            invariant
                self.wf(),
                old(self).wf(),
                done ==> forall|i: int| 0 <= i < self.entries@.len() ==> self.entries@[i].key == keep,
                self.texture_budget == old(self).texture_budget,
                self.use_serial == old(self).use_serial,
                initial == old(self).entries@,
                old(self).texture_bytes <= old(self).texture_budget ==> self.entries@ == initial,
                has_key(initial, keep) ==> has_key(self.entries@, keep),
                forall|i: int| 0 <= i < self.entries@.len() ==> initial.contains(#[trigger] self.entries@[i]),
                forall|e: CachedTexture, f: CachedTexture|
                    initial.contains(e) && !self.entries@.contains(e)
                    && self.entries@.contains(f) && f.key != keep
                    ==> #[trigger] e.last_used <= #[trigger] f.last_used,
                self.entries@ != initial ==> exists|e: CachedTexture| initial.contains(e) && !self.entries@.contains(e)
                    && #[trigger] (self.texture_bytes + e.bytes) > self.texture_budget,
            decreases self.entries@.len() + (if done { 0int } else { 1int }),
        {
            match self.oldest_except(keep) {
                None => {
                    done = true;
                },
                Some(oldest) => {
                    let ghost before = self.entries@;
                    let ghost bytes_before = self.texture_bytes;
                    let victim = self.entries[oldest];
                    self.remove(victim.key);
                    proof {
                        lemma_position_of(before, victim.key);
                        assert(position_of(before, victim.key) == Some(oldest as int)) by {
                            match position_of(before, victim.key) {
                                Some(p) => {
                                    if p != oldest {
                                        assert(before[p].key != before[oldest as int].key);
                                    }
                                },
                                None => {},
                            }
                        }
                        let cur = self.entries@;
                        assert(cur == before.remove(oldest as int));
                        assert(initial.contains(victim));
                        assert(!cur.contains(victim)) by {
                            if cur.contains(victim) {
                                let w = choose|w: int| 0 <= w < cur.len() && cur[w] == victim;
                                let ow = if w < oldest { w } else { w + 1 };
                                assert(before[ow] == victim);
                                assert(before[ow].key == before[oldest as int].key);
                            }
                        }
                        lemma_sum_remove(before, oldest as int);
                        assert(self.texture_bytes + victim.bytes == bytes_before);
                        assert(self.texture_bytes + victim.bytes > self.texture_budget);
                        assert forall|i: int| 0 <= i < cur.len() implies initial.contains(#[trigger] cur[i]) by {
                            let oi = if i < oldest { i } else { i + 1 };
                            assert(cur[i] == before[oi]);
                            assert(initial.contains(before[oi]));
                        }
                        if has_key(initial, keep) {
                            let w = choose|w: int| 0 <= w < before.len() && before[w].key == keep;
                            let nw = if w < oldest { w } else { w - 1 };
                            assert(w != oldest);
                            assert(cur[nw] == before[w]);
                        }
                        assert forall|e: CachedTexture, f: CachedTexture|
                            initial.contains(e) && !cur.contains(e) && cur.contains(f) && f.key != keep
                            implies #[trigger] e.last_used <= #[trigger] f.last_used by {
                            let fi = choose|fi: int| 0 <= fi < cur.len() && cur[fi] == f;
                            let ofi = if fi < oldest { fi } else { fi + 1 };
                            assert(before[ofi] == f);
                            assert(before.contains(f));
                            if before.contains(e) {
                                let ei = choose|ei: int| 0 <= ei < before.len() && before[ei] == e;
                                if ei != oldest {
                                    let nei = if ei < oldest { ei } else { ei - 1 };
                                    assert(cur[nei] == e);
                                }
                                assert(e == victim);
                            }
                        }
                    }
                },
            }
        }
    }

    /// Stores a decoded texture of `bytes` bytes for `key` as used now
    /// (replacing any texture for it), then trims the cache keeping it.
    pub fn insert(&mut self, key: u64, bytes: u64)
        requires
            old(self).wf(),
            old(self).texture_bytes <= old(self).texture_budget,
            bytes <= old(self).texture_budget,
            old(self).texture_budget <= u64::MAX / 2,
        ensures
            inserted(*old(self), *final(self), key, bytes),
            has_key(final(self).entries@, key),
            exists|i: int| 0 <= i < final(self).entries@.len() && final(self).entries@[i]
                == (CachedTexture { key, bytes, last_used: final(self).use_serial }),
    {
        let serial = self.use_serial.wrapping_add(1);
        self.use_serial = serial;
        self.remove(key);
        let entry = CachedTexture { key, bytes, last_used: serial };
        let ghost before = self.entries@;
        self.entries.push(entry);
        self.texture_bytes = self.texture_bytes + bytes;
        proof {
            assert(self.entries@.drop_last() =~= before);
            assert forall|a: int, b: int| 0 <= a < self.entries@.len() && 0 <= b < self.entries@.len() && a != b
                implies self.entries@[a].key != self.entries@[b].key by {
                if a < before.len() && b < before.len() {
                    assert(self.entries@[a] == before[a]);
                    assert(self.entries@[b] == before[b]);
                } else if a < before.len() {
                    assert(self.entries@[a] == before[a]);
                    assert(!has_key(before, key));
                } else if b < before.len() {
                    assert(self.entries@[b] == before[b]);
                    assert(!has_key(before, key));
                }
            }
            assert(self.entries@[before.len() as int] == entry);
        }
        let ghost pushed = self.entries@;
        assert(pushed =~= without_key(old(self).entries@, key).push(entry));
        self.trim(key);
        proof {
            assert(pushed.contains(entry));
            assert(has_key(pushed, key));
            let k = choose|k: int| 0 <= k < self.entries@.len() && self.entries@[k].key == key;
            assert(pushed.contains(self.entries@[k]));
            let pk = choose|pk: int| 0 <= pk < pushed.len() && pushed[pk] == self.entries@[k];
            if pk != before.len() {
                assert(pushed[pk] == before[pk]);
                assert(!has_key(before, key));
            }
            lemma_sum_nonneg(self.entries@);
            if self.texture_bytes > self.texture_budget {
                if self.entries@.len() > 1 {
                    let other = if k == 0 { 1int } else { 0int };
                    assert(self.entries@[other].key == key);
                }
                assert(self.entries@.len() == 1);
                assert(self.entries@ =~= seq![entry]);
                assert(sum_bytes(self.entries@.drop_last()) == 0);
            }
        }
    }
}

} // verus!
