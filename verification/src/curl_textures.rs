//! The GPU texture slots of the page-curl view: a texture keeps its slot
//! while it is in use, and a new one takes a free slot or the least
//! recently used.
use vstd::prelude::*;
use crate::text::owned;

verus! {

pub const TEXTURE_SLOTS: usize = 4;

/// What the slots hold: a texture identity (if any) and a use stamp each.
#[derive(Clone, Debug)]
pub struct TextureSlots {
    pub uploaded: Vec<Option<u64>>,
    pub last_used: Vec<u64>,
    pub clock: u64,
}

/// Where a texture goes.
#[derive(Clone, Copy, Debug, PartialEq, Eq, Structural)]
pub enum SlotChoice {
    /// Already uploaded in this slot.
    Reuse(usize),
    /// To be uploaded into this slot.
    Upload(usize),
}

/// The first slot holding `texture`.
pub open spec fn slot_of(uploaded: Seq<Option<u64>>, texture: u64) -> Option<int>
    decreases uploaded.len(),
{
    if uploaded.len() == 0 {
        None
    } else {
        match slot_of(uploaded.drop_last(), texture) {
            Some(i) => Some(i),
            None => if uploaded.last() == Some(texture) { Some(uploaded.len() - 1) } else { None },
        }
    }
}

impl TextureSlots {
    pub open spec fn wf(&self) -> bool {
        self.uploaded@.len() == TEXTURE_SLOTS && self.last_used@.len() == TEXTURE_SLOTS
    }

    /// Four empty slots.
    pub fn new() -> (s: TextureSlots)
        ensures
            s.wf(),
            s.clock == 0,
            forall|i: int| 0 <= i < TEXTURE_SLOTS ==> s.uploaded@[i] == None::<u64> && s.last_used@[i] == 0,
    {
        let mut uploaded: Vec<Option<u64>> = Vec::new();
        let mut last_used: Vec<u64> = Vec::new();
        let mut i: usize = 0;
        while i < TEXTURE_SLOTS
            invariant
                i <= TEXTURE_SLOTS,
                uploaded@.len() == i,
                last_used@.len() == i,
                forall|k: int| 0 <= k < i ==> uploaded@[k] == None::<u64> && last_used@[k] == 0,
            decreases TEXTURE_SLOTS - i,
        {
            let ghost u0 = uploaded@;
            let ghost l0 = last_used@;
            uploaded.push(None);
            last_used.push(0);
            assert forall|k: int| 0 <= k < i + 1 implies uploaded@[k] == None::<u64> && last_used@[k] == 0 by {
                if k < i {
                    assert(uploaded@[k] == u0[k] && last_used@[k] == l0[k]);
                }
            }
            i += 1;
        }
        TextureSlots { uploaded, last_used, clock: 0 }
    }

    /// Chooses the slot for `texture` and advances the use clock: the slot
    /// that holds it already (stamped now), else the first empty slot, else
    /// the one used longest ago.
    pub fn slot_for(&mut self, texture: u64) -> (c: SlotChoice)
        requires
            old(self).wf(),
        ensures
            final(self).wf(),
            final(self).clock == old(self).clock.wrapping_add(1),
            final(self).uploaded == old(self).uploaded,
            match slot_of(old(self).uploaded@, texture) {
                Some(i) => c == SlotChoice::Reuse(i as usize)
                    && final(self).last_used@ == old(self).last_used@.update(i, final(self).clock),
                None => c matches SlotChoice::Upload(i) && final(self).last_used == old(self).last_used && i < TEXTURE_SLOTS
                    && (old(self).uploaded@[i as int] is None
                        || ((forall|k: int| 0 <= k < TEXTURE_SLOTS ==> old(self).uploaded@[k] is Some)
                            && forall|k: int| 0 <= k < TEXTURE_SLOTS ==> old(self).last_used@[i as int] <= old(self).last_used@[k]))
                    && forall|k: int| 0 <= k < i && old(self).uploaded@[i as int] is None ==> old(self).uploaded@[k] is Some,
            },
    {
        self.clock = self.clock.wrapping_add(1);
        let mut i: usize = 0;
        while i < TEXTURE_SLOTS
            invariant
                self.wf(),
                i <= TEXTURE_SLOTS,
                self.uploaded == old(self).uploaded,
                self.last_used == old(self).last_used,
                self.clock == old(self).clock.wrapping_add(1),
                slot_of(self.uploaded@.take(i as int), texture) is None,
            decreases TEXTURE_SLOTS - i,
        {
            assert(self.uploaded@.take(i + 1).drop_last() =~= self.uploaded@.take(i as int));
            if self.uploaded[i] == Some(texture) {
                proof {
                    lemma_slot_prefix(self.uploaded@, texture, i as int);
                }
                let now = self.clock;
                self.last_used.set(i, now);
                return SlotChoice::Reuse(i);
            }
            i += 1;
        }
        assert(self.uploaded@.take(TEXTURE_SLOTS as int) =~= self.uploaded@);
        let mut free: usize = 0;
        while free < TEXTURE_SLOTS
            invariant
                self.wf(),
                free <= TEXTURE_SLOTS,
                self.uploaded == old(self).uploaded,
                self.last_used == old(self).last_used,
                self.clock == old(self).clock.wrapping_add(1),
                slot_of(old(self).uploaded@, texture) is None,
                forall|k: int| 0 <= k < free ==> self.uploaded@[k] is Some,
            decreases TEXTURE_SLOTS - free,
        {
            if self.uploaded[free].is_none() {
                return SlotChoice::Upload(free);
            }
            free += 1;
        }
        let mut best: usize = 0;
        let mut k: usize = 1;
        while k < TEXTURE_SLOTS
            invariant
                self.wf(),
                self.uploaded == old(self).uploaded,
                self.last_used == old(self).last_used,
                self.clock == old(self).clock.wrapping_add(1),
                slot_of(old(self).uploaded@, texture) is None,
                forall|j: int| 0 <= j < TEXTURE_SLOTS ==> self.uploaded@[j] is Some,
                1 <= k <= TEXTURE_SLOTS,
                best < k,
                forall|j: int| 0 <= j < k ==> self.last_used@[best as int] <= self.last_used@[j],
            decreases TEXTURE_SLOTS - k,
        {
            if self.last_used[k] < self.last_used[best] {
                best = k;
            }
            k += 1;
        }
        SlotChoice::Upload(best)
    }

    /// Records that `texture` was uploaded into slot `slot` just now.
    pub fn uploaded_into(&mut self, slot: usize, texture: u64)
        requires
            old(self).wf(),
            slot < TEXTURE_SLOTS,
        ensures
            final(self).wf(),
            final(self).uploaded@ == old(self).uploaded@.update(slot as int, Some(texture)),
            final(self).last_used@ == old(self).last_used@.update(slot as int, old(self).clock),
            final(self).clock == old(self).clock,
    {
        self.uploaded.set(slot, Some(texture));
        let now = self.clock;
        self.last_used.set(slot, now);
    }

    /// Forgets every upload (the GL context went away).
    pub fn clear(&mut self)
        requires
            old(self).wf(),
        ensures
            final(self).wf(),
            forall|i: int| 0 <= i < TEXTURE_SLOTS ==> final(self).uploaded@[i] == None::<u64> && final(self).last_used@[i] == 0,
            final(self).clock == old(self).clock,
    {
        let mut i: usize = 0;
        while i < TEXTURE_SLOTS
            invariant
                self.wf(),
                i <= TEXTURE_SLOTS,
                self.clock == old(self).clock,
                forall|k: int| 0 <= k < i ==> self.uploaded@[k] == None::<u64> && self.last_used@[k] == 0,
            decreases TEXTURE_SLOTS - i,
        {
            let ghost u0 = self.uploaded@;
            let ghost l0 = self.last_used@;
            self.uploaded.set(i, None);
            self.last_used.set(i, 0);
            assert forall|k: int| 0 <= k < i + 1 implies self.uploaded@[k] == None::<u64> && self.last_used@[k] == 0 by {
                if k < i {
                    assert(self.uploaded@[k] == u0[k] && self.last_used@[k] == l0[k]);
                }
            }
            i += 1;
        }
    }
}

proof fn lemma_slot_prefix(uploaded: Seq<Option<u64>>, texture: u64, i: int)
    requires
        0 <= i < uploaded.len(),
        slot_of(uploaded.take(i), texture) is None,
        uploaded[i] == Some(texture),
    ensures
        slot_of(uploaded, texture) == Some(i),
    decreases uploaded.len(),
{
    if i < uploaded.len() - 1 {
        assert(uploaded.drop_last().take(i) =~= uploaded.take(i));
        lemma_slot_prefix(uploaded.drop_last(), texture, i);
    } else {
        assert(uploaded.drop_last() =~= uploaded.take(i));
    }
}

/// Checks a downloaded texture's layout before it is uploaded: rows of
/// `stride` bytes, a multiple of four and at least four bytes per pixel,
/// `height` rows within `len` bytes.
pub fn check_layout(width: i32, height: i32, stride: usize, len: usize) -> (r: Result<(), String>)
    requires
        height >= 0,
    ensures
        stride * height > usize::MAX ==> (r matches Err(e) && e@ == "page-curl texture dimensions overflowed"@),
        stride * height <= usize::MAX ==> (r is Ok <==> (width > 0 && height > 0 && stride >= 4 * width
            && stride % 4 == 0 && stride / 4 <= i32::MAX && stride * height <= len)),
        stride * height <= usize::MAX && r is Err ==> (r matches Err(e) && e@ == "page-curl texture has an invalid pixel layout"@),
{
    let h = height as usize;
    if stride > 0 && h > usize::MAX / stride {
        assert(stride * h > usize::MAX) by (nonlinear_arith)
            requires stride > 0, h > usize::MAX / stride;
        return Err(owned("page-curl texture dimensions overflowed"));
    }
    proof {
        if stride > 0 {
            assert(stride * h <= usize::MAX) by (nonlinear_arith)
                requires stride > 0, h <= usize::MAX / stride;
        }
    }
    let required = stride * h;
    if width <= 0 || height <= 0 || (stride as u64) < (width as u64) * 4 || stride % 4 != 0
        || stride / 4 > 0x7fff_ffffusize || required > len {
        return Err(owned("page-curl texture has an invalid pixel layout"));
    }
    Ok(())
}

} // verus!
