//! The ownership ledger for buffers that have crossed the foreign boundary.
//!
//! A buffer handed to the foreign side is registered here and named by a
//! nonzero handle; the null handle (zero) never names a buffer. The ledger is
//! the single authoritative deallocation path: `free` is a no-op on the null
//! handle and otherwise destroys exactly one live buffer, and the ledger
//! counts every registration, every deallocation and every reclamation by
//! the host, so that a buffer is never both released to the host and freed.
use crate::buffer::GrowableBuffer;
use crate::C;
use vstd::pervasive::VecAdditionalExecFns;
use vstd::prelude::*;

verus! {

/// Number of slots that still hold a live buffer.
pub open spec fn count_live<B>(slots: Seq<Option<B>>) -> nat
    decreases slots.len(),
{
    if slots.len() == 0 {
        0
    } else {
        count_live(slots.drop_last()) + if slots.last() is Some {
            1nat
        } else {
            0nat
        }
    }
}

/// Updating one slot changes the live count exactly by the difference
/// between the new and the old occupancy of that slot.
proof fn lemma_count_live_update<B>(slots: Seq<Option<B>>, i: int, value: Option<B>)
    requires
        0 <= i < slots.len(),
    ensures
        count_live(slots.update(i, value)) == count_live(slots) - (if slots[i] is Some {
            1int
        } else {
            0int
        }) + (if value is Some {
            1int
        } else {
            0int
        }),
    decreases slots.len(),
{
    let updated = slots.update(i, value);
    if i == slots.len() - 1 {
        assert(updated.drop_last() =~= slots.drop_last());
    } else {
        assert(updated.drop_last() =~= slots.drop_last().update(i, value));
        lemma_count_live_update(slots.drop_last(), i, value);
        assert(updated.last() == slots.last());
    }
}

/// A slot that holds a live buffer makes the live count positive.
proof fn lemma_count_live_at<B>(slots: Seq<Option<B>>, i: int)
    requires
        0 <= i < slots.len(),
        slots[i] is Some,
    ensures
        count_live(slots) >= 1,
    decreases slots.len(),
{
    if i < slots.len() - 1 {
        lemma_count_live_at(slots.drop_last(), i);
    }
}

/// The ledger of buffers owned by the foreign side. Handles are dense: the
/// `n`-th registered buffer gets handle `n`, and a handle stays reserved for
/// its buffer forever, so a freed handle is never reused for another buffer.
pub struct Registry<T: C> {
    slots: Vec<Option<GrowableBuffer<T>>>,
    frees: usize,
    reclaims: usize,
}

impl<T: C> Registry<T> {
    /// Number of buffers the registry has ever handed out.
    pub closed spec fn allocations(&self) -> nat {
        self.slots@.len()
    }

    /// Number of buffers destroyed through [`Registry::free`].
    pub closed spec fn deallocations(&self) -> usize {
        self.frees
    }

    /// Number of buffers whose ownership went back to the host through
    /// [`Registry::from_raw`].
    pub closed spec fn reclamations(&self) -> usize {
        self.reclaims
    }

    /// The buffer a handle names, while it is live.
    pub closed spec fn buffer_at(&self, handle: usize) -> Option<GrowableBuffer<T>> {
        if 1 <= handle <= self.slots@.len() {
            self.slots@[handle - 1]
        } else {
            None
        }
    }

    /// True when the handle names a live buffer. The null handle never does.
    pub open spec fn is_live(&self, handle: usize) -> bool {
        self.buffer_at(handle) is Some
    }

    /// Number of live buffers.
    pub closed spec fn live(&self) -> nat {
        count_live(self.slots@)
    }

    /// Ledger invariant: every buffer ever handed out is in exactly one of
    /// three states — still live, destroyed by `free`, or reclaimed by the
    /// host — so nothing leaks and nothing is destroyed twice.
    pub open spec fn wf(&self) -> bool {
        self.deallocations() + self.reclamations() + self.live() == self.allocations()
    }

    /// An empty ledger.
    pub fn new() -> (r: Self)
        ensures
            r.wf(),
            r.allocations() == 0,
            r.deallocations() == 0,
            r.reclamations() == 0,
            r.live() == 0,
            forall|h: usize| !r.is_live(h),
    {
        Registry { slots: Vec::new(), frees: 0, reclaims: 0 }
    }

    /// Registers a buffer as owned by the foreign side and returns its
    /// handle, which is never the null handle.
    pub fn into_raw(&mut self, buffer: GrowableBuffer<T>) -> (handle: usize)
        requires
            old(self).wf(),
            old(self).allocations() < usize::MAX,
        ensures
            final(self).wf(),
            1 <= handle == old(self).allocations() + 1,
            final(self).buffer_at(handle) == Some(buffer),
            forall|h: usize| h != handle ==> final(self).buffer_at(h) == old(self).buffer_at(h),
            final(self).allocations() == old(self).allocations() + 1,
            final(self).deallocations() == old(self).deallocations(),
            final(self).reclamations() == old(self).reclamations(),
            final(self).live() == old(self).live() + 1,
    {
        let ghost entry_slots = self.slots@;
        self.slots.push(Some(buffer));
        proof {
            assert(self.slots@.drop_last() =~= entry_slots);
        }
        self.slots.len()
    }

    /// Moves the buffer a live handle names back out of the ledger: the
    /// inverse of [`Registry::into_raw`]. The handle goes dead, so the
    /// buffer can never also be freed through it.
    pub fn from_raw(&mut self, handle: usize) -> (buffer: GrowableBuffer<T>)
        requires
            old(self).wf(),
            old(self).is_live(handle),
        ensures
            final(self).wf(),
            Some(buffer) == old(self).buffer_at(handle),
            final(self).buffer_at(handle) is None,
            forall|h: usize| h != handle ==> final(self).buffer_at(h) == old(self).buffer_at(h),
            final(self).allocations() == old(self).allocations(),
            final(self).deallocations() == old(self).deallocations(),
            final(self).reclamations() == old(self).reclamations() + 1,
            final(self).live() + 1 == old(self).live(),
    {
        let ghost entry_slots = self.slots@;
        let index = handle - 1;
        // Reading the slot count as a usize bounds the ledger's counters.
        let _total = self.slots.len();
        let mut taken: Option<GrowableBuffer<T>> = None;
        self.slots.set_and_swap(index, &mut taken);
        proof {
            lemma_count_live_update(entry_slots, index as int, None);
            lemma_count_live_at(entry_slots, index as int);
        }
        self.reclaims = self.reclaims + 1;
        match taken {
            Some(buffer) => buffer,
            None => unreached(),
        }
    }

    /// The single deallocation path: a no-op on the null handle, and
    /// otherwise destroys the live buffer the handle names and records
    /// exactly one deallocation.
    pub fn free(&mut self, handle: usize)
        requires
            old(self).wf(),
            handle == 0 || old(self).is_live(handle),
        ensures
            final(self).wf(),
            handle == 0 ==> *final(self) == *old(self),
            handle != 0 ==> final(self).deallocations() == old(self).deallocations() + 1,
            handle != 0 ==> final(self).buffer_at(handle) is None,
            handle != 0 ==> final(self).live() + 1 == old(self).live(),
            forall|h: usize| h != handle ==> final(self).buffer_at(h) == old(self).buffer_at(h),
            final(self).allocations() == old(self).allocations(),
            final(self).reclamations() == old(self).reclamations(),
    {
        if handle == 0 {
            return ;
        }
        let ghost entry_slots = self.slots@;
        let index = handle - 1;
        // Reading the slot count as a usize bounds the ledger's counters.
        let _total = self.slots.len();
        self.slots.set(index, None);
        proof {
            lemma_count_live_update(entry_slots, index as int, None);
            lemma_count_live_at(entry_slots, index as int);
        }
        self.frees = self.frees + 1;
    }

    /// Frees a buffer of buffers: every inner buffer the outer buffer names
    /// is freed exactly once, and the outer buffer itself is consumed along
    /// with them. The outer buffer must own its inner buffers exclusively,
    /// so no handle may appear in it twice.
    pub fn free_nested(&mut self, outer: GrowableBuffer<usize>)
        requires
            old(self).wf(),
            forall|i: int| 0 <= i < outer@.len() ==> old(self).is_live(outer@[i]),
            forall|i: int, j: int| 0 <= i < j < outer@.len() ==> outer@[i] != outer@[j],
        ensures
            final(self).wf(),
            final(self).deallocations() == old(self).deallocations() + outer@.len(),
            forall|i: int| 0 <= i < outer@.len() ==> !final(self).is_live(outer@[i]),
            forall|h: usize|
                (forall|i: int| 0 <= i < outer@.len() ==> outer@[i] != h) ==> final(self).buffer_at(
                    h,
                ) == old(self).buffer_at(h),
            final(self).allocations() == old(self).allocations(),
            final(self).reclamations() == old(self).reclamations(),
    {
        let count = outer.len();
        let mut i: usize = 0;
        while i < count
            invariant
                i <= count,
                count == outer@.len(),
                self.wf(),
                forall|j: int| 0 <= j < outer@.len() ==> old(self).is_live(outer@[j]),
                forall|j: int, k: int| 0 <= j < k < outer@.len() ==> outer@[j] != outer@[k],
                forall|j: int| 0 <= j < i ==> !self.is_live(outer@[j]),
                forall|j: int|
                    i <= j < outer@.len() ==> self.buffer_at(outer@[j]) == old(self).buffer_at(
                        outer@[j],
                    ),
                forall|h: usize|
                    (forall|j: int| 0 <= j < outer@.len() ==> outer@[j] != h) ==> self.buffer_at(h)
                        == old(self).buffer_at(h),
                self.deallocations() == old(self).deallocations() + i,
                self.allocations() == old(self).allocations(),
                self.reclamations() == old(self).reclamations(),
            decreases count - i,
        {
            let handle = *outer.get(i);
            self.free(handle);
            i = i + 1;
        }
    }

    /// Number of buffers the registry has ever handed out.
    pub fn allocation_count(&self) -> (r: usize)
        ensures
            r == self.allocations(),
    {
        self.slots.len()
    }

    /// Number of buffers destroyed through [`Registry::free`].
    pub fn deallocation_count(&self) -> (r: usize)
        ensures
            r == self.deallocations(),
    {
        self.frees
    }

    /// Number of buffers reclaimed by the host through
    /// [`Registry::from_raw`].
    pub fn reclamation_count(&self) -> (r: usize)
        ensures
            r == self.reclamations(),
    {
        self.reclaims
    }

    /// Whether a handle currently names a live buffer.
    pub fn is_live_handle(&self, handle: usize) -> (r: bool)
        ensures
            r == self.is_live(handle),
    {
        if handle == 0 || handle > self.slots.len() {
            false
        } else {
            self.slots[handle - 1].is_some()
        }
    }
}

/// Law: every buffer is deallocated exactly once — when no live buffer
/// remains and none was reclaimed by the host, the ledger has recorded
/// exactly one deallocation for every buffer it ever handed out.
pub proof fn lemma_every_buffer_freed_exactly_once<T: C>(registry: &Registry<T>)
    requires
        registry.wf(),
        registry.live() == 0,
        registry.reclamations() == 0,
    ensures
        registry.deallocations() == registry.allocations(),
{
}

} // verus!
