//! The foreign-compatible growable buffer: contiguous storage with explicit
//! length, capacity and reallocation bookkeeping.
//!
//! The buffer owns its storage exclusively. Capacity never falls below the
//! length, and growth is geometric: a full buffer at least doubles its
//! capacity before accepting another element, so a run of appends costs a
//! number of reallocations logarithmic in the final size.
use crate::C;
use vstd::arithmetic::power2::{
    lemma2_to64, lemma2_to64_rest, lemma_pow2_strictly_increases, lemma_pow2_unfold, pow2,
};
use vstd::prelude::*;

verus! {

/// Capacity a full buffer grows to when one more slot is needed: doubling,
/// starting from one slot, saturating at the machine limit.
pub open spec fn grown_capacity(cap: usize) -> usize {
    if cap == 0 {
        1
    } else if cap <= usize::MAX / 2 {
        (2 * cap) as usize
    } else {
        usize::MAX
    }
}

/// A growable, contiguous buffer of fixed-size elements with a
/// foreign-compatible ownership protocol: it is created empty or captured
/// from a host array, mutated only through `push` / `push_all` / `set`, and
/// destroyed exactly once, either by releasing its storage back to the host
/// or through the registry's free path.
#[derive(Debug)]
pub struct GrowableBuffer<T: C> {
    storage: Vec<T>,
    capacity: usize,
    reallocs: usize,
}

impl<T: C> C for GrowableBuffer<T> {

}

impl<T: C> View for GrowableBuffer<T> {
    type V = Seq<T>;

    closed spec fn view(&self) -> Seq<T> {
        self.storage@
    }
}

impl<T: C> GrowableBuffer<T> {
    /// Number of allocated slots the buffer presents across the boundary.
    pub closed spec fn spec_capacity(&self) -> usize {
        self.capacity
    }

    /// Number of times the buffer's storage has been reallocated to grow.
    pub closed spec fn spec_reallocs(&self) -> usize {
        self.reallocs
    }

    /// Representation invariant: the length never exceeds the capacity, and
    /// because every reallocation at least doubles the capacity, the
    /// reallocation count stays logarithmic in the capacity (until the
    /// capacity saturates at the machine limit).
    pub open spec fn wf(&self) -> bool {
        &&& self@.len() <= self.spec_capacity()
        &&& self.spec_reallocs() >= 1 ==> (pow2((self.spec_reallocs() - 1) as nat)
            <= self.spec_capacity() || self.spec_capacity() == usize::MAX)
    }

    /// True when the capacity has been driven by growth alone, with no
    /// explicit reservation: it stays within twice the length. Buffers made
    /// by [`GrowableBuffer::new`] or [`GrowableBuffer::capture_from`] start
    /// this way and `push` / `push_all` keep them so; only
    /// [`GrowableBuffer::with_capacity`] reserves ahead of the length.
    pub open spec fn tightly_grown(&self) -> bool {
        self.spec_capacity() <= 1 || self.spec_capacity() <= 2 * self@.len()
    }

    /// An empty buffer with no storage at all.
    pub fn new() -> (r: Self)
        ensures
            r@ == Seq::<T>::empty(),
            r.spec_capacity() == 0,
            r.spec_reallocs() == 0,
            r.wf(),
            r.tightly_grown(),
    {
        GrowableBuffer { storage: Vec::new(), capacity: 0, reallocs: 0 }
    }

    /// An empty buffer with freshly owned storage sized to `capacity`.
    /// Allocation failure aborts the process; it is never a recoverable
    /// error.
    pub fn with_capacity(capacity: usize) -> (r: Self)
        ensures
            r@ == Seq::<T>::empty(),
            r.spec_capacity() == capacity,
            r.spec_reallocs() == 0,
            r.wf(),
    {
        GrowableBuffer { storage: Vec::with_capacity(capacity), capacity, reallocs: 0 }
    }

    /// Number of elements currently stored.
    pub fn len(&self) -> (r: usize)
        ensures
            r == self@.len(),
    {
        self.storage.len()
    }

    /// Number of allocated slots.
    pub fn capacity(&self) -> (r: usize)
        ensures
            r == self.spec_capacity(),
    {
        self.capacity
    }

    /// Number of reallocations the buffer has performed so far.
    pub fn reallocs(&self) -> (r: usize)
        ensures
            r == self.spec_reallocs(),
    {
        self.reallocs
    }

    /// Appends one element. When the buffer is full its capacity at least
    /// doubles before the element is stored, so the old storage stays valid
    /// until the grown storage is fully populated.
    pub fn push(&mut self, value: T)
        requires
            old(self).wf(),
            old(self)@.len() < usize::MAX,
        ensures
            final(self).wf(),
            final(self)@ == old(self)@.push(value),
            old(self)@.len() < old(self).spec_capacity() ==> {
                &&& final(self).spec_capacity() == old(self).spec_capacity()
                &&& final(self).spec_reallocs() == old(self).spec_reallocs()
            },
            old(self)@.len() == old(self).spec_capacity() ==> {
                &&& final(self).spec_capacity() == grown_capacity(old(self).spec_capacity())
                &&& final(self).spec_reallocs() == old(self).spec_reallocs() + 1
            },
            old(self).tightly_grown() ==> final(self).tightly_grown(),
    {
        if self.storage.len() == self.capacity {
            proof {
                lemma_reallocation_count_bounded(self.reallocs, self.capacity);
            }
            let new_capacity = grown_capacity_exec(self.capacity);
            self.storage.reserve(new_capacity - self.storage.len());
            self.capacity = new_capacity;
            self.reallocs = self.reallocs + 1;
            proof {
                lemma_grown_capacity_keeps_wf((self.reallocs - 1) as usize, old(self).spec_capacity());
            }
        }
        self.storage.push(value);
    }

    /// Appends `values.len()` elements in one step: the capacity is raised to
    /// at least the new length by a single reallocation, then the elements
    /// are copied into the tail. Appending nothing changes nothing.
    pub fn push_all(&mut self, values: &Vec<T>) where T: Copy
        requires
            old(self).wf(),
            old(self)@.len() + values@.len() <= usize::MAX,
        ensures
            final(self).wf(),
            final(self)@ == old(self)@ + values@,
            values@.len() == 0 ==> *final(self) == *old(self),
            old(self)@.len() + values@.len() <= old(self).spec_capacity() ==> {
                &&& final(self).spec_capacity() == old(self).spec_capacity()
                &&& final(self).spec_reallocs() == old(self).spec_reallocs()
            },
            old(self)@.len() + values@.len() > old(self).spec_capacity() ==> {
                &&& final(self).spec_capacity() >= grown_capacity(old(self).spec_capacity())
                &&& final(self).spec_reallocs() == old(self).spec_reallocs() + 1
            },
            final(self).spec_capacity() >= old(self)@.len() + values@.len(),
            old(self).tightly_grown() ==> final(self).tightly_grown(),
    {
        let count = values.len();
        if count == 0 {
            assert(old(self)@ + values@ =~= old(self)@);
            return ;
        }
        let needed = self.storage.len() + count;
        if needed > self.capacity {
            proof {
                lemma_reallocation_count_bounded(self.reallocs, self.capacity);
            }
            let grown = grown_capacity_exec(self.capacity);
            let new_capacity = if needed > grown {
                needed
            } else {
                grown
            };
            self.storage.reserve(new_capacity - self.storage.len());
            self.capacity = new_capacity;
            self.reallocs = self.reallocs + 1;
            proof {
                lemma_grown_capacity_keeps_wf((self.reallocs - 1) as usize, old(self).spec_capacity());
            }
        }
        let ghost entry_view = self.storage@;
        let ghost cap_after_reserve = self.capacity;
        let ghost reallocs_after_reserve = self.reallocs;
        let mut i: usize = 0;
        while i < count
            invariant
                i <= count,
                count == values@.len(),
                entry_view.len() + count <= cap_after_reserve,
                self.storage@ == entry_view + values@.take(i as int),
                self.capacity == cap_after_reserve,
                self.reallocs == reallocs_after_reserve,
                self.wf(),
            decreases count - i,
        {
            self.storage.push(values[i]);
            proof {
                assert(entry_view + values@.take(i as int + 1) =~= (entry_view + values@.take(
                    i as int,
                )).push(values@[i as int]));
            }
            i = i + 1;
        }
        proof {
            assert(values@.take(count as int) =~= values@);
        }
    }

    /// Overwrites the element at index `i`, which must already be stored.
    pub fn set(&mut self, i: usize, value: T)
        requires
            old(self).wf(),
            i < old(self)@.len(),
        ensures
            final(self).wf(),
            final(self)@ == old(self)@.update(i as int, value),
            final(self).spec_capacity() == old(self).spec_capacity(),
            final(self).spec_reallocs() == old(self).spec_reallocs(),
    {
        self.storage[i] = value;
    }

    /// Read-only access to the element at index `i`.
    pub fn get(&self, i: usize) -> (r: &T)
        requires
            i < self@.len(),
        ensures
            *r == self@[i as int],
    {
        &self.storage[i]
    }

    /// Read-only traversal of the current elements: the borrow always
    /// reflects the buffer as it stands now, never a frozen snapshot.
    pub fn iter(&self) -> (r: &Vec<T>)
        ensures
            r@ == self@,
    {
        &self.storage
    }

    /// Takes exclusive ownership of an existing host array's storage without
    /// copying any element. The capacity is shrunk to the length, so no
    /// trailing uninitialized slot is exposed across the boundary; the host
    /// array is moved from, so it is never separately deallocated.
    pub fn capture_from(host: Vec<T>) -> (r: Self)
        ensures
            r@ == host@,
            r.spec_capacity() == host@.len(),
            r.spec_reallocs() == 0,
            r.wf(),
            r.tightly_grown(),
    {
        let capacity = host.len();
        GrowableBuffer { storage: host, capacity, reallocs: 0 }
    }

    /// Captures a host array whose element representation differs from the
    /// buffer's: every element is run through the supplied conversion on its
    /// way into the buffer's storage. The host array is consumed, so it is
    /// never separately deallocated. [`GrowableBuffer::capture_from`] is the
    /// zero-copy path for identical representations.
    pub fn capture_converted<S, F: Fn(S) -> T>(host: Vec<S>, convert: F) -> (r: Self)
        requires
            forall|i: int| 0 <= i < host@.len() ==> call_requires(convert, (#[trigger] host@[i],)),
        ensures
            r@.len() == host@.len(),
            forall|i: int|
                0 <= i < host@.len() ==> call_ensures(convert, (host@[i],), #[trigger] r@[i]),
            r.spec_capacity() == host@.len(),
            r.spec_reallocs() == 0,
            r.wf(),
    {
        let ghost original = host@;
        let mut source = host;
        let capacity = source.len();
        let mut converted: Vec<T> = Vec::with_capacity(capacity);
        while source.len() > 0
            invariant
                converted@.len() + source@.len() == original.len(),
                source@ == original.subrange(converted@.len() as int, original.len() as int),
                forall|i: int|
                    0 <= i < converted@.len() ==> call_ensures(
                        convert,
                        (original[i],),
                        #[trigger] converted@[i],
                    ),
                forall|i: int|
                    0 <= i < original.len() ==> call_requires(convert, (#[trigger] original[i],)),
                capacity == original.len(),
            decreases source@.len(),
        {
            let ghost done = converted@.len() as int;
            let element = source.remove(0);
            proof {
                assert(source@ =~= original.subrange(done + 1, original.len() as int));
            }
            let value = convert(element);
            converted.push(value);
        }
        GrowableBuffer { storage: converted, capacity, reallocs: 0 }
    }

    /// The inverse of capture: the storage returns to the host as a native
    /// array and the buffer is consumed, so its own destruction is a no-op.
    /// No element is copied.
    pub fn release_to_host(self) -> (r: Vec<T>)
        ensures
            r@ == self@,
    {
        self.storage
    }
}

/// View of a buffer that started with the elements `init` after each element
/// of `values` has been pushed onto it, one at a time, in order.
pub open spec fn pushed_view<T>(init: Seq<T>, values: Seq<T>) -> Seq<T>
    decreases values.len(),
{
    if values.len() == 0 {
        init
    } else {
        pushed_view(init.push(values[0]), values.drop_first())
    }
}

/// Law: a sequence of pushes appends exactly the pushed values, in insertion
/// order, after whatever was already stored. In particular a buffer that
/// starts empty and receives `n` pushes ends with length `n` and traverses
/// the pushed values in insertion order.
pub proof fn lemma_pushes_keep_insertion_order<T>(init: Seq<T>, values: Seq<T>)
    ensures
        pushed_view(init, values) == init + values,
        pushed_view(Seq::<T>::empty(), values) == values,
        pushed_view(Seq::<T>::empty(), values).len() == values.len(),
    decreases values.len(),
{
    if values.len() == 0 {
        assert(init + values =~= init);
        assert(Seq::<T>::empty() + values =~= values);
    } else {
        lemma_pushes_keep_insertion_order(init.push(values[0]), values.drop_first());
        lemma_pushes_keep_insertion_order(Seq::<T>::empty().push(values[0]), values.drop_first());
        assert(init.push(values[0]) + values.drop_first() =~= init + values);
        assert(Seq::<T>::empty().push(values[0]) + values.drop_first() =~= values);
    }
}

/// Law: capturing a host array and releasing the unmodified buffer back to
/// the host returns an array element-wise equal to the original. The
/// premises are exactly what [`GrowableBuffer::capture_from`] and
/// [`GrowableBuffer::release_to_host`] ensure; neither step copies an
/// element.
pub proof fn lemma_capture_release_round_trip<T: C>(
    host: Seq<T>,
    buffer: GrowableBuffer<T>,
    released: Seq<T>,
)
    requires
        buffer@ == host,
        released == buffer@,
    ensures
        released == host,
        released.len() == host.len(),
        forall|i: int| 0 <= i < host.len() ==> released[i] == host[i],
{
}

/// Law: growth is geometric, so appending elements one at a time triggers a
/// number of reallocations logarithmic in the resulting capacity — never one
/// per element. (At the machine limit the capacity saturates instead of
/// doubling, so the bound is stated below that limit.)
pub proof fn lemma_reallocations_logarithmic<T: C>(buffer: &GrowableBuffer<T>)
    requires
        buffer.wf(),
        buffer.spec_capacity() < usize::MAX,
    ensures
        buffer.spec_reallocs() >= 1 ==> pow2((buffer.spec_reallocs() - 1) as nat)
            <= buffer.spec_capacity(),
        buffer.spec_reallocs() <= 64,
{
    lemma_reallocation_count_bounded(buffer.spec_reallocs(), buffer.spec_capacity());
}

/// Law: appending elements one at a time to a buffer whose capacity has been
/// driven by growth alone triggers a number of reallocations logarithmic in
/// the element count — never one reallocation per element. (At the machine
/// limit the capacity saturates instead of doubling, so the bound is stated
/// below that limit.)
pub proof fn lemma_appends_cost_logarithmic_reallocations<T: C>(buffer: &GrowableBuffer<T>)
    requires
        buffer.wf(),
        buffer.tightly_grown(),
        buffer.spec_capacity() < usize::MAX,
    ensures
        buffer.spec_reallocs() >= 2 ==> pow2((buffer.spec_reallocs() - 1) as nat) <= 2 * buffer@.len(),
        buffer.spec_reallocs() <= 64,
{
    lemma_reallocation_count_bounded(buffer.spec_reallocs(), buffer.spec_capacity());
    if buffer.spec_reallocs() >= 2 {
        lemma2_to64();
        lemma_pow2_strictly_increases(0, (buffer.spec_reallocs() - 1) as nat);
    }
}

/// Exec twin of [`grown_capacity`].
fn grown_capacity_exec(cap: usize) -> (r: usize)
    ensures
        r == grown_capacity(cap),
{
    if cap == 0 {
        1
    } else if cap <= usize::MAX / 2 {
        2 * cap
    } else {
        usize::MAX
    }
}

/// A buffer whose capacity is still below the machine limit has seen at most
/// 64 reallocations: each reallocation at least doubles the capacity, and 64
/// more doublings would overflow the address space.
proof fn lemma_reallocation_count_bounded(reallocs: usize, cap: usize)
    requires
        reallocs >= 1 ==> (pow2((reallocs - 1) as nat) <= cap || cap == usize::MAX),
        cap < usize::MAX,
    ensures
        reallocs <= 64,
{
    if reallocs > 64 {
        lemma2_to64_rest();
        if (reallocs - 1) as nat > 64 {
            lemma_pow2_strictly_increases(64, (reallocs - 1) as nat);
        }
        assert(pow2((reallocs - 1) as nat) >= 0x10000000000000000);
        assert(false);
    }
}

/// Growing a buffer of capacity `cap` after `reallocs` earlier reallocations
/// preserves the geometric-growth invariant for the incremented count, for
/// any new capacity at least [`grown_capacity`]`(cap)`.
proof fn lemma_grown_capacity_keeps_wf(reallocs: usize, cap: usize)
    requires
        reallocs >= 1 ==> (pow2((reallocs - 1) as nat) <= cap || cap == usize::MAX),
        cap < usize::MAX,
    ensures
        pow2(reallocs as nat) <= grown_capacity(cap) || grown_capacity(cap) == usize::MAX,
{
    lemma2_to64();
    if reallocs == 0 {
    } else if cap <= usize::MAX / 2 {
        lemma_pow2_unfold(reallocs as nat);
    }
}

} // verus!
