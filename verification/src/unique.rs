//! The exclusive owner.
//!
//! An [`ArcBox`] is a shared handle that is known to be the only reference
//! to its block: its validity carries `count == 1`. That guarantee is what
//! licenses in-place mutation. It is established at construction (a fresh
//! block starts at count 1) or by a successful uniqueness check
//! ([`Arc::try_unique`]), and no duplication is reachable from this type,
//! so it cannot be silently lost.

use vstd::prelude::*;

use crate::arc::Arc;
use crate::heap::Heap;

verus! {

/// A handle known to be the sole reference to its block, permitting
/// mutation.
pub struct ArcBox<T>(pub Arc<T>);

impl<T> ArcBox<T> {
    /// The slot of the block this owner denotes.
    pub open spec fn idx(self) -> int {
        self.0.idx()
    }

    /// Whether this owner denotes a live block of `heap` of which it is the
    /// only reference.
    pub open spec fn valid(self, heap: Heap<T>) -> bool {
        self.0.valid(heap) && heap.cnt(self.idx()) == 1
    }

    /// Construct an exclusive owner over a fresh block holding `data`.
    /// Always succeeds: a fresh block has exactly one reference.
    pub fn new(heap: &mut Heap<T>, data: T) -> (this: ArcBox<T>)
        requires
            old(heap).wf(),
            old(heap).can_alloc(old(heap).psize as int),
        ensures
            final(heap).wf(),
            this.valid(*final(heap)),
            this.idx() == old(heap).n(),
            final(heap).val(this.idx()) == data,
            final(heap)@ == old(heap)@.push(final(heap)@[this.idx()]),
            final(heap).cfg() == old(heap).cfg(),
            forall|i: int| old(heap).live(i) ==> old(heap).addr_of(i) < this.0.addr,
    {
        ArcBox(Arc::new(heap, data))
    }

    /// Give up exclusivity: re-type the owner as a shared handle. The
    /// count is untouched; no reference is created or destroyed.
    pub fn shareable(self) -> (r: Arc<T>)
        ensures
            r == self.0,
    {
        self.0
    }

    /// Borrow the payload.
    pub fn get<'a>(&self, heap: &'a Heap<T>) -> (r: &'a T)
        requires
            heap.wf(),
            self.valid(*heap),
        ensures
            *r == heap.val(self.idx()),
    {
        self.0.get(heap)
    }

    /// Mutable access to the payload. Always permitted: exclusivity is
    /// guaranteed by this type, and no other handle can observe the block.
    pub fn get_mut<'a>(&self, heap: &'a mut Heap<T>) -> (r: &'a mut T)
        requires
            old(heap).wf(),
            self.valid(*old(heap)),
        ensures
            *r == old(heap).val(self.idx()),
            final(heap).wf(),
            self.valid(*final(heap)),
            final(heap)@ == old(heap).with_value(self.idx(), *final(r)),
            final(heap).val(self.idx()) == *final(r),
            final(heap).cfg() == old(heap).cfg(),
            final(heap).next == old(heap).next,
    {
        heap.borrow_mut(self.0.addr, Ghost(self.idx()))
    }

    /// Overwrite the payload in place. Exclusivity makes this safe: no
    /// other handle can observe the block.
    pub fn set(&self, heap: &mut Heap<T>, v: T)
        requires
            old(heap).wf(),
            self.valid(*old(heap)),
        ensures
            final(heap).wf(),
            self.valid(*final(heap)),
            final(heap)@ == old(heap).with_value(self.idx(), v),
            final(heap).val(self.idx()) == v,
            final(heap).cfg() == old(heap).cfg(),
            final(heap).next == old(heap).next,
    {
        Arc::set(&self.0, heap, v);
    }

    /// Release the owner: the count was 1, so the block is freed and the
    /// payload's destructor runs.
    pub fn release(self, heap: &mut Heap<T>)
        requires
            old(heap).wf(),
            self.valid(*old(heap)),
        ensures
            final(heap).wf(),
            final(heap)@ == old(heap)@.update(self.idx(), None::<crate::heap::Block<T>>),
            !final(heap).live(self.idx()),
            final(heap).cfg() == old(heap).cfg(),
            final(heap).next == old(heap).next,
    {
        self.0.release(heap);
    }
}

impl<T: Copy> ArcBox<T> {
    /// Duplicate the owner onto a fresh block holding a copy of the
    /// payload. The original block is untouched: an exclusive owner never
    /// shares.
    pub fn clone(&self, heap: &mut Heap<T>) -> (r: ArcBox<T>)
        requires
            old(heap).wf(),
            self.valid(*old(heap)),
            old(heap).can_alloc(old(heap).psize as int),
        ensures
            final(heap).wf(),
            r.valid(*final(heap)),
            r.idx() == old(heap).n(),
            final(heap).val(r.idx()) == old(heap).val(self.idx()),
            final(heap)@ == old(heap)@.push(final(heap)@[r.idx()]),
            self.valid(*final(heap)),
            final(heap).val(self.idx()) == old(heap).val(self.idx()),
            final(heap).cfg() == old(heap).cfg(),
    {
        let d: T = *self.get(heap);
        ArcBox::new(heap, d)
    }
}

} // verus!
