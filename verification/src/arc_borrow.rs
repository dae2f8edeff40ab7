//! The borrowed view, in the block-start handle's world.
//!
//! This [`ArcBorrow`] plays the same role as the one beside [`Arc`]: a
//! non-owning, freely copyable view of a block known to be backed by an
//! owning handle. It promotes to either handle shape — [`ArcHandle`] or
//! [`Arc`] — by bumping the count once.

use vstd::prelude::*;

use crate::arc::Arc;
use crate::arc_handle::ArcHandle;
use crate::heap::{sbump, Heap, LoadOrdering, MAX_REFCOUNT};

verus! {

/// A non-owning, freely copyable view of a block backed by an owning
/// handle. Copying it never touches the count.
pub struct ArcBorrow<T> {
    pub addr: usize,
    pub index: Ghost<int>,
    pub phantom: core::marker::PhantomData<T>,
}

impl<T> Clone for ArcBorrow<T> {
    fn clone(&self) -> (r: ArcBorrow<T>)
        ensures
            r == *self,
    {
        ArcBorrow { addr: self.addr, index: self.index, phantom: core::marker::PhantomData }
    }
}

impl<T> Copy for ArcBorrow<T> {

}

impl<T> ArcBorrow<T> {
    /// The slot of the block this view denotes.
    pub open spec fn idx(self) -> int {
        self.index@
    }

    /// Whether this view denotes a live block of `heap`.
    pub open spec fn valid(self, heap: Heap<T>) -> bool {
        heap.live(self.idx()) && heap.addr_of(self.idx()) == self.addr
    }

    /// Promote the view to an owning block-start handle, incrementing the
    /// count by exactly one.
    pub fn clone_handle(&self, heap: &mut Heap<T>) -> (r: ArcHandle<T>)
        requires
            old(heap).wf(),
            self.valid(*old(heap)),
            old(heap).cnt(self.idx()) <= MAX_REFCOUNT,
        ensures
            final(heap).wf(),
            r.idx() == self.idx(),
            r.valid(*final(heap)),
            r.base + final(heap).poff == self.addr,
            final(heap)@ == sbump(old(heap)@, self.idx()),
            final(heap).cnt(self.idx()) == old(heap).cnt(self.idx()) + 1,
            final(heap).cfg() == old(heap).cfg(),
            final(heap).next == old(heap).next,
    {
        let poff = heap.poff;
        heap.bump(self.addr, Ghost(self.idx()));
        ArcHandle {
            base: self.addr - poff,
            index: Ghost(self.idx()),
            phantom: core::marker::PhantomData,
        }
    }

    /// Promote the view to an owning payload-address handle, incrementing
    /// the count by exactly one.
    pub fn clone_arc(&self, heap: &mut Heap<T>) -> (r: Arc<T>)
        requires
            old(heap).wf(),
            self.valid(*old(heap)),
            old(heap).cnt(self.idx()) <= MAX_REFCOUNT,
        ensures
            final(heap).wf(),
            r.addr == self.addr,
            r.idx() == self.idx(),
            r.valid(*final(heap)),
            final(heap)@ == sbump(old(heap)@, self.idx()),
            final(heap).cnt(self.idx()) == old(heap).cnt(self.idx()) + 1,
            final(heap).cfg() == old(heap).cfg(),
            final(heap).next == old(heap).next,
    {
        heap.bump(self.addr, Ghost(self.idx()));
        Arc { addr: self.addr, index: Ghost(self.idx()), phantom: core::marker::PhantomData }
    }

    /// Compare two views by address: true exactly when they denote the same
    /// allocation.
    pub fn ptr_eq(this: &ArcBorrow<T>, other: &ArcBorrow<T>) -> (r: bool)
        ensures
            r == (this.addr == other.addr),
    {
        this.addr == other.addr
    }

    /// Borrow the payload, for as long as the backing handle lives.
    pub fn get<'a>(&self, heap: &'a Heap<T>) -> (r: &'a T)
        requires
            heap.wf(),
            self.valid(*heap),
        ensures
            *r == heap.val(self.idx()),
    {
        heap.read(self.addr, Ghost(self.idx()))
    }

    /// The block's reference count, loaded with the given ordering.
    pub fn get_count(&self, heap: &Heap<T>, ordering: LoadOrdering) -> (r: usize)
        requires
            heap.wf(),
            self.valid(*heap),
        ensures
            r == heap.cnt(self.idx()),
    {
        let _ = ordering;
        heap.load_count(self.addr, Ghost(self.idx()))
    }
}

} // verus!
