//! The borrowed view.
//!
//! An [`ArcBorrow`] is a non-owning view of a block known to be backed by a
//! shared handle: the same single word as the handle, but copying it never
//! touches the reference count, and it carries no obligation to release.
//! The caller keeps some shared handle to the block alive for as long as
//! the view is used; that is the view's validity precondition, stated to
//! every operation rather than enforced by the type.

use vstd::prelude::*;

use crate::arc::Arc;
use crate::heap::{sbump, Heap, LoadOrdering, MAX_REFCOUNT};

verus! {

/// A non-owning, freely copyable view of a block backed by a shared handle.
/// Copying it never touches the count: a view owns nothing.
pub struct ArcBorrow<T> {
    pub addr: usize,
    pub index: Ghost<int>,
    pub phantom: core::marker::PhantomData<T>,
}

impl<T> Clone for ArcBorrow<T> {
    fn clone(&self) -> (r: ArcBorrow<T>)
        ensures
            r == *self,
    {
        ArcBorrow { addr: self.addr, index: self.index, phantom: core::marker::PhantomData }
    }
}

impl<T> Copy for ArcBorrow<T> {

}

impl<T> ArcBorrow<T> {
    /// The slot of the block this view denotes.
    pub open spec fn idx(self) -> int {
        self.index@
    }

    /// Whether this view denotes a live block of `heap`: some shared handle
    /// to the block is still alive.
    pub open spec fn valid(self, heap: Heap<T>) -> bool {
        heap.live(self.idx()) && heap.addr_of(self.idx()) == self.addr
    }

    /// Promote the view to an owning handle, incrementing the count by
    /// exactly one.
    pub fn clone_arc(&self, heap: &mut Heap<T>) -> (r: Arc<T>)
        requires
            old(heap).wf(),
            self.valid(*old(heap)),
            old(heap).cnt(self.idx()) <= MAX_REFCOUNT,
        ensures
            final(heap).wf(),
            r.addr == self.addr,
            r.idx() == self.idx(),
            r.valid(*final(heap)),
            final(heap)@ == sbump(old(heap)@, self.idx()),
            final(heap).cnt(self.idx()) == old(heap).cnt(self.idx()) + 1,
            final(heap).cfg() == old(heap).cfg(),
            final(heap).next == old(heap).next,
    {
        let transient = Arc {
            addr: self.addr,
            index: Ghost(self.idx()),
            phantom: core::marker::PhantomData,
        };
        transient.clone(heap)
    }

    /// Reinterpret the view as a transient shared handle over the same
    /// block: the two have identical representation, and the count is
    /// untouched. The transient handle borrows the view's backing
    /// reference — it must not be released, or a reference the view never
    /// owned would be given up.
    pub fn as_arc(&self) -> (r: Arc<T>)
        ensures
            r.addr == self.addr,
            r.idx() == self.idx(),
    {
        Arc { addr: self.addr, index: Ghost(self.idx()), phantom: core::marker::PhantomData }
    }

    /// Construct a view from a raw word known to be the payload address of
    /// a live block (for words handed across a foreign boundary). The count
    /// is untouched.
    pub fn from_raw(heap: &Heap<T>, raw: usize) -> (this: ArcBorrow<T>)
        requires
            heap.wf(),
            exists|i: int| heap.live(i) && heap.addr_of(i) == raw,
        ensures
            this.valid(*heap),
            this.addr == raw,
    {
        let j = heap.locate(raw);
        ArcBorrow { addr: raw, index: Ghost(j as int), phantom: core::marker::PhantomData }
    }

    /// The view's word: the payload address.
    pub fn into_raw(this: ArcBorrow<T>) -> (r: usize)
        ensures
            r == this.addr,
    {
        this.addr
    }

    /// Compare two views by address: true exactly when they denote the same
    /// allocation.
    pub fn ptr_eq(this: ArcBorrow<T>, other: ArcBorrow<T>) -> (r: bool)
        ensures
            r == (this.addr == other.addr),
    {
        this.addr == other.addr
    }

    /// Borrow the payload.
    pub fn get<'a>(&self, heap: &'a Heap<T>) -> (r: &'a T)
        requires
            heap.wf(),
            self.valid(*heap),
        ensures
            *r == heap.val(self.idx()),
    {
        heap.read(self.addr, Ghost(self.idx()))
    }

    /// The block's reference count, loaded with the given ordering.
    pub fn count(this: ArcBorrow<T>, heap: &Heap<T>, ordering: LoadOrdering) -> (r: usize)
        requires
            heap.wf(),
            this.valid(*heap),
        ensures
            r == heap.cnt(this.idx()),
    {
        let _ = ordering;
        heap.load_count(this.addr, Ghost(this.idx()))
    }
}

} // verus!
