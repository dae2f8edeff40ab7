//! The block-start handle.
//!
//! An [`ArcHandle`] is an owning handle that carries the address of the
//! whole allocation block rather than of the payload. It is interchangeable
//! with [`Arc`]: the two words differ by exactly the payload offset that the
//! layout engine computed for the store, and the conversions re-type the
//! same block without touching the reference count.

use vstd::prelude::*;

use crate::arc::Arc;
use crate::arc_borrow::ArcBorrow;
use crate::heap::{sbump, srelease, Heap, LoadOrdering, MAX_REFCOUNT};

verus! {

/// An owning, clonable, single-word handle holding the block-start address.
pub struct ArcHandle<T> {
    pub base: usize,
    pub index: Ghost<int>,
    pub phantom: core::marker::PhantomData<T>,
}

impl<T> ArcHandle<T> {
    /// The slot of the block this handle denotes.
    pub open spec fn idx(self) -> int {
        self.index@
    }

    /// Whether this handle denotes a live block of `heap`: the slot is live
    /// and the handle's word is that block's base address.
    pub open spec fn valid(self, heap: Heap<T>) -> bool {
        heap.live(self.idx()) && heap.base(self.idx()) == self.base
    }

    /// The payload address of a valid handle's block stays in bounds.
    proof fn lemma_addr_in_bounds(self, heap: Heap<T>)
        requires
            heap.wf(),
            self.valid(heap),
        ensures
            self.base + heap.poff <= usize::MAX,
            heap.addr_of(self.idx()) == self.base + heap.poff,
    {
        assert(heap.wf_at(self.idx()));
    }

    /// Construct a handle over a fresh block holding `data`, with the count
    /// at 1.
    pub fn new(heap: &mut Heap<T>, data: T) -> (this: ArcHandle<T>)
        requires
            old(heap).wf(),
            old(heap).can_alloc(old(heap).psize as int),
        ensures
            final(heap).wf(),
            this.valid(*final(heap)),
            this.idx() == old(heap).n(),
            final(heap).cnt(this.idx()) == 1,
            final(heap).val(this.idx()) == data,
            final(heap)@ == old(heap)@.push(final(heap)@[this.idx()]),
            final(heap).cfg() == old(heap).cfg(),
    {
        let poff = heap.poff;
        let (addr, idx) = heap.alloc_block(data, heap.psize);
        ArcHandle { base: addr - poff, index: Ghost(idx@), phantom: core::marker::PhantomData }
    }

    /// Hand the handle out in raw form: the payload address, suitable for a
    /// foreign boundary. The count is untouched.
    pub fn into_raw(this: ArcHandle<T>, heap: &Heap<T>) -> (r: usize)
        requires
            heap.wf(),
            this.valid(*heap),
        ensures
            r == heap.addr_of(this.idx()),
            r == this.base + heap.poff,
    {
        proof {
            this.lemma_addr_in_bounds(*heap);
        }
        this.base + heap.poff
    }

    /// Reconstruct a handle from a raw payload address previously produced
    /// by [`ArcHandle::into_raw`]: the block start is found by subtracting
    /// the payload offset. The count is untouched.
    pub fn from_raw(heap: &Heap<T>, raw: usize) -> (this: ArcHandle<T>)
        requires
            heap.wf(),
            exists|i: int| heap.live(i) && heap.addr_of(i) == raw,
        ensures
            this.valid(*heap),
            this.base + heap.poff == raw,
    {
        let j = heap.locate(raw);
        ArcHandle { base: raw - heap.poff, index: Ghost(j as int), phantom: core::marker::PhantomData }
    }

    /// View this handle as a borrowed, non-owning view of the same block.
    /// The count is untouched.
    pub fn borrow_arc(&self, heap: &Heap<T>) -> (r: ArcBorrow<T>)
        requires
            heap.wf(),
            self.valid(*heap),
        ensures
            r.idx() == self.idx(),
            r.valid(*heap),
            r.addr == self.base + heap.poff,
    {
        proof {
            self.lemma_addr_in_bounds(*heap);
        }
        ArcBorrow {
            addr: self.base + heap.poff,
            index: Ghost(self.idx()),
            phantom: core::marker::PhantomData,
        }
    }

    /// The block-start address itself, for memory reporting.
    pub fn heap_ptr(&self) -> (r: usize)
        ensures
            r == self.base,
    {
        self.base
    }

    /// The block-start address.
    pub(crate) fn ptr(&self) -> (r: usize)
        ensures
            r == self.base,
    {
        self.base
    }

    /// Re-type the handle as a payload-address handle. The count is
    /// untouched: the same reference changes static shape only.
    pub fn into_raw_offset(a: ArcHandle<T>, heap: &Heap<T>) -> (r: Arc<T>)
        requires
            heap.wf(),
            a.valid(*heap),
        ensures
            r.idx() == a.idx(),
            r.valid(*heap),
            r.addr == a.base + heap.poff,
    {
        proof {
            a.lemma_addr_in_bounds(*heap);
        }
        Arc {
            addr: a.base + heap.poff,
            index: Ghost(a.idx()),
            phantom: core::marker::PhantomData,
        }
    }

    /// Re-type a payload-address handle as a block-start handle. The count
    /// is untouched.
    pub fn from_raw_offset(a: Arc<T>, heap: &Heap<T>) -> (r: ArcHandle<T>)
        requires
            heap.wf(),
            a.valid(*heap),
        ensures
            r.idx() == a.idx(),
            r.valid(*heap),
            r.base + heap.poff == a.addr,
    {
        ArcHandle { base: a.addr - heap.poff, index: Ghost(a.idx()), phantom: core::marker::PhantomData }
    }

    /// Compare two handles by block address: true exactly when they denote
    /// the same allocation.
    pub fn ptr_eq(this: &ArcHandle<T>, other: &ArcHandle<T>) -> (r: bool)
        ensures
            r == (this.base == other.base),
    {
        this.base == other.base
    }

    /// Duplicate the handle, incrementing the block's count by one. The
    /// count must be at or below the soft ceiling.
    pub fn clone(&self, heap: &mut Heap<T>) -> (r: ArcHandle<T>)
        requires
            old(heap).wf(),
            self.valid(*old(heap)),
            old(heap).cnt(self.idx()) <= MAX_REFCOUNT,
        ensures
            final(heap).wf(),
            r.base == self.base,
            r.idx() == self.idx(),
            r.valid(*final(heap)),
            self.valid(*final(heap)),
            final(heap)@ == sbump(old(heap)@, self.idx()),
            final(heap).cnt(self.idx()) == old(heap).cnt(self.idx()) + 1,
            final(heap).cfg() == old(heap).cfg(),
            final(heap).next == old(heap).next,
    {
        proof {
            self.lemma_addr_in_bounds(*heap);
        }
        heap.bump(self.base + heap.poff, Ghost(self.idx()));
        ArcHandle { base: self.base, index: Ghost(self.idx()), phantom: core::marker::PhantomData }
    }

    /// Release the handle: decrement the block's count by one, and free the
    /// block — running the payload's destructor — exactly if this was the
    /// last reference.
    pub fn release(self, heap: &mut Heap<T>)
        requires
            old(heap).wf(),
            self.valid(*old(heap)),
        ensures
            final(heap).wf(),
            final(heap)@ == srelease(old(heap)@, self.idx()),
            old(heap).cnt(self.idx()) == 1 ==> !final(heap).live(self.idx()),
            old(heap).cnt(self.idx()) > 1 ==> final(heap).live(self.idx()) && final(heap).cnt(
                self.idx(),
            ) == old(heap).cnt(self.idx()) - 1,
            final(heap).cfg() == old(heap).cfg(),
            final(heap).next == old(heap).next,
    {
        proof {
            self.lemma_addr_in_bounds(*heap);
        }
        heap.unbump(self.base + heap.poff, Ghost(self.idx()));
    }

    /// Mutable access to the payload, granted exactly when this handle is
    /// the block's only reference; a shared block yields nothing.
    pub fn get_mut<'a>(this: &mut ArcHandle<T>, heap: &'a mut Heap<T>) -> (r: Option<&'a mut T>)
        requires
            old(heap).wf(),
            old(this).valid(*old(heap)),
        ensures
            *final(this) == *old(this),
            r is Some <==> old(heap).cnt(old(this).idx()) == 1,
            r is None ==> final(heap)@ == old(heap)@ && final(heap).wf() && final(heap).cfg()
                == old(heap).cfg(),
            r matches Some(m) ==> *m == old(heap).val(old(this).idx()) && final(heap)@ == old(
                heap,
            ).with_value(old(this).idx(), *final(m)) && final(heap).wf() && final(heap).cfg()
                == old(heap).cfg() && final(heap).next == old(heap).next,
    {
        if this.is_unique(heap) {
            proof {
                this.lemma_addr_in_bounds(*heap);
            }
            Some(heap.borrow_mut(this.base + heap.poff, Ghost(this.idx())))
        } else {
            None
        }
    }

    /// Get mutable access to the payload, cloning to a fresh block first if
    /// the handle is not the block's only reference: the reference handed
    /// out always targets a block whose count is 1, so mutating it can
    /// never change what any other handle observes.
    pub fn make_mut<'a>(this: &mut ArcHandle<T>, heap: &'a mut Heap<T>) -> (r: &'a mut T) where
        T: Copy,
        requires
            old(heap).wf(),
            old(this).valid(*old(heap)),
            old(heap).cnt(old(this).idx()) == 1 || old(heap).can_alloc(old(heap).psize as int),
        ensures
            *r == old(heap).val(old(this).idx()),
            final(heap).wf(),
            final(this).valid(*final(heap)),
            final(heap).cnt(final(this).idx()) == 1,
            final(heap).val(final(this).idx()) == *final(r),
            final(heap).cfg() == old(heap).cfg(),
            old(heap).cnt(old(this).idx()) == 1 ==> *final(this) == *old(this) && final(heap)@
                == old(heap).with_value(old(this).idx(), *final(r)),
            old(heap).cnt(old(this).idx()) > 1 ==> {
                &&& final(this).idx() == old(heap).n()
                &&& final(heap).n() == old(heap).n() + 1
                &&& final(heap).live(old(this).idx())
                &&& final(heap).cnt(old(this).idx()) == old(heap).cnt(old(this).idx()) - 1
                &&& final(heap).val(old(this).idx()) == old(heap).val(old(this).idx())
                &&& forall|j: int|
                    0 <= j < old(heap).n() && j != old(this).idx() ==> final(heap)@[j] == old(
                        heap,
                    )@[j]
            },
    {
        if !this.is_unique(heap) {
            let d: T = *this.get(heap);
            let fresh: ArcHandle<T> = ArcHandle::new(heap, d);
            let stale: ArcHandle<T> = ArcHandle {
                base: this.base,
                index: Ghost(this.idx()),
                phantom: core::marker::PhantomData,
            };
            *this = fresh;
            stale.release(heap);
        }
        proof {
            this.lemma_addr_in_bounds(*heap);
        }
        heap.borrow_mut(this.base + heap.poff, Ghost(this.idx()))
    }

    /// Borrow the payload.
    pub fn get<'a>(&self, heap: &'a Heap<T>) -> (r: &'a T)
        requires
            heap.wf(),
            self.valid(*heap),
        ensures
            *r == heap.val(self.idx()),
    {
        proof {
            self.lemma_addr_in_bounds(*heap);
        }
        heap.read(self.base + heap.poff, Ghost(self.idx()))
    }

    /// Whether this handle is the block's only reference (is the count 1?).
    pub fn is_unique(&self, heap: &Heap<T>) -> (r: bool)
        requires
            heap.wf(),
            self.valid(*heap),
        ensures
            r <==> heap.cnt(self.idx()) == 1,
    {
        self.get_count(heap, LoadOrdering::Acquire) == 1
    }

    /// The block's reference count, loaded with the given ordering.
    pub fn get_count(&self, heap: &Heap<T>, ordering: LoadOrdering) -> (r: usize)
        requires
            heap.wf(),
            self.valid(*heap),
        ensures
            r == heap.cnt(self.idx()),
    {
        let _ = ordering;
        proof {
            self.lemma_addr_in_bounds(*heap);
        }
        heap.load_count(self.base + heap.poff, Ghost(self.idx()))
    }
}

} // verus!
