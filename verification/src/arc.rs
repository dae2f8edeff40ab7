//! The shared handle.
//!
//! An [`Arc`] is an owning, clonable handle to one allocation block of a
//! [`Heap`]. At run time it is a single word: the payload address. (The slot
//! it denotes travels beside it in ghost code only.) Cloning bumps the
//! block's reference count, releasing decrements it, and the block is freed
//! exactly when the last handle releases it.

use vstd::prelude::*;

use crate::borrow::ArcBorrow;
use crate::heap::{sbump, srelease, Heap, LoadOrdering, MAX_REFCOUNT};
use crate::layout::{block_layout, block_size_spec, is_align, BlockLayout, MAX_ALLOC};
use crate::unique::ArcBox;

verus! {

/// What an allocation block holds: the refcount word, then the payload.
#[verifier::ext_equal]
pub struct ArcInner<T> {
    pub count: usize,
    pub data: T,
}

impl<T> ArcInner<T> {
    /// The layout of an allocation block for a payload of `size` bytes
    /// aligned to `align`, and the offset of the payload within the block.
    pub fn data_offset(size: usize, align: usize) -> (r: (BlockLayout, usize))
        requires
            is_align(align as int),
            block_size_spec(size as int, align as int) <= MAX_ALLOC,
        ensures
            r.0.size == block_size_spec(size as int, align as int),
            r.0.align == crate::layout::block_align_spec(align as int),
            r.1 == crate::layout::payload_offset_spec(align as int),
            r.1 + size <= r.0.size,
    {
        block_layout(size, align)
    }
}

/// An owning, clonable, single-word handle to a shared allocation block.
///
/// The word is the payload address, not the block start: the refcount word
/// lives at a fixed negative offset from it.
pub struct Arc<T> {
    pub addr: usize,
    pub index: Ghost<int>,
    pub phantom: core::marker::PhantomData<T>,
}

impl<T> Arc<T> {
    /// The slot of the block this handle denotes.
    pub open spec fn idx(self) -> int {
        self.index@
    }

    /// Whether this handle denotes a live block of `heap`: the slot is live
    /// and the handle's word is that block's payload address.
    pub open spec fn valid(self, heap: Heap<T>) -> bool {
        heap.live(self.idx()) && heap.addr_of(self.idx()) == self.addr
    }

    /// Construct a handle over a fresh block holding `data`, with the count
    /// at 1.
    pub fn new(heap: &mut Heap<T>, data: T) -> (this: Arc<T>)
        requires
            old(heap).wf(),
            old(heap).can_alloc(old(heap).psize as int),
        ensures
            final(heap).wf(),
            this.valid(*final(heap)),
            this.idx() == old(heap).n(),
            final(heap).cnt(this.idx()) == 1,
            final(heap).val(this.idx()) == data,
            final(heap)@ == old(heap)@.push(final(heap)@[this.idx()]),
            final(heap).cfg() == old(heap).cfg(),
            forall|i: int| old(heap).live(i) ==> old(heap).addr_of(i) < this.addr,
    {
        let psize = heap.psize;
        let (addr, idx) = heap.alloc_block(data, psize);
        Arc { addr, index: Ghost(idx@), phantom: core::marker::PhantomData }
    }

    /// Duplicate the handle, incrementing the block's count by one.
    ///
    /// The count must be at or below the soft ceiling [`MAX_REFCOUNT`]; past
    /// it, duplication aborts rather than risk overflow.
    pub fn clone(&self, heap: &mut Heap<T>) -> (r: Arc<T>)
        requires
            old(heap).wf(),
            self.valid(*old(heap)),
            old(heap).cnt(self.idx()) <= MAX_REFCOUNT,
        ensures
            final(heap).wf(),
            r.addr == self.addr,
            r.idx() == self.idx(),
            r.valid(*final(heap)),
            self.valid(*final(heap)),
            final(heap)@ == sbump(old(heap)@, self.idx()),
            final(heap).cnt(self.idx()) == old(heap).cnt(self.idx()) + 1,
            final(heap).cfg() == old(heap).cfg(),
            final(heap).next == old(heap).next,
    {
        heap.bump(self.addr, Ghost(self.idx()));
        Arc { addr: self.addr, index: Ghost(self.idx()), phantom: core::marker::PhantomData }
    }

    /// Release the handle: decrement the block's count by one, and free the
    /// block — running the payload's destructor — exactly if this was the
    /// last reference.
    pub fn release(self, heap: &mut Heap<T>)
        requires
            old(heap).wf(),
            self.valid(*old(heap)),
        ensures
            final(heap).wf(),
            final(heap)@ == srelease(old(heap)@, self.idx()),
            old(heap).cnt(self.idx()) == 1 ==> !final(heap).live(self.idx()),
            old(heap).cnt(self.idx()) > 1 ==> final(heap).live(self.idx()) && final(heap).cnt(
                self.idx(),
            ) == old(heap).cnt(self.idx()) - 1,
            final(heap).cfg() == old(heap).cfg(),
            final(heap).next == old(heap).next,
    {
        heap.unbump(self.addr, Ghost(self.idx()));
    }

    /// The block's reference count, loaded with the given ordering.
    pub fn count(this: &Arc<T>, heap: &Heap<T>, ordering: LoadOrdering) -> (r: usize)
        requires
            heap.wf(),
            this.valid(*heap),
        ensures
            r == heap.cnt(this.idx()),
    {
        let _ = ordering;
        heap.load_count(this.addr, Ghost(this.idx()))
    }

    /// Whether this handle is the block's only reference (is the count 1?).
    ///
    /// A yes licenses mutation, so the protocol's load here is
    /// acquire-ordered.
    pub fn is_unique(&self, heap: &Heap<T>) -> (r: bool)
        requires
            heap.wf(),
            self.valid(*heap),
        ensures
            r <==> heap.cnt(self.idx()) == 1,
    {
        Arc::count(self, heap, LoadOrdering::Acquire) == 1
    }

    /// Borrow the payload.
    pub fn get<'a>(&self, heap: &'a Heap<T>) -> (r: &'a T)
        requires
            heap.wf(),
            self.valid(*heap),
        ensures
            *r == heap.val(self.idx()),
    {
        heap.read(self.addr, Ghost(self.idx()))
    }

    /// Compare two handles by address: true exactly when they denote the
    /// same allocation.
    pub fn ptr_eq(this: &Arc<T>, other: &Arc<T>) -> (r: bool)
        ensures
            r == (this.addr == other.addr),
    {
        this.addr == other.addr
    }

    /// The handle's word: the payload address.
    pub fn as_ptr(this: &Arc<T>) -> (r: usize)
        ensures
            r == this.addr,
    {
        this.addr
    }

    /// Hand the handle out in raw form: exactly the payload address. The
    /// count is untouched; the obligation to release moves to whoever holds
    /// the raw word.
    pub fn into_raw(this: Arc<T>) -> (r: usize)
        ensures
            r == this.addr,
    {
        this.addr
    }

    /// View this handle as a borrowed, non-owning view of the same block.
    /// The count is untouched; the view is valid while this handle (or any
    /// other reference to the block) stays alive.
    pub fn borrow_arc(&self) -> (r: ArcBorrow<T>)
        ensures
            r.addr == self.addr,
            r.idx() == self.idx(),
    {
        ArcBorrow { addr: self.addr, index: Ghost(self.idx()), phantom: core::marker::PhantomData }
    }

    /// Leak this handle, keeping its reference forever: the count is never
    /// decremented again on its behalf. What comes back is a view that
    /// stays valid as long as the leaked reference keeps the block alive.
    pub fn leak(this: Arc<T>) -> (r: ArcBorrow<T>)
        ensures
            r.addr == this.addr,
            r.idx() == this.idx(),
    {
        ArcBorrow { addr: this.addr, index: Ghost(this.idx()), phantom: core::marker::PhantomData }
    }

    /// Overwrite the payload in place. Mutation is only exposed under a
    /// proven uniqueness guarantee: the handle must be the block's only
    /// reference.
    pub fn set(this: &Arc<T>, heap: &mut Heap<T>, v: T)
        requires
            old(heap).wf(),
            this.valid(*old(heap)),
            old(heap).cnt(this.idx()) == 1,
        ensures
            final(heap).wf(),
            this.valid(*final(heap)),
            final(heap)@ == old(heap).with_value(this.idx(), v),
            final(heap).val(this.idx()) == v,
            final(heap).cnt(this.idx()) == 1,
            final(heap).cfg() == old(heap).cfg(),
            final(heap).next == old(heap).next,
    {
        heap.write(this.addr, Ghost(this.idx()), v);
    }

    /// Try to convert this handle into an exclusive owner. Succeeds exactly
    /// when the count is 1 at the time of the call, consuming the handle;
    /// on failure the handle comes back unchanged, and the count is
    /// untouched either way.
    pub fn try_unique(this: Arc<T>, heap: &Heap<T>) -> (r: Result<ArcBox<T>, Arc<T>>)
        requires
            heap.wf(),
            this.valid(*heap),
        ensures
            r is Ok <==> heap.cnt(this.idx()) == 1,
            r is Ok ==> r->Ok_0.0 == this && r->Ok_0.valid(*heap),
            r is Err ==> r->Err_0 == this,
    {
        if this.is_unique(heap) {
            Ok(ArcBox(this))
        } else {
            Err(this)
        }
    }

    /// Reconstruct a handle from a raw word previously produced by
    /// [`Arc::into_raw`]: the word must be the payload address of a live
    /// block. The count is untouched.
    pub fn from_raw(heap: &Heap<T>, raw: usize) -> (this: Arc<T>)
        requires
            heap.wf(),
            exists|i: int| heap.live(i) && heap.addr_of(i) == raw,
        ensures
            this.valid(*heap),
            this.addr == raw,
    {
        let j = heap.locate(raw);
        Arc { addr: raw, index: Ghost(j as int), phantom: core::marker::PhantomData }
    }
}

impl<T: Copy> Arc<T> {
    /// Make the handle unique, copying on write: if the block is shared,
    /// move the handle to a fresh block holding a copy of the payload —
    /// at a new address — and release the old reference. Afterwards the
    /// handle is the only reference to its block, whose payload equals the
    /// payload at the time of the call.
    fn cow(this: &mut Arc<T>, heap: &mut Heap<T>)
        requires
            old(heap).wf(),
            old(this).valid(*old(heap)),
            old(heap).cnt(old(this).idx()) == 1 || old(heap).can_alloc(old(heap).psize as int),
        ensures
            final(heap).wf(),
            final(this).valid(*final(heap)),
            final(heap).cnt(final(this).idx()) == 1,
            final(heap).val(final(this).idx()) == old(heap).val(old(this).idx()),
            final(heap).cfg() == old(heap).cfg(),
            old(heap).cnt(old(this).idx()) == 1 ==> *final(this) == *old(this) && final(heap)@
                == old(heap)@,
            old(heap).cnt(old(this).idx()) > 1 ==> {
                &&& final(this).idx() == old(heap).n()
                &&& final(heap).n() == old(heap).n() + 1
                &&& final(heap).live(old(this).idx())
                &&& final(heap).cnt(old(this).idx()) == old(heap).cnt(old(this).idx()) - 1
                &&& final(heap).val(old(this).idx()) == old(heap).val(old(this).idx())
                &&& forall|j: int|
                    0 <= j < old(heap).n() && j != old(this).idx() ==> final(heap)@[j] == old(
                        heap,
                    )@[j]
                &&& forall|i: int|
                    old(heap).live(i) ==> old(heap).addr_of(i) < final(this).addr
            },
    {
        if !this.is_unique(heap) {
            let d: T = *this.get(heap);
            let fresh: Arc<T> = Arc::new(heap, d);
            let stale: Arc<T> = Arc {
                addr: this.addr,
                index: Ghost(this.idx()),
                phantom: core::marker::PhantomData,
            };
            *this = fresh;
            stale.release(heap);
        }
    }

    /// Get mutable access to the payload, cloning to a fresh block first if
    /// the handle is not the block's only reference. No state is observable
    /// in which the handle points at a shared block while the mutation is
    /// under way: the reference handed out always targets a block whose
    /// count is 1, so mutating it can never change what any other handle
    /// observes.
    pub fn make_mut<'a>(this: &mut Arc<T>, heap: &'a mut Heap<T>) -> (r: &'a mut T)
        requires
            old(heap).wf(),
            old(this).valid(*old(heap)),
            old(heap).cnt(old(this).idx()) == 1 || old(heap).can_alloc(old(heap).psize as int),
        ensures
            *r == old(heap).val(old(this).idx()),
            final(heap).wf(),
            final(this).valid(*final(heap)),
            final(heap).cnt(final(this).idx()) == 1,
            final(heap).val(final(this).idx()) == *final(r),
            final(heap).cfg() == old(heap).cfg(),
            old(heap).cnt(old(this).idx()) == 1 ==> *final(this) == *old(this) && final(heap)@
                == old(heap).with_value(old(this).idx(), *final(r)),
            old(heap).cnt(old(this).idx()) > 1 ==> {
                &&& final(this).idx() == old(heap).n()
                &&& final(heap).n() == old(heap).n() + 1
                &&& final(heap).live(old(this).idx())
                &&& final(heap).cnt(old(this).idx()) == old(heap).cnt(old(this).idx()) - 1
                &&& final(heap).val(old(this).idx()) == old(heap).val(old(this).idx())
                &&& forall|j: int|
                    0 <= j < old(heap).n() && j != old(this).idx() ==> final(heap)@[j] == old(
                        heap,
                    )@[j]
                &&& forall|i: int|
                    old(heap).live(i) ==> old(heap).addr_of(i) < final(this).addr
            },
    {
        Arc::cow(this, heap);
        heap.borrow_mut(this.addr, Ghost(this.idx()))
    }

    /// Convert this handle into an exclusive owner, copying the payload to
    /// a fresh block if the handle is not already unique.
    pub fn unique(this: Arc<T>, heap: &mut Heap<T>) -> (r: ArcBox<T>)
        requires
            old(heap).wf(),
            this.valid(*old(heap)),
            old(heap).cnt(this.idx()) == 1 || old(heap).can_alloc(old(heap).psize as int),
        ensures
            final(heap).wf(),
            r.valid(*final(heap)),
            final(heap).val(r.idx()) == old(heap).val(this.idx()),
            final(heap).cfg() == old(heap).cfg(),
            old(heap).cnt(this.idx()) == 1 ==> r.0 == this && final(heap)@ == old(heap)@,
            old(heap).cnt(this.idx()) > 1 ==> {
                &&& r.idx() == old(heap).n()
                &&& final(heap).n() == old(heap).n() + 1
                &&& final(heap).live(this.idx())
                &&& final(heap).cnt(this.idx()) == old(heap).cnt(this.idx()) - 1
                &&& forall|j: int|
                    0 <= j < old(heap).n() && j != this.idx() ==> final(heap)@[j] == old(heap)@[j]
            },
    {
        let mut h = this;
        Arc::cow(&mut h, heap);
        ArcBox(h)
    }
}

} // verus!
