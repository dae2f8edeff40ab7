//! The thin handle for header-plus-slice payloads.
//!
//! A block may hold a header followed by a variable-length sequence of
//! elements, with the sequence length stored inside the header rather than
//! beside the handle. Two handle shapes describe the same block: the fat
//! shape ([`Arc`] over [`HeaderSliceWithLength`], length to hand) and the
//! thin shape ([`ThinArc`], one word, length recovered by reading the
//! header). Converting between them re-types the same address; it never
//! moves the block or touches the reference count, and thin-ification
//! demands that the stored length equal the sequence's actual length.

use vstd::prelude::*;

use crate::arc::Arc;
use crate::heap::{sbump, srelease, Heap, MAX_REFCOUNT};
use crate::layout::{header_slice_layout, header_slice_size_spec, is_align, MAX_ALLOC};

verus! {

/// A header carrying the length of the sequence that follows it in the
/// block.
pub struct HeaderWithLength<H> {
    pub header: H,
    pub length: usize,
}

impl<H> HeaderWithLength<H> {
    /// Pair a header with the length of its trailing sequence.
    pub fn new(header: H, length: usize) -> (r: HeaderWithLength<H>)
        ensures
            r.header == header,
            r.length == length,
    {
        HeaderWithLength { header, length }
    }
}

/// A header-plus-slice payload: a length-bearing header and the sequence.
pub struct HeaderSliceWithLength<H, T> {
    pub header: HeaderWithLength<H>,
    pub slice: Vec<T>,
}

impl<H, T> HeaderSliceWithLength<H, T> {
    /// The thin-ification invariant: the length stored in the header equals
    /// the sequence's actual length.
    pub open spec fn length_ok(self) -> bool {
        self.header.length == self.slice@.len()
    }
}

/// A one-word handle to a header-plus-slice block: the length travels inside
/// the block, not beside the pointer.
pub struct ThinArc<H, T> {
    pub addr: usize,
    pub index: Ghost<int>,
    pub phantom: core::marker::PhantomData<(H, T)>,
}

/// The thin shape of a fat handle: the same word, the same block.
pub open spec fn thin_of<H, T>(a: Arc<HeaderSliceWithLength<H, T>>) -> ThinArc<H, T> {
    ThinArc { addr: a.addr, index: a.index, phantom: core::marker::PhantomData }
}

/// The fat shape of a thin handle: the same word, the same block.
pub open spec fn fat_of<H, T>(t: ThinArc<H, T>) -> Arc<HeaderSliceWithLength<H, T>> {
    Arc { addr: t.addr, index: t.index, phantom: core::marker::PhantomData }
}

/// Law: thin-ifying a fat handle and fattening the result yields the very
/// handle started from — the same address describing the same block. The
/// conversions only re-type the word, so the block, its header and its
/// sequence are untouched by construction.
pub proof fn lemma_thin_fat_round_trip<H, T>(a: Arc<HeaderSliceWithLength<H, T>>)
    ensures
        fat_of(thin_of(a)) == a,
        thin_of(a).addr == a.addr,
        thin_of(a).idx() == a.idx(),
{
}

impl<H, T> Arc<HeaderSliceWithLength<H, T>> {
    /// Build one block holding `header` and the whole of `items`, sized up
    /// front by the layout engine. The caller supplies the length-bearing
    /// header; writing a length other than the sequence's is a construction
    /// bug that thin-ification will refuse. The fat handle comes back with
    /// the count at 1.
    pub fn from_header_and_iter(
        heap: &mut Heap<HeaderSliceWithLength<H, T>>,
        header: HeaderWithLength<H>,
        items: Vec<T>,
    ) -> (this: Arc<HeaderSliceWithLength<H, T>>)
        requires
            old(heap).wf(),
            is_align(old(heap).halign as int),
            is_align(old(heap).ealign as int),
            header_slice_size_spec(
                old(heap).hsize as int,
                old(heap).esize as int,
                old(heap).ealign as int,
                items@.len() as int,
            ) <= MAX_ALLOC,
            old(heap).can_alloc(
                header_slice_size_spec(
                    old(heap).hsize as int,
                    old(heap).esize as int,
                    old(heap).ealign as int,
                    items@.len() as int,
                ),
            ),
        ensures
            final(heap).wf(),
            this.valid(*final(heap)),
            this.idx() == old(heap).n(),
            final(heap).cnt(this.idx()) == 1,
            final(heap).val(this.idx()).header == header,
            final(heap).val(this.idx()).slice == items,
            final(heap)@ == old(heap)@.push(final(heap)@[this.idx()]),
            final(heap).cfg() == old(heap).cfg(),
    {
        let n = items.len();
        let (psize, _pal) = header_slice_layout(heap.hsize, heap.halign, heap.esize, heap.ealign, n);
        let payload = HeaderSliceWithLength { header, slice: items };
        let (addr, idx) = heap.alloc_block(payload, psize);
        Arc { addr, index: Ghost(idx@), phantom: core::marker::PhantomData }
    }

    /// Re-type a fat handle as a thin one. The stored length must equal the
    /// sequence's actual length — a mismatch is a construction bug, and the
    /// conversion refuses it. Same address, no allocation, count untouched.
    pub fn into_thin(a: Arc<HeaderSliceWithLength<H, T>>, heap: &Heap<HeaderSliceWithLength<H, T>>) -> (r:
        ThinArc<H, T>)
        requires
            heap.wf(),
            a.valid(*heap),
            heap.val(a.idx()).length_ok(),
        ensures
            r == thin_of(a),
            r.addr == a.addr,
            r.idx() == a.idx(),
            r.valid(*heap),
    {
        ThinArc { addr: a.addr, index: Ghost(a.idx()), phantom: core::marker::PhantomData }
    }

    /// Re-type a thin handle as a fat one, recovering the length from the
    /// header. Same address, no allocation, count untouched.
    pub fn from_thin(a: ThinArc<H, T>, heap: &Heap<HeaderSliceWithLength<H, T>>) -> (r: Arc<
        HeaderSliceWithLength<H, T>,
    >)
        requires
            heap.wf(),
            a.valid(*heap),
        ensures
            r == fat_of(a),
            r.addr == a.addr,
            r.idx() == a.idx(),
            r.valid(*heap),
            heap.val(r.idx()).length_ok(),
    {
        Arc { addr: a.addr, index: Ghost(a.idx()), phantom: core::marker::PhantomData }
    }
}

impl<H, T> ThinArc<H, T> {
    /// The slot of the block this handle denotes.
    pub open spec fn idx(self) -> int {
        self.index@
    }

    /// Whether this handle denotes a live block of `heap` whose stored
    /// length is right: every thin handle is made through a conversion or
    /// construction that establishes it.
    pub open spec fn valid(self, heap: Heap<HeaderSliceWithLength<H, T>>) -> bool {
        &&& heap.live(self.idx())
        &&& heap.addr_of(self.idx()) == self.addr
        &&& heap.val(self.idx()).length_ok()
    }

    /// Build one block holding `header` and the whole of `items`, and hand
    /// back the thin handle, with the count at 1.
    pub fn from_header_and_iter(
        heap: &mut Heap<HeaderSliceWithLength<H, T>>,
        header: H,
        items: Vec<T>,
    ) -> (this: ThinArc<H, T>)
        requires
            old(heap).wf(),
            is_align(old(heap).halign as int),
            is_align(old(heap).ealign as int),
            header_slice_size_spec(
                old(heap).hsize as int,
                old(heap).esize as int,
                old(heap).ealign as int,
                items@.len() as int,
            ) <= MAX_ALLOC,
            old(heap).can_alloc(
                header_slice_size_spec(
                    old(heap).hsize as int,
                    old(heap).esize as int,
                    old(heap).ealign as int,
                    items@.len() as int,
                ),
            ),
        ensures
            final(heap).wf(),
            this.valid(*final(heap)),
            this.idx() == old(heap).n(),
            final(heap).cnt(this.idx()) == 1,
            final(heap).val(this.idx()).header.header == header,
            final(heap).val(this.idx()).header.length == items@.len(),
            final(heap).val(this.idx()).slice == items,
            final(heap)@ == old(heap)@.push(final(heap)@[this.idx()]),
            final(heap).cfg() == old(heap).cfg(),
    {
        let n = items.len();
        let fat = Arc::from_header_and_iter(heap, HeaderWithLength::new(header, n), items);
        Arc::into_thin(fat, heap)
    }

    /// Borrow the payload: the header (with its stored length) and the
    /// sequence.
    pub fn get<'a>(&self, heap: &'a Heap<HeaderSliceWithLength<H, T>>) -> (r: &'a HeaderSliceWithLength<
        H,
        T,
    >)
        requires
            heap.wf(),
            self.valid(*heap),
        ensures
            *r == heap.val(self.idx()),
            r.length_ok(),
    {
        heap.read(self.addr, Ghost(self.idx()))
    }

    /// Duplicate the handle, incrementing the block's count by one. The
    /// count must be at or below the soft ceiling.
    pub fn clone(&self, heap: &mut Heap<HeaderSliceWithLength<H, T>>) -> (r: ThinArc<H, T>)
        requires
            old(heap).wf(),
            self.valid(*old(heap)),
            old(heap).cnt(self.idx()) <= MAX_REFCOUNT,
        ensures
            final(heap).wf(),
            r.addr == self.addr,
            r.idx() == self.idx(),
            r.valid(*final(heap)),
            self.valid(*final(heap)),
            final(heap)@ == sbump(old(heap)@, self.idx()),
            final(heap).cnt(self.idx()) == old(heap).cnt(self.idx()) + 1,
            final(heap).cfg() == old(heap).cfg(),
            final(heap).next == old(heap).next,
    {
        heap.bump(self.addr, Ghost(self.idx()));
        ThinArc { addr: self.addr, index: Ghost(self.idx()), phantom: core::marker::PhantomData }
    }

    /// Release the handle: decrement the block's count by one, and free the
    /// block — running the payload's destructor — exactly if this was the
    /// last reference.
    pub fn release(self, heap: &mut Heap<HeaderSliceWithLength<H, T>>)
        requires
            old(heap).wf(),
            self.valid(*old(heap)),
        ensures
            final(heap).wf(),
            final(heap)@ == srelease(old(heap)@, self.idx()),
            old(heap).cnt(self.idx()) == 1 ==> !final(heap).live(self.idx()),
            old(heap).cnt(self.idx()) > 1 ==> final(heap).live(self.idx()) && final(heap).cnt(
                self.idx(),
            ) == old(heap).cnt(self.idx()) - 1,
            final(heap).cfg() == old(heap).cfg(),
            final(heap).next == old(heap).next,
    {
        heap.unbump(self.addr, Ghost(self.idx()));
    }

    /// The block-start address — where the refcount word sits — for memory
    /// reporting.
    pub fn ptr(&self, heap: &Heap<HeaderSliceWithLength<H, T>>) -> (r: usize)
        requires
            heap.wf(),
            self.valid(*heap),
        ensures
            r == heap.base(self.idx()),
    {
        proof {
            assert(heap.wf_at(self.idx()));
        }
        self.addr - heap.poff
    }

    /// The block-start address, for memory reporting.
    pub fn heap_ptr(&self, heap: &Heap<HeaderSliceWithLength<H, T>>) -> (r: usize)
        requires
            heap.wf(),
            self.valid(*heap),
        ensures
            r == heap.base(self.idx()),
    {
        self.ptr(heap)
    }
}

} // verus!
