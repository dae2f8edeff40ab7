//! The block store and the refcount protocol.
//!
//! A [`Heap`] owns every allocation block of one payload type: a refcount
//! word followed by the payload, placed by the layout engine at a base
//! address that a bump allocator hands out. Handles are payload addresses;
//! each operation that needs the block walks the store to the unique live
//! block whose payload address matches. The refcount protocol lives here:
//! count initialised to 1 on construction, incremented on clone, decremented
//! on release, block freed (payload dropped) exactly when the count falls
//! from 1 to 0.

use vstd::prelude::*;

use crate::arc::ArcInner;
use crate::layout::{
    block_align_spec, block_layout, block_size_spec, is_align, lemma_align_bounds,
    lemma_round_up, payload_offset_spec, round_up, round_up_spec, MAX_ALLOC, WORD_SIZE,
};

verus! {

/// A soft ceiling on the reference count of one block. A duplication that
/// would take the count past this ceiling aborts rather than risk overflow,
/// so every operation that increments the count asks for the count to be at
/// or below it.
pub const MAX_REFCOUNT: usize = usize::MAX / 2;

/// The memory ordering of a refcount load.
///
/// The store is a sequential model, so the ordering does not change what a
/// load returns; it is kept so that callers state the ordering they need, as
/// the atomic protocol requires (acquire wherever the answer licenses
/// mutation).
#[derive(Clone, Copy, Debug)]
pub enum LoadOrdering {
    Relaxed,
    Acquire,
    SeqCst,
}

/// One live allocation block: the refcount word and payload, together with
/// the base address and payload size the layout engine assigned to it.
#[verifier::ext_equal]
pub struct Block<T> {
    pub inner: ArcInner<T>,
    pub base: usize,
    pub psize: usize,
}

/// Whether slot `i` of a slots sequence holds a live block.
pub open spec fn slive<T>(s: Seq<Option<Block<T>>>, i: int) -> bool {
    0 <= i < s.len() && s[i] is Some
}

/// The reference count of the block in slot `i` of a slots sequence.
pub open spec fn scount<T>(s: Seq<Option<Block<T>>>, i: int) -> usize {
    s[i]->Some_0.inner.count
}

/// A slots sequence after the duplicate step on slot `i`: the count rises
/// by one and nothing else changes.
pub open spec fn sbump<T>(s: Seq<Option<Block<T>>>, i: int) -> Seq<Option<Block<T>>> {
    s.update(
        i,
        Some(
            Block {
                inner: ArcInner {
                    count: (scount(s, i) + 1) as usize,
                    data: s[i]->Some_0.inner.data,
                },
                base: s[i]->Some_0.base,
                psize: s[i]->Some_0.psize,
            },
        ),
    )
}

/// A slots sequence after the release step on slot `i`: the count falls by
/// one, and the block is freed exactly when the count was 1.
pub open spec fn srelease<T>(s: Seq<Option<Block<T>>>, i: int) -> Seq<Option<Block<T>>> {
    if scount(s, i) == 1 {
        s.update(i, None)
    } else {
        s.update(
            i,
            Some(
                Block {
                    inner: ArcInner {
                        count: (scount(s, i) - 1) as usize,
                        data: s[i]->Some_0.inner.data,
                    },
                    base: s[i]->Some_0.base,
                    psize: s[i]->Some_0.psize,
                },
            ),
        )
    }
}

/// 4 is an alignment.
proof fn lemma_four_is_align()
    ensures
        crate::layout::is_align(4),
{
    vstd::arithmetic::power2::lemma2_to64();
    assert(2nat <= 29 && 4 == vstd::arithmetic::power2::pow2(2));
}

/// A multiple of a multiple of 4 is a multiple of 4.
proof fn lemma_mod4_of_multiple(x: int, a: int)
    requires
        0 < a,
        a % 4 == 0,
        x % a == 0,
    ensures
        x % 4 == 0,
{
    let q = a / 4;
    vstd::arithmetic::div_mod::lemma_fundamental_div_mod(a, 4);
    assert(a == 4 * q);
    vstd::arithmetic::div_mod::lemma_mod_mod(x, 4, q);
}

/// A slots sequence after the count of slot `i` is replaced by `c`.
pub open spec fn supd<T>(s: Seq<Option<Block<T>>>, i: int, c: usize) -> Seq<Option<Block<T>>> {
    s.update(
        i,
        Some(
            Block {
                inner: ArcInner { count: c, data: s[i]->Some_0.inner.data },
                base: s[i]->Some_0.base,
                psize: s[i]->Some_0.psize,
            },
        ),
    )
}

/// Law: duplicating a handle raises its block's count by exactly one, and
/// releasing the duplicate afterwards restores the store to exactly what it
/// was before the duplication.
pub proof fn lemma_clone_then_release<T>(s: Seq<Option<Block<T>>>, i: int)
    requires
        slive(s, i),
        1 <= scount(s, i) <= MAX_REFCOUNT,
    ensures
        scount(sbump(s, i), i) == scount(s, i) + 1,
        srelease(sbump(s, i), i) == s,
{
    assert(srelease(sbump(s, i), i) =~= s);
}

/// Law: a write through a proven-unique handle changes its own block's
/// payload alone; every other live block keeps its payload, its count and
/// its address exactly as they were, so no other clone can ever observe
/// the mutation.
pub proof fn lemma_write_isolation<T>(h: Heap<T>, i: int, v: T, j: int)
    requires
        h.live(i),
        0 <= j < h.n(),
        j != i,
    ensures
        h.with_value(i, v)[j] == h@[j],
        h.with_value(i, v)[i]->Some_0.inner.data == v,
        h.with_value(i, v)[i]->Some_0.inner.count == h.cnt(i),
        h.with_value(i, v)[i]->Some_0.base == h.base(i),
{
}

/// The store after a sequence of duplicate (`true`) and release (`false`)
/// steps on slot `i`, applied first to last.
pub open spec fn apply_ops<T>(s: Seq<Option<Block<T>>>, i: int, ops: Seq<bool>) -> Seq<
    Option<Block<T>>,
>
    decreases ops.len(),
{
    if ops.len() == 0 {
        s
    } else if ops[0] {
        apply_ops(sbump(s, i), i, ops.subrange(1, ops.len() as int))
    } else {
        apply_ops(srelease(s, i), i, ops.subrange(1, ops.len() as int))
    }
}

/// How many of the steps are duplicates.
pub open spec fn nclones(ops: Seq<bool>) -> int
    decreases ops.len(),
{
    if ops.len() == 0 {
        0
    } else {
        (if ops[0] {
            1int
        } else {
            0int
        }) + nclones(ops.subrange(1, ops.len() as int))
    }
}

/// How many of the steps are releases.
pub open spec fn nreleases(ops: Seq<bool>) -> int {
    ops.len() - nclones(ops)
}

/// Whether a sequence of steps is safe from a starting count of `c`: every
/// release happens while the count is at least 2, so no step ever releases
/// a reference that was not duplicated first.
pub open spec fn safe_ops(c: int, ops: Seq<bool>) -> bool
    decreases ops.len(),
{
    if ops.len() == 0 {
        true
    } else if ops[0] {
        safe_ops(c + 1, ops.subrange(1, ops.len() as int))
    } else {
        c >= 2 && safe_ops(c - 1, ops.subrange(1, ops.len() as int))
    }
}

/// Law: under any interleaving of duplicate and release steps on one block
/// in which no release outruns the duplications — each release happens
/// while the count is at least 2 — the block stays live throughout (its
/// destructor never runs), the final count is the initial count plus the
/// duplicates minus the releases, and nothing else in the store changes.
/// In particular a balanced interleaving, one release per duplicate,
/// returns the store to exactly its initial state.
pub proof fn lemma_interleaved_ops<T>(s: Seq<Option<Block<T>>>, i: int, ops: Seq<bool>)
    requires
        slive(s, i),
        1 <= scount(s, i),
        scount(s, i) + nclones(ops) <= MAX_REFCOUNT,
        safe_ops(scount(s, i) as int, ops),
    ensures
        slive(apply_ops(s, i, ops), i),
        scount(apply_ops(s, i, ops), i) == scount(s, i) + nclones(ops) - nreleases(ops),
        apply_ops(s, i, ops) =~= supd(
            s,
            i,
            (scount(s, i) + nclones(ops) - nreleases(ops)) as usize,
        ),
        nclones(ops) == nreleases(ops) ==> apply_ops(s, i, ops) =~= s,
    decreases ops.len(),
{
    let c = scount(s, i) as int;
    if ops.len() == 0 {
        assert(supd(s, i, scount(s, i)) =~= s);
    } else {
        let rest = ops.subrange(1, ops.len() as int);
        assert(0 <= nclones(rest) <= rest.len()) by {
            lemma_nclones_bounds(rest);
        }
        if ops[0] {
            let s1 = sbump(s, i);
            assert(slive(s1, i));
            assert(scount(s1, i) == c + 1);
            lemma_interleaved_ops(s1, i, rest);
            assert(apply_ops(s, i, ops) == apply_ops(s1, i, rest));
            assert(supd(s1, i, (c + 1 + nclones(rest) - nreleases(rest)) as usize) =~= supd(
                s,
                i,
                (scount(s, i) + nclones(ops) - nreleases(ops)) as usize,
            ));
        } else {
            let s1 = srelease(s, i);
            assert(slive(s1, i));
            assert(scount(s1, i) == c - 1);
            lemma_interleaved_ops(s1, i, rest);
            assert(apply_ops(s, i, ops) == apply_ops(s1, i, rest));
            assert(supd(s1, i, (c - 1 + nclones(rest) - nreleases(rest)) as usize) =~= supd(
                s,
                i,
                (scount(s, i) + nclones(ops) - nreleases(ops)) as usize,
            ));
        }
        if nclones(ops) == nreleases(ops) {
            assert(supd(s, i, (scount(s, i) + nclones(ops) - nreleases(ops)) as usize) =~= s);
        }
    }
}

/// The number of duplicates among some steps is between 0 and their count.
pub proof fn lemma_nclones_bounds(ops: Seq<bool>)
    ensures
        0 <= nclones(ops) <= ops.len(),
    decreases ops.len(),
{
    if ops.len() > 0 {
        lemma_nclones_bounds(ops.subrange(1, ops.len() as int));
    }
}

/// The store of allocation blocks for one payload type.
///
/// `slots` holds one entry per block ever allocated, in allocation order;
/// a freed block leaves `None` behind. `next` is the bump allocator's
/// watermark: every block lies strictly below it. `pal` and `poff` are the
/// payload alignment and the offset from block start to payload shared by
/// every block of the store; `psize` is the payload size used for plain
/// construction, and the `h*`/`e*` fields hold the header-slice layout
/// parameters for header-plus-slice stores.
#[verifier::ext_equal]
pub struct Heap<T> {
    pub slots: Vec<Option<Block<T>>>,
    pub next: usize,
    pub pal: usize,
    pub poff: usize,
    pub psize: usize,
    pub hsize: usize,
    pub halign: usize,
    pub esize: usize,
    pub ealign: usize,
}

impl<T> View for Heap<T> {
    type V = Seq<Option<Block<T>>>;

    open spec fn view(&self) -> Seq<Option<Block<T>>> {
        self.slots@
    }
}

impl<T> Heap<T> {
    /// Number of slots ever allocated.
    pub open spec fn n(self) -> int {
        self@.len() as int
    }

    /// Whether slot `i` holds a live block.
    pub open spec fn live(self, i: int) -> bool {
        0 <= i < self.n() && self@[i] is Some
    }

    /// The block in slot `i`.
    pub open spec fn blk(self, i: int) -> Block<T> {
        self@[i]->Some_0
    }

    /// The reference count of the block in slot `i`.
    pub open spec fn cnt(self, i: int) -> usize {
        self.blk(i).inner.count
    }

    /// The payload of the block in slot `i`.
    pub open spec fn val(self, i: int) -> T {
        self.blk(i).inner.data
    }

    /// The base address of the block in slot `i`.
    pub open spec fn base(self, i: int) -> usize {
        self.blk(i).base
    }

    /// The alignment of whole blocks in this store.
    pub open spec fn balign(self) -> int {
        block_align_spec(self.pal as int)
    }

    /// The total size of the block in slot `i`.
    pub open spec fn bsize(self, i: int) -> int {
        block_size_spec(self.blk(i).psize as int, self.pal as int)
    }

    /// The payload address of the block in slot `i`: what a handle holds.
    pub open spec fn addr_of(self, i: int) -> int {
        self.base(i) + self.poff as int
    }

    /// The store's configuration: everything but the blocks and watermark.
    pub open spec fn cfg(self) -> (int, int, int, int, int, int, int) {
        (
            self.pal as int,
            self.poff as int,
            self.psize as int,
            self.hsize as int,
            self.halign as int,
            self.esize as int,
            self.ealign as int,
        )
    }

    /// The per-block well-formedness conditions of slot `i`: the count is at
    /// least 1, the block is naturally aligned, and it lies wholly between
    /// the start of the model address space and the watermark.
    pub open spec fn wf_at(self, i: int) -> bool {
        &&& 1 <= self.cnt(i)
        &&& self.base(i) as int % self.balign() == 0
        &&& WORD_SIZE <= self.base(i)
        &&& self.base(i) + self.bsize(i) <= self.next
        &&& self.poff + self.blk(i).psize <= self.bsize(i)
    }

    /// Well-formedness: the payload alignment is a real alignment, the
    /// payload offset matches the layout engine, every live block satisfies
    /// its per-block conditions, and blocks occupy disjoint address ranges
    /// in allocation order.
    pub open spec fn wf(self) -> bool {
        &&& is_align(self.pal as int)
        &&& self.poff as int == payload_offset_spec(self.pal as int)
        &&& WORD_SIZE <= self.next
        &&& self.next <= MAX_ALLOC
        &&& forall|i: int| #[trigger] self.live(i) ==> self.wf_at(i)
        &&& forall|i: int, j: int|
            #[trigger] self.live(i) && #[trigger] self.live(j) && i < j ==> self.base(i)
                + self.bsize(i) <= self.base(j)
    }

    /// Whether the store can hand out one more block of payload size `psize`.
    pub open spec fn can_alloc(self, psize: int) -> bool {
        &&& 0 <= psize
        &&& block_size_spec(psize, self.pal as int) <= MAX_ALLOC
        &&& round_up_spec(self.next as int, self.balign()) + block_size_spec(
            psize,
            self.pal as int,
        ) <= MAX_ALLOC
    }

    /// The slots after the payload of slot `i` is replaced by `v`.
    pub open spec fn with_value(self, i: int, v: T) -> Seq<Option<Block<T>>> {
        self@.update(
            i,
            Some(
                Block {
                    inner: ArcInner { count: self.cnt(i), data: v },
                    base: self.base(i),
                    psize: self.blk(i).psize,
                },
            ),
        )
    }

    /// Two live blocks of one well-formed store never share a base or a
    /// payload address.
    pub proof fn lemma_distinct_addrs(self, i: int, j: int)
        requires
            self.wf(),
            self.live(i),
            self.live(j),
            i != j,
        ensures
            self.base(i) != self.base(j),
            self.addr_of(i) != self.addr_of(j),
    {
        crate::layout::lemma_align_bounds(self.pal as int);
        crate::layout::lemma_round_up(WORD_SIZE as int, self.pal as int);
    }

    /// Every payload address is a nonzero multiple of 4 within the
    /// allocation bound: the refcount word in front of the payload forces
    /// word alignment on every block, so the low two bits of every handle
    /// are always zero and free to carry a tag.
    pub proof fn lemma_addr_aligned(self, i: int)
        requires
            self.wf(),
            self.live(i),
        ensures
            self.addr_of(i) % 4 == 0,
            0 < self.addr_of(i) <= MAX_ALLOC,
    {
        let pal = self.pal as int;
        let base = self.base(i) as int;
        let poff = self.poff as int;
        let ba = self.balign();
        crate::layout::lemma_align_bounds(pal);
        crate::layout::lemma_round_up(WORD_SIZE as int, pal);
        assert(self.wf_at(i));
        assert(ba % 4 == 0) by {
            if pal > WORD_SIZE {
                lemma_four_is_align();
                crate::layout::lemma_align_divides(4, pal);
            }
        }
        lemma_mod4_of_multiple(base, ba);
        assert(poff % 4 == 0) by {
            if pal <= WORD_SIZE {
                crate::layout::lemma_word_is_align();
                crate::layout::lemma_align_divides(pal, WORD_SIZE as int);
                crate::layout::lemma_round_up_multiple(WORD_SIZE as int, pal);
            } else {
                lemma_mod4_of_multiple(poff, pal);
            }
        }
        vstd::arithmetic::div_mod::lemma_add_mod_noop(base, poff, 4);
    }

    /// Well-formedness survives an in-place change of one block that keeps
    /// its base and payload size and leaves the count positive.
    proof fn lemma_wf_patch(pre: Heap<T>, post: Heap<T>, i: int)
        requires
            pre.wf(),
            pre.live(i),
            post.n() == pre.n(),
            post.pal == pre.pal,
            post.poff == pre.poff,
            post.next == pre.next,
            forall|j: int| 0 <= j < pre.n() && j != i ==> post@[j] == pre@[j],
            post.live(i),
            post.base(i) == pre.base(i),
            post.blk(i).psize == pre.blk(i).psize,
            1 <= post.cnt(i),
        ensures
            post.wf(),
    {
        assert forall|j: int| #[trigger] post.live(j) implies post.wf_at(j) by {
            if j != i {
                assert(post@[j] == pre@[j]);
                assert(pre.live(j));
            }
        }
        assert forall|j: int, k: int|
            #[trigger] post.live(j) && #[trigger] post.live(k) && j < k implies post.base(j)
                + post.bsize(j) <= post.base(k) by {
            if j != i {
                assert(post@[j] == pre@[j]);
            }
            if k != i {
                assert(post@[k] == pre@[k]);
            }
            assert(pre.live(j) && pre.live(k));
        }
    }

    /// The relation between two stores that differ only in the payload of
    /// slot `i`: same shape, same addresses, same counts.
    pub open spec fn value_patched(pre: Heap<T>, post: Heap<T>, i: int) -> bool {
        &&& post.n() == pre.n()
        &&& post.pal == pre.pal
        &&& post.poff == pre.poff
        &&& post.next == pre.next
        &&& forall|j: int| 0 <= j < pre.n() && j != i ==> post@[j] == pre@[j]
        &&& post.live(i)
        &&& post.base(i) == pre.base(i)
        &&& post.blk(i).psize == pre.blk(i).psize
        &&& post.cnt(i) == pre.cnt(i)
    }

    /// Well-formedness survives any change of slot `i`'s payload alone,
    /// whatever value is written: nothing in well-formedness reads payloads.
    proof fn lemma_wf_patch_all(pre: Heap<T>, i: int)
        requires
            pre.wf(),
            pre.live(i),
        ensures
            forall|post: Heap<T>| Heap::value_patched(pre, post, i) ==> #[trigger] post.wf(),
    {
        assert forall|post: Heap<T>| Heap::value_patched(pre, post, i) implies post.wf() by {
            Heap::lemma_wf_patch(pre, post, i);
        }
    }

    /// Well-formedness survives freeing one block.
    proof fn lemma_wf_free(pre: Heap<T>, post: Heap<T>, i: int)
        requires
            pre.wf(),
            pre.live(i),
            post.n() == pre.n(),
            post.pal == pre.pal,
            post.poff == pre.poff,
            post.next == pre.next,
            forall|j: int| 0 <= j < pre.n() && j != i ==> post@[j] == pre@[j],
            !post.live(i),
        ensures
            post.wf(),
    {
        assert forall|j: int| #[trigger] post.live(j) implies post.wf_at(j) by {
            assert(post@[j] == pre@[j]);
            assert(pre.live(j));
        }
        assert forall|j: int, k: int|
            #[trigger] post.live(j) && #[trigger] post.live(k) && j < k implies post.base(j)
                + post.bsize(j) <= post.base(k) by {
            assert(post@[j] == pre@[j]);
            assert(post@[k] == pre@[k]);
            assert(pre.live(j) && pre.live(k));
        }
    }

    /// Find the slot of the live block with payload address `addr`.
    ///
    /// Payload addresses are unique among live blocks, so the search finds
    /// the one slot a handle with this address denotes.
    pub(crate) fn locate(&self, addr: usize) -> (r: usize)
        requires
            self.wf(),
            exists|i: int| self.live(i) && self.addr_of(i) == addr,
        ensures
            self.live(r as int),
            self.addr_of(r as int) == addr,
            forall|i: int| self.live(i) && self.addr_of(i) == addr ==> i == r as int,
    {
        proof {
            lemma_align_bounds(self.pal as int);
            lemma_round_up(WORD_SIZE as int, self.pal as int);
        }
        let ghost w: int = choose|i: int| self.live(i) && self.addr_of(i) == addr;
        let b = addr - self.poff;
        let mut j: usize = 0;
        while j < self.slots.len()
            invariant
                self.wf(),
                self.live(w),
                self.addr_of(w) == addr,
                b as int == addr - self.poff,
                0 <= j <= self.n(),
                forall|k: int| 0 <= k < j ==> !(self.live(k) && self.base(k) == b),
            decreases self.n() - j,
        {
            match &self.slots[j] {
                Some(blk) => {
                    if blk.base == b {
                        proof {
                            assert forall|i: int|
                                self.live(i) && self.addr_of(i) == addr implies i == j as int by {
                                if i != j as int {
                                    self.lemma_distinct_addrs(i, j as int);
                                }
                            }
                        }
                        return j;
                    }
                },
                None => {},
            }
            j += 1;
        }
        proof {
            assert(!(self.live(w) && self.base(w) == b));
            assert(false);
        }
        vstd::pervasive::unreached()
    }

    /// Read the reference count of the block at `addr`.
    pub(crate) fn load_count(&self, addr: usize, Ghost(i): Ghost<int>) -> (r: usize)
        requires
            self.wf(),
            self.live(i),
            self.addr_of(i) == addr,
        ensures
            r == self.cnt(i),
    {
        proof {
            assert(self.live(i) && self.addr_of(i) == addr);
        }
        let j = self.locate(addr);
        proof {
            assert(j as int == i);
        }
        match &self.slots[j] {
            Some(blk) => blk.inner.count,
            None => vstd::pervasive::unreached(),
        }
    }

    /// Borrow the payload of the block at `addr`.
    pub(crate) fn read(&self, addr: usize, Ghost(i): Ghost<int>) -> (r: &T)
        requires
            self.wf(),
            self.live(i),
            self.addr_of(i) == addr,
        ensures
            *r == self.val(i),
    {
        proof {
            assert(self.live(i) && self.addr_of(i) == addr);
        }
        let j = self.locate(addr);
        proof {
            assert(j as int == i);
        }
        match &self.slots[j] {
            Some(blk) => &blk.inner.data,
            None => vstd::pervasive::unreached(),
        }
    }

    /// Overwrite the payload of the block at `addr`.
    pub(crate) fn write(&mut self, addr: usize, Ghost(i): Ghost<int>, v: T)
        requires
            old(self).wf(),
            old(self).live(i),
            old(self).addr_of(i) == addr,
        ensures
            final(self).wf(),
            final(self)@ == old(self).with_value(i, v),
            final(self).cfg() == old(self).cfg(),
            final(self).next == old(self).next,
    {
        proof {
            assert(self.live(i) && self.addr_of(i) == addr);
        }
        let j = self.locate(addr);
        proof {
            assert(j as int == i);
        }
        let slot = &mut self.slots[j];
        match slot {
            Some(blk) => {
                blk.inner.data = v;
            },
            None => {
                proof {
                    assert(false);
                }
            },
        }
        proof {
            assert(self@ =~= old(self).with_value(i, v));
            Heap::lemma_wf_patch(*old(self), *self, i);
        }
    }

    /// Increment the reference count of the block at `addr` by one: the
    /// refcount protocol's duplicate step (a relaxed fetch-and-add in the
    /// atomic protocol, safe because the caller already holds a reference).
    pub(crate) fn bump(&mut self, addr: usize, Ghost(i): Ghost<int>)
        requires
            old(self).wf(),
            old(self).live(i),
            old(self).addr_of(i) == addr,
            old(self).cnt(i) <= MAX_REFCOUNT,
        ensures
            final(self).wf(),
            final(self)@ == sbump(old(self)@, i),
            final(self).cfg() == old(self).cfg(),
            final(self).next == old(self).next,
    {
        proof {
            assert(self.live(i) && self.addr_of(i) == addr);
        }
        let j = self.locate(addr);
        proof {
            assert(j as int == i);
        }
        let slot = &mut self.slots[j];
        match slot {
            Some(blk) => {
                blk.inner.count = blk.inner.count + 1;
            },
            None => {
                proof {
                    assert(false);
                }
            },
        }
        proof {
            assert(self@ =~= sbump(old(self)@, i));
            Heap::lemma_wf_patch(*old(self), *self, i);
        }
    }

    /// Decrement the reference count of the block at `addr` by one,
    /// freeing the block if the count falls to zero: the refcount protocol's
    /// release step (release-ordered fetch-and-sub, then an acquire load
    /// before destruction in the atomic protocol). Returns whether the block
    /// was freed; freeing drops the payload, running its destructor.
    pub(crate) fn unbump(&mut self, addr: usize, Ghost(i): Ghost<int>) -> (freed: bool)
        requires
            old(self).wf(),
            old(self).live(i),
            old(self).addr_of(i) == addr,
        ensures
            final(self).wf(),
            freed <==> old(self).cnt(i) == 1,
            final(self)@ == srelease(old(self)@, i),
            final(self).cfg() == old(self).cfg(),
            final(self).next == old(self).next,
    {
        proof {
            assert(self.live(i) && self.addr_of(i) == addr);
        }
        let j = self.locate(addr);
        proof {
            assert(j as int == i);
        }
        let slot = &mut self.slots[j];
        let c = match slot {
            Some(blk) => blk.inner.count,
            None => vstd::pervasive::unreached(),
        };
        if c == 1 {
            *slot = None;
            proof {
                assert(self@ =~= srelease(old(self)@, i));
                Heap::lemma_wf_free(*old(self), *self, i);
            }
            true
        } else {
            match slot {
                Some(blk) => {
                    blk.inner.count = blk.inner.count - 1;
                },
                None => {
                    proof {
                        assert(false);
                    }
                },
            }
            proof {
                assert(self@ =~= srelease(old(self)@, i));
                Heap::lemma_wf_patch(*old(self), *self, i);
            }
            false
        }
    }

    /// Allocate a fresh block for `data` with payload size `psize`:
    /// the layout engine sizes the block, the bump allocator places it at
    /// the next aligned base, and the count starts at 1 (the constructing
    /// handle is the first reference). Returns the payload address and the
    /// new slot.
    pub(crate) fn alloc_block(&mut self, data: T, psize: usize) -> (r: (usize, Ghost<int>))
        requires
            old(self).wf(),
            old(self).can_alloc(psize as int),
        ensures
            final(self).wf(),
            r.1@ == old(self).n(),
            final(self).live(r.1@),
            final(self)@ == old(self)@.push(
                Some(
                    Block {
                        inner: ArcInner { count: 1, data },
                        base: final(self).base(r.1@),
                        psize,
                    },
                ),
            ),
            final(self).addr_of(r.1@) == r.0,
            final(self).cnt(r.1@) == 1,
            final(self).val(r.1@) == data,
            final(self).blk(r.1@).psize == psize,
            final(self).cfg() == old(self).cfg(),
            forall|i: int| old(self).live(i) ==> old(self).addr_of(i) < r.0,
    {
        proof {
            lemma_align_bounds(self.pal as int);
            lemma_round_up(self.next as int, self.balign());
            lemma_round_up(WORD_SIZE as int, self.pal as int);
        }
        let (bl, off) = block_layout(psize, self.pal);
        let base = round_up(self.next, bl.align);
        let addr = base + off;
        let ghost idx = self.n();
        self.slots.push(
            Some(Block { inner: ArcInner { count: 1, data }, base, psize }),
        );
        self.next = base + bl.size;
        proof {
            assert forall|i: int| self.live(i) implies {
                &&& 1 <= #[trigger] self.cnt(i)
                &&& self.base(i) as int % self.balign() == 0
                &&& WORD_SIZE <= self.base(i)
                &&& self.base(i) + self.bsize(i) <= self.next
                &&& self.poff + self.blk(i).psize <= self.bsize(i)
            } by {
                if i < idx {
                    assert(old(self).live(i));
                }
            }
            assert forall|i: int, j: int|
                self.live(i) && self.live(j) && i < j implies #[trigger] self.base(i) + self.bsize(
                i,
            ) <= #[trigger] self.base(j) by {
                if j < idx {
                    assert(old(self).live(i) && old(self).live(j));
                } else {
                    assert(old(self).live(i));
                }
            }
            assert forall|i: int| old(self).live(i) implies old(self).addr_of(i) < addr by {
                assert(old(self).base(i) + old(self).bsize(i) <= old(self).next);
            }
        }
        (addr, Ghost(idx))
    }

    /// Borrow the payload of the block at `addr` mutably. Only the payload
    /// can change through the reference: the count, the addresses and every
    /// other block stay as they were, whatever is written.
    pub(crate) fn borrow_mut<'a>(&'a mut self, addr: usize, Ghost(i): Ghost<int>) -> (r: &'a mut T)
        requires
            old(self).wf(),
            old(self).live(i),
            old(self).addr_of(i) == addr,
        ensures
            *r == old(self).val(i),
            final(self)@ == old(self).with_value(i, *final(r)),
            final(self).wf(),
            final(self).cfg() == old(self).cfg(),
            final(self).next == old(self).next,
    {
        proof {
            assert(self.live(i) && self.addr_of(i) == addr);
            Heap::lemma_wf_patch_all(*self, i);
        }
        let j = self.locate(addr);
        proof {
            assert(j as int == i);
        }
        let slot = &mut self.slots[j];
        match slot {
            Some(blk) => &mut blk.inner.data,
            None => vstd::pervasive::unreached(),
        }
    }

    /// Whether some live block's payload sits at `addr`: true while at
    /// least one reference keeps such a block alive, false once it has been
    /// freed (or never existed). This is how the outside world observes
    /// destruction.
    pub fn contains_addr(&self, addr: usize) -> (r: bool)
        requires
            self.wf(),
        ensures
            r <==> exists|i: int| self.live(i) && self.addr_of(i) == addr,
    {
        proof {
            lemma_align_bounds(self.pal as int);
            lemma_round_up(WORD_SIZE as int, self.pal as int);
        }
        if addr < self.poff {
            proof {
                assert forall|i: int| self.live(i) implies self.addr_of(i) != addr by {
                    assert(self.wf_at(i));
                }
            }
            return false;
        }
        let b = addr - self.poff;
        let mut j: usize = 0;
        while j < self.slots.len()
            invariant
                self.wf(),
                b as int == addr - self.poff,
                0 <= j <= self.n(),
                forall|k: int| 0 <= k < j ==> !(self.live(k) && self.base(k) == b),
            decreases self.n() - j,
        {
            match &self.slots[j] {
                Some(blk) => {
                    if blk.base == b {
                        proof {
                            assert(self.live(j as int) && self.addr_of(j as int) == addr);
                        }
                        return true;
                    }
                },
                None => {},
            }
            j += 1;
        }
        proof {
            assert forall|i: int| self.live(i) implies self.addr_of(i) != addr by {
                assert(!(self.live(i) && self.base(i) == b));
            }
        }
        false
    }

    /// A fresh, empty store whose plain blocks hold payloads of `size` bytes
    /// aligned to `align`.
    pub fn new(size: usize, align: usize) -> (h: Heap<T>)
        requires
            is_align(align as int),
        ensures
            h.wf(),
            h.n() == 0,
            h.next == WORD_SIZE,
            h.pal == align,
            h.psize == size,
    {
        proof {
            lemma_align_bounds(align as int);
            lemma_round_up(WORD_SIZE as int, align as int);
        }
        let poff = round_up(WORD_SIZE, align);
        Heap {
            slots: Vec::new(),
            next: WORD_SIZE,
            pal: align,
            poff,
            psize: size,
            hsize: 0,
            halign: 1,
            esize: 0,
            ealign: 1,
        }
    }

    /// A fresh, empty store for header-plus-slice payloads: a header of
    /// `hsize` bytes aligned to `halign`, the length word, and trailing
    /// elements of `esize` bytes aligned to `ealign`.
    pub fn new_header_slice(hsize: usize, halign: usize, esize: usize, ealign: usize) -> (h: Heap<
        T,
    >)
        requires
            is_align(halign as int),
            is_align(ealign as int),
        ensures
            h.wf(),
            h.n() == 0,
            h.next == WORD_SIZE,
            h.pal as int == crate::layout::header_slice_align_spec(halign as int, ealign as int),
            h.hsize == hsize,
            h.halign == halign,
            h.esize == esize,
            h.ealign == ealign,
    {
        proof {
            lemma_align_bounds(halign as int);
            lemma_align_bounds(ealign as int);
            crate::layout::lemma_word_is_align();
        }
        let align_h = if halign >= WORD_SIZE {
            halign
        } else {
            WORD_SIZE
        };
        let pal = if align_h >= ealign {
            align_h
        } else {
            ealign
        };
        proof {
            lemma_round_up(WORD_SIZE as int, pal as int);
        }
        let poff = round_up(WORD_SIZE, pal);
        Heap {
            slots: Vec::new(),
            next: WORD_SIZE,
            pal,
            poff,
            psize: 0,
            hsize,
            halign,
            esize,
            ealign,
        }
    }
}

} // verus!
