//! The tagged pointer union.
//!
//! Every handle kind of this library collapses to one word — an address
//! whose low two bits are always zero, because every allocation block is at
//! least word-aligned. Those two spare bits carry a tag, so one word can
//! hold any of up to four handle kinds: `pack` stores `address | tag`, and
//! `unpack` gives the address back only when the low bits equal the tag
//! asked for. Packing and unpacking never touch a reference count.

use vstd::prelude::*;

use crate::arc::Arc;
use crate::borrow::ArcBorrow;
use crate::heap::Heap;
use crate::layout::MAX_ALLOC;
use crate::thin_arc::{HeaderSliceWithLength, ThinArc};
use crate::unique::ArcBox;

verus! {

/// A word carrying a 4-aligned address and a 2-bit tag.
pub open spec fn pack_spec(addr: int, tag: int) -> int {
    addr + tag
}

/// The address recovered from a word whose low bits equal `tag`; nothing
/// otherwise.
pub open spec fn unpack_spec(word: int, tag: int) -> Option<int> {
    if word % 4 == tag {
        Some(word - tag)
    } else {
        None
    }
}

/// Law: unpacking a packed word with the tag it was packed under yields
/// exactly the address packed; unpacking it with any other tag yields
/// nothing.
pub proof fn lemma_pack_unpack(addr: int, tag: int, other: int)
    requires
        addr % 4 == 0,
        0 <= tag < 4,
        0 <= other < 4,
    ensures
        unpack_spec(pack_spec(addr, tag), tag) == Some(addr),
        other != tag ==> unpack_spec(pack_spec(addr, tag), other) is None,
{
    vstd::arithmetic::div_mod::lemma_add_mod_noop(addr, tag, 4);
    vstd::arithmetic::div_mod::lemma_small_mod(tag as nat, 4);
}

/// Pack a 4-aligned address and a 2-bit tag into one word.
pub fn pack(addr: usize, tag: usize) -> (r: usize)
    requires
        addr % 4 == 0,
        tag < 4,
        addr <= MAX_ALLOC,
    ensures
        r as int == pack_spec(addr as int, tag as int),
        unpack_spec(r as int, tag as int) == Some(addr as int),
        r as int % 4 == tag,
{
    proof {
        lemma_pack_unpack(addr as int, tag as int, tag as int);
    }
    addr + tag
}

/// Recover the address from a packed word, if its tag is the one asked for.
pub fn unpack(word: usize, tag: usize) -> (r: Option<usize>)
    requires
        tag < 4,
    ensures
        match r {
            Some(a) => unpack_spec(word as int, tag as int) == Some(a as int),
            None => unpack_spec(word as int, tag as int) is None,
        },
{
    if word % 4 == tag {
        proof {
            vstd::arithmetic::div_mod::lemma_mod_bound(word as int, 4);
        }
        Some(word - tag)
    } else {
        None
    }
}

/// A handle kind that may enter a pointer union: it collapses to a single
/// word, and rebuilds from that word. The word is an address of an
/// allocation block, so it is 4-aligned whenever the handle is valid — the
/// alignment every candidate kind must guarantee.
pub trait UnionAlign: Sized {
    /// The single word a value of this kind collapses to.
    spec fn word_spec(&self) -> usize;

    /// Collapse the value to its word, parking the value itself in ghost
    /// code so that unpacking can be shown to return it unchanged.
    fn into_word(self) -> (r: (usize, Ghost<Self>))
        ensures
            r.0 == r.1@.word_spec(),
            r.1@ == self,
    ;

    /// Rebuild the value from its word and the parked ghost copy.
    fn from_word(word: usize, g: Ghost<Self>) -> (r: Self)
        requires
            g@.word_spec() == word,
        ensures
            r == g@,
    ;

}

impl<T> UnionAlign for Arc<T> {
    open spec fn word_spec(&self) -> usize {
        self.addr
    }

    fn into_word(self) -> (r: (usize, Ghost<Self>)) {
        let w = self.addr;
        (w, Ghost(self))
    }

    fn from_word(word: usize, g: Ghost<Self>) -> (r: Self) {
        Arc { addr: word, index: Ghost(g@.index@), phantom: core::marker::PhantomData }
    }
}

impl<T> UnionAlign for ArcBox<T> {
    open spec fn word_spec(&self) -> usize {
        self.0.addr
    }

    fn into_word(self) -> (r: (usize, Ghost<Self>)) {
        let w = self.0.addr;
        (w, Ghost(self))
    }

    fn from_word(word: usize, g: Ghost<Self>) -> (r: Self) {
        ArcBox(
            Arc { addr: word, index: Ghost(g@.0.index@), phantom: core::marker::PhantomData },
        )
    }
}

impl<T> UnionAlign for ArcBorrow<T> {
    open spec fn word_spec(&self) -> usize {
        self.addr
    }

    fn into_word(self) -> (r: (usize, Ghost<Self>)) {
        let w = self.addr;
        (w, Ghost(self))
    }

    fn from_word(word: usize, g: Ghost<Self>) -> (r: Self) {
        ArcBorrow { addr: word, index: Ghost(g@.index@), phantom: core::marker::PhantomData }
    }
}

impl<H, T> UnionAlign for ThinArc<H, T> {
    open spec fn word_spec(&self) -> usize {
        self.addr
    }

    fn into_word(self) -> (r: (usize, Ghost<Self>)) {
        let w = self.addr;
        (w, Ghost(self))
    }

    fn from_word(word: usize, g: Ghost<Self>) -> (r: Self) {
        ThinArc { addr: word, index: Ghost(g@.index@), phantom: core::marker::PhantomData }
    }
}

/// One word holding either of two handle kinds, told apart by the tag in
/// the low bits. The packed value itself is parked in ghost code.
pub struct Union2<A, B> {
    pub word: usize,
    pub parked_a: Ghost<Option<A>>,
    pub parked_b: Ghost<Option<B>>,
}

impl<A: UnionAlign, B: UnionAlign> Union2<A, B> {
    /// The tag in the word's low bits.
    pub open spec fn tag(self) -> int {
        self.word as int % 4
    }

    /// Whether the union holds the first kind.
    pub open spec fn is_a_spec(self) -> bool {
        self.tag() == 0
    }

    /// Whether the union holds the second kind.
    pub open spec fn is_b_spec(self) -> bool {
        self.tag() == 1
    }

    /// The parked value of the first kind.
    pub open spec fn value_a(self) -> A {
        self.parked_a@->Some_0
    }

    /// The parked value of the second kind.
    pub open spec fn value_b(self) -> B {
        self.parked_b@->Some_0
    }

    /// Well-formedness: the tag names the kind that is parked, and the word
    /// is that value's word plus the tag.
    pub open spec fn wf(self) -> bool {
        &&& self.tag() == 0 || self.tag() == 1
        &&& self.is_a_spec() ==> self.parked_a@ is Some && self.word == self.value_a().word_spec()
        &&& self.is_b_spec() ==> self.parked_b@ is Some && self.word as int == pack_spec(
            self.value_b().word_spec() as int,
            1,
        )
    }

    /// Pack a value of the first kind, under tag 0.
    pub fn new_a(a: A) -> (r: Union2<A, B>)
        requires
            a.word_spec() % 4 == 0,
            a.word_spec() <= MAX_ALLOC,
        ensures
            r.wf(),
            r.is_a_spec(),
            r.value_a() == a,
    {
        let (w, g) = a.into_word();
        let word = pack(w, 0);
        Union2 { word, parked_a: Ghost(Some(g@)), parked_b: Ghost(None) }
    }

    /// Pack a value of the second kind, under tag 1.
    pub fn new_b(b: B) -> (r: Union2<A, B>)
        requires
            b.word_spec() % 4 == 0,
            b.word_spec() <= MAX_ALLOC,
        ensures
            r.wf(),
            r.is_b_spec(),
            r.value_b() == b,
    {
        let (w, g) = b.into_word();
        let word = pack(w, 1);
        Union2 { word, parked_a: Ghost(None), parked_b: Ghost(Some(g@)) }
    }

    /// Whether the union holds the first kind: does the tag read 0?
    pub fn is_a(&self) -> (r: bool)
        ensures
            r <==> self.is_a_spec(),
    {
        self.word % 4 == 0
    }

    /// Whether the union holds the second kind: does the tag read 1?
    pub fn is_b(&self) -> (r: bool)
        ensures
            r <==> self.is_b_spec(),
    {
        self.word % 4 == 1
    }

    /// Unpack the first kind: exactly when the tag is 0, the value packed
    /// comes back unchanged; otherwise the union comes back unchanged.
    pub fn into_a(self) -> (r: Result<A, Union2<A, B>>)
        requires
            self.wf(),
        ensures
            self.is_a_spec() ==> r is Ok && r->Ok_0 == self.value_a(),
            !self.is_a_spec() ==> r is Err && r->Err_0 == self,
    {
        if self.word % 4 == 0 {
            let g: Ghost<A> = Ghost(self.value_a());
            Ok(A::from_word(self.word, g))
        } else {
            Err(self)
        }
    }

    /// Unpack the second kind: exactly when the tag is 1, the value packed
    /// comes back unchanged; otherwise the union comes back unchanged.
    pub fn into_b(self) -> (r: Result<B, Union2<A, B>>)
        requires
            self.wf(),
        ensures
            self.is_b_spec() ==> r is Ok && r->Ok_0 == self.value_b(),
            !self.is_b_spec() ==> r is Err && r->Err_0 == self,
    {
        if self.word % 4 == 1 {
            let g: Ghost<B> = Ghost(self.value_b());
            proof {
                vstd::arithmetic::div_mod::lemma_mod_bound(self.word as int, 4);
            }
            Ok(B::from_word(self.word - 1, g))
        } else {
            Err(self)
        }
    }
}

/// One word holding any of four handle kinds, told apart by the 2-bit tag.
pub struct Union4<A, B, C, D> {
    pub word: usize,
    pub parked_a: Ghost<Option<A>>,
    pub parked_b: Ghost<Option<B>>,
    pub parked_c: Ghost<Option<C>>,
    pub parked_d: Ghost<Option<D>>,
}

impl<A: UnionAlign, B: UnionAlign, C: UnionAlign, D: UnionAlign> Union4<A, B, C, D> {
    /// The tag in the word's low bits.
    pub open spec fn tag(self) -> int {
        self.word as int % 4
    }

    /// The parked value of the first kind.
    pub open spec fn value_a(self) -> A {
        self.parked_a@->Some_0
    }

    /// The parked value of the second kind.
    pub open spec fn value_b(self) -> B {
        self.parked_b@->Some_0
    }

    /// The parked value of the third kind.
    pub open spec fn value_c(self) -> C {
        self.parked_c@->Some_0
    }

    /// The parked value of the fourth kind.
    pub open spec fn value_d(self) -> D {
        self.parked_d@->Some_0
    }

    /// Well-formedness: the tag names the kind that is parked, and the word
    /// is that value's word plus the tag.
    pub open spec fn wf(self) -> bool {
        &&& self.tag() == 0 ==> self.parked_a@ is Some && self.word == self.value_a().word_spec()
        &&& self.tag() == 1 ==> self.parked_b@ is Some && self.word as int == pack_spec(
            self.value_b().word_spec() as int,
            1,
        )
        &&& self.tag() == 2 ==> self.parked_c@ is Some && self.word as int == pack_spec(
            self.value_c().word_spec() as int,
            2,
        )
        &&& self.tag() == 3 ==> self.parked_d@ is Some && self.word as int == pack_spec(
            self.value_d().word_spec() as int,
            3,
        )
    }

    /// Pack a value of the first kind, under tag 0.
    pub fn new_a(a: A) -> (r: Union4<A, B, C, D>)
        requires
            a.word_spec() % 4 == 0,
            a.word_spec() <= MAX_ALLOC,
        ensures
            r.wf(),
            r.tag() == 0,
            r.value_a() == a,
    {
        let (w, g) = a.into_word();
        let word = pack(w, 0);
        Union4 {
            word,
            parked_a: Ghost(Some(g@)),
            parked_b: Ghost(None),
            parked_c: Ghost(None),
            parked_d: Ghost(None),
        }
    }

    /// Pack a value of the second kind, under tag 1.
    pub fn new_b(b: B) -> (r: Union4<A, B, C, D>)
        requires
            b.word_spec() % 4 == 0,
            b.word_spec() <= MAX_ALLOC,
        ensures
            r.wf(),
            r.tag() == 1,
            r.value_b() == b,
    {
        let (w, g) = b.into_word();
        let word = pack(w, 1);
        Union4 {
            word,
            parked_a: Ghost(None),
            parked_b: Ghost(Some(g@)),
            parked_c: Ghost(None),
            parked_d: Ghost(None),
        }
    }

    /// Pack a value of the third kind, under tag 2.
    pub fn new_c(c: C) -> (r: Union4<A, B, C, D>)
        requires
            c.word_spec() % 4 == 0,
            c.word_spec() <= MAX_ALLOC,
        ensures
            r.wf(),
            r.tag() == 2,
            r.value_c() == c,
    {
        let (w, g) = c.into_word();
        let word = pack(w, 2);
        Union4 {
            word,
            parked_a: Ghost(None),
            parked_b: Ghost(None),
            parked_c: Ghost(Some(g@)),
            parked_d: Ghost(None),
        }
    }

    /// Pack a value of the fourth kind, under tag 3.
    pub fn new_d(d: D) -> (r: Union4<A, B, C, D>)
        requires
            d.word_spec() % 4 == 0,
            d.word_spec() <= MAX_ALLOC,
        ensures
            r.wf(),
            r.tag() == 3,
            r.value_d() == d,
    {
        let (w, g) = d.into_word();
        let word = pack(w, 3);
        Union4 {
            word,
            parked_a: Ghost(None),
            parked_b: Ghost(None),
            parked_c: Ghost(None),
            parked_d: Ghost(Some(g@)),
        }
    }

    /// Whether the union holds the first kind: does the tag read 0?
    pub fn is_a(&self) -> (r: bool)
        ensures
            r <==> self.tag() == 0,
    {
        self.word % 4 == 0
    }

    /// Whether the union holds the second kind: does the tag read 1?
    pub fn is_b(&self) -> (r: bool)
        ensures
            r <==> self.tag() == 1,
    {
        self.word % 4 == 1
    }

    /// Whether the union holds the third kind: does the tag read 2?
    pub fn is_c(&self) -> (r: bool)
        ensures
            r <==> self.tag() == 2,
    {
        self.word % 4 == 2
    }

    /// Whether the union holds the fourth kind: does the tag read 3?
    pub fn is_d(&self) -> (r: bool)
        ensures
            r <==> self.tag() == 3,
    {
        self.word % 4 == 3
    }

    /// Unpack the first kind: exactly when the tag is 0, the value packed
    /// comes back unchanged.
    pub fn into_a(self) -> (r: Result<A, Union4<A, B, C, D>>)
        requires
            self.wf(),
        ensures
            self.tag() == 0 ==> r is Ok && r->Ok_0 == self.value_a(),
            self.tag() != 0 ==> r is Err && r->Err_0 == self,
    {
        if self.word % 4 == 0 {
            let g: Ghost<A> = Ghost(self.value_a());
            Ok(A::from_word(self.word, g))
        } else {
            Err(self)
        }
    }

    /// Unpack the second kind: exactly when the tag is 1, the value packed
    /// comes back unchanged.
    pub fn into_b(self) -> (r: Result<B, Union4<A, B, C, D>>)
        requires
            self.wf(),
        ensures
            self.tag() == 1 ==> r is Ok && r->Ok_0 == self.value_b(),
            self.tag() != 1 ==> r is Err && r->Err_0 == self,
    {
        if self.word % 4 == 1 {
            let g: Ghost<B> = Ghost(self.value_b());
            proof {
                vstd::arithmetic::div_mod::lemma_mod_bound(self.word as int, 4);
            }
            Ok(B::from_word(self.word - 1, g))
        } else {
            Err(self)
        }
    }

    /// Unpack the third kind: exactly when the tag is 2, the value packed
    /// comes back unchanged.
    pub fn into_c(self) -> (r: Result<C, Union4<A, B, C, D>>)
        requires
            self.wf(),
        ensures
            self.tag() == 2 ==> r is Ok && r->Ok_0 == self.value_c(),
            self.tag() != 2 ==> r is Err && r->Err_0 == self,
    {
        if self.word % 4 == 2 {
            let g: Ghost<C> = Ghost(self.value_c());
            proof {
                vstd::arithmetic::div_mod::lemma_mod_bound(self.word as int, 4);
            }
            Ok(C::from_word(self.word - 2, g))
        } else {
            Err(self)
        }
    }

    /// Unpack the fourth kind: exactly when the tag is 3, the value packed
    /// comes back unchanged.
    pub fn into_d(self) -> (r: Result<D, Union4<A, B, C, D>>)
        requires
            self.wf(),
        ensures
            self.tag() == 3 ==> r is Ok && r->Ok_0 == self.value_d(),
            self.tag() != 3 ==> r is Err && r->Err_0 == self,
    {
        if self.word % 4 == 3 {
            let g: Ghost<D> = Ghost(self.value_d());
            proof {
                vstd::arithmetic::div_mod::lemma_mod_bound(self.word as int, 4);
            }
            Ok(D::from_word(self.word - 3, g))
        } else {
            Err(self)
        }
    }
}

} // verus!
