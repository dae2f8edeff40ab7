//! Allocation layout engine.
//!
//! Computes, for a payload of a given size and alignment, the combined layout
//! of an allocation block `[refcount word][payload]`: the block's total size
//! and alignment, and the byte offset from the block start to the payload
//! start. For header-plus-slice payloads it also places the trailing element
//! sequence after the length-bearing header. All arithmetic is exact and
//! proven free of overflow; callers must show that the computed sizes stay
//! within [`MAX_ALLOC`], mirroring the abort-on-overflow policy of the
//! original size computations.

use vstd::prelude::*;
use vstd::arithmetic::power2::pow2;

verus! {

/// Size in bytes of the refcount word that starts every allocation block.
pub const WORD_SIZE: usize = 8;

/// The largest admissible block size: the maximum representable signed
/// offset for the platform's pointer width.
pub const MAX_ALLOC: usize = usize::MAX / 2;

/// A block layout: total size in bytes and required alignment.
#[derive(Clone, Copy, PartialEq, Eq, Structural)]
pub struct BlockLayout {
    pub size: usize,
    pub align: usize,
}

/// An alignment is a power of two, no larger than the largest alignment a
/// type may request.
pub open spec fn is_align(a: int) -> bool {
    exists|k: nat| k <= 29 && a == pow2(k)
}

/// `x` rounded up to the next multiple of `a`.
pub open spec fn round_up_spec(x: int, a: int) -> int
    recommends
        a >= 1,
        x >= 0,
{
    ((x + a - 1) / a) * a
}

/// The larger of two values.
pub open spec fn max_spec(a: int, b: int) -> int {
    if a >= b {
        a
    } else {
        b
    }
}

/// Alignment of a whole block whose payload alignment is `pal`:
/// the refcount word and the payload must both be naturally aligned.
pub open spec fn block_align_spec(pal: int) -> int {
    max_spec(WORD_SIZE as int, pal)
}

/// Offset from block start to payload start: the first multiple of the
/// payload alignment at or after the refcount word.
pub open spec fn payload_offset_spec(pal: int) -> int {
    round_up_spec(WORD_SIZE as int, pal)
}

/// Total size of a block holding a payload of `psize` bytes aligned to `pal`,
/// padded to the block alignment.
pub open spec fn block_size_spec(psize: int, pal: int) -> int {
    round_up_spec(payload_offset_spec(pal) + psize, block_align_spec(pal))
}

pub proof fn lemma_round_up(x: int, a: int)
    requires
        a >= 1,
        x >= 0,
    ensures
        x <= round_up_spec(x, a) < x + a,
        round_up_spec(x, a) % a == 0,
{
    let q = (x + a - 1) / a;
    let r = (x + a - 1) % a;
    vstd::arithmetic::div_mod::lemma_fundamental_div_mod(x + a - 1, a);
    vstd::arithmetic::div_mod::lemma_mod_bound(x + a - 1, a);
    assert(q * a == (x + a - 1) - r);
    vstd::arithmetic::div_mod::lemma_mod_multiples_basic(q, a);
}

/// Rounding up is exact on the multiples of `a`.
pub proof fn lemma_round_up_multiple(x: int, a: int)
    requires
        a >= 1,
        x >= 0,
        x % a == 0,
    ensures
        round_up_spec(x, a) == x,
{
    lemma_round_up(x, a);
    let r = round_up_spec(x, a);
    assert(r % a == 0 && x % a == 0 && x <= r < x + a ==> r == x) by (nonlinear_arith);
}

/// A power of two divides every larger power of two.
pub proof fn lemma_align_divides(a: int, b: int)
    requires
        is_align(a),
        is_align(b),
        a <= b,
    ensures
        b % a == 0,
{
    let ka = choose|k: nat| k <= 29 && a == pow2(k);
    let kb = choose|k: nat| k <= 29 && b == pow2(k);
    vstd::arithmetic::power2::lemma_pow2_pos(ka);
    vstd::arithmetic::power2::lemma_pow2_pos(kb);
    if kb < ka {
        vstd::arithmetic::power2::lemma_pow2_strictly_increases(kb, ka);
    }
    vstd::arithmetic::power2::lemma_pow2_adds(ka, (kb - ka) as nat);
    let m = pow2((kb - ka) as nat) as int;
    vstd::arithmetic::power2::lemma_pow2_pos((kb - ka) as nat);
    assert(b == a * m);
    vstd::arithmetic::div_mod::lemma_mod_multiples_basic(m, a);
    assert(a * m == m * a) by (nonlinear_arith);
}

/// Every alignment lies between 1 and 2^29.
pub proof fn lemma_align_bounds(a: int)
    requires
        is_align(a),
    ensures
        1 <= a <= 0x2000_0000,
{
    let k = choose|j: nat| j <= 29 && a == pow2(j);
    vstd::arithmetic::power2::lemma_pow2_pos(k);
    if k < 29 {
        vstd::arithmetic::power2::lemma_pow2_strictly_increases(k, 29);
    }
    vstd::arithmetic::power2::lemma2_to64();
}

/// The refcount word's own size is a valid alignment.
pub proof fn lemma_word_is_align()
    ensures
        is_align(WORD_SIZE as int),
{
    vstd::arithmetic::power2::lemma2_to64();
    assert(3nat <= 29 && WORD_SIZE as int == pow2(3));
}

/// `x` rounded up to the next multiple of `align`.
pub fn round_up(x: usize, align: usize) -> (r: usize)
    requires
        align >= 1,
        x + align <= usize::MAX,
    ensures
        r == round_up_spec(x as int, align as int),
        x <= r < x + align,
        r % align == 0,
{
    proof {
        lemma_round_up(x as int, align as int);
        let s = x + align - 1;
        vstd::arithmetic::div_mod::lemma_fundamental_div_mod(s, align as int);
        vstd::arithmetic::div_mod::lemma_mod_bound(s, align as int);
    }
    ((x + align - 1) / align) * align
}

/// The combined layout of a block for a payload of size `size` and alignment
/// `align`, together with the offset from block start to payload start.
///
/// The refcount word is placed first, naturally aligned at offset 0; the
/// payload begins at the next address satisfying its own alignment, and the
/// block is padded to the alignment of the whole.
pub fn block_layout(size: usize, align: usize) -> (r: (BlockLayout, usize))
    requires
        is_align(align as int),
        block_size_spec(size as int, align as int) <= MAX_ALLOC,
    ensures
        r.0.size == block_size_spec(size as int, align as int),
        r.0.align == block_align_spec(align as int),
        r.1 == payload_offset_spec(align as int),
        WORD_SIZE <= r.1 < WORD_SIZE + align,
        r.1 % align == 0,
        r.1 + size <= r.0.size,
        r.0.align >= WORD_SIZE,
        is_align(r.0.align as int),
{
    proof {
        lemma_align_bounds(align as int);
        lemma_word_is_align();
        lemma_round_up(WORD_SIZE as int, align as int);
        lemma_round_up(payload_offset_spec(align as int) + size, block_align_spec(align as int));
        assert(payload_offset_spec(align as int) + size <= block_size_spec(
            size as int,
            align as int,
        ));
    }
    let offset = round_up(WORD_SIZE, align);
    let block_align = if align >= WORD_SIZE {
        align
    } else {
        WORD_SIZE
    };
    let total = round_up(offset + size, block_align);
    (BlockLayout { size: total, align: block_align }, offset)
}

/// Size of a length-bearing header: the header itself, padded so the length
/// word that follows it is naturally aligned, plus the length word.
pub open spec fn header_with_length_size_spec(hsize: int) -> int {
    round_up_spec(hsize, WORD_SIZE as int) + WORD_SIZE
}

/// Offset from payload start to the first element of the trailing sequence.
pub open spec fn slice_offset_spec(hsize: int, ealign: int) -> int {
    round_up_spec(header_with_length_size_spec(hsize), ealign)
}

/// Size of a header-plus-slice payload with `n` trailing elements.
pub open spec fn header_slice_size_spec(hsize: int, esize: int, ealign: int, n: int) -> int {
    slice_offset_spec(hsize, ealign) + n * esize
}

/// Alignment of a header-plus-slice payload: header, length word and elements
/// must all be naturally aligned.
pub open spec fn header_slice_align_spec(halign: int, ealign: int) -> int {
    max_spec(max_spec(halign, WORD_SIZE as int), ealign)
}

/// The size and alignment of a header-plus-slice payload: a header of
/// `hsize` bytes aligned to `halign`, the length word, and `n` trailing
/// elements of `esize` bytes each, aligned to `ealign`.
pub fn header_slice_layout(hsize: usize, halign: usize, esize: usize, ealign: usize, n: usize) -> (r:
    (usize, usize))
    requires
        is_align(halign as int),
        is_align(ealign as int),
        header_slice_size_spec(hsize as int, esize as int, ealign as int, n as int) <= MAX_ALLOC,
    ensures
        r.0 == header_slice_size_spec(hsize as int, esize as int, ealign as int, n as int),
        r.1 == header_slice_align_spec(halign as int, ealign as int),
        is_align(r.1 as int),
{
    proof {
        lemma_align_bounds(halign as int);
        lemma_align_bounds(ealign as int);
        lemma_word_is_align();
        lemma_round_up(hsize as int, WORD_SIZE as int);
        lemma_round_up(header_with_length_size_spec(hsize as int), ealign as int);
        assert(n * esize >= 0) by (nonlinear_arith);
        assert(header_with_length_size_spec(hsize as int) <= slice_offset_spec(
            hsize as int,
            ealign as int,
        ));
    }
    let hwl = round_up(hsize, WORD_SIZE) + WORD_SIZE;
    let slice_off = round_up(hwl, ealign);
    let size = slice_off + n * esize;
    let align_h = if halign >= WORD_SIZE {
        halign
    } else {
        WORD_SIZE
    };
    let align = if align_h >= ealign {
        align_h
    } else {
        ealign
    };
    (size, align)
}

} // verus!
