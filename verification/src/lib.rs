//! A shared-ownership pointer kernel, modelled and verified.
//!
//! The library models a family of handle types over atomically
//! reference-counted heap blocks: a single-word shared handle, a non-owning
//! borrowed view, an exclusively owned box, a thin handle for header-plus-slice
//! payloads, and a tagged pointer union. Blocks live in an explicit [`Heap`]
//! store; handles carry the payload address, and every operation's contract is
//! stated over the store's view.

use vstd::prelude::*;

mod arc;
pub mod arc_borrow;
mod arc_handle;
mod borrow;
mod heap;
mod layout;
mod thin_arc;
mod union;
mod unique;

pub use arc::{Arc, ArcInner};
pub use arc_handle::ArcHandle;
pub use borrow::ArcBorrow;
pub use heap::{Block, Heap, LoadOrdering, MAX_REFCOUNT};
pub use layout::{block_layout, header_slice_layout, round_up, BlockLayout, MAX_ALLOC, WORD_SIZE};
pub use thin_arc::{HeaderSliceWithLength, HeaderWithLength, ThinArc};
pub use union::{pack, unpack, lemma_pack_unpack, Union2, Union4, UnionAlign};
pub use unique::ArcBox;

verus! {

} // verus!
