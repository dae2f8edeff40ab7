use elysees::{header_slice_layout, round_up, Arc, ArcBorrow, ArcBox, ArcInner, Heap, LoadOrdering};

struct MyStruct {
    id: usize,
    name: String,
    hash: u64,
}

#[test]
fn data_offset_sanity_tests() {
    let inner = ArcInner {
        count: 1usize,
        data: MyStruct {
            id: 596843,
            name: "Jane".into(),
            hash: 0xFF45345,
        },
    };
    let size = std::mem::size_of::<MyStruct>();
    let align = std::mem::align_of::<MyStruct>();
    let (layout, data_offset) = ArcInner::<MyStruct>::data_offset(size, align);
    // The payload begins one refcount word past the block start.
    assert_eq!(data_offset, std::mem::size_of::<u64>());
    assert_eq!(layout.align, align.max(std::mem::size_of::<u64>()));
    assert_eq!(layout.size, data_offset + size);
    assert_eq!(inner.data.id, 596843);
    assert_eq!(inner.data.name, "Jane");
    assert_eq!(inner.data.hash, 0xFF45345);
    assert_eq!(inner.count, 1);
}

#[test]
fn layout_formulas() {
    let (l, off) = ArcInner::<u8>::data_offset(1, 1);
    assert_eq!(off, 8);
    assert_eq!(l.size, 16);
    assert_eq!(l.align, 8);
    let (l, off) = ArcInner::<[u8; 32]>::data_offset(32, 16);
    assert_eq!(off, 16);
    assert_eq!(l.size, 48);
    assert_eq!(l.align, 16);
    let (l, off) = ArcInner::<u16>::data_offset(2, 2);
    assert_eq!(off, 8);
    assert_eq!(l.size, 16);
    assert_eq!(l.align, 8);
}

#[test]
fn header_slice_layout_formulas() {
    // Header of 4 bytes padded to the length word, the length word itself,
    // then 10 elements of 4 bytes from offset 16.
    assert_eq!(header_slice_layout(4, 4, 4, 4, 10), (56, 8));
    // No elements: just the padded header and the length word.
    assert_eq!(header_slice_layout(4, 4, 4, 4, 0), (16, 8));
    // A 16-byte-aligned element type drags the whole payload to 16.
    assert_eq!(header_slice_layout(8, 8, 16, 16, 2), (48, 16));
    assert_eq!(round_up(5, 8), 8);
    assert_eq!(round_up(8, 8), 8);
    assert_eq!(round_up(0, 4), 0);
    assert_eq!(round_up(9, 1), 9);
}

#[test]
fn exclusive_owner_lifecycle() {
    let mut heap: Heap<u32> = Heap::new(4, 4);
    let b = ArcBox::new(&mut heap, 3u32);
    assert_eq!(*b.get(&heap), 3);
    *b.get_mut(&mut heap) += 4;
    assert_eq!(*b.get(&heap), 7);
    let b2 = b.clone(&mut heap);
    assert_eq!(*b2.get(&heap), 7);
    *b2.get_mut(&mut heap) = 9;
    // An exclusive owner's duplicate lives on its own block.
    assert_eq!(*b.get(&heap), 7);
    assert_eq!(*b2.get(&heap), 9);
    let shared = b.shareable();
    let addr = Arc::as_ptr(&shared);
    assert!(shared.is_unique(&heap));
    shared.release(&mut heap);
    assert!(!heap.contains_addr(addr));
    b2.release(&mut heap);
}

#[test]
fn basic_arc_usage() {
    let mut heap: Heap<usize> = Heap::new(8, 8);
    let x = Arc::new(&mut heap, 7);
    assert!(x.is_unique(&heap));
    assert_eq!(*x.get(&heap), 7);
    let y = x.clone(&mut heap);
    assert!(!x.is_unique(&heap));
    assert!(!y.is_unique(&heap));
    assert_eq!(Arc::count(&x, &heap, LoadOrdering::Relaxed), 2);
    assert_eq!(Arc::count(&y, &heap, LoadOrdering::Relaxed), 2);
    let x = match Arc::try_unique(x, &heap) {
        Ok(_) => panic!("x is not unique!"),
        Err(e) => e,
    };
    assert!(!x.is_unique(&heap));
    assert!(!y.is_unique(&heap));
    assert_eq!(*x.get(&heap), *y.get(&heap));
    assert_eq!(*x.get(&heap), 7);
    x.release(&mut heap);
    assert!(y.is_unique(&heap));
    let y = match Arc::try_unique(y, &heap) {
        Ok(b) => b,
        Err(_) => panic!("y is unique"),
    };
    *y.get_mut(&mut heap) += 73;
    assert_eq!(*y.get(&heap), 80);
    let y = y.shareable();
    assert!(y.is_unique(&heap));
    assert_eq!(*y.get(&heap), 80);

    let yb = y.borrow_arc();
    assert_eq!(*yb.get(&heap), 80);
    assert_eq!(ArcBorrow::count(yb, &heap, LoadOrdering::Relaxed), 1);
    let yb2 = yb;
    assert_eq!(ArcBorrow::count(yb, &heap, LoadOrdering::Relaxed), 1);
    assert_eq!(ArcBorrow::count(yb2, &heap, LoadOrdering::Relaxed), 1);

    let z = y.clone(&mut heap);
    assert_eq!(*z.get(&heap), 80);
    let yl = Arc::leak(y);
    assert_eq!(ArcBorrow::count(yl, &heap, LoadOrdering::Relaxed), 2);
    assert_eq!(Arc::count(&z, &heap, LoadOrdering::Relaxed), 2);
    let t = yl.clone_arc(&mut heap);
    assert_eq!(Arc::count(&t, &heap, LoadOrdering::Relaxed), 3);
    let w = yl.clone_arc(&mut heap);
    assert_eq!(Arc::count(&t, &heap, LoadOrdering::Relaxed), 4);
    assert_eq!(Arc::count(&z, &heap, LoadOrdering::Relaxed), 4);
    assert_eq!(Arc::count(&w, &heap, LoadOrdering::Relaxed), 4);
    assert_eq!(ArcBorrow::count(yl, &heap, LoadOrdering::Relaxed), 4);

    w.release(&mut heap);
    assert_eq!(Arc::count(&t, &heap, LoadOrdering::Relaxed), 3);
    assert_eq!(Arc::count(&z, &heap, LoadOrdering::Relaxed), 3);
    assert_eq!(ArcBorrow::count(yl, &heap, LoadOrdering::Relaxed), 3);

    t.release(&mut heap);
    assert_eq!(Arc::count(&z, &heap, LoadOrdering::Relaxed), 2);
    assert_eq!(ArcBorrow::count(yl, &heap, LoadOrdering::Relaxed), 2);

    z.release(&mut heap);
    assert_eq!(ArcBorrow::count(yl, &heap, LoadOrdering::Relaxed), 1);

    let make_unique = Arc::unique(yl.clone_arc(&mut heap), &mut heap);
    *make_unique.get_mut(&mut heap) += 23;
    assert_eq!(*make_unique.get(&heap), 103);
    *make_unique.get_mut(&mut heap) += 5;
    assert_eq!(*make_unique.get(&heap), 108);
    *make_unique.get_mut(&mut heap) += 5;
    assert_eq!(*make_unique.get(&heap), 113);
    let mut make_unique = make_unique.shareable();
    assert_eq!(*make_unique.get(&heap), 113);
    assert!(make_unique.is_unique(&heap));
    assert_eq!(*yl.get(&heap), 80);
    let make_mut = Arc::make_mut(&mut make_unique, &mut heap);
    assert_eq!(*make_mut, 113);
    *make_mut += 100;

    assert_eq!(*make_mut, 213);
    assert_eq!(*make_unique.get(&heap), 213);
    assert_ne!(*yl.get(&heap), *make_unique.get(&heap));

    let remake_unique = match Arc::try_unique(make_unique, &heap) {
        Ok(b) => b,
        Err(_) => panic!("Unique!"),
    };
    assert_eq!(*remake_unique.get(&heap), 213);
    let box_unique = remake_unique.clone(&mut heap);
    *box_unique.get_mut(&mut heap) += 100;
    assert_eq!(*box_unique.get(&heap), 313);
    assert_eq!(*remake_unique.get(&heap), 213);

    let box_unique = box_unique.shareable();
    let not_unique = box_unique.clone(&mut heap);
    let not_unique = match Arc::try_unique(not_unique, &heap) {
        Ok(_) => panic!("Not unique!"),
        Err(e) => e,
    };
    assert!(!box_unique.is_unique(&heap));

    not_unique.release(&mut heap);
    box_unique.release(&mut heap);
    remake_unique.release(&mut heap);
}

#[test]
fn clone_then_release_restores_count() {
    let mut heap: Heap<usize> = Heap::new(8, 8);
    let a = Arc::new(&mut heap, 4);
    let b = a.clone(&mut heap);
    let before = Arc::count(&b, &heap, LoadOrdering::Relaxed);
    let c = b.clone(&mut heap);
    assert_eq!(Arc::count(&b, &heap, LoadOrdering::Relaxed), before + 1);
    c.release(&mut heap);
    assert_eq!(Arc::count(&b, &heap, LoadOrdering::Relaxed), before);
    b.release(&mut heap);
    a.release(&mut heap);
}

#[test]
fn try_unique_succeeds_iff_count_is_one() {
    let mut heap: Heap<usize> = Heap::new(8, 8);
    let x = Arc::new(&mut heap, 1);
    let y = x.clone(&mut heap);
    let x = match Arc::try_unique(x, &heap) {
        Ok(_) => panic!("count is two"),
        Err(e) => e,
    };
    assert_eq!(Arc::count(&x, &heap, LoadOrdering::Relaxed), 2);
    assert_eq!(Arc::count(&y, &heap, LoadOrdering::Relaxed), 2);
    y.release(&mut heap);
    let b = match Arc::try_unique(x, &heap) {
        Ok(b) => b,
        Err(_) => panic!("count is one"),
    };
    assert_eq!(*b.get(&heap), 1);
    let x = b.shareable();
    assert_eq!(Arc::count(&x, &heap, LoadOrdering::Relaxed), 1);
    x.release(&mut heap);
}

#[test]
fn make_mut_copies_shared_blocks() {
    let mut heap: Heap<usize> = Heap::new(8, 8);
    let mut a = Arc::new(&mut heap, 10);
    let b = a.clone(&mut heap);
    let b_addr = Arc::as_ptr(&b);
    let m = Arc::make_mut(&mut a, &mut heap);
    // ...holding a copy of the payload as it was at the call.
    assert_eq!(*m, 10);
    // Mutating the result never changes what the other clone observes.
    *m = 999;
    // A shared handle moved to a new block at a different address.
    assert!(!Arc::ptr_eq(&a, &b));
    assert!(a.is_unique(&heap));
    assert!(b.is_unique(&heap));
    assert_eq!(*b.get(&heap), 10);
    assert_eq!(*a.get(&heap), 999);
    assert_eq!(Arc::as_ptr(&b), b_addr);
    // On an already-unique handle the block is kept.
    let a_addr = Arc::as_ptr(&a);
    let m2 = Arc::make_mut(&mut a, &mut heap);
    assert_eq!(*m2, 999);
    assert_eq!(Arc::as_ptr(&a), a_addr);
    assert_eq!(*a.get(&heap), 999);
    a.release(&mut heap);
    b.release(&mut heap);
}

#[test]
fn interleaved_clone_drop_restores_count() {
    let mut heap: Heap<usize> = Heap::new(8, 8);
    let h = Arc::new(&mut heap, 5);
    let addr = Arc::as_ptr(&h);
    for _pass in 0..3usize {
        let mut clones: Vec<Arc<usize>> = Vec::new();
        for _step in 0..4usize {
            clones.push(h.clone(&mut heap));
        }
        while let Some(c) = clones.pop() {
            c.release(&mut heap);
        }
        assert_eq!(Arc::count(&h, &heap, LoadOrdering::Relaxed), 1);
        assert!(heap.contains_addr(addr));
    }
    assert!(h.is_unique(&heap));
    // Only the very last release frees the block.
    h.release(&mut heap);
    assert!(!heap.contains_addr(addr));
}

#[test]
fn raw_round_trip_preserves_address_and_count() {
    let mut heap: Heap<usize> = Heap::new(8, 8);
    let x = Arc::new(&mut heap, 7);
    let addr = Arc::as_ptr(&x);
    let raw = Arc::into_raw(x);
    assert_eq!(raw, addr);
    let y = Arc::from_raw(&heap, raw);
    assert_eq!(Arc::count(&y, &heap, LoadOrdering::Relaxed), 1);
    assert_eq!(*y.get(&heap), 7);
    assert_eq!(Arc::as_ptr(&y), addr);
    y.release(&mut heap);
}

#[test]
fn borrowed_views_do_not_own() {
    let mut heap: Heap<usize> = Heap::new(8, 8);
    let x = Arc::new(&mut heap, 42);
    let b1 = x.borrow_arc();
    let b2 = b1;
    assert!(ArcBorrow::ptr_eq(b1, b2));
    assert_eq!(ArcBorrow::count(b1, &heap, LoadOrdering::Relaxed), 1);
    assert_eq!(*b1.get(&heap), 42);
    let raw = ArcBorrow::into_raw(b1);
    assert_eq!(raw, Arc::as_ptr(&x));
    let b3 = ArcBorrow::from_raw(&heap, raw);
    assert_eq!(ArcBorrow::count(b3, &heap, LoadOrdering::Relaxed), 1);
    let owned = b3.clone_arc(&mut heap);
    assert_eq!(Arc::count(&x, &heap, LoadOrdering::Relaxed), 2);
    owned.release(&mut heap);
    x.release(&mut heap);
}

#[test]
fn distinct_blocks_have_distinct_addresses() {
    let mut heap: Heap<u64> = Heap::new(8, 8);
    let a = Arc::new(&mut heap, 1u64);
    let b = Arc::new(&mut heap, 1u64);
    assert!(!Arc::ptr_eq(&a, &b));
    assert!(Arc::ptr_eq(&a, &a));
    assert_eq!(Arc::as_ptr(&a) % 4, 0);
    assert_eq!(Arc::as_ptr(&b) % 4, 0);
    a.release(&mut heap);
    b.release(&mut heap);
}
