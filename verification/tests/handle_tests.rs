use elysees::arc_borrow::ArcBorrow;
use elysees::{Arc, ArcHandle, Heap, LoadOrdering};

#[test]
fn handle_offset_round_trip() {
    let mut heap: Heap<u64> = Heap::new(8, 8);
    let h = ArcHandle::new(&mut heap, 11u64);
    let base = h.heap_ptr();
    let a = ArcHandle::into_raw_offset(h, &heap);
    // The payload sits exactly one refcount word past the block start.
    assert_eq!(Arc::as_ptr(&a), base + 8);
    let h2 = ArcHandle::from_raw_offset(a, &heap);
    assert_eq!(h2.heap_ptr(), base);
    assert!(h2.is_unique(&heap));
    assert_eq!(h2.get_count(&heap, LoadOrdering::Acquire), 1);
    assert_eq!(*h2.get(&heap), 11);
    h2.release(&mut heap);
}

#[test]
fn handle_raw_round_trip() {
    let mut heap: Heap<u64> = Heap::new(8, 8);
    let h = ArcHandle::new(&mut heap, 5u64);
    let base = h.heap_ptr();
    let raw = ArcHandle::into_raw(h, &heap);
    assert_eq!(raw, base + 8);
    let h = ArcHandle::from_raw(&heap, raw);
    assert_eq!(h.heap_ptr(), base);
    assert_eq!(h.get_count(&heap, LoadOrdering::Relaxed), 1);
    h.release(&mut heap);
}

#[test]
fn handle_clone_and_borrow() {
    let mut heap: Heap<u64> = Heap::new(8, 8);
    let h = ArcHandle::new(&mut heap, 80u64);
    let h2 = h.clone(&mut heap);
    assert!(ArcHandle::ptr_eq(&h, &h2));
    assert_eq!(h.get_count(&heap, LoadOrdering::Relaxed), 2);
    assert!(!h.is_unique(&heap));
    h2.release(&mut heap);
    assert!(h.is_unique(&heap));

    let hb: ArcBorrow<u64> = h.borrow_arc(&heap);
    let hb2 = hb;
    assert!(ArcBorrow::ptr_eq(&hb, &hb2));
    assert_eq!(hb.get_count(&heap, LoadOrdering::Relaxed), 1);
    assert_eq!(*hb.get(&heap), 80);

    let promoted = hb.clone_handle(&mut heap);
    assert_eq!(h.get_count(&heap, LoadOrdering::Relaxed), 2);
    assert!(ArcHandle::ptr_eq(&h, &promoted));
    let promoted_arc = hb2.clone_arc(&mut heap);
    assert_eq!(h.get_count(&heap, LoadOrdering::Relaxed), 3);
    assert_eq!(*promoted_arc.get(&heap), 80);

    promoted_arc.release(&mut heap);
    promoted.release(&mut heap);
    h.release(&mut heap);
}
