use elysees::{
    pack, unpack, Arc, ArcBox, ArcBorrow, Heap, HeaderSliceWithLength, HeaderWithLength,
    LoadOrdering, ThinArc, Union2, Union4,
};

#[derive(Clone, Default)]
struct Padded {
    i: u16,
}

type StrSlice = HeaderSliceWithLength<&'static str, i32>;

fn new_str_slice_heap() -> Heap<StrSlice> {
    // A &str header models as two words; i32 elements are 4 bytes.
    Heap::new_header_slice(16, 8, 4, 4)
}

fn build(heap: &mut Heap<StrSlice>, name: &'static str, lo: i32, hi: i32) -> Arc<StrSlice> {
    let items: Vec<i32> = (lo..hi).collect();
    let n = items.len();
    Arc::from_header_and_iter(heap, HeaderWithLength::new(name, n), items)
}

#[test]
fn empty_thin() {
    let mut heap: Heap<HeaderSliceWithLength<u32, i32>> = Heap::new_header_slice(4, 4, 4, 4);
    let header = HeaderWithLength::new(100u32, 0);
    let x = Arc::from_header_and_iter(&mut heap, header, Vec::new());
    let y = Arc::into_thin(x.clone(&mut heap), &heap);
    assert_eq!(y.get(&heap).header.header, 100);
    assert!(y.get(&heap).slice.is_empty());
    assert_eq!(x.get(&heap).header.header, 100);
    assert!(x.get(&heap).slice.is_empty());
    y.release(&mut heap);
    x.release(&mut heap);
}

#[test]
fn thin_assert_padding() {
    // The header has more alignment than `Padded`.
    let mut heap: Heap<HeaderSliceWithLength<HeaderWithLength<i32>, Padded>> =
        Heap::new_header_slice(16, 8, 2, 2);
    let header = HeaderWithLength::new(0i32, 2);
    let items = vec![Padded { i: 0xdead }, Padded { i: 0xbeef }];
    let a = ThinArc::from_header_and_iter(&mut heap, header, items);
    assert_eq!(a.get(&heap).slice.len(), 2);
    assert_eq!(a.get(&heap).slice[0].i, 0xdead);
    assert_eq!(a.get(&heap).slice[1].i, 0xbeef);
    a.release(&mut heap);
}

#[test]
fn slices_and_thin() {
    let mut heap: Heap<HeaderSliceWithLength<u32, i32>> = Heap::new_header_slice(4, 4, 4, 4);
    let v = vec![5, 6];
    let x = Arc::into_thin(
        Arc::from_header_and_iter(&mut heap, HeaderWithLength::new(7u32, 2), v),
        &heap,
    );
    let addr = x.addr;
    let y = x.clone(&mut heap);
    let z = y.clone(&mut heap);
    y.release(&mut heap);
    assert!(heap.contains_addr(addr));
    let f = Arc::from_thin(z, &heap);
    assert_eq!(f.get(&heap).slice, vec![5, 6]);
    f.release(&mut heap);
    assert!(heap.contains_addr(addr));
    // The payload is destroyed exactly once: by the last release, not before.
    x.release(&mut heap);
    assert!(!heap.contains_addr(addr));
}

#[test]
fn basic_dst_test() {
    let vec: Vec<i32> = (0..100).collect();
    let mut heap = new_str_slice_heap();
    let arc = build(&mut heap, "header", 0, 100);
    // The handle is a single machine word; so is the thin shape.
    assert_eq!(std::mem::size_of_val(&arc), std::mem::size_of::<usize>());
    assert_eq!(arc.get(&heap).header.header, "header");
    assert_eq!(arc.get(&heap).slice, vec);
    assert!(arc.is_unique(&heap));
    let thin = Arc::into_thin(arc.clone(&mut heap), &heap);
    assert_eq!(thin.get(&heap).header.header, "header");
    assert_eq!(thin.get(&heap).slice, vec);
    assert_eq!(std::mem::size_of_val(&thin), std::mem::size_of::<usize>());
    assert!(!arc.is_unique(&heap));
    thin.release(&mut heap);
    arc.release(&mut heap);
}

#[test]
fn thin_fat_round_trip() {
    let mut heap = new_str_slice_heap();
    let x = build(&mut heap, "hdr", 1, 4);
    let addr = Arc::as_ptr(&x);
    let t = Arc::into_thin(x, &heap);
    assert_eq!(t.addr, addr);
    let f = Arc::from_thin(t, &heap);
    // The round trip yields the same address and the same contents.
    assert_eq!(Arc::as_ptr(&f), addr);
    assert_eq!(f.get(&heap).header.header, "hdr");
    assert_eq!(f.get(&heap).header.length, 3);
    assert_eq!(f.get(&heap).slice, vec![1, 2, 3]);
    f.release(&mut heap);
}

#[test]
fn unique_dst_test() {
    let mut heap = new_str_slice_heap();
    let fat = build(&mut heap, "unique", 0, 5);
    let arc: ArcBox<StrSlice> = match Arc::try_unique(fat, &heap) {
        Ok(b) => b,
        Err(_) => unreachable!(),
    };
    assert_eq!(arc.get(&heap).header.header, "unique");
    assert_eq!(arc.get(&heap).slice, vec![0, 1, 2, 3, 4]);

    arc.get_mut(&mut heap).slice[3] = 77;
    assert_eq!(arc.get(&heap).slice, vec![0, 1, 2, 77, 4]);
    arc.get_mut(&mut heap).slice[4] = 88;
    assert_eq!(arc.get(&heap).slice, vec![0, 1, 2, 77, 88]);
    arc.get_mut(&mut heap).slice[0] = 99;
    assert_eq!(arc.get(&heap).slice, vec![99, 1, 2, 77, 88]);

    let arc = arc.shareable();
    assert_eq!(arc.get(&heap).header.header, "unique");
    assert_eq!(arc.get(&heap).slice, vec![99, 1, 2, 77, 88]);
    let arc = match Arc::try_unique(arc, &heap) {
        Ok(b) => b,
        Err(_) => panic!("Is unique!"),
    };
    assert_eq!(arc.get(&heap).header.header, "unique");
    assert_eq!(arc.get(&heap).slice, vec![99, 1, 2, 77, 88]);

    let arc = arc.shareable();
    assert_eq!(arc.get(&heap).header.header, "unique");
    assert_eq!(arc.get(&heap).slice, vec![99, 1, 2, 77, 88]);
    let arc2 = arc.clone(&mut heap);
    let arc = match Arc::try_unique(arc, &heap) {
        Ok(_) => panic!("Not unique!"),
        Err(e) => e,
    };
    arc2.release(&mut heap);
    arc.release(&mut heap);
}

#[test]
fn dst_union_test() {
    let mut heap = new_str_slice_heap();
    let a = build(&mut heap, "a", 0, 10);
    let b_fat = build(&mut heap, "b", 10, 20);
    let b: ArcBox<StrSlice> = match Arc::try_unique(b_fat, &heap) {
        Ok(bx) => bx,
        Err(_) => unreachable!(),
    };
    let c = build(&mut heap, "c", 20, 30);
    let d_o = build(&mut heap, "d", 30, 40);
    let d = d_o.borrow_arc();

    let union2: Union2<Arc<StrSlice>, ArcBox<StrSlice>> = Union2::new_a(a.clone(&mut heap));
    assert!(union2.is_a());
    assert!(!union2.is_b());
    let got = match union2.into_a() {
        Ok(v) => v,
        Err(_) => unreachable!(),
    };
    got.release(&mut heap);
    let union2: Union2<Arc<StrSlice>, ArcBox<StrSlice>> = Union2::new_b(b);
    assert!(!union2.is_a());
    assert!(union2.is_b());
    let b = match union2.into_b() {
        Ok(v) => v,
        Err(_) => unreachable!(),
    };

    let union4: Union4<Arc<StrSlice>, ArcBox<StrSlice>, Arc<StrSlice>, ArcBorrow<StrSlice>> =
        Union4::new_a(a);
    assert!(union4.is_a());
    assert!(!union4.is_b());
    let a = match union4.into_a() {
        Ok(v) => v,
        Err(_) => unreachable!(),
    };
    let union4: Union4<Arc<StrSlice>, ArcBox<StrSlice>, Arc<StrSlice>, ArcBorrow<StrSlice>> =
        Union4::new_b(b);
    assert!(union4.is_b());
    let b = match union4.into_b() {
        Ok(v) => v,
        Err(_) => unreachable!(),
    };
    let union4: Union4<Arc<StrSlice>, ArcBox<StrSlice>, Arc<StrSlice>, ArcBorrow<StrSlice>> =
        Union4::new_c(c);
    assert!(union4.is_c());
    // Unpacking under a tag other than the one packed yields nothing.
    let union4 = match union4.into_a() {
        Ok(_) => unreachable!(),
        Err(u) => u,
    };
    let c = match union4.into_c() {
        Ok(v) => v,
        Err(_) => unreachable!(),
    };
    let union4: Union4<Arc<StrSlice>, ArcBox<StrSlice>, Arc<StrSlice>, ArcBorrow<StrSlice>> =
        Union4::new_d(d);
    assert!(union4.is_d());
    let d2 = match union4.into_d() {
        Ok(v) => v,
        Err(_) => unreachable!(),
    };
    assert!(ArcBorrow::ptr_eq(d2, d_o.borrow_arc()));

    a.release(&mut heap);
    b.release(&mut heap);
    c.release(&mut heap);
    d_o.release(&mut heap);
}

#[test]
fn union_round_trip_preserves_value() {
    let mut heap: Heap<u64> = Heap::new(8, 8);
    let v = Arc::new(&mut heap, 9u64);
    let addr = Arc::as_ptr(&v);
    let u: Union2<Arc<u64>, Arc<u64>> = Union2::new_a(v);
    let back = match u.into_a() {
        Ok(x) => x,
        Err(_) => unreachable!(),
    };
    // The value unpacked is the value packed: same address, still valid.
    assert_eq!(Arc::as_ptr(&back), addr);
    assert_eq!(*back.get(&heap), 9);
    assert_eq!(Arc::count(&back, &heap, LoadOrdering::Relaxed), 1);
    back.release(&mut heap);
}

#[test]
fn pack_unpack_words() {
    assert_eq!(pack(8, 0), 8);
    assert_eq!(pack(8, 3), 11);
    assert_eq!(unpack(11, 3), Some(8));
    assert_eq!(unpack(11, 2), None);
    assert_eq!(unpack(8, 0), Some(8));
    for t in 0..4usize {
        for t2 in 0..4usize {
            let w = pack(100, t);
            let expected = if t == t2 { Some(100) } else { None };
            assert_eq!(unpack(w, t2), expected);
        }
    }
}
