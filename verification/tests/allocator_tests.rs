use asahi::allocator::{geometry, Allocation, Geometry, Region, SimpleAllocation, SimpleAllocator};
use asahi::error::Error;
use asahi::object::{GPUStruct, Placed};

#[derive(Clone, Copy, Debug, Default, PartialEq)]
struct Raw16 {
    a: u64,
    b: u64,
}

#[derive(Debug, PartialEq)]
struct Host16 {
    tag: u32,
}

impl Default for Host16 {
    fn default() -> Self {
        Host16 { tag: 7 }
    }
}

impl GPUStruct for Host16 {
    type Raw = Raw16;
}

fn region_64k() -> Region {
    Region::new(0x7000_0000, 0xffff_0000_0000, 0x10000).unwrap()
}

#[test]
fn region_accepts_page_aligned_bases() {
    let r = region_64k();
    assert_eq!(r.host_base(), 0x7000_0000);
    assert_eq!(r.gpu_base(), 0xffff_0000_0000);
    assert_eq!(r.len(), 0x10000);
}

#[test]
fn region_rejects_what_is_no_region() {
    assert_eq!(Region::new(0, 0x4000, 0x4000), Err(Error::InvalidArgument));
    assert_eq!(Region::new(0x4000, 0, 0x4000), Err(Error::InvalidArgument));
    assert_eq!(Region::new(0x4001, 0x4000, 0x4000), Err(Error::InvalidArgument));
    assert_eq!(Region::new(0x4000, 0x4010, 0x4000), Err(Error::InvalidArgument));
    assert_eq!(Region::new(0x4000, 0x4000, 0x100), Err(Error::InvalidArgument));
    assert_eq!(
        Region::new(usize::MAX - 0x3fff, 0x4000, 0x4000),
        Err(Error::InvalidArgument)
    );
    assert_eq!(
        Region::new(0x4000, u64::MAX - 0x3fff, 0x4000),
        Err(Error::InvalidArgument)
    );
    assert!(Region::new(0x4000, 0x4000, 0).is_ok());
}

#[test]
fn geometry_places_bytes_at_the_end_of_their_pages() {
    assert_eq!(
        geometry(16, 0x20),
        Ok(Geometry { size: 16, size_aligned: 0x4000, align: 0x20, offset: 0x3fe0 })
    );
    assert_eq!(
        geometry(0x30, 0x80),
        Ok(Geometry { size: 0x30, size_aligned: 0x4000, align: 0x80, offset: 0x3f80 })
    );
    assert_eq!(
        geometry(0x4001, 0x80),
        Ok(Geometry { size: 0x4001, size_aligned: 0x8000, align: 0x80, offset: 0x3f80 })
    );
    assert_eq!(
        geometry(0x4000, 0x40),
        Ok(Geometry { size: 0x4000, size_aligned: 0x4000, align: 0x40, offset: 0 })
    );
    assert_eq!(
        geometry(0, 1),
        Ok(Geometry { size: 0, size_aligned: 0, align: 1, offset: 0 })
    );
    assert_eq!(
        geometry(1, 1),
        Ok(Geometry { size: 1, size_aligned: 0x4000, align: 1, offset: 0x3fff })
    );
}

#[test]
fn geometry_with_alignment_of_a_page_or_more_starts_at_the_page() {
    assert_eq!(
        geometry(16, 0x4000),
        Ok(Geometry { size: 16, size_aligned: 0x4000, align: 0x4000, offset: 0 })
    );
    assert_eq!(
        geometry(16, 0x10000),
        Ok(Geometry { size: 16, size_aligned: 0x4000, align: 0x10000, offset: 0 })
    );
}

#[test]
fn geometry_rejects_bad_alignment_and_overflow() {
    assert_eq!(geometry(16, 0), Err(Error::InvalidArgument));
    assert_eq!(geometry(16, 3), Err(Error::InvalidArgument));
    assert_eq!(geometry(16, 0x30), Err(Error::InvalidArgument));
    assert_eq!(geometry(usize::MAX, 8), Err(Error::NoMemory));
    assert_eq!(geometry(usize::MAX, 3), Err(Error::InvalidArgument));
}

#[test]
fn allocation_is_nonnull_aligned_and_large_enough() {
    let mut a = SimpleAllocator::new(region_64k(), 0x20);
    let sizes = [1usize, 16, 0x30, 0x1000, 0x3fff, 0x4000];
    let aligns = [1usize, 2, 8, 0x20, 0x80, 0x1000, 0x4000];
    for s in sizes {
        for al in aligns {
            let mut fresh = SimpleAllocator::new(region_64k(), 0x20);
            let x: SimpleAllocation<u8> = fresh.allocate(s, al).unwrap();
            assert_ne!(x.ptr(), 0);
            assert_ne!(x.gpu_ptr(), 0);
            assert!(x.size() >= s);
            assert_eq!(x.ptr() % al, 0);
            assert_eq!(x.gpu_ptr() % (al as u64), 0);
        }
    }
    let x: SimpleAllocation<u8> = a.allocate(16, 0x20).unwrap();
    assert_eq!(x.ptr(), 0x7000_0000 + 0x3fe0);
    assert_eq!(x.gpu_ptr(), 0xffff_0000_0000 + 0x3fe0);
    assert_eq!(x.size(), 16);
    assert_eq!(a.used(), 0x4000);
}

#[test]
fn allocations_get_pages_of_their_own() {
    let mut a = SimpleAllocator::new(region_64k(), 0x20);
    let x: SimpleAllocation<u8> = a.allocate(0x30, 0x20).unwrap();
    let y: SimpleAllocation<u8> = a.allocate(0x4001, 0x20).unwrap();
    let z: SimpleAllocation<u8> = a.allocate(1, 1).unwrap();
    assert_eq!(x.gpu_ptr(), 0xffff_0000_0000 + 0x3fc0);
    assert_eq!(y.gpu_ptr(), 0xffff_0000_4000 + 0x3fe0);
    assert_eq!(z.gpu_ptr(), 0xffff_0000_c000 + 0x3fff);
    assert!(x.gpu_ptr() + (x.size() as u64) <= 0xffff_0000_4000);
    assert!(y.gpu_ptr() >= 0xffff_0000_4000);
    assert!(y.gpu_ptr() + (y.size() as u64) <= 0xffff_0000_c000);
    assert!(z.gpu_ptr() >= 0xffff_0000_c000);
    assert_eq!(x.ptr() - 0x7000_0000, (x.gpu_ptr() - 0xffff_0000_0000) as usize);
    assert_eq!(y.ptr() - 0x7000_0000, (y.gpu_ptr() - 0xffff_0000_0000) as usize);
    assert_eq!(a.used(), 0x10000);
}

#[test]
fn allocation_fails_without_room_and_changes_nothing() {
    let mut a = SimpleAllocator::new(region_64k(), 0x20);
    let _x: SimpleAllocation<u8> = a.allocate(0xc001, 0x20).unwrap();
    assert_eq!(a.used(), 0x10000);
    let r: Result<SimpleAllocation<u8>, Error> = a.allocate(1, 1);
    assert_eq!(r.err(), Some(Error::NoMemory));
    assert_eq!(a.used(), 0x10000);
    let r: Result<SimpleAllocation<u8>, Error> = a.allocate(0, 1);
    assert!(r.is_ok());
    let mut b = SimpleAllocator::new(region_64k(), 0x20);
    let r: Result<SimpleAllocation<u8>, Error> = b.allocate(0x10001, 0x20);
    assert_eq!(r.err(), Some(Error::NoMemory));
    assert_eq!(b.used(), 0);
    let r: Result<SimpleAllocation<u8>, Error> = b.allocate(16, 24);
    assert_eq!(r.err(), Some(Error::InvalidArgument));
    assert_eq!(b.used(), 0);
}

#[test]
fn alignment_beyond_a_page_gives_a_page_boundary() {
    let region = Region::new(0x7000_4000, 0xffff_0000_4000, 0x10000).unwrap();
    let mut a = SimpleAllocator::new(region, 0x8000);
    let x: SimpleAllocation<Host16> = a.prealloc::<Host16>().unwrap();
    assert_eq!(x.gpu_ptr(), 0xffff_0000_4000);
    assert_eq!(x.gpu_ptr() % 0x4000, 0);
    assert_ne!(x.gpu_ptr() % 0x8000, 0);
}

#[test]
fn default_object_over_64k_region() {
    let mut a = SimpleAllocator::new(region_64k(), 0x4000);
    assert_eq!(a.min_align(), 0x4000);
    assert_eq!(a.region(), region_64k());
    let o = a.new_default_object::<Host16>().ok().unwrap();
    assert_ne!(o.gpu_va(), 0);
    assert_eq!(o.gpu_va() % 0x4000, 0);
    assert_eq!(o.gpu_va(), 0xffff_0000_0000);
    let (raw, host) = o.with(|raw, inner| (*raw, inner.tag));
    assert_eq!(raw, Raw16 { a: 0, b: 0 });
    assert_eq!(raw, Raw16::default());
    assert_eq!(host, 7);
    assert_eq!(*o.deref(), Host16::default());
    assert_eq!(o.gpu_pointer().addr(), o.gpu_va());
    assert_eq!(o.weak_pointer().addr(), o.gpu_va());
}

#[test]
fn object_with_least_alignment_below_a_page_sits_at_the_end() {
    let mut a = SimpleAllocator::new(region_64k(), 0x20);
    let o = a.new_object(Host16 { tag: 3 }, |inner| Raw16 { a: inner.tag as u64, b: 9 }).ok().unwrap();
    assert_eq!(o.gpu_va(), 0xffff_0000_0000 + 0x3fe0);
    assert_eq!(o.with(|raw, _| *raw), Raw16 { a: 3, b: 9 });
    assert_eq!(o.deref().tag, 3);
}

#[test]
fn with_mut_changes_both_views_together() {
    let mut a = SimpleAllocator::new(region_64k(), 0x20);
    let mut o = a.new_default_object::<Host16>().ok().unwrap();
    let before = o.gpu_va();
    let old = o.with_mut(|raw, inner| {
        let old = inner.tag;
        raw.a = 0x1234;
        inner.tag = 8;
        old
    });
    assert_eq!(old, 7);
    assert_eq!(o.with(|raw, inner| (raw.a, raw.b, inner.tag)), (0x1234, 0, 8));
    o.deref_mut().tag = 11;
    assert_eq!(o.deref().tag, 11);
    assert_eq!(o.gpu_va(), before);
}

#[test]
fn boxed_object_takes_what_the_callback_filled() {
    let mut a = SimpleAllocator::new(region_64k(), 0x20);
    let o = a
        .new_boxed_object(Box::new(Host16 { tag: 1 }), |inner, place| {
            Ok(Placed { ptr: place, raw: Raw16 { a: place as u64, b: inner.tag as u64 } })
        })
        .ok()
        .unwrap();
    assert_eq!(o.with(|raw, _| *raw), Raw16 { a: 0x7000_0000 + 0x3fe0, b: 1 });
    let o = a
        .new_inplace_object(Host16 { tag: 2 }, |inner, place| {
            Ok(Placed { ptr: place, raw: Raw16 { a: 5, b: inner.tag as u64 } })
        })
        .ok()
        .unwrap();
    assert_eq!(o.with(|raw, _| *raw), Raw16 { a: 5, b: 2 });
    assert_eq!(o.gpu_va(), 0xffff_0000_4000 + 0x3fe0);
}

#[test]
fn boxed_object_rejects_an_answer_for_another_place() {
    let mut a = SimpleAllocator::new(region_64k(), 0x20);
    let r = a.new_boxed_object(Box::new(Host16 { tag: 1 }), |_inner, place| {
        Ok(Placed { ptr: place + 8, raw: Raw16 { a: 0, b: 0 } })
    });
    assert_eq!(r.err(), Some(Error::InvalidArgument));
    assert_eq!(a.used(), 0);
    let r = a.new_inplace_object(Host16 { tag: 1 }, |_inner, _place| Err(Error::Busy));
    assert_eq!(r.err(), Some(Error::Busy));
    assert_eq!(a.used(), 0);
    let kept = a.new_default_object::<Host16>().ok().unwrap();
    let r = a.new_inplace_object(Host16 { tag: 1 }, |_inner, _place| Err(Error::Busy));
    assert_eq!(r.err(), Some(Error::Busy));
    assert_eq!(a.used(), 0x4000);
    assert_eq!(kept.gpu_va(), 0xffff_0000_0000 + 0x3fe0);
}

#[test]
fn rewinding_gives_back_what_was_taken_since_the_mark() {
    let mut a = SimpleAllocator::new(region_64k(), 0x20);
    let _first: SimpleAllocation<u8> = a.allocate(1, 1).unwrap();
    let mark = a.mark();
    let second: SimpleAllocation<u8> = a.allocate(0x4001, 1).unwrap();
    assert_eq!(a.used(), 0xc000);
    a.rewind(mark);
    assert_eq!(a.used(), 0x4000);
    let again: SimpleAllocation<u8> = a.allocate(0x4001, 1).unwrap();
    assert_eq!(again.gpu_ptr(), second.gpu_ptr());
    let late = a.mark();
    a.rewind(mark);
    assert_eq!(a.used(), 0x4000);
    a.rewind(late);
    assert_eq!(a.used(), 0x4000);
}

#[test]
fn prealloc_object_knows_its_address_while_it_is_made() {
    let mut a = SimpleAllocator::new(region_64k(), 0x20);
    let o = a
        .new_prealloc_object(
            |ptr| Ok(Box::new(Host16 { tag: (ptr.addr() & 0xffff) as u32 })),
            |inner, place| Ok(Placed { ptr: place, raw: Raw16 { a: inner.tag as u64, b: 0 } }),
        )
        .ok()
        .unwrap();
    assert_eq!(o.deref().tag, 0x3fe0);
    assert_eq!(o.with(|raw, _| raw.a), 0x3fe0);
    let r = a.new_prealloc_object::<Host16, _, _>(
        |_ptr| Err(Error::NoSpace),
        |_inner, place| Ok(Placed { ptr: place, raw: Raw16 { a: 0, b: 0 } }),
    );
    assert_eq!(r.err(), Some(Error::NoSpace));
    assert_eq!(a.used(), 0x4000);
}

#[test]
fn array_of_defaults() {
    let mut a = SimpleAllocator::new(region_64k(), 0x20);
    let arr = a.new_array::<u64>(0x500).ok().unwrap();
    assert_eq!(arr.len(), 0x500);
    assert!(arr.as_slice().iter().all(|x| *x == 0));
    assert_eq!(arr.gpu_va(), 0xffff_0000_0000 + 0x1800);
    assert_eq!(a.used(), 0x4000);
    let r = a.new_array::<u64>(usize::MAX);
    assert_eq!(r.err(), Some(Error::NoMemory));
    let r = a.new_array::<u64>(0x2000);
    assert_eq!(r.err(), Some(Error::NoMemory));
    assert_eq!(a.used(), 0x4000);
    let big = a.new_array::<u8>(0xc000).ok().unwrap();
    assert_eq!(big.gpu_va(), 0xffff_0000_4000);
    assert_eq!(a.used(), 0x10000);
}
