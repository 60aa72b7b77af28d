use asahi::allocator::{Region, SimpleAllocator};
use asahi::error::Error;
use asahi::event::{EventManager, EventValue, EVENT_STEP, NUM_EVENTS};
use asahi::gpu::KernelAllocators;
use asahi::slotalloc::SlotToken;

fn event_allocators() -> KernelAllocators {
    let private = Region::new(0x1000_0000, 0x10_0000_0000, 0x10_0000).unwrap();
    let shared = Region::new(0x2000_0000, 0x20_0000_0000, 0x10_0000).unwrap();
    let gpu = Region::new(0x3000_0000, 0x30_0000_0000, 0x10_0000).unwrap();
    KernelAllocators {
        private: SimpleAllocator::new(private, 0x20),
        shared: SimpleAllocator::new(shared, 0x20),
        gpu: SimpleAllocator::new(gpu, 0x20),
    }
}

#[test]
fn stamp_and_counter() {
    assert_eq!(EVENT_STEP, 0x100);
    assert_eq!(EventValue(0x1234_5678).stamp(), 0x1234_5678);
    assert_eq!(EventValue(0x1234_5678).counter(), 0x12_3456);
    assert_eq!(EventValue(0).counter(), 0);
    assert_eq!(EventValue(0xff).counter(), 0);
    assert_eq!(EventValue(0x100).counter(), 1);
    assert_eq!(EventValue(u32::MAX).counter(), 0xff_ffff);
}

#[test]
fn next_and_increment_step_by_one_and_wrap() {
    assert_eq!(EventValue(0).next(), EventValue(0x100));
    assert_eq!(EventValue(0x42).next(), EventValue(0x142));
    assert_eq!(EventValue(0xffff_ff00).next(), EventValue(0));
    assert_eq!(EventValue(0xffff_ff17).next(), EventValue(0x17));
    let mut v = EventValue(0xffff_fe00);
    v.increment();
    assert_eq!(v, EventValue(0xffff_ff00));
    v.increment();
    assert_eq!(v, EventValue(0));
    assert_eq!(v.counter(), 0);
}

#[test]
fn delta_is_the_signed_distance() {
    assert_eq!(EventValue(0x200).delta(&EventValue(0x100)), 0x100);
    assert_eq!(EventValue(0x100).delta(&EventValue(0x200)), -0x100);
    assert_eq!(EventValue(0x100).delta(&EventValue(0x100)), 0);
    assert_eq!(EventValue(0).delta(&EventValue(0xffff_ff00)), 0x100);
    assert_eq!(EventValue(0xffff_ff00).delta(&EventValue(0)), -0x100);
    assert_eq!(EventValue(0x7fff_ffff).delta(&EventValue(0)), i32::MAX);
    assert_eq!(EventValue(0x8000_0000).delta(&EventValue(0)), i32::MIN);
    assert_eq!(EventValue(0).delta(&EventValue(0x8000_0000)), i32::MIN);
    assert_eq!(EventValue(0x8000_0001).delta(&EventValue(0)), -0x7fff_ffff);
}

#[test]
fn order_follows_generation_across_the_wrap() {
    let a = EventValue(0xffff_fe00);
    let b = a.next().next().next();
    assert_eq!(b, EventValue(0x100));
    assert!(a < b);
    assert!(b > a);
    assert!(!(b < a));
    assert!(a != b);
    assert!(a <= a);
    assert!(a >= a);
    assert!(!(a < a));
    assert!(EventValue(0x100) < EventValue(0x200));
    assert!(EventValue(0x200) > EventValue(0x100));
    assert!(EventValue(0) < EventValue(0x7fff_ff00));
    assert!(EventValue(0x8000_0100) < EventValue(0));
}

#[test]
fn order_is_kept_over_a_full_wrap_of_the_counter() {
    let start = EventValue(0xfff0_0000);
    let mut prev = start;
    let mut back = start;
    let window: u32 = 0x7f_ffff;
    let mut steps: u32 = 0;
    while steps < 0x100_0000 {
        let cur = prev.next();
        assert!(prev < cur);
        assert!(!(cur < prev));
        assert_eq!(cur.delta(&prev), 0x100);
        if steps % 0x1_0000 == 0 {
            assert_eq!(cur.counter(), (start.counter() + steps + 1) & 0xff_ffff);
        }
        if steps + 1 == window {
            assert!(start < cur);
            assert!(!(cur < start));
            assert_eq!(cur.delta(&start), 0x7fff_ff00);
            back = cur;
        }
        prev = cur;
        steps += 1;
    }
    assert_eq!(prev, start);
    assert!(start < back);
    assert_eq!(back.delta(&start), 0x7fff_ff00);
    assert_eq!(start.delta(&back), -0x7fff_ff00);
}

#[test]
fn event_slots_are_handed_out_lowest_first() {
    let mut alloc = event_allocators();
    let mut m = EventManager::new(&mut alloc).unwrap();
    assert_eq!(NUM_EVENTS, 128);
    assert_eq!(m.0.len(), 128);
    assert_eq!(alloc.shared.used(), 0x4000);
    assert_eq!(alloc.private.used(), 0x4000);
    let a = m.get(None).unwrap();
    let b = m.get(None).unwrap();
    assert_eq!(a.slot(), 0);
    assert_eq!(b.slot(), 1);
    assert!(a.changed());
    assert!(b.changed());
    assert_eq!(a.token(), SlotToken { time: 1, slot: 0 });
    assert_eq!(b.token(), SlotToken { time: 2, slot: 1 });
    assert_eq!(a.item().slot(), 0);
    assert_eq!(a.item().owner(), None);
    assert_eq!(a.item().stamp_pointer().addr(), 0x20_0000_0000 + 0x3e00);
    assert_eq!(b.item().stamp_pointer().addr(), 0x20_0000_0000 + 0x3e04);
}

#[test]
fn two_requests_never_get_the_same_slot() {
    let mut alloc = event_allocators();
    let mut m = EventManager::new(&mut alloc).unwrap();
    let mut held = Vec::new();
    let mut seen = [false; 128];
    for _ in 0..128 {
        let g = m.get(None).unwrap();
        assert!(!seen[g.slot() as usize]);
        seen[g.slot() as usize] = true;
        held.push(g);
    }
    assert!(seen.iter().all(|s| *s));
    assert_eq!(m.get(None).err(), Some(Error::Busy));
    assert_eq!(m.get(Some(SlotToken { time: 5, slot: 4 })).err(), Some(Error::Busy));
    let g = held.remove(17);
    assert_eq!(g.slot(), 17);
    assert_eq!(m.release(g), Ok(()));
    let again = m.get(None).unwrap();
    assert_eq!(again.slot(), 17);
    assert!(again.changed());
    assert_eq!(m.get(None).err(), Some(Error::Busy));
}

#[test]
fn released_slot_comes_back_by_its_token() {
    let mut alloc = event_allocators();
    let mut m = EventManager::new(&mut alloc).unwrap();
    let a = m.get(None).unwrap();
    let b = m.get(None).unwrap();
    let c = m.get(None).unwrap();
    let tb = b.token();
    let tc = c.token();
    assert_eq!(m.release(c), Ok(()));
    assert_eq!(m.release(b), Ok(()));
    let again = m.get(Some(tb)).unwrap();
    assert_eq!(again.slot(), 1);
    assert!(!again.changed());
    assert_eq!(again.token(), tb);
    let third = m.get(Some(tc)).unwrap();
    assert_eq!(third.slot(), 2);
    assert!(!third.changed());
    assert_eq!(a.slot(), 0);
}

#[test]
fn stale_token_gets_the_slot_longest_free() {
    let mut alloc = event_allocators();
    let mut m = EventManager::new(&mut alloc).unwrap();
    let mut held = Vec::new();
    for _ in 0..128 {
        held.push(m.get(None).unwrap());
    }
    let g7 = held.remove(7);
    let g3 = held.remove(3);
    let t3 = g3.token();
    assert_eq!(m.release(g3), Ok(()));
    assert_eq!(m.release(g7), Ok(()));
    let x = m.get(None).unwrap();
    assert_eq!(x.slot(), 3);
    assert!(x.changed());
    assert_ne!(x.token(), t3);
    let y = m.get(Some(t3)).unwrap();
    assert_eq!(y.slot(), 7);
    assert!(y.changed());
    assert_eq!(m.get(Some(t3)).err(), Some(Error::Busy));
    assert_eq!(m.release(x), Ok(()));
    let z = m.get(Some(t3)).unwrap();
    assert_eq!(z.slot(), 3);
    assert!(z.changed());
    let w = m.get(Some(SlotToken { time: 1, slot: 4000 }));
    assert_eq!(w.err(), Some(Error::Busy));
}

#[test]
fn release_forgets_the_owner_and_keeps_the_stamp() {
    let mut alloc = event_allocators();
    let mut m = EventManager::new(&mut alloc).unwrap();
    let mut g = m.get(None).unwrap();
    assert_eq!(m.current(&g), EventValue(0));
    g.item_mut().set_owner(42);
    assert_eq!(g.item().owner(), Some(42));
    m.firmware_signal(0);
    m.firmware_signal(0);
    m.firmware_signal(1);
    assert_eq!(m.current(&g), EventValue(0x200));
    let token = g.token();
    let address = g.item().stamp_pointer().addr();
    assert_eq!(m.release(g), Ok(()));
    let g = m.get(Some(token)).unwrap();
    assert_eq!(g.item().owner(), None);
    assert_eq!(g.item().stamp_pointer().addr(), address);
    assert_eq!(m.current(&g), EventValue(0x200));
    let h = m.get(None).unwrap();
    assert_eq!(h.slot(), 1);
    assert_eq!(m.current(&h), EventValue(0x100));
    assert!(m.current(&h) < m.current(&g));
}

#[test]
fn event_manager_needs_room_in_both_memories() {
    let private = Region::new(0x1000_0000, 0x10_0000_0000, 0x4000).unwrap();
    let shared = Region::new(0x2000_0000, 0x20_0000_0000, 0).unwrap();
    let gpu = Region::new(0x3000_0000, 0x30_0000_0000, 0).unwrap();
    let mut alloc = KernelAllocators {
        private: SimpleAllocator::new(private, 0x20),
        shared: SimpleAllocator::new(shared, 0x20),
        gpu: SimpleAllocator::new(gpu, 0x20),
    };
    assert_eq!(EventManager::new(&mut alloc).err(), Some(Error::NoMemory));
    let shared = Region::new(0x2000_0000, 0x20_0000_0000, 0x4000).unwrap();
    let private = Region::new(0x1000_0000, 0x10_0000_0000, 0).unwrap();
    let gpu = Region::new(0x3000_0000, 0x30_0000_0000, 0).unwrap();
    let mut alloc = KernelAllocators {
        private: SimpleAllocator::new(private, 0x20),
        shared: SimpleAllocator::new(shared, 0x20),
        gpu: SimpleAllocator::new(gpu, 0x20),
    };
    assert_eq!(EventManager::new(&mut alloc).err(), Some(Error::NoMemory));
    let mut alloc = KernelAllocators {
        private: SimpleAllocator::new(shared, 24),
        shared: SimpleAllocator::new(shared, 0x20),
        gpu: SimpleAllocator::new(gpu, 0x20),
    };
    assert_eq!(EventManager::new(&mut alloc).err(), Some(Error::InvalidArgument));
    assert_eq!(alloc.shared.used(), 0);
    assert_eq!(alloc.private.used(), 0);
}
