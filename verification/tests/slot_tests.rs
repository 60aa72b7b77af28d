use asahi::error::Error;
use asahi::slotalloc::{Guard, SlotAllocator, SlotItem, SlotToken};

#[derive(Debug, PartialEq)]
struct Counter {
    number: u32,
    releases: u32,
    scratch: u32,
}

impl SlotItem for Counter {
    type Owner = u32;

    fn release(&mut self) {
        self.releases += 1;
        self.scratch = 0;
    }
}

fn pool(n: u32) -> SlotAllocator<Counter> {
    SlotAllocator::new(n, 1000, |base: &u32, i: u32| Counter {
        number: *base + i,
        releases: 0,
        scratch: 0,
    })
}

#[test]
fn pool_builds_each_item_from_its_number() {
    let mut p = pool(3);
    assert_eq!(p.len(), 3);
    assert_eq!(*p.data(), 1000);
    let a = p.get(None).unwrap();
    let b = p.get(None).unwrap();
    let c = p.get(None).unwrap();
    assert_eq!(a.item(), &Counter { number: 1000, releases: 0, scratch: 0 });
    assert_eq!(b.item().number, 1001);
    assert_eq!(c.item().number, 1002);
    assert_eq!((a.slot(), b.slot(), c.slot()), (0, 1, 2));
    *p.data_mut() = 5;
    assert_eq!(*p.data(), 5);
}

#[test]
fn empty_pool_is_always_busy() {
    let mut p = pool(0);
    assert_eq!(p.len(), 0);
    assert_eq!(p.get(None).err(), Some(Error::Busy));
    assert_eq!(p.get(Some(SlotToken { time: 0, slot: 0 })).err(), Some(Error::Busy));
}

#[test]
fn release_runs_the_hook_and_frees_the_slot() {
    let mut p = pool(1);
    let mut g = p.get(None).unwrap();
    g.item_mut().scratch = 77;
    assert_eq!(g.item().scratch, 77);
    assert_eq!(p.get(None).err(), Some(Error::Busy));
    let t = g.token();
    assert_eq!(t, SlotToken { time: 1, slot: 0 });
    assert_eq!(p.release(g), Ok(()));
    let g = p.get(Some(t)).unwrap();
    assert!(!g.changed());
    assert_eq!(g.item(), &Counter { number: 1000, releases: 1, scratch: 0 });
    assert_eq!(p.release(g), Ok(()));
    let g = p.get(None).unwrap();
    assert!(g.changed());
    assert_eq!(g.token(), SlotToken { time: 2, slot: 0 });
    assert_eq!(g.item().releases, 2);
}

#[test]
fn a_fresh_token_at_time_zero_names_a_fresh_slot() {
    let mut p = pool(4);
    let g = p.get(Some(SlotToken { time: 0, slot: 2 })).unwrap();
    assert_eq!(g.slot(), 2);
    assert!(!g.changed());
    let h = p.get(Some(SlotToken { time: 0, slot: 2 })).unwrap();
    assert_eq!(h.slot(), 0);
    assert!(h.changed());
    let i = p.get(Some(SlotToken { time: 9, slot: 1 })).unwrap();
    assert_eq!(i.slot(), 1);
    assert!(i.changed());
}

#[test]
fn slots_come_back_in_the_order_of_release() {
    let mut p = pool(4);
    let mut held: Vec<Guard<Counter>> = Vec::new();
    for _ in 0..4 {
        held.push(p.get(None).unwrap());
    }
    let order = [2usize, 0, 3, 1];
    let mut by_slot: Vec<Option<Guard<Counter>>> = held.into_iter().map(Some).collect();
    for s in order {
        assert_eq!(p.release(by_slot[s].take().unwrap()), Ok(()));
    }
    for s in order {
        let g = p.get(None).unwrap();
        assert_eq!(g.slot() as usize, s);
        by_slot[s] = Some(g);
    }
    assert_eq!(p.get(None).err(), Some(Error::Busy));
}

#[test]
fn a_guard_of_another_pool_is_refused() {
    let mut big = pool(8);
    let mut small = pool(2);
    let mut guards = Vec::new();
    for _ in 0..6 {
        guards.push(big.get(None).unwrap());
    }
    let g5 = guards.pop().unwrap();
    assert_eq!(g5.slot(), 5);
    assert_eq!(small.release(g5), Err(Error::InvalidArgument));
    let g4 = guards.pop().unwrap();
    let g1 = guards.remove(1);
    assert_eq!(g1.slot(), 1);
    assert_eq!(small.release(g1), Err(Error::InvalidArgument));
    let s0 = small.get(None).unwrap();
    let s1 = small.get(None).unwrap();
    assert_eq!((s0.slot(), s1.slot()), (0, 1));
    assert_eq!(big.release(g4), Ok(()));
}

#[test]
fn a_guard_of_another_time_is_refused() {
    let mut big = pool(8);
    let mut small = pool(2);
    let from_big = big.get(None).unwrap();
    assert_eq!(from_big.token(), SlotToken { time: 1, slot: 0 });
    let from_small = small.get(Some(SlotToken { time: 0, slot: 0 })).unwrap();
    assert_eq!(from_small.token(), SlotToken { time: 0, slot: 0 });
    assert_eq!(small.release(from_big), Err(Error::InvalidArgument));
    assert_eq!(small.get(None).unwrap().slot(), 1);
    assert_eq!(small.get(None).err(), Some(Error::Busy));
    assert_eq!(small.release(from_small), Ok(()));
    assert_eq!(small.get(None).unwrap().slot(), 0);
}

#[test]
fn the_only_free_slot_is_the_one_that_came_back() {
    let mut p = pool(5);
    let mut held: Vec<Option<Guard<Counter>>> = Vec::new();
    for _ in 0..5 {
        held.push(Some(p.get(None).unwrap()));
    }
    for s in [3usize, 0, 4, 3, 3, 1] {
        assert_eq!(p.get(None).err(), Some(Error::Busy));
        assert_eq!(p.release(held[s].take().unwrap()), Ok(()));
        let g = p.get(None).unwrap();
        assert_eq!(g.slot() as usize, s);
        assert!(g.changed());
        held[s] = Some(g);
    }
}
