use asahi::drm::gem::{
    BaseDriverObject, BaseObject, DriverObject, GemObject, IntoGEMObject, Object, ObjectRef,
};
use asahi::drm::private::Sealed;
use asahi::error::Error;
use asahi::gem::{new_object, VMap};
use asahi::mmu::Mapping;

#[derive(Debug, PartialEq)]
struct Picky {
    limit: usize,
    seen: usize,
}

impl DriverObject for Picky {}

impl BaseDriverObject<Object<Picky>> for Picky {
    fn init(obj: &mut Object<Picky>) -> Result<(), Error> {
        let size = obj.size();
        if size > obj.p.limit {
            return Err(Error::NoSpace);
        }
        obj.p.seen = size;
        Ok(())
    }

    fn uninit(obj: &mut Object<Picky>) {
        obj.p.seen = 0;
        obj.p.limit += 1;
    }
}

struct Plain {}

impl DriverObject for Plain {}

impl BaseDriverObject<Object<Plain>> for Plain {}

fn size_of_any<T: BaseObject>(o: &T) -> usize {
    o.size()
}

fn is_sealed<T: Sealed>(_o: &T) -> bool {
    true
}

#[test]
fn object_records_its_size() {
    let r: ObjectRef<Object<Plain>> = Object::new(Plain {}, 0xc000).ok().unwrap();
    assert_eq!(r.deref().size(), 0xc000);
    assert_eq!(r.deref().gem_obj(), &GemObject { size: 0xc000 });
    assert_eq!(size_of_any(r.deref()), 0xc000);
    assert!(is_sealed(r.deref()));
}

#[test]
fn init_hook_sees_the_object_before_anyone() {
    let r = Object::new(Picky { limit: 0x1000, seen: 0 }, 0x800).ok().unwrap();
    assert_eq!(r.deref().p, Picky { limit: 0x1000, seen: 0x800 });
    assert_eq!(r.deref().size(), 0x800);
}

#[test]
fn init_hook_can_give_the_object_up() {
    let r = Object::new(Picky { limit: 0x1000, seen: 0 }, 0x1001);
    assert_eq!(r.err(), Some(Error::NoSpace));
}

#[test]
fn references_share_one_object() {
    let r = Object::new(Picky { limit: 9, seen: 0 }, 7).ok().unwrap();
    let s = r.clone();
    assert_eq!(s.deref().p.seen, 7);
    assert!(std::ptr::eq(r.deref(), s.deref()));
    drop(r);
    assert_eq!(s.deref().size(), 7);
}

#[test]
fn default_hooks_accept_and_leave_alone() {
    let mut r = Object::new(Plain {}, 0x4000).ok().unwrap();
    let _ = &mut r;
    assert_eq!(r.deref().size(), 0x4000);
}

#[test]
fn driver_object_starts_without_views() {
    let o = new_object(0x8000).ok().unwrap();
    assert_eq!(o.size(), 0x8000);
    assert_eq!(o.iova(), None);
    assert_eq!(o.vmap, None);
    assert_eq!(o.mapping, None);
    assert_eq!(o.region().err(), Some(Error::InvalidArgument));
}

#[test]
fn host_view_is_made_once() {
    let mut o = new_object(0x8000).ok().unwrap();
    let mut calls = 0;
    let v = o.vmap(|size| {
        calls += 1;
        Ok(VMap { addr: 0x7f00_0000, size })
    });
    assert_eq!(v, Ok(VMap { addr: 0x7f00_0000, size: 0x8000 }));
    let v = o.vmap(|size| {
        calls += 1;
        Ok(VMap { addr: 0x1, size })
    });
    assert_eq!(v, Ok(VMap { addr: 0x7f00_0000, size: 0x8000 }));
    assert_eq!(calls, 1);
}

#[test]
fn failed_host_view_can_be_tried_again() {
    let mut o = new_object(0x8000).ok().unwrap();
    assert_eq!(o.vmap(|_| Err(Error::NoMemory)), Err(Error::NoMemory));
    assert_eq!(o.vmap, None);
    assert_eq!(o.vmap(|size| Ok(VMap { addr: 0x4000, size })), Ok(VMap { addr: 0x4000, size: 0x8000 }));
}

#[test]
fn object_is_mapped_once() {
    let mut o = new_object(0x8000).ok().unwrap();
    assert_eq!(o.map_into(|_| Err(Error::NoSpace)), Err(Error::NoSpace));
    assert_eq!(o.iova(), None);
    let m = o.map_into(|size| Ok(Mapping { iova: 0x10_0000, size }));
    assert_eq!(m, Ok(Mapping { iova: 0x10_0000, size: 0x8000 }));
    assert_eq!(o.iova(), Some(0x10_0000));
    let mut called = false;
    let again = o.map_into(|size| {
        called = true;
        Ok(Mapping { iova: 0x20_0000, size })
    });
    assert_eq!(again, Err(Error::Busy));
    assert!(!called);
    assert_eq!(o.iova(), Some(0x10_0000));
}

#[test]
fn object_with_both_views_is_a_region() {
    let mut o = new_object(0x8000).ok().unwrap();
    o.vmap(|size| Ok(VMap { addr: 0x7f00_0000, size })).unwrap();
    assert_eq!(o.region().err(), Some(Error::InvalidArgument));
    o.map_into(|size| Ok(Mapping { iova: 0x10_0000, size })).unwrap();
    let r = o.region().unwrap();
    assert_eq!((r.host_base(), r.gpu_base(), r.len()), (0x7f00_0000, 0x10_0000, 0x8000));
    let mut odd = new_object(0x8000).ok().unwrap();
    odd.vmap(|size| Ok(VMap { addr: 0x7f00_0010, size })).unwrap();
    odd.map_into(|size| Ok(Mapping { iova: 0x10_0000, size })).unwrap();
    assert_eq!(odd.region().err(), Some(Error::InvalidArgument));
    let mut small = new_object(0x100).ok().unwrap();
    small.vmap(|size| Ok(VMap { addr: 0x7f00_0000, size })).unwrap();
    small.map_into(|size| Ok(Mapping { iova: 0x10_0000, size })).unwrap();
    assert_eq!(small.region().err(), Some(Error::InvalidArgument));
}

#[test]
fn last_reference_frees_the_object() {
    let r = Object::new(Picky { limit: 9, seen: 0 }, 7).ok().unwrap();
    assert_eq!(r.deref().p, Picky { limit: 9, seen: 7 });
    let s = r.clone();
    assert_eq!(r.put(), None);
    assert_eq!(s.deref().p, Picky { limit: 9, seen: 7 });
    assert_eq!(s.put(), Some(Picky { limit: 10, seen: 0 }));
}

#[test]
fn default_uninit_hook_leaves_the_data() {
    let r = Object::new(Plain {}, 7).ok().unwrap();
    assert!(r.put().is_some());
}
