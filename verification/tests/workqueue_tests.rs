use asahi::allocator::{Region, SimpleAllocator};
use asahi::channel::PipeChannel;
use asahi::error::Error;
use asahi::event::EventManager;
use asahi::fw::channels::PipeType;
use asahi::fw::event::NotifierList;
use asahi::fw::types::{Array, U64};
use asahi::fw::workqueue::raw::{priority, Priority, DEFAULT_PRIORITY, NUM_PRIORITIES};
use asahi::fw::workqueue::{Barrier, CommandType, GPUContextData};
use asahi::gpu::KernelAllocators;
use asahi::object::{GPUObject, GPUStruct, GPUWeakPointer};
use asahi::workqueue::{WorkQueue, WorkQueueBatch};

fn queue_allocators() -> KernelAllocators {
    let private = Region::new(0x1000_0000, 0x10_0000_0000, 0x40_0000).unwrap();
    let shared = Region::new(0x2000_0000, 0x20_0000_0000, 0x40_0000).unwrap();
    let gpu = Region::new(0x3000_0000, 0x30_0000_0000, 0x40_0000).unwrap();
    KernelAllocators {
        private: SimpleAllocator::new(private, 0x20),
        shared: SimpleAllocator::new(shared, 0x20),
        gpu: SimpleAllocator::new(gpu, 0x20),
    }
}

struct Marker {}

impl GPUStruct for Marker {
    type Raw = u64;
}

fn notifier(alloc: &mut KernelAllocators) -> GPUWeakPointer<NotifierList> {
    let o = alloc.gpu.new_object(Marker {}, |_| 0u64).ok().unwrap();
    o.weak_pointer().offset::<NotifierList>(0)
}

#[test]
fn priorities_are_the_four_of_the_firmware() {
    assert_eq!(NUM_PRIORITIES, 4);
    assert_eq!(priority(0), Some(Priority(0, 0, U64(0xffff_ffff_ffff_0000), 1, 0, 1)));
    assert_eq!(priority(1), Some(Priority(1, 1, U64(0xffff_ffff_0000_0000), 0, 0, 0)));
    assert_eq!(priority(2), Some(Priority(2, 2, U64(0xffff_0000_0000_0000), 0, 0, 2)));
    assert_eq!(priority(3), Some(Priority(3, 3, U64(0), 0, 0, 3)));
    assert_eq!(priority(4), None);
    assert_eq!(priority(usize::MAX), None);
}

#[test]
fn default_priority_is_not_the_lowest() {
    assert_eq!(DEFAULT_PRIORITY, 2);
    assert_eq!(Some(Priority::default()), priority(2));
    assert_ne!(Some(Priority::default()), priority(0));
    assert_ne!(Some(Priority::default()), priority(3));
    assert_eq!(Priority::default().0, 2);
}

#[test]
fn command_kinds_have_the_tags_of_the_firmware() {
    assert_eq!(CommandType::RunVertex.tag(), 0);
    assert_eq!(CommandType::RunFragment.tag(), 1);
    assert_eq!(CommandType::RunBlitter.tag(), 2);
    assert_eq!(CommandType::RunCompute.tag(), 3);
    assert_eq!(CommandType::Barrier.tag(), 4);
    assert_eq!(CommandType::InitBufferManager.tag(), 6);
    for t in 0..16u32 {
        match CommandType::from_tag(t) {
            Some(c) => assert_eq!(c.tag(), t),
            None => assert!(t == 5 || t > 6),
        }
    }
    assert_eq!(CommandType::from_tag(4), Some(CommandType::Barrier));
    assert_eq!(CommandType::from_tag(5), None);
    assert_eq!(CommandType::from_tag(u32::MAX), None);
}

#[test]
fn context_data_has_its_fixed_defaults() {
    let d = <GPUContextData as GPUStruct>::Raw::default();
    assert_eq!(d.unk_0, 0xffff);
    assert_eq!(d.unk_2, Array::new([0u8; 3]));
    assert_eq!(d.unk_5, 1);
    assert_eq!(d.unk_6, Array::new([0u8; 0x18]));
    assert_eq!(d.unk_1e, 0xff);
    assert_eq!(d.unk_1f, 0);
    assert_eq!(d.unk_20, Array::new([0u8; 3]));
    assert_eq!(d.unk_23, 2);
    assert_eq!(d.unk_24, Array::new([0u8; 0x1c]));
}

fn barrier(
    alloc: &mut KernelAllocators,
    stamp: GPUWeakPointer<u32>,
    wait_value: u32,
) -> GPUObject<Barrier, asahi::allocator::SimpleAllocation<Barrier>> {
    alloc
        .gpu
        .new_object(Barrier {}, |_| asahi::fw::workqueue::raw::Barrier {
            tag: CommandType::Barrier,
            stamp,
            wait_value,
            event: 0,
            stamp_self: 0,
            uuid: 0,
            unk: 0,
        })
        .ok()
        .unwrap()
}

#[test]
fn queue_is_made_empty_with_its_priority() {
    let mut alloc = queue_allocators();
    let list = notifier(&mut alloc);
    let q = WorkQueue::new(&mut alloc, PipeType::Fragment, 1, 0x500, 0x2c18, list, 0x1_0000_0007)
        .ok()
        .unwrap();
    assert_eq!(q.size(), 0x500);
    assert_eq!(q.pipe_type(), PipeType::Fragment);
    assert_eq!(q.id(), 0x1_0000_0007);
    assert_eq!(q.pending(), 0);
    assert_ne!(q.info_pointer().addr(), 0);
    assert_eq!(alloc.shared.used(), 3 * 0x4000);
    assert_eq!(alloc.private.used(), 2 * 0x4000);
}

#[test]
fn queue_creation_checks_its_arguments() {
    let mut alloc = queue_allocators();
    let list = notifier(&mut alloc);
    assert_eq!(
        WorkQueue::new(&mut alloc, PipeType::Vertex, 4, 8, 16, list, 1).err(),
        Some(Error::InvalidArgument)
    );
    assert_eq!(
        WorkQueue::new(&mut alloc, PipeType::Vertex, 0, 0, 16, list, 1).err(),
        Some(Error::InvalidArgument)
    );
    assert_eq!(alloc.shared.used(), 0);
    assert_eq!(alloc.private.used(), 0);
    assert_eq!(
        WorkQueue::new(&mut alloc, PipeType::Vertex, 0, 8, usize::MAX, list, 1).err(),
        Some(Error::NoMemory)
    );
    assert_eq!(
        WorkQueue::new(&mut alloc, PipeType::Vertex, 0, u32::MAX, 16, list, 1).err(),
        Some(Error::NoMemory)
    );
    assert_eq!(alloc.shared.used(), 0);
    assert_eq!(alloc.private.used(), 0);
    assert_eq!(alloc.gpu.used(), 0x4000);
}

#[test]
fn submit_puts_command_addresses_into_the_ring_in_order() {
    let mut alloc = queue_allocators();
    let list = notifier(&mut alloc);
    let mut events = EventManager::new(&mut alloc).unwrap();
    let slot = events.get(None).unwrap();
    let stamp = slot.item().stamp_pointer();
    let mut q = WorkQueue::new(&mut alloc, PipeType::Vertex, 2, 4, 0x100, list, 9).ok().unwrap();
    let a = barrier(&mut alloc, stamp, 0x100);
    let b = barrier(&mut alloc, stamp, 0x200);
    let c = barrier(&mut alloc, stamp, 0x300);
    let d = barrier(&mut alloc, stamp, 0x400);
    assert_eq!(a.with(|raw, _| (raw.tag, raw.wait_value, raw.stamp.addr())), (CommandType::Barrier, 0x100, stamp.addr()));
    assert_eq!(q.firmware_take(), None);
    assert_eq!(q.submit(&a), Ok(()));
    assert_eq!(q.submit(&b), Ok(()));
    assert_eq!(q.submit(&c), Ok(()));
    assert_eq!(q.pending(), 3);
    assert_eq!(q.submit(&d), Err(Error::Busy));
    assert_eq!(q.pending(), 3);
    assert_eq!(q.firmware_take(), Some(a.gpu_va()));
    assert_eq!(q.firmware_take(), Some(b.gpu_va()));
    assert_eq!(q.pending(), 3);
    assert_eq!(q.submit(&d), Ok(()));
    assert_eq!(q.pending(), 4);
    assert_eq!(q.firmware_take(), Some(c.gpu_va()));
    assert_eq!(q.firmware_take(), Some(d.gpu_va()));
    assert_eq!(q.firmware_take(), None);
    assert_ne!(a.gpu_va(), b.gpu_va());
    assert_eq!(q.size(), 4);
}

#[test]
fn pending_goes_down_only_on_completion() {
    let mut alloc = queue_allocators();
    let list = notifier(&mut alloc);
    let mut events = EventManager::new(&mut alloc).unwrap();
    let slot = events.get(None).unwrap();
    let stamp = slot.item().stamp_pointer();
    let mut q = WorkQueue::new(&mut alloc, PipeType::Compute, 3, 8, 0x100, list, 9).ok().unwrap();
    assert_eq!(q.complete(), Err(Error::InvalidArgument));
    assert_eq!(q.pending(), 0);
    let a = barrier(&mut alloc, stamp, 1);
    for n in 1..=5u32 {
        assert_eq!(q.submit(&a), Ok(()));
        assert_eq!(q.pending(), n);
    }
    assert_eq!(q.firmware_take(), Some(a.gpu_va()));
    assert_eq!(q.pending(), 5);
    assert_eq!(q.complete(), Ok(()));
    assert_eq!(q.pending(), 4);
    for n in (0..4u32).rev() {
        assert_eq!(q.complete(), Ok(()));
        assert_eq!(q.pending(), n);
    }
    assert_eq!(q.complete(), Err(Error::InvalidArgument));
    assert_eq!(q.pending(), 0);
}

#[test]
fn batch_carries_its_message_to_the_pipe() {
    let mut alloc = queue_allocators();
    let list = notifier(&mut alloc);
    let q = WorkQueue::new(&mut alloc, PipeType::Compute, 3, 8, 0x100, list, 9).ok().unwrap();
    let mut msg = Array::new([0u8; 0x30]);
    *msg.index_mut(0) = 2;
    *msg.index_mut(4) = 0xee;
    let batch = WorkQueueBatch::new(&q, msg);
    assert_eq!(batch.pipe_type(), PipeType::Compute);
    let mut pipe = PipeChannel::new(&mut alloc).unwrap();
    assert_eq!(batch.submit(&mut pipe), Ok(()));
    assert_eq!(batch.submit(&mut pipe), Ok(()));
    assert_eq!(pipe.ch.firmware_take(), Some(msg));
    assert_eq!(pipe.ch.firmware_take(), Some(msg));
    assert_eq!(pipe.ch.firmware_take(), None);
}
