use asahi::allocator::Region;
use asahi::channel::StatsEvent;
use asahi::driver::{AsahiDriver, ASC_CTL_SIZE, CPU_CONTROL, CPU_RUN};
use asahi::error::Error;
use asahi::fw::channels::PipeType;
use asahi::fw::event::NotifierList;
use asahi::fw::initdata::NUM_IO_MAPPINGS;
use asahi::fw::types::Array;
use asahi::gem::VMap;
use asahi::gpu::{
    device_control_doorbell, init_message, io_pages, is_rx_doorbell, pipe_doorbell, shmem_alloc,
    AllocatorKind, GPUManager, InitMessages, DOORBELL_DEVCTRL,
    DOORBELL_KICKFW, EP_DOORBELL, EP_FIRMWARE, INIT_DATA_MASK, MIN_ALIGN, MSG_FWCTL, MSG_HALT,
    MSG_INIT, MSG_RX_DOORBELL, MSG_TX_DOORBELL, NUM_PIPES,
};
use asahi::hw::{HWConfig, IOMapping};
use asahi::mmu::Mapping;
use asahi::workqueue::{WorkQueue, WorkQueueBatch};

const PRIVATE_PAGES: usize = 17;
const SHARED_PAGES: usize = 27;

fn regions(private_pages: usize, shared_pages: usize) -> (Region, Region, Region) {
    (
        Region::new(0x1000_0000, 0x10_0000_0000, private_pages * 0x4000).unwrap(),
        Region::new(0x2000_0000, 0x20_0000_0000, shared_pages * 0x4000).unwrap(),
        Region::new(0x3000_0000, 0x30_0000_0000, 0x10_0000).unwrap(),
    )
}

fn no_io() -> HWConfig {
    HWConfig { io_mappings: Vec::new(), stats_max: 0xc }
}

fn identity_map(base: usize, len: usize) -> Result<Mapping, Error> {
    Ok(Mapping { iova: 0xf00_0000_0000 + base, size: len })
}

fn manager() -> GPUManager {
    let (p, s, g) = regions(64, 64);
    GPUManager::new(p, s, g, &no_io(), &identity_map).ok().unwrap()
}

#[test]
fn messages_have_their_tags_in_the_high_bits() {
    assert_eq!(EP_FIRMWARE, 0x20);
    assert_eq!(EP_DOORBELL, 0x21);
    assert_eq!(MSG_INIT, 0x81 << 48);
    assert_eq!(INIT_DATA_MASK, (1 << 44) - 1);
    assert_eq!(MSG_TX_DOORBELL, 0x83 << 48);
    assert_eq!(MSG_FWCTL, 0x84 << 48);
    assert_eq!(MSG_HALT, 0x85 << 48);
    assert_eq!(MSG_RX_DOORBELL, 0x42 << 48);
    assert_eq!(DOORBELL_KICKFW, 0x10);
    assert_eq!(DOORBELL_DEVCTRL, 0x11);
    assert_eq!(NUM_PIPES, 4);
    assert_eq!(MIN_ALIGN, 0x20);
}

#[test]
fn pipe_doorbells_name_pipeline_and_channel() {
    assert_eq!(pipe_doorbell(PipeType::Vertex, 0), 0x0083_0000_0000_0000);
    assert_eq!(pipe_doorbell(PipeType::Fragment, 0), 0x0083_0000_0000_0001);
    assert_eq!(pipe_doorbell(PipeType::Compute, 0), 0x0083_0000_0000_0002);
    assert_eq!(pipe_doorbell(PipeType::Vertex, 1), 0x0083_0000_0000_0004);
    assert_eq!(pipe_doorbell(PipeType::Compute, 3), 0x0083_0000_0000_000e);
}

#[test]
fn manager_takes_exactly_the_room_it_needs() {
    let (p, s, g) = regions(PRIVATE_PAGES, SHARED_PAGES);
    let m = GPUManager::new(p, s, g, &no_io(), &identity_map).ok().unwrap();
    assert_eq!(m.alloc.private.used(), PRIVATE_PAGES * 0x4000);
    assert_eq!(m.alloc.shared.used(), SHARED_PAGES * 0x4000);
    assert_eq!(m.alloc.gpu.used(), 0);
    assert_eq!(m.alloc.shared.min_align(), 0x20);
    assert!(!m.initialized);
    assert!(m.io_mappings.is_empty());
    assert_eq!(m.pipes.vtx.len(), 4);
    assert_eq!(m.pipes.frag.len(), 4);
    assert_eq!(m.pipes.comp.len(), 4);
    assert_eq!(m.rx_channels.stats.stats_max, 0xc);
    let (p, s, g) = regions(PRIVATE_PAGES - 1, SHARED_PAGES);
    assert_eq!(
        GPUManager::new(p, s, g, &no_io(), &identity_map).err(),
        Some(Error::NoMemory)
    );
    let (p, s, g) = regions(PRIVATE_PAGES, SHARED_PAGES - 1);
    assert_eq!(
        GPUManager::new(p, s, g, &no_io(), &identity_map).err(),
        Some(Error::NoMemory)
    );
    let (p, s, g) = regions(0, 0);
    assert_eq!(
        GPUManager::build(p, s, g, 0).err(),
        Some(Error::NoMemory)
    );
}

#[test]
fn firmware_is_told_of_every_channel() {
    let m = manager();
    let init = m.initdata.deref();
    let (dc, ev, log, kt, st, pipes) = init.runtime_pointers.with(|raw, _| {
        (
            raw.device_control.as_ref().map(|c| (c.state.addr(), c.ring.addr())),
            raw.event.as_ref().map(|c| (c.state.addr(), c.ring.addr())),
            raw.fw_log.as_ref().map(|c| (c.state.addr(), c.ring.addr())),
            raw.ktrace.as_ref().map(|c| (c.state.addr(), c.ring.addr())),
            raw.stats.as_ref().map(|c| (c.state.addr(), c.ring.addr())),
            raw.pipes
                .iter()
                .map(|p| {
                    [
                        (p.vtx.state.addr(), p.vtx.ring.addr()),
                        (p.frag.state.addr(), p.frag.ring.addr()),
                        (p.comp.state.addr(), p.comp.ring.addr()),
                    ]
                })
                .collect::<Vec<_>>(),
        )
    });
    let of_tx = |c: asahi::fw::initdata::raw::ChannelRing<_, _>| (c.state.addr(), c.ring.addr());
    assert_eq!(dc, Some(of_tx(m.tx_channels.device_control.to_raw())));
    let e = m.rx_channels.event.to_raw();
    assert_eq!(ev, Some((e.state.addr(), e.ring.addr())));
    let l = m.rx_channels.fw_log.to_raw();
    assert_eq!(log, Some((l.state.addr(), l.ring.addr())));
    let k = m.rx_channels.ktrace.to_raw();
    assert_eq!(kt, Some((k.state.addr(), k.ring.addr())));
    let s = m.rx_channels.stats.to_raw();
    assert_eq!(st, Some((s.state.addr(), s.ring.addr())));
    assert_eq!(pipes.len(), 4);
    for i in 0..4 {
        assert_eq!(pipes[i][0], of_tx(m.pipes.vtx[i].to_raw()));
        assert_eq!(pipes[i][1], of_tx(m.pipes.frag[i].to_raw()));
        assert_eq!(pipes[i][2], of_tx(m.pipes.comp[i].to_raw()));
    }
    assert_eq!(pipes[0][0], (0x20_0000_0000 + 0x3fc0, 0x10_0000_c000 + 0x1000));
    assert_eq!(pipes[0][1], (0x20_0000_4000 + 0x3fc0, 0x10_0001_0000 + 0x1000));
    let hw = init.runtime_pointers.with(|raw, inner| (raw.hwdata_b.addr(), inner.hwdata_b.gpu_va()));
    assert_eq!(hw.0, hw.1);
    let rt = m.initdata.with(|raw, inner| (raw.runtime_pointers.addr(), inner.runtime_pointers.gpu_va()));
    assert_eq!(rt.0, rt.1);
}

#[test]
fn init_sends_address_then_doorbell() {
    let mut m = manager();
    let va = m.initdata.gpu_va();
    assert_eq!(va, 0x10_0000_8000 + 0x3fe0);
    assert_eq!(m.init_message(), 0x0081_0010_0000_bfe0);
    let mut hello = Array::new([0u8; 0x30]);
    *hello.index_mut(0) = 0x19;
    let msgs = m.init(&hello).unwrap();
    assert_eq!(
        msgs,
        InitMessages { firmware: 0x0081_0010_0000_bfe0, doorbell: 0x0083_0000_0000_0011 }
    );
    assert!(m.initialized);
    assert_eq!(m.tx_channels.device_control.ch.firmware_take(), Some(hello));
    assert_eq!(m.tx_channels.device_control.ch.firmware_take(), None);
}

#[test]
fn init_message_keeps_only_the_address_bits() {
    let p = Region::new(0x1000_0000, 0xffff_f000_0000_0000, 64 * 0x4000).unwrap();
    let (_, s, g) = regions(64, 64);
    let m = GPUManager::new(p, s, g, &no_io(), &identity_map).ok().unwrap();
    assert_eq!(m.initdata.gpu_va(), 0xffff_f000_0000_bfe0);
    assert_eq!(m.init_message(), 0x0081_0000_0000_bfe0);
}

#[test]
fn init_fails_on_a_full_device_control_channel() {
    let mut m = manager();
    let hello = Array::new([0u8; 0x30]);
    for _ in 0..0xff {
        m.tx_channels.device_control.send(&hello).unwrap();
    }
    assert_eq!(m.init(&hello), Err(Error::Busy));
    assert!(!m.initialized);
}

#[test]
fn only_the_firmware_doorbell_is_heard() {
    let mut m = manager();
    let ev = Array::new([7u8; 0x38]);
    m.rx_channels.event.ch.firmware_post(0, &ev).unwrap();
    assert!(m.recv_message(EP_DOORBELL, MSG_RX_DOORBELL).is_none());
    assert!(m.recv_message(EP_FIRMWARE, MSG_RX_DOORBELL | 1).is_none());
    assert!(m.recv_message(EP_FIRMWARE, MSG_TX_DOORBELL).is_none());
    assert!(m.recv_message(0, 0).is_none());
    let polled = m.recv_message(EP_FIRMWARE, MSG_RX_DOORBELL).unwrap();
    assert_eq!(polled.event, vec![ev]);
}

#[test]
fn doorbell_polls_every_channel() {
    let mut m = manager();
    let ev = Array::new([1u8; 0x38]);
    let kt = Array::new([2u8; 0x38]);
    let log = Array::new([3u8; 0xd8]);
    let mut known = Array::new([0u8; 0x60]);
    *known.index_mut(0) = 4;
    let unknown = Array::new([0xffu8; 0x60]);
    m.rx_channels.event.ch.firmware_post(0, &ev).unwrap();
    m.rx_channels.ktrace.ch.firmware_post(0, &kt).unwrap();
    m.rx_channels.ktrace.ch.firmware_post(0, &kt).unwrap();
    m.rx_channels.fw_log.ch.firmware_post(3, &log).unwrap();
    m.rx_channels.stats.ch.firmware_post(0, &unknown).unwrap();
    m.rx_channels.stats.ch.firmware_post(0, &known).unwrap();
    let p = m.recv_message(EP_FIRMWARE, MSG_RX_DOORBELL).unwrap();
    assert_eq!(p.event, vec![ev]);
    assert_eq!(p.ktrace, vec![kt, kt]);
    assert_eq!(p.fw_log.len(), 6);
    assert_eq!(p.fw_log[3], vec![log]);
    assert!(p.fw_log[0].is_empty() && p.fw_log[5].is_empty());
    assert_eq!(p.stats, vec![StatsEvent::Unknown(unknown), StatsEvent::Stats(known)]);
    let p = m.recv_message(EP_FIRMWARE, MSG_RX_DOORBELL).unwrap();
    assert!(p.event.is_empty() && p.ktrace.is_empty() && p.stats.is_empty());
    assert!(p.fw_log.iter().all(|s| s.is_empty()));
}

fn queue_on(m: &mut GPUManager, pipe_type: PipeType) -> WorkQueue {
    let marker = m.alloc.gpu.new_array::<u64>(1).ok().unwrap();
    let list = marker.weak_item_pointer(0).offset::<NotifierList>(0);
    WorkQueue::new(&mut m.alloc, pipe_type, 2, 8, 0x100, list, 1).ok().unwrap()
}

#[test]
fn batches_go_to_the_first_channel_of_their_pipeline() {
    let mut m = manager();
    let vq = queue_on(&mut m, PipeType::Vertex);
    let fq = queue_on(&mut m, PipeType::Fragment);
    let cq = queue_on(&mut m, PipeType::Compute);
    let a = Array::new([0xa; 0x30]);
    let b = Array::new([0xb; 0x30]);
    let c = Array::new([0xc; 0x30]);
    assert_eq!(m.submit_batch(&WorkQueueBatch::new(&vq, a)), Ok(0x0083_0000_0000_0000));
    assert_eq!(m.submit_batch(&WorkQueueBatch::new(&fq, b)), Ok(0x0083_0000_0000_0001));
    assert_eq!(m.submit_batch(&WorkQueueBatch::new(&cq, c)), Ok(0x0083_0000_0000_0002));
    assert_eq!(m.submit_batch(&WorkQueueBatch::new(&cq, a)), Ok(0x0083_0000_0000_0002));
    assert_eq!(m.pipes.vtx[0].ch.firmware_take(), Some(a));
    assert_eq!(m.pipes.vtx[0].ch.firmware_take(), None);
    assert_eq!(m.pipes.frag[0].ch.firmware_take(), Some(b));
    assert_eq!(m.pipes.comp[0].ch.firmware_take(), Some(c));
    assert_eq!(m.pipes.comp[0].ch.firmware_take(), Some(a));
    for i in 1..4 {
        assert_eq!(m.pipes.vtx[i].ch.firmware_take(), None);
        assert_eq!(m.pipes.frag[i].ch.firmware_take(), None);
        assert_eq!(m.pipes.comp[i].ch.firmware_take(), None);
    }
}

#[test]
fn batch_on_a_full_pipe_is_busy() {
    let mut m = manager();
    let vq = queue_on(&mut m, PipeType::Vertex);
    let a = Array::new([0xa; 0x30]);
    let batch = WorkQueueBatch::new(&vq, a);
    for _ in 0..0xff {
        assert!(m.submit_batch(&batch).is_ok());
    }
    assert_eq!(m.submit_batch(&batch), Err(Error::Busy));
    assert_eq!(m.pipes.vtx[0].ch.firmware_take(), Some(a));
    assert_eq!(m.submit_batch(&batch), Ok(0x0083_0000_0000_0000));
}

#[test]
fn register_ranges_are_mapped_by_whole_pages() {
    let map = IOMapping { base: 0x2_3520_4010, size: 0x100, range_size: 0x100, writable: false };
    assert_eq!(io_pages(0, &map), Ok((0x2_3520_4000, 0x4000, 0x10)));
    let map = IOMapping { base: 0x2_0000_3ff0, size: 0x20, range_size: 0x20, writable: true };
    assert_eq!(io_pages(3, &map), Ok((0x2_0000_0000, 0x8000, 0x3ff0)));
    let map = IOMapping { base: 0x2_0000_4000, size: 0x4000, range_size: 0x4000, writable: true };
    assert_eq!(io_pages(0x13, &map), Ok((0x2_0000_4000, 0x4000, 0)));
    let map = IOMapping { base: 0x2_0000_4000, size: 0, range_size: 0, writable: true };
    assert_eq!(io_pages(0, &map), Ok((0x2_0000_4000, 0, 0)));
    let map = IOMapping { base: 0x2_0000_4001, size: 0, range_size: 0, writable: true };
    assert_eq!(io_pages(0, &map), Ok((0x2_0000_4000, 0x4000, 1)));
}

#[test]
fn register_ranges_are_checked() {
    let map = IOMapping { base: 0x4000, size: 0x100, range_size: 0x100, writable: false };
    assert_eq!(NUM_IO_MAPPINGS, 0x14);
    assert_eq!(io_pages(0x14, &map), Err(Error::InvalidArgument));
    let map = IOMapping { base: 0x4000, size: 0x1_0000_0000, range_size: 0x100, writable: false };
    assert_eq!(io_pages(0, &map), Err(Error::InvalidArgument));
    let map = IOMapping { base: 0x4000, size: 0x100, range_size: 0x1_0000_0000, writable: false };
    assert_eq!(io_pages(0, &map), Err(Error::InvalidArgument));
    let map = IOMapping { base: usize::MAX - 0x10, size: 0x100, range_size: 1, writable: false };
    assert_eq!(io_pages(0, &map), Err(Error::NoSpace));
    let map = IOMapping { base: usize::MAX - 0x200, size: 0x100, range_size: 1, writable: false };
    assert_eq!(io_pages(0, &map), Err(Error::NoSpace));
    let map = IOMapping { base: usize::MAX - 0x3fff, size: 0, range_size: 1, writable: false };
    assert_eq!(io_pages(0, &map), Ok((usize::MAX - 0x3fff, 0, 0)));
}

fn io_table(m: &GPUManager) -> Vec<Option<asahi::fw::initdata::raw::IOMapping>> {
    m.initdata.deref().runtime_pointers.deref().hwdata_b.with(|raw, _| raw.io_mappings.clone())
}

#[test]
fn mapped_ranges_are_told_to_the_firmware() {
    let mut m = manager();
    assert_eq!(io_table(&m), vec![None; 0x14]);
    let map = IOMapping { base: 0x2_3520_4010, size: 0x100, range_size: 0x80, writable: true };
    assert_eq!(m.iomap(2, &map, &identity_map), Ok(()));
    let table = io_table(&m);
    assert_eq!(
        table[2],
        Some(asahi::fw::initdata::raw::IOMapping {
            phys_addr: 0x2_3520_4010,
            virt_addr: 0xf02_3520_4010,
            size: 0x100,
            range_size: 0x80,
            readwrite: 1,
        })
    );
    assert!(table.iter().enumerate().all(|(i, e)| i == 2 || e.is_none()));
    assert_eq!(m.io_mappings, vec![Mapping { iova: 0xf02_3520_4000, size: 0x4000 }]);
    assert_eq!(m.iomap(0x14, &map, &identity_map), Err(Error::InvalidArgument));
    assert_eq!(m.iomap(1, &map, &|_, _| Err(Error::NoMemory)), Err(Error::NoMemory));
    assert_eq!(
        m.iomap(1, &map, &|_, len| Ok(Mapping { iova: usize::MAX - 0xf, size: len })),
        Err(Error::NoSpace)
    );
    assert_eq!(io_table(&m), table);
    assert_eq!(m.io_mappings.len(), 1);
    let ro = IOMapping { base: 0x4000, size: 8, range_size: 8, writable: false };
    assert_eq!(m.iomap(2, &ro, &identity_map), Ok(()));
    assert_eq!(io_table(&m)[2].unwrap().readwrite, 0);
    assert_eq!(io_table(&m)[2].unwrap().virt_addr, 0xf00_0000_4000);
    assert_eq!(m.io_mappings.len(), 2);
}

#[test]
fn manager_maps_the_ranges_of_its_configuration() {
    let a = IOMapping { base: 0x2_0000_0000, size: 0x4000, range_size: 0x4000, writable: true };
    let b = IOMapping { base: 0x2_0400_0008, size: 0x10, range_size: 0x10, writable: false };
    let cfg = HWConfig { io_mappings: vec![Some(a), None, Some(b)], stats_max: 5 };
    let (p, s, g) = regions(64, 64);
    let m = GPUManager::new(p, s, g, &cfg, &identity_map).ok().unwrap();
    let table = io_table(&m);
    assert_eq!(table[0].unwrap().virt_addr, 0xf02_0000_0000);
    assert_eq!(table[0].unwrap().phys_addr, 0x2_0000_0000);
    assert_eq!(table[1], None);
    assert_eq!(table[2].unwrap().virt_addr, 0xf02_0400_0008);
    assert_eq!(table[2].unwrap().size, 0x10);
    assert!(table[3..].iter().all(|e| e.is_none()));
    assert_eq!(m.io_mappings.len(), 2);
    assert_eq!(m.rx_channels.stats.stats_max, 5);
    let (p, s, g) = regions(64, 64);
    let failing = |base: usize, len: usize| {
        if base == 0x2_0400_0000 {
            Err(Error::NoSpace)
        } else {
            Ok(Mapping { iova: base, size: len })
        }
    };
    assert_eq!(GPUManager::new(p, s, g, &cfg, &failing).err(), Some(Error::NoSpace));
    let mut many = vec![None; 0x14];
    many.push(Some(a));
    let cfg = HWConfig { io_mappings: many, stats_max: 5 };
    let (p, s, g) = regions(64, 64);
    assert_eq!(
        GPUManager::new(p, s, g, &cfg, &identity_map).err(),
        Some(Error::InvalidArgument)
    );
}

#[test]
fn firmware_buffer_is_shown_to_host_then_gpu() {
    let calls = std::cell::RefCell::new(Vec::new());
    let obj = shmem_alloc(
        0x8000,
        |size| {
            calls.borrow_mut().push(("vmap", size));
            Ok(VMap { addr: 0x7000_0000, size })
        },
        |size| {
            calls.borrow_mut().push(("map", size));
            Ok(Mapping { iova: 0x10_0000, size })
        },
    )
    .ok()
    .unwrap();
    assert_eq!(*calls.borrow(), vec![("vmap", 0x8000), ("map", 0x8000)]);
    assert_eq!(obj.size(), 0x8000);
    assert_eq!(obj.iova(), Some(0x10_0000));
    assert_eq!(obj.vmap, Some(VMap { addr: 0x7000_0000, size: 0x8000 }));
    let mut mapped = false;
    let r = shmem_alloc(
        0x8000,
        |_| Err(Error::NoMemory),
        |size| {
            mapped = true;
            Ok(Mapping { iova: 0x10_0000, size })
        },
    );
    assert_eq!(r.err(), Some(Error::NoMemory));
    assert!(!mapped);
    let r = shmem_alloc(0x8000, |size| Ok(VMap { addr: 1, size }), |_| Err(Error::NoSpace));
    assert_eq!(r.err(), Some(Error::NoSpace));
}

#[test]
fn starting_the_coprocessor_sets_the_run_bit() {
    assert_eq!(ASC_CTL_SIZE, 0x4000);
    assert_eq!(CPU_CONTROL, 0x44);
    assert_eq!(CPU_RUN, 1 << 4);
    assert_eq!(AsahiDriver::start_cpu(0), 0x10);
    assert_eq!(AsahiDriver::start_cpu(0x10), 0x10);
    assert_eq!(AsahiDriver::start_cpu(0xffff_ffef), 0xffff_ffff);
    assert_eq!(AsahiDriver::start_cpu(0x8000_0001), 0x8000_0011);
}

#[test]
fn manager_hands_out_event_slots() {
    let mut m = manager();
    let a = m.new_event_slot(None).unwrap();
    let b = m.new_event_slot(None).unwrap();
    assert_eq!((a.slot(), b.slot()), (0, 1));
    let t = a.token();
    assert_eq!(m.release_event_slot(a), Ok(()));
    let again = m.new_event_slot(Some(t)).unwrap();
    assert_eq!(again.slot(), 0);
    assert!(!again.changed());
    assert_eq!(m.event_manager.current(&again), asahi::event::EventValue(0));
    assert_eq!(m.release_event_slot(b), Ok(()));
}

#[test]
fn allocators_are_found_by_kind() {
    let mut m = manager();
    let private = m.alloc.private.used();
    let shared = m.alloc.shared.used();
    assert_eq!(m.alloc.allocator(AllocatorKind::Private).region().gpu_base(), 0x10_0000_0000);
    assert_eq!(m.alloc.allocator(AllocatorKind::Shared).region().gpu_base(), 0x20_0000_0000);
    assert_eq!(m.alloc.allocator(AllocatorKind::Gpu).region().gpu_base(), 0x30_0000_0000);
    let a = m.alloc.allocator(AllocatorKind::Gpu).new_array::<u32>(4).ok().unwrap();
    assert_eq!(a.gpu_va(), 0x30_0000_0000 + 0x3fe0);
    assert_eq!(m.alloc.gpu.used(), 0x4000);
    assert_eq!(m.alloc.private.used(), private);
    assert_eq!(m.alloc.shared.used(), shared);
    let marks = m.alloc.mark();
    let _b = m.alloc.allocator(AllocatorKind::Shared).new_array::<u32>(4).ok().unwrap();
    let _c = m.alloc.allocator(AllocatorKind::Private).new_array::<u32>(4).ok().unwrap();
    assert_eq!(m.alloc.shared.used(), shared + 0x4000);
    m.alloc.rewind(marks);
    assert_eq!(m.alloc.shared.used(), shared);
    assert_eq!(m.alloc.private.used(), private);
    assert_eq!(m.alloc.gpu.used(), 0x4000);
}

#[test]
fn messages_are_made_without_a_manager() {
    assert_eq!(init_message(0), 0x0081_0000_0000_0000);
    assert_eq!(init_message(0x10_0000_bfe0), 0x0081_0010_0000_bfe0);
    assert_eq!(init_message(u64::MAX), 0x0081_0fff_ffff_ffff);
    assert_eq!(init_message(0x1000_0000_0000), 0x0081_0000_0000_0000);
    assert_eq!(device_control_doorbell(), 0x0083_0000_0000_0011);
    assert!(is_rx_doorbell(0x20, 0x0042_0000_0000_0000));
    assert!(!is_rx_doorbell(0x21, 0x0042_0000_0000_0000));
    assert!(!is_rx_doorbell(0x20, 0x0042_0000_0000_0001));
    assert!(!is_rx_doorbell(0x20, 0));
}

#[test]
fn receive_channels_poll_on_their_own() {
    let mut m = manager();
    let ev = Array::new([9u8; 0x38]);
    let log = Array::new([8u8; 0xd8]);
    m.rx_channels.event.ch.firmware_post(0, &ev).unwrap();
    m.rx_channels.fw_log.ch.firmware_post(5, &log).unwrap();
    let before = m.rx_channels.event.to_raw().state.addr();
    let p = m.rx_channels.poll();
    assert_eq!(p.event, vec![ev]);
    assert_eq!(p.fw_log[5], vec![log]);
    assert!(p.ktrace.is_empty() && p.stats.is_empty());
    assert_eq!(m.rx_channels.event.to_raw().state.addr(), before);
    let p = m.rx_channels.poll();
    assert!(p.event.is_empty() && p.fw_log.iter().all(|s| s.is_empty()));
}

#[test]
fn one_mapping_is_kept_for_each_range() {
    let a = IOMapping { base: 0x2_0000_0000, size: 0x4000, range_size: 0x4000, writable: true };
    let b = IOMapping { base: 0x2_0400_0008, size: 0x10, range_size: 0x10, writable: false };
    let cfg = HWConfig { io_mappings: vec![None, Some(a), None, None, Some(b), None], stats_max: 5 };
    let (p, s, g) = regions(64, 64);
    let mut m = GPUManager::new(p, s, g, &cfg, &identity_map).ok().unwrap();
    assert_eq!(
        m.io_mappings,
        vec![
            Mapping { iova: 0xf02_0000_0000, size: 0x4000 },
            Mapping { iova: 0xf02_0400_0000, size: 0x4000 },
        ]
    );
    let table = io_table(&m);
    assert_eq!(table[1].unwrap().virt_addr, m.io_mappings[0].iova as u64);
    assert_eq!(table[4].unwrap().virt_addr, m.io_mappings[1].iova as u64 + 8);
    assert_eq!(table.iter().filter(|e| e.is_some()).count(), 2);
    let failing = |base: usize, len: usize| {
        if base == 0x2_0400_0000 {
            Err(Error::NoSpace)
        } else {
            Ok(Mapping { iova: base, size: len })
        }
    };
    let more = HWConfig { io_mappings: vec![None, None, Some(a), Some(b), Some(a)], stats_max: 5 };
    assert_eq!(m.map_config(&more, &failing), Err(Error::NoSpace));
    assert_eq!(m.io_mappings.len(), 3);
    assert_eq!(m.io_mappings[2], Mapping { iova: 0x2_0000_0000, size: 0x4000 });
    let table = io_table(&m);
    assert_eq!(table[2].unwrap().virt_addr, 0x2_0000_0000);
    assert_eq!(table[3], None);
    assert_eq!(table[4].unwrap().virt_addr, 0xf02_0400_0008);
    let none = HWConfig { io_mappings: vec![None; 30], stats_max: 5 };
    assert_eq!(m.map_config(&none, &failing), Ok(()));
    assert_eq!(m.io_mappings.len(), 3);
}
