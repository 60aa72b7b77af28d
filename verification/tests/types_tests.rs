use asahi::fw::channels::raw::{ChannelState, FWCtlChannelState};
use asahi::fw::types::{get_u32, put_u32, put_zeros, Array, Pad, U64};
use asahi::fw::workqueue::raw::RingState;

#[test]
fn array_wraps_its_data() {
    let a = Array::new([1u8, 2, 3]);
    assert_eq!(a.0, [1, 2, 3]);
    assert_eq!(*a.index(0), 1);
    assert_eq!(*a.index(2), 3);
    assert_eq!(a.deref(), &[1, 2, 3]);
    let e: Array<0, u32> = Array::new([]);
    assert_eq!(e.deref().len(), 0);
}

#[test]
fn array_elements_can_be_written() {
    let mut a = Array::new([0u32; 4]);
    *a.index_mut(1) = 7;
    a.deref_mut()[3] = 9;
    assert_eq!(a, Array::new([0, 7, 0, 9]));
    let b = a;
    assert_eq!(b.0, a.0);
}

#[test]
fn array_default_is_all_defaults() {
    let a: Array<0x30, u8> = Array::default();
    assert_eq!(a.0, [0u8; 0x30]);
    let b: Array<3, u64> = Array::default();
    assert_eq!(b, Array::new([0, 0, 0]));
    let c: Array<2, bool> = Array::default();
    assert_eq!(c.0, [false, false]);
}

#[test]
fn pad_and_word_default_to_zero() {
    let p: Pad<0x1c> = Pad::default();
    assert_eq!(p, Pad::<0x1c>::default());
    assert_eq!(std::mem::size_of::<Pad<0x1c>>(), 0x1c);
    assert_eq!(std::mem::size_of::<Pad<0>>(), 0);
    assert_eq!(U64::default(), U64(0));
    assert_eq!(U64(5).0, 5);
}

#[test]
fn layouts_have_the_sizes_of_the_firmware() {
    assert_eq!(std::mem::size_of::<asahi::fw::channels::raw::ChannelState>(), 0x30);
    assert_eq!(std::mem::size_of::<asahi::fw::channels::raw::FWCtlChannelState>(), 0x20);
    assert_eq!(std::mem::size_of::<asahi::fw::workqueue::raw::RingState>(), 0x60);
    assert_eq!(std::mem::size_of::<asahi::fw::channels::DeviceControlMsg>(), 0x30);
    assert_eq!(std::mem::size_of::<asahi::fw::channels::RawFWLogMsg>(), 0xd8);
    assert_eq!(std::mem::size_of::<asahi::fw::channels::FWCtlMsg>(), 0x14);
    assert_eq!(std::mem::size_of::<asahi::fw::channels::RunCmdQueueMsg>(), 0x30);
}

#[test]
fn words_are_stored_lowest_byte_first() {
    let mut out = vec![0xaau8];
    put_u32(&mut out, 0x1234_5678);
    put_zeros(&mut out, 3);
    put_u32(&mut out, u32::MAX);
    put_zeros(&mut out, 0);
    assert_eq!(out, vec![0xaa, 0x78, 0x56, 0x34, 0x12, 0, 0, 0, 0xff, 0xff, 0xff, 0xff]);
    assert_eq!(get_u32(&out, 1), 0x1234_5678);
    assert_eq!(get_u32(&out, 8), u32::MAX);
    assert_eq!(get_u32(&out, 4), 0x12);
    assert_eq!(get_u32(&out, 5), 0xff00_0000);
}

#[test]
fn pointer_cell_has_the_layout_of_the_firmware() {
    let mut cell = ChannelState::default();
    assert_eq!(cell.to_bytes(), vec![0u8; 0x30]);
    cell.read_ptr = 0x0102_0304;
    cell.write_ptr = 0xff;
    let bytes = cell.to_bytes();
    assert_eq!(bytes.len(), ChannelState::SIZE);
    assert_eq!(&bytes[0..4], &[4, 3, 2, 1]);
    assert_eq!(&bytes[0x20..0x24], &[0xff, 0, 0, 0]);
    assert!(bytes[4..0x20].iter().all(|b| *b == 0));
    assert!(bytes[0x24..].iter().all(|b| *b == 0));
    let back = ChannelState::from_bytes(&bytes).unwrap();
    assert_eq!((back.read_ptr, back.write_ptr), (0x0102_0304, 0xff));
    let mut noisy = bytes.clone();
    noisy[0x10] = 0x77;
    noisy[0x2f] = 0x77;
    let back = ChannelState::from_bytes(&noisy).unwrap();
    assert_eq!((back.read_ptr, back.write_ptr), (0x0102_0304, 0xff));
    assert!(ChannelState::from_bytes(&bytes[1..]).is_none());
    assert!(ChannelState::from_bytes(&[]).is_none());
    assert_eq!(ChannelState::READ_PTR, 0);
    assert_eq!(ChannelState::WRITE_PTR, 0x20);
}

#[test]
fn control_cell_is_packed_more_tightly() {
    let mut cell = FWCtlChannelState::default();
    cell.read_ptr = 1;
    cell.write_ptr = 0x8000_0000;
    let bytes = cell.to_bytes();
    assert_eq!(bytes.len(), 0x20);
    assert_eq!(FWCtlChannelState::SIZE, 0x20);
    assert_eq!(&bytes[0..4], &[1, 0, 0, 0]);
    assert_eq!(&bytes[0x10..0x14], &[0, 0, 0, 0x80]);
    let back = FWCtlChannelState::from_bytes(&bytes).unwrap();
    assert_eq!((back.read_ptr, back.write_ptr), (1, 0x8000_0000));
    assert!(FWCtlChannelState::from_bytes(&[0u8; 0x30]).is_none());
    assert_eq!(FWCtlChannelState::WRITE_PTR, 0x10);
    assert_eq!(FWCtlChannelState::READ_PTR, 0);
}

#[test]
fn ring_cells_have_a_word_every_sixteen_bytes() {
    let mut cells = RingState::default();
    cells.gpu_doneptr = 1;
    cells.unk_10 = 2;
    cells.unk_20 = 3;
    cells.gpu_rptr = 4;
    cells.cpu_wptr = 5;
    cells.rb_size = 0x500;
    let bytes = cells.to_bytes();
    assert_eq!(bytes.len(), RingState::SIZE);
    for (i, want) in [1u8, 2, 3, 4, 5, 0].iter().enumerate() {
        assert_eq!(bytes[i * 0x10], *want);
    }
    assert_eq!(&bytes[0x50..0x54], &[0, 5, 0, 0]);
    assert_eq!(bytes.iter().filter(|b| **b != 0).count(), 6);
    let back = RingState::from_bytes(&bytes).unwrap();
    assert_eq!(
        (back.gpu_doneptr, back.unk_10, back.unk_20, back.gpu_rptr, back.cpu_wptr, back.rb_size),
        (1, 2, 3, 4, 5, 0x500)
    );
    assert!(RingState::from_bytes(&bytes[..0x5f]).is_none());
}
