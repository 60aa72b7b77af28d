use asahi::error::Error;
use asahi::mmu::{
    is_page_aligned, is_valid_align, page_align_down, page_align_up, Mapping, UAT_PGBIT,
    UAT_PGMSK, UAT_PGSZ,
};

#[test]
fn page_constants_agree() {
    assert_eq!(UAT_PGSZ, 1 << UAT_PGBIT);
    assert_eq!(UAT_PGMSK, UAT_PGSZ - 1);
    assert_eq!(UAT_PGSZ, 16384);
}

#[test]
fn page_align_up_rounds_to_next_boundary() {
    assert_eq!(page_align_up(0), Some(0));
    assert_eq!(page_align_up(1), Some(0x4000));
    assert_eq!(page_align_up(0x3fff), Some(0x4000));
    assert_eq!(page_align_up(0x4000), Some(0x4000));
    assert_eq!(page_align_up(0x4001), Some(0x8000));
    assert_eq!(page_align_up(0xd800), Some(0x10000));
}

#[test]
fn page_align_up_reports_overflow() {
    assert_eq!(page_align_up(usize::MAX), None);
    assert_eq!(page_align_up(usize::MAX - 0x3ffe), None);
    assert_eq!(page_align_up(usize::MAX - 0x3fff), Some(usize::MAX - 0x3fff));
}

#[test]
fn page_align_down_rounds_to_previous_boundary() {
    assert_eq!(page_align_down(0), 0);
    assert_eq!(page_align_down(0x3fff), 0);
    assert_eq!(page_align_down(0x4000), 0x4000);
    assert_eq!(page_align_down(0x2_3524_1234), 0x2_3524_0000);
    assert_eq!(page_align_down(usize::MAX), usize::MAX - 0x3fff);
}

#[test]
fn page_alignment_is_recognised() {
    assert!(is_page_aligned(0));
    assert!(is_page_aligned(0x4000));
    assert!(is_page_aligned(0x10_0000));
    assert!(!is_page_aligned(1));
    assert!(!is_page_aligned(0x2000));
    assert!(!is_page_aligned(0x4001));
}

#[test]
fn alignments_are_the_powers_of_two() {
    assert!(!is_valid_align(0));
    assert!(is_valid_align(1));
    assert!(is_valid_align(2));
    assert!(!is_valid_align(3));
    assert!(is_valid_align(0x20));
    assert!(!is_valid_align(0x30));
    assert!(is_valid_align(0x4000));
    assert!(is_valid_align(1 << (usize::BITS - 1)));
    assert!(!is_valid_align(usize::MAX));
}

#[test]
fn mapping_reports_its_range() {
    let m = Mapping { iova: 0x1_0000, size: 0x8000 };
    assert_eq!(m.iova(), 0x1_0000);
    assert_eq!(m.size(), 0x8000);
}

#[test]
fn errors_have_the_numbers_of_the_host_system() {
    assert_eq!(Error::NoMemory.errno(), 12);
    assert_eq!(Error::InvalidArgument.errno(), 22);
    assert_eq!(Error::Busy.errno(), 16);
    assert_eq!(Error::NoSpace.errno(), 28);
}
