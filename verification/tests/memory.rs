use os4_syscall::config::{PAGE_SIZE, PORT_READ, PORT_WRITE};
use os4_syscall::error::SysError;
use os4_syscall::mem::MemorySet;

const TOKEN: usize = 7;
const BASE: usize = 0x1000_0000;

fn set_with_rw_page() -> MemorySet {
    let mut m = MemorySet::new(TOKEN);
    assert_eq!(m.mmap(BASE, PAGE_SIZE, PORT_READ | PORT_WRITE), Ok(()));
    m
}

#[test]
fn translate_mapped_page_is_stable() {
    let m = set_with_rw_page();
    let a = m.translate(TOKEN, BASE + 24, 16, true);
    let b = m.translate(TOKEN, BASE + 24, 16, true);
    let ka = a.expect("mapped address must translate");
    assert_eq!(Ok(ka), b);
    // the kernel address keeps the offset inside the page
    assert_eq!(ka % PAGE_SIZE, (BASE + 24) % PAGE_SIZE);
}

#[test]
fn translate_wrong_token_faults() {
    let m = set_with_rw_page();
    assert_eq!(m.translate(TOKEN + 1, BASE, 16, true), Err(SysError::AddressFault));
}

#[test]
fn translate_unmapped_faults() {
    let m = set_with_rw_page();
    assert_eq!(m.translate(TOKEN, BASE + PAGE_SIZE, 16, true), Err(SysError::AddressFault));
}

#[test]
fn translate_needs_write_permission() {
    let mut m = MemorySet::new(TOKEN);
    assert_eq!(m.mmap(BASE, PAGE_SIZE, PORT_READ), Ok(()));
    assert_eq!(m.translate(TOKEN, BASE, 16, true), Err(SysError::AddressFault));
    assert!(m.translate(TOKEN, BASE, 16, false).is_ok());
}

#[test]
fn translate_rejects_page_crossing() {
    let m = set_with_rw_page();
    let near_end = BASE + PAGE_SIZE - 8;
    assert_eq!(m.translate(TOKEN, near_end, 16, true), Err(SysError::AddressFault));
    assert!(m.translate(TOKEN, near_end, 8, true).is_ok());
}

#[test]
fn translate_zero_size_faults() {
    let m = set_with_rw_page();
    assert_eq!(m.translate(TOKEN, BASE, 0, true), Err(SysError::AddressFault));
}

#[test]
fn mmap_unaligned_start_is_invalid() {
    let mut m = MemorySet::new(TOKEN);
    assert_eq!(m.mmap(BASE + 1, PAGE_SIZE, PORT_READ), Err(SysError::InvalidArgument));
}

#[test]
fn mmap_unknown_port_bits_are_invalid() {
    let mut m = MemorySet::new(TOKEN);
    assert_eq!(m.mmap(BASE, PAGE_SIZE, 0x9), Err(SysError::InvalidArgument));
    assert_eq!(m.mmap(BASE, PAGE_SIZE, 0x8), Err(SysError::InvalidArgument));
}

#[test]
fn mmap_wrapping_range_is_invalid() {
    let mut m = MemorySet::new(TOKEN);
    let last_page = usize::MAX - (PAGE_SIZE - 1);
    assert_eq!(m.mmap(last_page, PAGE_SIZE + 1, PORT_READ), Err(SysError::InvalidArgument));
}

#[test]
fn mmap_overlap_is_conflict_and_not_partially_applied() {
    let mut m = set_with_rw_page();
    // the two-page request overlaps the existing page
    assert_eq!(m.mmap(BASE, 2 * PAGE_SIZE, PORT_READ | PORT_WRITE), Err(SysError::ResourceConflict));
    // nothing of the failed request took effect: the second page is still unmapped
    assert_eq!(m.translate(TOKEN, BASE + PAGE_SIZE, 8, false), Err(SysError::AddressFault));
    // and the pre-existing mapping is untouched
    assert!(m.translate(TOKEN, BASE, 8, true).is_ok());
}

#[test]
fn mmap_zero_len_is_idempotent_no_op() {
    let mut m = MemorySet::new(TOKEN);
    // repeated zero-length requests succeed and change nothing
    assert_eq!(m.mmap(BASE, 0, PORT_READ), Ok(()));
    assert_eq!(m.mmap(BASE, 0, PORT_READ), Ok(()));
    assert_eq!(m.translate(TOKEN, BASE, 8, false), Err(SysError::AddressFault));
    // a malformed zero-length request is rejected the same way every time
    assert_eq!(m.mmap(BASE + 1, 0, PORT_READ), Err(SysError::InvalidArgument));
    assert_eq!(m.mmap(BASE + 1, 0, PORT_READ), Err(SysError::InvalidArgument));
    // munmap follows the same zero-length policy
    assert_eq!(m.munmap(BASE, 0), Ok(()));
    assert_eq!(m.munmap(BASE, 0), Ok(()));
    assert_eq!(m.munmap(BASE + 1, 0), Err(SysError::InvalidArgument));
}

#[test]
fn mmap_munmap_round_trip() {
    let mut m = MemorySet::new(TOKEN);
    assert_eq!(m.mmap(BASE, 3 * PAGE_SIZE, PORT_READ | PORT_WRITE), Ok(()));
    assert!(m.translate(TOKEN, BASE + 2 * PAGE_SIZE, 8, true).is_ok());
    assert_eq!(m.munmap(BASE, 3 * PAGE_SIZE), Ok(()));
    // no residual mapping anywhere in the region
    assert_eq!(m.translate(TOKEN, BASE, 8, false), Err(SysError::AddressFault));
    assert_eq!(m.translate(TOKEN, BASE + 2 * PAGE_SIZE, 8, false), Err(SysError::AddressFault));
    // a second unmap of the same region fails
    assert_eq!(m.munmap(BASE, 3 * PAGE_SIZE), Err(SysError::ResourceConflict));
}

#[test]
fn munmap_partial_coverage_fails_whole() {
    let mut m = set_with_rw_page();
    // only the first page of the requested range is mapped
    assert_eq!(m.munmap(BASE, 2 * PAGE_SIZE), Err(SysError::ResourceConflict));
    // the mapped page was not touched
    assert!(m.translate(TOKEN, BASE, 8, true).is_ok());
}

#[test]
fn munmap_unaligned_start_is_invalid() {
    let mut m = set_with_rw_page();
    assert_eq!(m.munmap(BASE + 1, PAGE_SIZE), Err(SysError::InvalidArgument));
}
