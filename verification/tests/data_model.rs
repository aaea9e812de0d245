use page_allocator::PageBytes;
use page_allocator::PageCounter;
use page_allocator::PageIndex;
use page_allocator::PAGE_SIZE;

#[test]
fn page_size_is_one_page() {
    assert_eq!(PAGE_SIZE, 4096);
}

#[test]
fn page_index_is_a_value() {
    let a = PageIndex::new(17);
    let b = PageIndex::new(17);
    let c = PageIndex::new(18);
    assert_eq!(a, b);
    assert_ne!(a, c);
    assert!(a < c);
    assert_eq!(a.get(), 17);
}

#[test]
fn page_bytes_are_always_one_full_page() {
    let zeroed = PageBytes::new_zeroed();
    assert_eq!(zeroed.read_byte(0), 0);
    assert_eq!(zeroed.read_byte(PAGE_SIZE - 1), 0);

    let filled = PageBytes::new_filled(0xA5);
    assert_eq!(filled.read_byte(2048), 0xA5);

    let exact = PageBytes::from_vec(vec![7u8; PAGE_SIZE]);
    assert!(exact.is_ok());
    assert_eq!(exact.unwrap().read_byte(123), 7);

    let short = PageBytes::from_vec(vec![7u8; PAGE_SIZE - 1]);
    assert!(short.is_err());
    let long = PageBytes::from_vec(vec![7u8; PAGE_SIZE + 1]);
    assert!(long.is_err());
}

#[test]
fn page_bytes_write_and_duplicate() {
    let mut original = PageBytes::new_zeroed();
    original.write_byte(10, 0x60);
    let copy = original.duplicate();
    original.write_byte(11, 0x61);
    // The duplicate is an independent buffer.
    assert_eq!(copy.read_byte(10), 0x60);
    assert_eq!(copy.read_byte(11), 0x00);
    assert_eq!(original.read_byte(11), 0x61);
}

#[test]
fn counter_starts_at_zero() {
    let counter = PageCounter::new();
    assert_eq!(counter.get(), 0);
}
