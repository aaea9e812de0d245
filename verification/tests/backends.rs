use page_allocator::HeapBasedPageAllocator;
use page_allocator::PageSerialization;
use page_allocator::MmapBasedPageAllocator;
use page_allocator::MappingRegistry;
use page_allocator::Page;
use page_allocator::PageAllocatorError;
use page_allocator::PageAllocatorSerialization;
use page_allocator::PageBytes;
use page_allocator::PageCounter;
use page_allocator::PageDeltaSerialization;
use page_allocator::PageIndex;
use page_allocator::PAGE_SIZE;

fn filled_batch(spec: &[(u64, u8)]) -> Vec<(PageIndex, PageBytes)> {
    spec.iter().map(|&(i, b)| (PageIndex::new(i), PageBytes::new_filled(b))).collect()
}

fn assert_page_filled(bytes: &PageBytes, value: u8) {
    for i in 0..PAGE_SIZE {
        assert_eq!(bytes.read_byte(i), value);
    }
}

#[test]
fn heap_allocate_and_read() {
    let mut counter = PageCounter::new();
    let mut heap = HeapBasedPageAllocator::new();
    let batch = filled_batch(&[(1, 0xAB), (2, 0xCD)]);
    let pages = heap.allocate(&mut counter, &batch);
    assert_eq!(pages.len(), 2);
    assert_eq!(pages[0].0.get(), 1);
    assert_eq!(pages[1].0.get(), 2);
    assert_page_filled(heap.contents(&pages[0].1), 0xAB);
    assert_page_filled(heap.contents(&pages[1].1), 0xCD);
    assert_eq!(counter.get(), 2);
}

#[test]
fn heap_delta_round_trip() {
    let mut counter = PageCounter::new();
    let mut heap = HeapBasedPageAllocator::new();
    let batch = filled_batch(&[(10, 0x01), (11, 0x02), (12, 0x03)]);
    let pages = heap.allocate(&mut counter, &batch);
    let delta = heap.serialize_page_delta(&pages);
    let mut restored = match HeapBasedPageAllocator::deserialize(heap.serialize()) {
        Ok(h) => h,
        Err(e) => panic!("heap tag must deserialize: {:?}", e),
    };
    let out = restored.deserialize_page_delta(&mut counter, delta).unwrap();
    assert_eq!(out.len(), 3);
    for (k, expected) in [(0usize, 0x01u8), (1, 0x02), (2, 0x03)] {
        assert_eq!(out[k].0.get(), 10 + k as u64);
        assert_page_filled(restored.contents(&out[k].1), expected);
    }
}

#[test]
fn heap_rejects_foreign_tags() {
    assert!(matches!(
        HeapBasedPageAllocator::deserialize(PageAllocatorSerialization::Empty),
        Err(PageAllocatorError::BackendMismatch)
    ));
    let mut counter = PageCounter::new();
    let mut heap = HeapBasedPageAllocator::new();
    let r = heap.deserialize_page_delta(&mut counter, PageDeltaSerialization::Empty);
    assert!(matches!(r, Err(PageAllocatorError::BackendMismatch)));
    assert_eq!(counter.get(), 0);
}

#[test]
fn heap_copy_from_slice_updates_shared_content() {
    let mut counter = PageCounter::new();
    let mut heap = HeapBasedPageAllocator::new();
    let batch = filled_batch(&[(0, 0x00)]);
    let mut pages = heap.allocate(&mut counter, &batch);
    let (_, page) = pages.remove(0);
    let twin = heap.clone_page(&page);
    heap.copy_from_slice(&page, 5, &[0x10, 0x20, 0x30]);
    let seen = heap.contents(&twin);
    assert_eq!(seen.read_byte(4), 0x00);
    assert_eq!(seen.read_byte(5), 0x10);
    assert_eq!(seen.read_byte(6), 0x20);
    assert_eq!(seen.read_byte(7), 0x30);
    assert_eq!(seen.read_byte(8), 0x00);
    heap.drop_page(&mut counter, page);
    heap.drop_page(&mut counter, twin);
    assert_eq!(counter.get(), 0);
}

#[test]
fn mmap_allocate_and_read() {
    let mut registry = MappingRegistry::new();
    let mut counter = PageCounter::new();
    let mut mapped = MmapBasedPageAllocator::new(&mut registry, 16 * PAGE_SIZE);
    let batch = filled_batch(&[(7, 0x7F)]);
    let pages = mapped.allocate(&mut registry, &mut counter, &batch).unwrap();
    assert_eq!(pages.len(), 1);
    assert_page_filled(&mapped.contents(&registry, &pages[0].1), 0x7F);
    assert_eq!(counter.get(), 1);
}

#[test]
fn mmap_delta_round_trip_through_reopened_context() {
    let mut registry = MappingRegistry::new();
    let mut counter = PageCounter::new();
    let mut mapped = MmapBasedPageAllocator::new(&mut registry, 16 * PAGE_SIZE);
    let batch = filled_batch(&[(3, 0x33), (4, 0x44)]);
    let pages = mapped.allocate(&mut registry, &mut counter, &batch).unwrap();
    let delta = mapped.serialize_page_delta(&pages);
    let identity = mapped.serialize();
    // The original allocator instance need not stay alive: reopen from
    // the serialized identity alone.
    drop(mapped);
    let mut reopened = MmapBasedPageAllocator::deserialize(identity, &registry).unwrap();
    let out = reopened.deserialize_page_delta(&mut counter, &registry, delta).unwrap();
    assert_eq!(out.len(), 2);
    assert_eq!(out[0].0.get(), 3);
    assert_eq!(out[1].0.get(), 4);
    assert_page_filled(&reopened.contents(&registry, &out[0].1), 0x33);
    assert_page_filled(&reopened.contents(&registry, &out[1].1), 0x44);
}

#[test]
fn mmap_rejects_foreign_and_broken_tags() {
    let mut registry = MappingRegistry::new();
    let mut counter = PageCounter::new();
    let mut mapped = MmapBasedPageAllocator::new(&mut registry, 4 * PAGE_SIZE);
    assert!(matches!(
        MmapBasedPageAllocator::deserialize(PageAllocatorSerialization::Heap, &registry),
        Err(PageAllocatorError::BackendMismatch)
    ));
    let r = mapped.deserialize_page_delta(
        &mut counter,
        &registry,
        PageDeltaSerialization::Heap(Vec::new()),
    );
    assert!(matches!(r, Err(PageAllocatorError::BackendMismatch)));
}

#[test]
fn mmap_allocation_fails_when_reservation_is_exhausted() {
    let mut registry = MappingRegistry::new();
    let mut counter = PageCounter::new();
    let mut mapped = MmapBasedPageAllocator::new(&mut registry, 2 * PAGE_SIZE);
    let first = filled_batch(&[(0, 0x00), (1, 0x11)]);
    assert!(mapped.allocate(&mut registry, &mut counter, &first).is_ok());
    let second = filled_batch(&[(2, 0x22)]);
    let r = mapped.allocate(&mut registry, &mut counter, &second);
    assert!(matches!(r, Err(PageAllocatorError::MappingExhausted)));
    // The failed batch changed nothing.
    assert_eq!(counter.get(), 2);
}

#[test]
fn mmap_copy_from_slice_is_shared_through_the_mapping() {
    let mut registry = MappingRegistry::new();
    let mut counter = PageCounter::new();
    let mut mapped = MmapBasedPageAllocator::new(&mut registry, 8 * PAGE_SIZE);
    let batch = filled_batch(&[(0, 0xEE), (1, 0x99)]);
    let mut pages = mapped.allocate(&mut registry, &mut counter, &batch).unwrap();
    let (_, second) = pages.remove(1);
    let (_, first) = pages.remove(0);
    mapped.copy_from_slice(&mut registry, &first, PAGE_SIZE - 1, &[0x01]);
    let seen = mapped.contents(&registry, &first);
    assert_eq!(seen.read_byte(PAGE_SIZE - 1), 0x01);
    assert_eq!(seen.read_byte(PAGE_SIZE - 2), 0xEE);
    // The neighbouring page is untouched.
    assert_page_filled(&mapped.contents(&registry, &second), 0x99);
}

#[test]
fn hand_built_heap_delta_decodes() {
    let mut counter = PageCounter::new();
    let mut heap = HeapBasedPageAllocator::new();
    let records = vec![PageSerialization {
        index: PageIndex::new(8),
        bytes: PageBytes::new_filled(0x3C),
    }];
    let out = heap
        .deserialize_page_delta(&mut counter, PageDeltaSerialization::Heap(records))
        .unwrap();
    assert_eq!(out.len(), 1);
    assert_eq!(out[0].0.get(), 8);
    assert_page_filled(heap.contents(&out[0].1), 0x3C);
    assert_eq!(counter.get(), 1);
}

#[test]
fn decoded_mmap_pages_alias_the_mapping() {
    // A mapped delta is offsets into the shared mapping: decoding it gives
    // handles onto the same bytes, so a later write through the original
    // handle is visible through the decoded one.
    let mut registry = MappingRegistry::new();
    let mut counter = PageCounter::new();
    let mut mapped = MmapBasedPageAllocator::new(&mut registry, 4 * PAGE_SIZE);
    let batch = filled_batch(&[(0, 0x00)]);
    let pages = mapped.allocate(&mut registry, &mut counter, &batch).unwrap();
    let delta = mapped.serialize_page_delta(&pages);
    let out = mapped.deserialize_page_delta(&mut counter, &registry, delta).unwrap();
    mapped.copy_from_slice(&mut registry, &pages[0].1, 0, &[0xAA]);
    assert_eq!(mapped.contents(&registry, &out[0].1).read_byte(0), 0xAA);
}

#[test]
fn page_handles_survive_dropping_the_original() {
    let mut counter = PageCounter::new();
    let mut heap = HeapBasedPageAllocator::new();
    let batch = filled_batch(&[(42, 0x5A)]);
    let mut pages = heap.allocate(&mut counter, &batch);
    let (_, original): (PageIndex, Page) = pages.remove(0);
    let clone = heap.clone_page(&original);
    heap.drop_page(&mut counter, original);
    // The clone still reads the shared content, and the page is still
    // accounted as live.
    assert_page_filled(heap.contents(&clone), 0x5A);
    assert_eq!(counter.get(), 1);
    heap.drop_page(&mut counter, clone);
    assert_eq!(counter.get(), 0);
}
