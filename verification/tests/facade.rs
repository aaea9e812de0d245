use page_allocator::MappingRegistry;
use page_allocator::MmapContext;
use page_allocator::MmapPageSerialization;
use page_allocator::PageAllocator;
use page_allocator::PageAllocatorError;
use page_allocator::PageAllocatorSerialization;
use page_allocator::PageBytes;
use page_allocator::PageCounter;
use page_allocator::PageDeltaSerialization;
use page_allocator::PageIndex;
use page_allocator::PAGE_SIZE;

fn filled_batch(spec: &[(u64, u8)]) -> Vec<(PageIndex, PageBytes)> {
    spec.iter().map(|&(i, b)| (PageIndex::new(i), PageBytes::new_filled(b))).collect()
}

fn assert_page_filled(bytes: &PageBytes, value: u8) {
    for i in 0..PAGE_SIZE {
        assert_eq!(bytes.read_byte(i), value);
    }
}

#[test]
fn concrete_two_page_round_trip() {
    // Pages at indices 3 and 7, all-zero and all-0xFF, a full page each:
    // serialize the delta, decode it, and find exactly those two entries.
    let mut registry = MappingRegistry::new();
    let mut counter = PageCounter::new();
    let mut allocator = PageAllocator::new_heap();
    let batch = filled_batch(&[(3, 0x00), (7, 0xFF)]);
    let pages = allocator.allocate(&mut registry, &mut counter, &batch).unwrap();
    let delta = allocator.serialize_page_delta(&registry, &pages);
    let mut restored =
        PageAllocator::deserialize(allocator.serialize(), &registry).unwrap();
    let out = restored
        .deserialize_page_delta(&registry, &mut counter, delta)
        .unwrap();
    assert_eq!(out.len(), 2);
    assert_eq!(out[0].0.get(), 3);
    assert_eq!(out[1].0.get(), 7);
    assert_page_filled(&restored.contents(&registry, &out[0].1), 0x00);
    assert_page_filled(&restored.contents(&registry, &out[1].1), 0xFF);
}

#[test]
fn empty_allocator_serializes_and_commits_to_heap() {
    let mut registry = MappingRegistry::new();
    let mut counter = PageCounter::new();
    let mut allocator = PageAllocator::new();
    assert_eq!(allocator.serialize(), PageAllocatorSerialization::Empty);
    let restored = PageAllocator::deserialize(PageAllocatorSerialization::Empty, &registry);
    assert!(restored.is_ok());
    // First allocation commits the empty allocator to the heap backend.
    let batch = filled_batch(&[(0, 0x01)]);
    let pages = allocator.allocate(&mut registry, &mut counter, &batch).unwrap();
    assert_eq!(pages.len(), 1);
    assert_eq!(allocator.serialize(), PageAllocatorSerialization::Heap);
}

#[test]
fn duplicate_index_batch_is_rejected_whole() {
    // Two pages under one index in a single batch are disallowed: the
    // batch is rejected as a distinct failure, never silently folded
    // into overwrite semantics.
    let mut registry = MappingRegistry::new();
    let mut counter = PageCounter::new();
    let mut allocator = PageAllocator::new_heap();
    let batch = filled_batch(&[(5, 0x0A), (6, 0x0B), (5, 0x0C)]);
    let r = allocator.allocate(&mut registry, &mut counter, &batch);
    assert!(matches!(r, Err(PageAllocatorError::DuplicatePageIndex)));
    assert_eq!(counter.get(), 0);
}

#[test]
fn accounting_tracks_allocations_and_releases() {
    // Allocate 5 pages, then drop every handle to 3 of them: the live
    // counter ends exactly 2 higher than where it started.
    let mut registry = MappingRegistry::new();
    let mut counter = PageCounter::new();
    let mut allocator = PageAllocator::new_heap();
    let before = counter.get();
    let batch = filled_batch(&[(0, 0), (1, 1), (2, 2), (3, 3), (4, 4)]);
    let mut pages = allocator.allocate(&mut registry, &mut counter, &batch).unwrap();
    assert_eq!(counter.get(), before + 5);
    for _ in 0..3 {
        let (_, page) = pages.pop().unwrap();
        allocator.drop_page(&registry, &mut counter, page);
    }
    assert_eq!(counter.get(), before + 2);
}

#[test]
fn cloned_handle_outlives_the_original() {
    let mut registry = MappingRegistry::new();
    let mut counter = PageCounter::new();
    let mut allocator = PageAllocator::new_mmap(&mut registry, 4 * PAGE_SIZE);
    let batch = filled_batch(&[(9, 0x42)]);
    let mut pages = allocator.allocate(&mut registry, &mut counter, &batch).unwrap();
    let (_, original) = pages.remove(0);
    let clone = allocator.clone_page(&registry, &original);
    allocator.drop_page(&registry, &mut counter, original);
    assert_page_filled(&allocator.contents(&registry, &clone), 0x42);
    assert_eq!(counter.get(), 1);
}

#[test]
fn cross_tag_decode_fails_deterministically() {
    let mut registry = MappingRegistry::new();
    let mut counter = PageCounter::new();

    // A heap-tagged delta through the mapped decoder.
    let mut heap_side = PageAllocator::new_heap();
    let batch = filled_batch(&[(1, 0x11)]);
    let heap_pages = heap_side.allocate(&mut registry, &mut counter, &batch).unwrap();
    let heap_delta = heap_side.serialize_page_delta(&registry, &heap_pages);
    let mut mapped_side = PageAllocator::new_mmap(&mut registry, 4 * PAGE_SIZE);
    let r = mapped_side.deserialize_page_delta(&registry, &mut counter, heap_delta);
    assert!(matches!(r, Err(PageAllocatorError::BackendMismatch)));

    // A mapped-tagged delta through the heap decoder.
    let mapped_batch = filled_batch(&[(2, 0x22)]);
    let mapped_pages =
        mapped_side.allocate(&mut registry, &mut counter, &mapped_batch).unwrap();
    let mapped_delta = mapped_side.serialize_page_delta(&registry, &mapped_pages);
    let r = heap_side.deserialize_page_delta(&registry, &mut counter, mapped_delta);
    assert!(matches!(r, Err(PageAllocatorError::BackendMismatch)));
}

#[test]
fn unknown_mapping_context_is_rejected() {
    let registry = MappingRegistry::new();
    let stale = PageAllocatorSerialization::Mmap(MmapContext { descriptor: 12 });
    let r = PageAllocator::deserialize(stale, &registry);
    assert!(matches!(r, Err(PageAllocatorError::InvalidMappingContext)));
}

#[test]
fn out_of_range_offsets_are_rejected() {
    let mut registry = MappingRegistry::new();
    let mut counter = PageCounter::new();
    let mut allocator = PageAllocator::new_mmap(&mut registry, 4 * PAGE_SIZE);
    let batch = filled_batch(&[(0, 0x01)]);
    allocator.allocate(&mut registry, &mut counter, &batch).unwrap();
    let identity = allocator.serialize();
    let descriptor = match identity {
        PageAllocatorSerialization::Mmap(c) => c.descriptor,
        _ => panic!("a mapped allocator serializes to a mapped tag"),
    };
    // One committed page: an offset one page further is out of range, and
    // an unaligned offset never resolves.
    for bad_offset in [PAGE_SIZE, 1] {
        let delta = PageDeltaSerialization::Mmap {
            context: MmapContext { descriptor },
            pages: vec![MmapPageSerialization { index: PageIndex::new(0), offset: bad_offset }],
        };
        let r = allocator.deserialize_page_delta(&registry, &mut counter, delta);
        assert!(matches!(r, Err(PageAllocatorError::InvalidMappingContext)));
    }
    assert_eq!(counter.get(), 1);
}

#[test]
fn facade_write_is_visible_through_contents() {
    let mut registry = MappingRegistry::new();
    let mut counter = PageCounter::new();
    let mut allocator = PageAllocator::new_heap();
    let batch = filled_batch(&[(0, 0x00)]);
    let pages = allocator.allocate(&mut registry, &mut counter, &batch).unwrap();
    allocator.copy_from_slice(&mut registry, &pages[0].1, 100, &[1, 2, 3]);
    let seen = allocator.contents(&registry, &pages[0].1);
    assert_eq!(seen.read_byte(99), 0);
    assert_eq!(seen.read_byte(100), 1);
    assert_eq!(seen.read_byte(101), 2);
    assert_eq!(seen.read_byte(102), 3);
    assert_eq!(seen.read_byte(103), 0);
}
