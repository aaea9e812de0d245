//! The mapped backend: page storage inside an OS-level shared memory
//! mapping, addressable by descriptor, so that page content can be handed
//! across a process boundary without copying.
//!
//! The process-wide mapping state is made explicit as a
//! [`MappingRegistry`]: the registry stands for the store that outlives any
//! single allocator instance and is what a descriptor is resolved against,
//! so a serialized mapping context can be reopened after the allocator
//! that produced it is gone. Each mapping is created with a fixed
//! reservation; growing a mapping beyond it is a recoverable allocation
//! failure, the one failure mode the heap backend does not have. Mapping
//! growth is a shared mutation of allocator-owned state: the exclusive
//! borrows every mutating operation takes are the synchronization it
//! needs, enforced by the type system.

use vstd::prelude::*;

use crate::accounting::PageCounter;
use crate::accounting::PageEvent;
use crate::accounting::event_run;
use crate::accounting::lemma_live_slots_push;
use crate::accounting::lemma_live_slots_update;
use crate::accounting::live_slots;
use crate::page::PAGE_SIZE;
use crate::page::Page;
use crate::page::PageBytes;
use crate::page::PageIndex;
use crate::serialization::MmapContext;
use crate::serialization::MmapPageSerialization;
use crate::serialization::PageAllocatorError;
use crate::serialization::PageAllocatorSerialization;
use crate::serialization::PageDeltaSerialization;

verus! {

/// One shared memory mapping: the bytes committed so far and the fixed
/// reservation they may grow into.
#[derive(Debug)]
struct Mapping {
    bytes: Vec<u8>,
    capacity: usize,
}

/// The process-wide table of shared memory mappings, keyed by descriptor.
///
/// Made explicit rather than left as implicit process state, so that a
/// mapping can be resolved by any allocator instance — including one
/// reopened from a serialized mapping context after the original
/// allocator is gone — and so that tests can set up an independent
/// registry each.
#[derive(Debug)]
pub struct MappingRegistry {
    mappings: Vec<Mapping>,
}

impl MappingRegistry {
    /// How many mappings have been created; descriptors below this value
    /// are live.
    pub closed spec fn mapping_count(&self) -> int {
        self.mappings@.len() as int
    }

    /// Whether `d` is the descriptor of a mapping of this registry.
    pub open spec fn is_mapping(&self, d: int) -> bool {
        0 <= d < self.mapping_count()
    }

    /// The bytes committed to mapping `d` so far.
    pub closed spec fn mapping_bytes(&self, d: int) -> Seq<u8> {
        self.mappings@[d].bytes@
    }

    /// The fixed reservation of mapping `d`.
    pub closed spec fn mapping_capacity(&self, d: int) -> int {
        self.mappings@[d].capacity as int
    }

    /// Every mapping holds whole pages only, within its reservation.
    pub closed spec fn wf(&self) -> bool {
        forall|d: int|
            0 <= d < self.mappings@.len() ==> {
                &&& (#[trigger] self.mappings@[d]).bytes@.len() <= self.mappings@[d].capacity
                &&& self.mappings@[d].bytes@.len() as int % (PAGE_SIZE as int) == 0
            }
    }

    /// A registry with no mappings.
    pub fn new() -> (r: MappingRegistry)
        ensures
            r.wf(),
            r.mapping_count() == 0,
    {
        MappingRegistry { mappings: Vec::new() }
    }

    /// Reserves a new, empty mapping of at most `capacity` bytes and
    /// returns its descriptor. Existing mappings are untouched.
    pub fn create_mapping(&mut self, capacity: usize) -> (d: usize)
        requires
            old(self).wf(),
        ensures
            final(self).wf(),
            d as int == old(self).mapping_count(),
            final(self).mapping_count() == old(self).mapping_count() + 1,
            final(self).is_mapping(d as int),
            final(self).mapping_bytes(d as int) == Seq::<u8>::empty(),
            final(self).mapping_capacity(d as int) == capacity,
            forall|e: int|
                old(self).is_mapping(e) ==> #[trigger] final(self).mapping_bytes(e) == old(
                    self,
                ).mapping_bytes(e) && final(self).mapping_capacity(e) == old(
                    self,
                ).mapping_capacity(e),
    {
        let d = self.mappings.len();
        self.mappings.push(Mapping { bytes: Vec::new(), capacity });
        proof {
            assert(self.mapping_bytes(d as int) =~= Seq::<u8>::empty());
        }
        d
    }
}

/// A memory page of the mapped backend: its byte offset within the
/// backing mapping and the number of handles that currently share it.
#[derive(Debug)]
pub struct MmapBasedPage {
    offset: usize,
    refs: u64,
}

/// An allocator whose pages live in one shared memory mapping of a
/// [`MappingRegistry`]. Content accessors resolve the allocator's
/// descriptor against the registry; serializing the allocator's identity
/// persists that descriptor, and a page delta serializes as offsets into
/// the mapping, with no byte copies.
#[derive(Debug)]
pub struct MmapBasedPageAllocator {
    descriptor: usize,
    slots: Vec<Option<MmapBasedPage>>,
}

impl MmapBasedPageAllocator {
    /// The descriptor of the mapping that backs this allocator's pages.
    pub closed spec fn descriptor(&self) -> int {
        self.descriptor as int
    }

    /// Whether `p` is a live page of this allocator.
    pub closed spec fn valid_page(&self, p: Page) -> bool {
        p.slot < self.slots@.len() && self.slots@[p.slot as int] is Some
    }

    /// The byte offset of live page `p` within the backing mapping.
    pub closed spec fn page_offset(&self, p: Page) -> int {
        self.slots@[p.slot as int]->Some_0.offset as int
    }

    /// How many handles currently share live page `p`.
    pub closed spec fn page_refs(&self, p: Page) -> int {
        self.slots@[p.slot as int]->Some_0.refs as int
    }

    /// The number of live pages this allocator holds.
    pub closed spec fn live_count(&self) -> int {
        live_slots(self.slots@)
    }

    /// The content of live page `p`: one page of bytes of the backing
    /// mapping, starting at the page's offset.
    pub open spec fn page_bytes(&self, registry: MappingRegistry, p: Page) -> Seq<u8> {
        registry.mapping_bytes(self.descriptor()).subrange(
            self.page_offset(p),
            self.page_offset(p) + PAGE_SIZE,
        )
    }

    /// The allocator's mapping is live in the registry, and every live
    /// page is a whole, page-aligned range of committed mapping bytes,
    /// shared by at least one handle.
    pub closed spec fn wf(&self, registry: MappingRegistry) -> bool {
        &&& registry.wf()
        &&& registry.is_mapping(self.descriptor())
        &&& forall|i: int|
            0 <= i < self.slots@.len() && self.slots@[i] is Some ==> {
                &&& (#[trigger] self.slots@[i])->Some_0.offset % PAGE_SIZE == 0
                &&& self.slots@[i]->Some_0.offset + PAGE_SIZE <= registry.mapping_bytes(
                    self.descriptor(),
                ).len()
                &&& self.slots@[i]->Some_0.refs >= 1
            }
    }

    /// The offset mapping a delta of live pages stands for: index and
    /// mapping offset, entry for entry.
    pub open spec fn delta_offsets(&self, delta: Seq<(PageIndex, Page)>) -> Seq<(PageIndex, int)> {
        Seq::new(delta.len(), |i: int| (delta[i].0, self.page_offset(delta[i].1)))
    }

    /// The content mapping a delta of live pages stands for under
    /// `registry`: index and bytes, entry for entry.
    pub open spec fn delta_contents(
        &self,
        registry: MappingRegistry,
        delta: Seq<(PageIndex, Page)>,
    ) -> Seq<(PageIndex, Seq<u8>)> {
        Seq::new(delta.len(), |i: int| (delta[i].0, self.page_bytes(registry, delta[i].1)))
    }

    /// Whether every page of `delta` is a live page of this allocator.
    pub open spec fn delta_valid(&self, delta: Seq<(PageIndex, Page)>) -> bool {
        forall|i: int| 0 <= i < delta.len() ==> self.valid_page((#[trigger] delta[i]).1)
    }

    /// A fresh mapped allocator over a newly reserved mapping of at most
    /// `capacity` bytes.
    pub fn new(registry: &mut MappingRegistry, capacity: usize) -> (r: MmapBasedPageAllocator)
        requires
            old(registry).wf(),
        ensures
            r.wf(*final(registry)),
            r.descriptor() == old(registry).mapping_count(),
            r.live_count() == 0,
            forall|p: Page| !r.valid_page(p),
            final(registry).mapping_count() == old(registry).mapping_count() + 1,
            final(registry).mapping_bytes(r.descriptor()) == Seq::<u8>::empty(),
            final(registry).mapping_capacity(r.descriptor()) == capacity,
            forall|e: int|
                old(registry).is_mapping(e) ==> #[trigger] final(registry).mapping_bytes(e) == old(
                    registry,
                ).mapping_bytes(e) && final(registry).mapping_capacity(e) == old(
                    registry,
                ).mapping_capacity(e),
    {
        let descriptor = registry.create_mapping(capacity);
        MmapBasedPageAllocator { descriptor, slots: Vec::new() }
    }

    /// Turns a batch of indexed page contents into page handles by
    /// committing each input buffer to the backing mapping. Fails — with
    /// nothing changed — exactly when the mapping's reservation cannot
    /// hold the batch; the caller decides whether to re-request
    /// allocation.
    pub fn allocate(
        &mut self,
        registry: &mut MappingRegistry,
        counter: &mut PageCounter,
        pages: &Vec<(PageIndex, PageBytes)>,
    ) -> (r: Result<Vec<(PageIndex, Page)>, PageAllocatorError>)
        requires
            old(self).wf(*old(registry)),
            old(counter).wf(),
            forall|i: int| 0 <= i < pages@.len() ==> (#[trigger] pages@[i]).1.wf(),
            forall|i: int, j: int| 0 <= i < j < pages@.len() ==> pages@[i].0 != pages@[j].0,
            old(counter).count() + pages@.len() <= u64::MAX,
        ensures
            final(self).wf(*final(registry)),
            final(counter).wf(),
            r is Ok <==> old(registry).mapping_bytes(old(self).descriptor()).len() + pages@.len()
                * PAGE_SIZE <= old(registry).mapping_capacity(old(self).descriptor()),
            r is Err ==> {
                &&& r->Err_0 == PageAllocatorError::MappingExhausted
                &&& *final(self) == *old(self)
                &&& *final(registry) == *old(registry)
                &&& *final(counter) == *old(counter)
            },
            r is Ok ==> {
                &&& final(self).descriptor() == old(self).descriptor()
                &&& r->Ok_0@.len() == pages@.len()
                &&& forall|i: int|
                    0 <= i < r->Ok_0@.len() ==> {
                        &&& (#[trigger] r->Ok_0@[i]).0 == pages@[i].0
                        &&& final(self).valid_page(r->Ok_0@[i].1)
                        &&& final(self).page_bytes(*final(registry), r->Ok_0@[i].1) == pages@[i].1@
                        &&& final(self).page_offset(r->Ok_0@[i].1) == old(registry).mapping_bytes(
                            old(self).descriptor(),
                        ).len() + i * PAGE_SIZE
                        &&& final(self).page_refs(r->Ok_0@[i].1) == 1
                        &&& !old(self).valid_page(r->Ok_0@[i].1)
                    }
                &&& forall|i: int, j: int|
                    0 <= i < j < r->Ok_0@.len() ==> r->Ok_0@[i].1 != r->Ok_0@[j].1
                &&& forall|p: Page|
                    old(self).valid_page(p) ==> {
                        &&& #[trigger] final(self).valid_page(p)
                        &&& final(self).page_offset(p) == old(self).page_offset(p)
                        &&& final(self).page_bytes(*final(registry), p) == old(self).page_bytes(
                            *old(registry),
                            p,
                        )
                        &&& final(self).page_refs(p) == old(self).page_refs(p)
                    }
                &&& final(registry).mapping_count() == old(registry).mapping_count()
                &&& final(registry).mapping_bytes(old(self).descriptor()).len() == old(
                    registry,
                ).mapping_bytes(old(self).descriptor()).len() + pages@.len() * PAGE_SIZE
                &&& final(registry).mapping_capacity(old(self).descriptor()) == old(
                    registry,
                ).mapping_capacity(old(self).descriptor())
                &&& forall|e: int|
                    old(registry).is_mapping(e) && e != old(self).descriptor()
                        ==> #[trigger] final(registry).mapping_bytes(e) == old(
                        registry,
                    ).mapping_bytes(e) && final(registry).mapping_capacity(e) == old(
                        registry,
                    ).mapping_capacity(e)
                &&& final(self).live_count() == old(self).live_count() + pages@.len()
                &&& final(counter).count() == old(counter).count() + pages@.len()
                &&& final(counter).history() == old(counter).history() + event_run(
                    PageEvent::Constructed,
                    pages@.len(),
                )
            },
    {
        let d = self.descriptor;
        let ghost old_reg = *registry;
        let ghost old_bytes = registry.mapping_bytes(d as int);
        let n = pages.len();

        // Check the reservation up front, so the operation either
        // completes or fails with nothing changed.
        let remaining = registry.mappings[d].capacity - registry.mappings[d].bytes.len();
        if n > remaining / PAGE_SIZE {
            proof {
                assert(n * PAGE_SIZE > remaining) by (nonlinear_arith)
                    requires
                        n as int > remaining as int / (PAGE_SIZE as int),
                        remaining >= 0,
                        PAGE_SIZE == 4096,
                ;
            }
            return Err(PageAllocatorError::MappingExhausted);
        }
        proof {
            assert(n * PAGE_SIZE <= remaining) by (nonlinear_arith)
                requires
                    n as int <= remaining as int / (PAGE_SIZE as int),
                    remaining >= 0,
                    PAGE_SIZE == 4096,
            ;
        }

        let mut m = Mapping { bytes: Vec::new(), capacity: 0 };
        registry.mappings.set_and_swap(d, &mut m);
        let ghost base_slots = self.slots@;
        let mut r: Vec<(PageIndex, Page)> = Vec::new();
        let mut i: usize = 0;
        while i < n
            invariant
                i <= n,
                n == pages@.len(),
                d as int == old(self).descriptor(),
                self.descriptor == d,
                old(self).wf(old_reg),
                old_reg.is_mapping(d as int),
                old_bytes == old_reg.mapping_bytes(d as int),
                counter.wf(),
                forall|k: int| 0 <= k < pages@.len() ==> (#[trigger] pages@[k]).1.wf(),
                old(counter).count() + pages@.len() <= u64::MAX,
                base_slots == old(self).slots@,
                m.capacity == old_reg.mapping_capacity(d as int),
                m.bytes@.len() == old_bytes.len() + i * PAGE_SIZE,
                m.bytes@.len() + (n - i) * PAGE_SIZE <= m.capacity,
                m.bytes@.subrange(0, old_bytes.len() as int) == old_bytes,
                forall|k: int|
                    0 <= k < i ==> m.bytes@.subrange(
                        old_bytes.len() + k * PAGE_SIZE,
                        old_bytes.len() + (k + 1) * PAGE_SIZE,
                    ) == (#[trigger] pages@[k]).1@,
                self.slots@.len() == base_slots.len() + i,
                forall|k: int| 0 <= k < base_slots.len() ==> self.slots@[k] == base_slots[k],
                forall|k: int|
                    0 <= k < i ==> {
                        &&& (#[trigger] self.slots@[base_slots.len() + k]) is Some
                        &&& self.slots@[base_slots.len() + k]->Some_0.offset == old_bytes.len() + k
                            * PAGE_SIZE
                        &&& self.slots@[base_slots.len() + k]->Some_0.offset % PAGE_SIZE == 0
                        &&& self.slots@[base_slots.len() + k]->Some_0.refs == 1
                    },
                r@.len() == i,
                forall|k: int|
                    0 <= k < i ==> {
                        &&& (#[trigger] r@[k]).0 == pages@[k].0
                        &&& r@[k].1.slot == base_slots.len() + k
                    },
                live_slots(self.slots@) == live_slots(base_slots) + i,
                counter.count() == old(counter).count() + i,
                counter.history() == old(counter).history() + event_run(
                    PageEvent::Constructed,
                    i as nat,
                ),
            decreases n - i,
        {
            let offset = m.bytes.len();
            let ghost bytes_before = m.bytes@;
            proof {
                assert((n - i) * PAGE_SIZE == (n - (i + 1)) * PAGE_SIZE + PAGE_SIZE)
                    by (nonlinear_arith);
                lemma_mod_of_sum(old_bytes.len() as int, i as int);
            }
            let mut j: usize = 0;
            while j < PAGE_SIZE
                invariant
                    j <= PAGE_SIZE,
                    i < n,
                    n == pages@.len(),
                    pages@[i as int].1.wf(),
                    offset == bytes_before.len(),
                    offset % PAGE_SIZE == 0,
                    offset + PAGE_SIZE <= m.capacity,
                    m.capacity == old_reg.mapping_capacity(d as int),
                    m.bytes@.len() == offset + j,
                    m.bytes@.subrange(0, offset as int) == bytes_before,
                    m.bytes@.subrange(offset as int, offset + j) == pages@[i as int].1@.subrange(
                        0,
                        j as int,
                    ),
                decreases PAGE_SIZE - j,
            {
                m.bytes.push(pages[i].1.read_byte(j));
                j = j + 1;
                proof {
                    assert(m.bytes@.subrange(0, offset as int) =~= bytes_before);
                    assert(m.bytes@.subrange(offset as int, offset + j) =~= pages@[i as int]
                        .1@.subrange(0, j as int));
                }
            }
            let slot = self.slots.len();
            let fresh = MmapBasedPage { offset, refs: 1 };
            proof {
                lemma_live_slots_push(self.slots@, Some(fresh));
            }
            self.slots.push(Some(fresh));
            counter.inc();
            r.push((pages[i].0, Page { slot }));
            i = i + 1;
            proof {
                assert((i - 1) * PAGE_SIZE + PAGE_SIZE == i * PAGE_SIZE) by (nonlinear_arith);
                assert((n - (i - 1)) * PAGE_SIZE == (n - i) * PAGE_SIZE + PAGE_SIZE)
                    by (nonlinear_arith);
                assert(counter.history() =~= old(counter).history() + event_run(
                    PageEvent::Constructed,
                    i as nat,
                ));
                assert(m.bytes@.subrange(0, old_bytes.len() as int) =~= old_bytes);
                assert(pages@[i - 1].1@.subrange(0, PAGE_SIZE as int) =~= pages@[i - 1].1@);
                assert forall|k: int| 0 <= k < i implies m.bytes@.subrange(
                    old_bytes.len() + k * PAGE_SIZE,
                    old_bytes.len() + (k + 1) * PAGE_SIZE,
                ) == (#[trigger] pages@[k]).1@ by {
                    assert(k * PAGE_SIZE >= 0) by (nonlinear_arith)
                        requires k >= 0, PAGE_SIZE == 4096;
                    if k < i - 1 {
                        assert((k + 1) * PAGE_SIZE <= (i - 1) * PAGE_SIZE) by (nonlinear_arith)
                            requires
                                k + 1 <= i - 1,
                                PAGE_SIZE == 4096,
                        ;
                        assert(m.bytes@.subrange(
                            old_bytes.len() + k * PAGE_SIZE,
                            old_bytes.len() + (k + 1) * PAGE_SIZE,
                        ) =~= bytes_before.subrange(
                            old_bytes.len() + k * PAGE_SIZE,
                            old_bytes.len() + (k + 1) * PAGE_SIZE,
                        ));
                    } else {
                        assert(m.bytes@.subrange(
                            old_bytes.len() + k * PAGE_SIZE,
                            old_bytes.len() + (k + 1) * PAGE_SIZE,
                        ) =~= m.bytes@.subrange(offset as int, offset + PAGE_SIZE));
                    }
                }
            }
        }
        proof {
            assert(n * PAGE_SIZE >= 0) by (nonlinear_arith)
                requires n >= 0, PAGE_SIZE == 4096;
            lemma_mod_of_sum(old_bytes.len() as int, n as int);
        }
        registry.mappings.set(d, m);
        proof {
            assert(registry.mapping_bytes(d as int).subrange(0, old_bytes.len() as int)
                == old_bytes);
            assert forall|s: int|
                0 <= s < self.slots@.len() && self.slots@[s] is Some implies {
                &&& (#[trigger] self.slots@[s])->Some_0.offset % PAGE_SIZE == 0
                &&& self.slots@[s]->Some_0.offset + PAGE_SIZE <= registry.mapping_bytes(
                    self.descriptor(),
                ).len()
                &&& self.slots@[s]->Some_0.refs >= 1
            } by {
                if s < base_slots.len() {
                    assert(self.slots@[s] == base_slots[s]);
                    assert(old(self).slots@[s] is Some);
                } else {
                    let k = s - base_slots.len();
                    assert(self.slots@[base_slots.len() + k] is Some);
                    assert((k + 1) * PAGE_SIZE <= n * PAGE_SIZE) by (nonlinear_arith)
                        requires
                            k + 1 <= n,
                            PAGE_SIZE == 4096,
                    ;
                }
            }
            assert forall|p: Page| old(self).valid_page(p) implies {
                &&& #[trigger] self.valid_page(p)
                &&& self.page_offset(p) == old(self).page_offset(p)
                &&& self.page_bytes(*registry, p) == old(self).page_bytes(old_reg, p)
                &&& self.page_refs(p) == old(self).page_refs(p)
            } by {
                assert(self.slots@[p.slot as int] == base_slots[p.slot as int]);
                assert(self.page_bytes(*registry, p) =~= old(self).page_bytes(old_reg, p));
            }
        }
        Ok(r)
    }

    /// A copy of a live page's content, read out of the backing mapping
    /// through the allocator that produced the page.
    pub fn contents(&self, registry: &MappingRegistry, page: &Page) -> (r: PageBytes)
        requires
            self.wf(*registry),
            self.valid_page(*page),
        ensures
            r.wf(),
            r@ == self.page_bytes(*registry, *page),
    {
        let offset = match &self.slots[page.slot] {
            Some(p) => p.offset,
            None => vstd::pervasive::unreached(),
        };
        let mut bytes: Vec<u8> = Vec::new();
        let mut j: usize = 0;
        while j < PAGE_SIZE
            invariant
                self.wf(*registry),
                self.valid_page(*page),
                offset as int == self.page_offset(*page),
                j <= PAGE_SIZE,
                bytes@ =~= registry.mapping_bytes(self.descriptor()).subrange(
                    offset as int,
                    offset + j,
                ),
            decreases PAGE_SIZE - j,
        {
            bytes.push(registry.mappings[self.descriptor].bytes[offset + j]);
            j = j + 1;
        }
        proof {
            assert(bytes@ =~= self.page_bytes(*registry, *page));
        }
        match PageBytes::from_vec(bytes) {
            Ok(pb) => pb,
            Err(_) => vstd::pervasive::unreached(),
        }
    }

    /// Overwrites `slice.len()` bytes of a live page in place, starting at
    /// `offset` within the page. The write goes to the shared mapping: it
    /// is visible through every handle — and every page — that shares the
    /// written range; pages at other offsets and other mappings are
    /// untouched.
    pub fn copy_from_slice(
        &self,
        registry: &mut MappingRegistry,
        page: &Page,
        offset: usize,
        slice: &[u8],
    )
        requires
            self.wf(*old(registry)),
            self.valid_page(*page),
            offset + slice@.len() <= PAGE_SIZE,
        ensures
            self.wf(*final(registry)),
            final(registry).mapping_count() == old(registry).mapping_count(),
            final(registry).mapping_bytes(self.descriptor()) == crate::page::overwrite(
                old(registry).mapping_bytes(self.descriptor()),
                self.page_offset(*page) + offset,
                slice@,
            ),
            forall|e: int|
                old(registry).is_mapping(e) && e != self.descriptor()
                    ==> #[trigger] final(registry).mapping_bytes(e) == old(
                    registry,
                ).mapping_bytes(e),
            forall|e: int|
                old(registry).is_mapping(e) ==> #[trigger] final(registry).mapping_capacity(e)
                    == old(registry).mapping_capacity(e),
            self.page_bytes(*final(registry), *page) == crate::page::overwrite(
                self.page_bytes(*old(registry), *page),
                offset as int,
                slice@,
            ),
            forall|q: Page|
                self.valid_page(q) && self.page_offset(q) != self.page_offset(*page)
                    ==> #[trigger] self.page_bytes(*final(registry), q) == self.page_bytes(
                    *old(registry),
                    q,
                ),
    {
        let d = self.descriptor;
        let ghost old_reg = *registry;
        let page_offset = match &self.slots[page.slot] {
            Some(p) => p.offset,
            None => vstd::pervasive::unreached(),
        };
        let mut m = Mapping { bytes: Vec::new(), capacity: 0 };
        registry.mappings.set_and_swap(d, &mut m);
        let mut j: usize = 0;
        while j < slice.len()
            invariant
                j <= slice@.len(),
                offset + slice@.len() <= PAGE_SIZE,
                self.wf(old_reg),
                self.valid_page(*page),
                d as int == self.descriptor(),
                page_offset as int == self.page_offset(*page),
                m.capacity == old_reg.mapping_capacity(d as int),
                m.bytes@.len() == old_reg.mapping_bytes(d as int).len(),
                forall|k: int|
                    0 <= k < m.bytes@.len() ==> #[trigger] m.bytes@[k] == if page_offset + offset
                        <= k < page_offset + offset + j {
                        slice@[k - page_offset - offset]
                    } else {
                        old_reg.mapping_bytes(d as int)[k]
                    },
            decreases slice@.len() - j,
        {
            m.bytes.set(page_offset + offset + j, slice[j]);
            j = j + 1;
        }
        registry.mappings.set(d, m);
        proof {
            assert(registry.mapping_bytes(self.descriptor()) =~= crate::page::overwrite(
                old_reg.mapping_bytes(self.descriptor()),
                self.page_offset(*page) + offset,
                slice@,
            ));
            assert(self.page_bytes(*registry, *page) =~= crate::page::overwrite(
                self.page_bytes(old_reg, *page),
                offset as int,
                slice@,
            ));
            assert forall|q: Page|
                self.valid_page(q) && self.page_offset(q) != self.page_offset(*page)
                    implies #[trigger] self.page_bytes(*registry, q) == self.page_bytes(
                old_reg,
                q,
            ) by {
                lemma_distinct_pages_disjoint(old_reg, self, q, *page);
                assert(self.page_bytes(*registry, q) =~= self.page_bytes(old_reg, q));
            }
        }
    }

    /// Hands out one more handle to a live page: O(1), no content is
    /// duplicated, and the new handle is indistinguishable from the one it
    /// was cloned from. The page's ownership count grows by one.
    pub fn clone_page(&mut self, page: &Page) -> (r: Page)
        requires
            old(self).valid_page(*page),
            old(self).page_refs(*page) >= 1,
            old(self).page_refs(*page) < u64::MAX,
        ensures
            r == *page,
            final(self).descriptor() == old(self).descriptor(),
            final(self).valid_page(*page),
            final(self).page_refs(*page) == old(self).page_refs(*page) + 1,
            forall|q: Page|
                old(self).valid_page(q) ==> #[trigger] final(self).valid_page(q)
                    && final(self).page_offset(q) == old(self).page_offset(q),
            forall|q: Page|
                old(self).valid_page(q) && q != *page ==> #[trigger] final(self).page_refs(q)
                    == old(self).page_refs(q),
            forall|q: Page| final(self).valid_page(q) ==> old(self).valid_page(q),
            forall|reg: MappingRegistry| old(self).wf(reg) ==> #[trigger] final(self).wf(reg),
            final(self).live_count() == old(self).live_count(),
    {
        let ghost all_old = self.slots@;
        let mut taken: Option<MmapBasedPage> = None;
        self.slots.set_and_swap(page.slot, &mut taken);
        let p = match taken {
            Some(p) => p,
            None => vstd::pervasive::unreached(),
        };
        let refs = p.refs;
        let shared = MmapBasedPage { offset: p.offset, refs: refs + 1 };
        proof {
            lemma_live_slots_update(self.slots@, page.slot as int, Some(shared));
            lemma_live_slots_update(all_old, page.slot as int, None);
        }
        self.slots.set(page.slot, Some(shared));
        Page { slot: page.slot }
    }

    /// Gives up one handle to a live page. While other handles share the
    /// page it stays live with its content intact; dropping the last
    /// handle releases the page's slot and decrements the live counter.
    /// The written mapping range stays with the mapping's reservation.
    pub fn drop_page(&mut self, counter: &mut PageCounter, page: Page)
        requires
            old(counter).wf(),
            old(self).valid_page(page),
            old(self).page_refs(page) >= 1,
            old(self).page_refs(page) == 1 ==> old(counter).count() >= 1,
        ensures
            final(counter).wf(),
            final(self).descriptor() == old(self).descriptor(),
            old(self).page_refs(page) > 1 ==> {
                &&& final(self).valid_page(page)
                &&& final(self).page_offset(page) == old(self).page_offset(page)
                &&& final(self).page_refs(page) == old(self).page_refs(page) - 1
                &&& final(self).live_count() == old(self).live_count()
                &&& *final(counter) == *old(counter)
            },
            old(self).page_refs(page) == 1 ==> {
                &&& !final(self).valid_page(page)
                &&& final(self).live_count() == old(self).live_count() - 1
                &&& final(counter).count() == old(counter).count() - 1
                &&& final(counter).history() == old(counter).history().push(PageEvent::Released)
            },
            forall|q: Page|
                old(self).valid_page(q) && q != page ==> #[trigger] final(self).valid_page(q),
            forall|q: Page|
                old(self).valid_page(q) && q != page ==> #[trigger] final(self).page_offset(q)
                    == old(self).page_offset(q),
            forall|q: Page|
                old(self).valid_page(q) && q != page ==> #[trigger] final(self).page_refs(q)
                    == old(self).page_refs(q),
            forall|q: Page| final(self).valid_page(q) ==> old(self).valid_page(q),
            forall|reg: MappingRegistry| old(self).wf(reg) ==> #[trigger] final(self).wf(reg),
    {
        let ghost all_old = self.slots@;
        let mut taken: Option<MmapBasedPage> = None;
        self.slots.set_and_swap(page.slot, &mut taken);
        let p = match taken {
            Some(p) => p,
            None => vstd::pervasive::unreached(),
        };
        proof {
            lemma_live_slots_update(all_old, page.slot as int, None);
        }
        if p.refs > 1 {
            let refs = p.refs;
            let shared = MmapBasedPage { offset: p.offset, refs: refs - 1 };
            proof {
                lemma_live_slots_update(self.slots@, page.slot as int, Some(shared));
            }
            self.slots.set(page.slot, Some(shared));
        } else {
            counter.dec();
        }
    }

    /// The persisted identity of this allocator: the mapped backend tag
    /// with the context needed to reopen its mapping.
    pub fn serialize(&self) -> (r: PageAllocatorSerialization)
        ensures
            r == PageAllocatorSerialization::Mmap(
                MmapContext { descriptor: self.descriptor_value() },
            ),
            r matches PageAllocatorSerialization::Mmap(c) && c.descriptor as int
                == self.descriptor(),
    {
        PageAllocatorSerialization::Mmap(MmapContext { descriptor: self.descriptor })
    }

    /// The exec value of this allocator's descriptor.
    pub closed spec fn descriptor_value(&self) -> usize {
        self.descriptor
    }

    /// Reconstructs an allocator over an existing mapping from a mapped
    /// backend tag, without the instance that produced the tag. A tag of a
    /// different backend, or a context naming no mapping of the registry,
    /// is rejected as a distinct fatal value.
    pub fn deserialize(serialized: PageAllocatorSerialization, registry: &MappingRegistry) -> (r:
        Result<MmapBasedPageAllocator, PageAllocatorError>)
        requires
            registry.wf(),
        ensures
            r is Ok <==> (serialized matches PageAllocatorSerialization::Mmap(c)
                && registry.is_mapping(c.descriptor as int)),
            r is Ok ==> {
                &&& r->Ok_0.wf(*registry)
                &&& r->Ok_0.descriptor() == serialized->Mmap_0.descriptor as int
                &&& r->Ok_0.live_count() == 0
                &&& forall|p: Page| !r->Ok_0.valid_page(p)
            },
            serialized is Empty || serialized is Heap ==> r == Err::<
                MmapBasedPageAllocator,
                PageAllocatorError,
            >(PageAllocatorError::BackendMismatch),
            serialized matches PageAllocatorSerialization::Mmap(c) && !registry.is_mapping(
                c.descriptor as int,
            ) ==> r == Err::<MmapBasedPageAllocator, PageAllocatorError>(
                PageAllocatorError::InvalidMappingContext,
            ),
    {
        match serialized {
            PageAllocatorSerialization::Mmap(context) => {
                if context.descriptor < registry.mappings.len() {
                    Ok(MmapBasedPageAllocator { descriptor: context.descriptor, slots: Vec::new() })
                } else {
                    Err(PageAllocatorError::InvalidMappingContext)
                }
            },
            PageAllocatorSerialization::Empty | PageAllocatorSerialization::Heap => Err(
                PageAllocatorError::BackendMismatch,
            ),
        }
    }

    /// Serializes a page delta as the mapping context plus one
    /// index-and-offset record per page — a reference into the shared
    /// mapping, copying no bytes.
    pub fn serialize_page_delta(&self, delta: &Vec<(PageIndex, Page)>) -> (r:
        PageDeltaSerialization)
        requires
            self.delta_valid(delta@),
        ensures
            r matches PageDeltaSerialization::Mmap { context, pages } && {
                &&& context.descriptor as int == self.descriptor()
                &&& pages@.len() == delta@.len()
                &&& mmap_records_model(pages@) == self.delta_offsets(delta@)
                &&& forall|i: int, j: int|
                    0 <= i < j < delta@.len() && delta@[i].0 != delta@[j].0 ==> pages@[i].index
                        != pages@[j].index
            },
    {
        let mut records: Vec<MmapPageSerialization> = Vec::new();
        let mut i: usize = 0;
        while i < delta.len()
            invariant
                self.delta_valid(delta@),
                i <= delta@.len(),
                records@.len() == i,
                forall|k: int|
                    0 <= k < i ==> {
                        &&& (#[trigger] records@[k]).index == delta@[k].0
                        &&& records@[k].offset as int == self.page_offset(delta@[k].1)
                    },
            decreases delta@.len() - i,
        {
            let offset = match &self.slots[delta[i].1.slot] {
                Some(p) => p.offset,
                None => vstd::pervasive::unreached(),
            };
            records.push(MmapPageSerialization { index: delta[i].0, offset });
            i = i + 1;
        }
        proof {
            assert(mmap_records_model(records@) =~= self.delta_offsets(delta@));
        }
        PageDeltaSerialization::Mmap {
            context: MmapContext { descriptor: self.descriptor },
            pages: records,
        }
    }

    /// Whether a serialized delta can be decoded by this allocator under
    /// `registry`: it carries the mapped backend tag, names this
    /// allocator's mapping, and every record is a whole, page-aligned
    /// range of committed mapping bytes.
    pub open spec fn delta_decodable(
        &self,
        registry: MappingRegistry,
        delta: PageDeltaSerialization,
    ) -> bool {
        delta matches PageDeltaSerialization::Mmap { context, pages } && context.descriptor as int
            == self.descriptor() && forall|i: int|
            0 <= i < pages@.len() ==> ((#[trigger] pages@[i]).offset % PAGE_SIZE == 0
                && pages@[i].offset + PAGE_SIZE <= registry.mapping_bytes(self.descriptor()).len())
    }

    /// Decodes a mapped-backend page delta into fresh page handles that
    /// reference the named mapping ranges — no bytes are copied, and the
    /// original allocator that serialized the delta need not exist. The
    /// live counter grows per decoded page. A delta tagged for a different
    /// backend is a fatal mismatch; one whose context or offsets do not
    /// resolve against the registry is a fatal invalid context. Either
    /// rejection leaves the allocator and the counter untouched.
    pub fn deserialize_page_delta(
        &mut self,
        counter: &mut PageCounter,
        registry: &MappingRegistry,
        delta: PageDeltaSerialization,
    ) -> (r: Result<Vec<(PageIndex, Page)>, PageAllocatorError>)
        requires
            old(self).wf(*registry),
            old(counter).wf(),
            delta matches PageDeltaSerialization::Mmap { context, pages } ==> {
                &&& old(counter).count() + pages@.len() <= u64::MAX
                &&& forall|i: int, j: int|
                    0 <= i < j < pages@.len() ==> pages@[i].index != pages@[j].index
            },
        ensures
            final(self).wf(*registry),
            final(counter).wf(),
            final(self).descriptor() == old(self).descriptor(),
            r is Ok <==> old(self).delta_decodable(*registry, delta),
            delta is Empty || delta is Heap ==> (r matches Err(e) && e
                == PageAllocatorError::BackendMismatch),
            delta is Mmap && !old(self).delta_decodable(*registry, delta) ==> (r matches Err(e)
                && e == PageAllocatorError::InvalidMappingContext),
            r is Err ==> *final(self) == *old(self) && *final(counter) == *old(counter),
            r is Ok ==> {
                &&& r->Ok_0@.len() == delta->Mmap_pages@.len()
                &&& forall|i: int|
                    0 <= i < r->Ok_0@.len() ==> {
                        &&& (#[trigger] r->Ok_0@[i]).0 == delta->Mmap_pages@[i].index
                        &&& final(self).valid_page(r->Ok_0@[i].1)
                        &&& final(self).page_offset(r->Ok_0@[i].1)
                            == delta->Mmap_pages@[i].offset as int
                        &&& final(self).page_bytes(*registry, r->Ok_0@[i].1)
                            == registry.mapping_bytes(old(self).descriptor()).subrange(
                            delta->Mmap_pages@[i].offset as int,
                            delta->Mmap_pages@[i].offset + PAGE_SIZE,
                        )
                        &&& final(self).page_refs(r->Ok_0@[i].1) == 1
                        &&& !old(self).valid_page(r->Ok_0@[i].1)
                    }
                &&& mmap_records_model(delta->Mmap_pages@) == final(self).delta_offsets(r->Ok_0@)
                &&& forall|i: int, j: int|
                    0 <= i < j < r->Ok_0@.len() ==> r->Ok_0@[i].1 != r->Ok_0@[j].1
                &&& forall|p: Page|
                    old(self).valid_page(p) ==> {
                        &&& #[trigger] final(self).valid_page(p)
                        &&& final(self).page_offset(p) == old(self).page_offset(p)
                        &&& final(self).page_refs(p) == old(self).page_refs(p)
                    }
                &&& final(self).live_count() == old(self).live_count() + delta->Mmap_pages@.len()
                &&& final(counter).count() == old(counter).count() + delta->Mmap_pages@.len()
                &&& final(counter).history() == old(counter).history() + event_run(
                    PageEvent::Constructed,
                    delta->Mmap_pages@.len(),
                )
            },
    {
        let ghost gdelta = delta;
        let (context, records) = match delta {
            PageDeltaSerialization::Mmap { context, pages } => (context, pages),
            PageDeltaSerialization::Empty | PageDeltaSerialization::Heap(..) => {
                return Err(PageAllocatorError::BackendMismatch);
            },
        };
        if context.descriptor != self.descriptor {
            return Err(PageAllocatorError::InvalidMappingContext);
        }
        let mapping_len = registry.mappings[self.descriptor].bytes.len();
        let mut i: usize = 0;
        while i < records.len()
            invariant
                *self == *old(self),
                *counter == *old(counter),
                counter.wf(),
                self.wf(*registry),
                gdelta == delta,
                gdelta matches PageDeltaSerialization::Mmap { context: c, pages: p } && c == context
                    && p@ == records@,
                context.descriptor == self.descriptor,
                mapping_len == registry.mapping_bytes(self.descriptor()).len(),
                i <= records@.len(),
                forall|k: int|
                    0 <= k < i ==> ((#[trigger] records@[k]).offset % PAGE_SIZE == 0
                        && records@[k].offset + PAGE_SIZE <= mapping_len),
            decreases records@.len() - i,
        {
            let record = records[i];
            if record.offset % PAGE_SIZE != 0 || mapping_len < PAGE_SIZE || record.offset
                > mapping_len - PAGE_SIZE {
                proof {
                    assert(!self.delta_decodable(*registry, gdelta)) by {
                        assert(gdelta->Mmap_pages@[i as int] == record);
                    }
                }
                return Err(PageAllocatorError::InvalidMappingContext);
            }
            i = i + 1;
        }
        proof {
            assert(self.delta_decodable(*registry, gdelta));
        }
        let ghost base_slots = self.slots@;
        let mut r: Vec<(PageIndex, Page)> = Vec::new();
        let mut i: usize = 0;
        while i < records.len()
            invariant
                i <= records@.len(),
                self.descriptor() == old(self).descriptor(),
                old(self).wf(*registry),
                counter.wf(),
                old(counter).count() + records@.len() <= u64::MAX,
                base_slots == old(self).slots@,
                mapping_len == registry.mapping_bytes(self.descriptor()).len(),
                forall|k: int|
                    0 <= k < records@.len() ==> ((#[trigger] records@[k]).offset % PAGE_SIZE == 0
                        && records@[k].offset + PAGE_SIZE <= mapping_len),
                self.slots@.len() == base_slots.len() + i,
                forall|k: int| 0 <= k < base_slots.len() ==> self.slots@[k] == base_slots[k],
                forall|k: int|
                    0 <= k < i ==> {
                        &&& (#[trigger] self.slots@[base_slots.len() + k]) is Some
                        &&& self.slots@[base_slots.len() + k]->Some_0.offset == records@[k].offset
                        &&& self.slots@[base_slots.len() + k]->Some_0.refs == 1
                    },
                r@.len() == i,
                forall|k: int|
                    0 <= k < i ==> {
                        &&& (#[trigger] r@[k]).0 == records@[k].index
                        &&& r@[k].1.slot == base_slots.len() + k
                    },
                live_slots(self.slots@) == live_slots(base_slots) + i,
                counter.count() == old(counter).count() + i,
                counter.history() == old(counter).history() + event_run(
                    PageEvent::Constructed,
                    i as nat,
                ),
            decreases records@.len() - i,
        {
            let record = records[i];
            let slot = self.slots.len();
            let fresh = MmapBasedPage { offset: record.offset, refs: 1 };
            proof {
                lemma_live_slots_push(self.slots@, Some(fresh));
            }
            self.slots.push(Some(fresh));
            counter.inc();
            r.push((record.index, Page { slot }));
            i = i + 1;
            proof {
                assert(counter.history() =~= old(counter).history() + event_run(
                    PageEvent::Constructed,
                    i as nat,
                ));
            }
        }
        proof {
            assert(mmap_records_model(records@) =~= self.delta_offsets(r@));
            assert forall|p: Page|
                old(self).valid_page(p) implies #[trigger] self.valid_page(p) && self.page_offset(
                p,
            ) == old(self).page_offset(p) && self.page_refs(p) == old(self).page_refs(p) by {
                assert(self.slots@[p.slot as int] == base_slots[p.slot as int]);
            }
            assert forall|s: int|
                0 <= s < self.slots@.len() && self.slots@[s] is Some implies {
                &&& (#[trigger] self.slots@[s])->Some_0.offset % PAGE_SIZE == 0
                &&& self.slots@[s]->Some_0.offset + PAGE_SIZE <= registry.mapping_bytes(
                    self.descriptor(),
                ).len()
                &&& self.slots@[s]->Some_0.refs >= 1
            } by {
                if s < base_slots.len() {
                    assert(self.slots@[s] == base_slots[s]);
                    assert(old(self).slots@[s] is Some);
                } else {
                    let k = s - base_slots.len();
                    assert(self.slots@[base_slots.len() + k] is Some);
                    assert(records@[k].offset % PAGE_SIZE == 0 && records@[k].offset + PAGE_SIZE
                        <= mapping_len);
                }
            }
        }
        Ok(r)
    }
}

/// The model of a mapped-backend delta payload: index and mapping offset,
/// record for record.
pub open spec fn mmap_records_model(records: Seq<MmapPageSerialization>) -> Seq<(PageIndex, int)> {
    records.map_values(|r: MmapPageSerialization| (r.index, r.offset as int))
}

/// Round trip over the mapped backend: for any pairs of index and page
/// content, the pages decoded from the serialization of a delta allocated
/// from those pairs — by an allocator reopened over the same mapping, with
/// no need for the instance that serialized the delta — are content-equal,
/// index for index, to the pairs. The premises are exactly what `allocate`
/// ensures of the pages it hands out, what `serialize_page_delta` ensures
/// of the records it produces, what `deserialize` ensures of a reopened
/// allocator, and what `deserialize_page_delta` ensures of the pages it
/// reconstructs.
pub proof fn lemma_mmap_delta_round_trip(
    registry: MappingRegistry,
    pairs: Seq<(PageIndex, Seq<u8>)>,
    a: MmapBasedPageAllocator,
    delta: Seq<(PageIndex, Page)>,
    records: Seq<MmapPageSerialization>,
    b: MmapBasedPageAllocator,
    out: Seq<(PageIndex, Page)>,
)
    requires
        a.delta_contents(registry, delta) == pairs,
        mmap_records_model(records) == a.delta_offsets(delta),
        b.descriptor() == a.descriptor(),
        mmap_records_model(records) == b.delta_offsets(out),
    ensures
        out.len() == pairs.len(),
        forall|i: int|
            0 <= i < pairs.len() ==> (#[trigger] out[i]).0 == pairs[i].0 && b.page_bytes(
                registry,
                out[i].1,
            ) == pairs[i].1,
{
    assert(a.delta_offsets(delta).len() == delta.len());
    assert(a.delta_contents(registry, delta).len() == delta.len());
    assert(mmap_records_model(records).len() == records.len());
    assert(b.delta_offsets(out).len() == out.len());
    assert forall|i: int| 0 <= i < pairs.len() implies (#[trigger] out[i]).0 == pairs[i].0
        && b.page_bytes(registry, out[i].1) == pairs[i].1 by {
        assert(b.delta_offsets(out)[i] == a.delta_offsets(delta)[i]);
        assert(b.delta_offsets(out)[i] == (out[i].0, b.page_offset(out[i].1)));
        assert(a.delta_offsets(delta)[i] == (delta[i].0, a.page_offset(delta[i].1)));
        assert(a.delta_contents(registry, delta)[i] == (delta[i].0, a.page_bytes(
            registry,
            delta[i].1,
        )));
        assert(b.page_bytes(registry, out[i].1) == a.page_bytes(registry, delta[i].1));
    }
}

/// What well-formedness gives of each live page: a whole, page-aligned,
/// in-bounds range of the committed mapping bytes, shared by at least one
/// handle.
pub proof fn lemma_wf_live_page(a: &MmapBasedPageAllocator, registry: MappingRegistry, p: Page)
    requires
        a.wf(registry),
        a.valid_page(p),
    ensures
        a.page_offset(p) % (PAGE_SIZE as int) == 0,
        a.page_offset(p) + PAGE_SIZE <= registry.mapping_bytes(a.descriptor()).len(),
        a.page_refs(p) >= 1,
{
    assert(a.slots@[p.slot as int] is Some);
}

/// Two live, distinctly placed pages of one well-formed mapped allocator
/// occupy disjoint, in-bounds ranges of the mapping.
proof fn lemma_distinct_pages_disjoint(
    registry: MappingRegistry,
    a: &MmapBasedPageAllocator,
    q: Page,
    p: Page,
)
    requires
        a.wf(registry),
        a.valid_page(q),
        a.valid_page(p),
        a.page_offset(q) != a.page_offset(p),
    ensures
        a.page_offset(q) + PAGE_SIZE <= a.page_offset(p) || a.page_offset(p) + PAGE_SIZE
            <= a.page_offset(q),
{
    let oq = a.page_offset(q);
    let op = a.page_offset(p);
    assert(oq % (PAGE_SIZE as int) == 0 && op % (PAGE_SIZE as int) == 0);
    assert(oq + PAGE_SIZE <= op || op + PAGE_SIZE <= oq) by (nonlinear_arith)
        requires
            oq % (PAGE_SIZE as int) == 0,
            op % (PAGE_SIZE as int) == 0,
            oq != op,
            oq >= 0,
            op >= 0,
            PAGE_SIZE == 4096,
    ;
}

/// `(a + n * PAGE_SIZE) % PAGE_SIZE == 0` when `a` is page-aligned.
proof fn lemma_mod_of_sum(a: int, n: int)
    requires
        a % (PAGE_SIZE as int) == 0,
        a >= 0,
        n >= 0,
    ensures
        (a + n * PAGE_SIZE) % (PAGE_SIZE as int) == 0,
{
    assert((a + n * PAGE_SIZE) % (PAGE_SIZE as int) == 0) by (nonlinear_arith)
        requires
            a % (PAGE_SIZE as int) == 0,
            a >= 0,
            n >= 0,
            PAGE_SIZE == 4096,
    ;
}

} // verus!
