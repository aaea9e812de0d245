//! The allocator facade: one backend-agnostic page allocator over a closed
//! set of backends.
//!
//! A [`PageAllocator`] is selected once per instance: it starts with no
//! backend at all — the state an allocator that has not produced pages yet
//! serializes from and back into — and commits to the heap or the mapped
//! backend. All operations take the mapping registry and the live-page
//! counter as explicit context, so the two backends present one contract.

use vstd::prelude::*;

use crate::accounting::PageCounter;
use crate::accounting::PageEvent;
use crate::accounting::event_run;
use crate::heap::HeapBasedPageAllocator;
use crate::mmap::MappingRegistry;
use crate::mmap::MmapBasedPageAllocator;
use crate::page::PAGE_SIZE;
use crate::page::Page;
use crate::page::PageBytes;
use crate::page::PageIndex;
use crate::serialization::PageAllocatorError;
use crate::serialization::PageAllocatorSerialization;
use crate::serialization::PageDeltaSerialization;

verus! {

/// Whether no page index repeats within the batch: a `PageIndex` appears
/// at most once within a single allocation request.
pub open spec fn indices_unique(pages: Seq<(PageIndex, PageBytes)>) -> bool {
    forall|i: int, j: int| 0 <= i < j < pages.len() ==> pages[i].0 != pages[j].0
}

/// Decides [`indices_unique`] for a batch.
pub fn batch_indices_unique(pages: &Vec<(PageIndex, PageBytes)>) -> (r: bool)
    ensures
        r == indices_unique(pages@),
{
    let mut i: usize = 0;
    while i < pages.len()
        invariant
            i <= pages@.len(),
            forall|a: int, b: int|
                0 <= a < i && a < b < pages@.len() ==> pages@[a].0 != pages@[b].0,
        decreases pages@.len() - i,
    {
        let mut j: usize = i + 1;
        while j < pages.len()
            invariant
                i < pages@.len(),
                i < j <= pages@.len(),
                forall|a: int, b: int|
                    0 <= a < i && a < b < pages@.len() ==> pages@[a].0 != pages@[b].0,
                forall|b: int| i < b < j ==> pages@[i as int].0 != pages@[b].0,
            decreases pages@.len() - j,
        {
            if pages[i].0 == pages[j].0 {
                return false;
            }
            j = j + 1;
        }
        i = i + 1;
    }
    true
}

/// A page allocator: no backend yet, heap-backed, or mapped. Exactly one
/// backend is selected per instance; an `Empty` allocator commits to the
/// heap backend on first allocation, since the mapped backend needs an
/// explicit mapping.
#[derive(Debug)]
pub enum PageAllocator {
    Empty,
    Heap(HeapBasedPageAllocator),
    Mmap(MmapBasedPageAllocator),
}

impl PageAllocator {
    /// Whether `p` is a live page of this allocator.
    pub open spec fn valid_page(&self, p: Page) -> bool {
        match self {
            PageAllocator::Empty => false,
            PageAllocator::Heap(h) => h.valid_page(p),
            PageAllocator::Mmap(m) => m.valid_page(p),
        }
    }

    /// The content of live page `p` under `registry`.
    pub open spec fn page_bytes(&self, registry: MappingRegistry, p: Page) -> Seq<u8> {
        match self {
            PageAllocator::Empty => Seq::empty(),
            PageAllocator::Heap(h) => h.page_bytes(p),
            PageAllocator::Mmap(m) => m.page_bytes(registry, p),
        }
    }

    /// How many handles currently share live page `p`.
    pub open spec fn page_refs(&self, p: Page) -> int {
        match self {
            PageAllocator::Empty => 0,
            PageAllocator::Heap(h) => h.page_refs(p),
            PageAllocator::Mmap(m) => m.page_refs(p),
        }
    }

    /// The number of live pages this allocator holds.
    pub open spec fn live_count(&self) -> int {
        match self {
            PageAllocator::Empty => 0,
            PageAllocator::Heap(h) => h.live_count(),
            PageAllocator::Mmap(m) => m.live_count(),
        }
    }

    /// Well-formedness relative to the registry the allocator is used
    /// with.
    pub open spec fn wf(&self, registry: MappingRegistry) -> bool {
        match self {
            PageAllocator::Empty => registry.wf(),
            PageAllocator::Heap(h) => h.wf() && registry.wf(),
            PageAllocator::Mmap(m) => m.wf(registry),
        }
    }

    /// The content mapping a delta of live pages stands for under
    /// `registry`: index and bytes, entry for entry.
    pub open spec fn delta_contents(
        &self,
        registry: MappingRegistry,
        delta: Seq<(PageIndex, Page)>,
    ) -> Seq<(PageIndex, Seq<u8>)> {
        Seq::new(delta.len(), |i: int| (delta[i].0, self.page_bytes(registry, delta[i].1)))
    }

    /// Whether every page of `delta` is a live page of this allocator.
    pub open spec fn delta_valid(&self, delta: Seq<(PageIndex, Page)>) -> bool {
        forall|i: int| 0 <= i < delta.len() ==> self.valid_page((#[trigger] delta[i]).1)
    }

    /// Whether the backend can hold `n` more pages: always, except for a
    /// mapped allocator whose reservation is short.
    pub open spec fn can_allocate(&self, registry: MappingRegistry, n: int) -> bool {
        match self {
            PageAllocator::Empty => true,
            PageAllocator::Heap(_) => true,
            PageAllocator::Mmap(m) => registry.mapping_bytes(m.descriptor()).len() + n * PAGE_SIZE
                <= registry.mapping_capacity(m.descriptor()),
        }
    }

    /// An allocator with no backend yet.
    pub fn new() -> (r: PageAllocator)
        ensures
            r is Empty,
            r.live_count() == 0,
            forall|p: Page| !r.valid_page(p),
    {
        PageAllocator::Empty
    }

    /// An allocator over the heap backend.
    pub fn new_heap() -> (r: PageAllocator)
        ensures
            r is Heap,
            forall|reg: MappingRegistry| reg.wf() ==> #[trigger] r.wf(reg),
            r.live_count() == 0,
            forall|p: Page| !r.valid_page(p),
    {
        PageAllocator::Heap(HeapBasedPageAllocator::new())
    }

    /// An allocator over the mapped backend, with a freshly reserved
    /// mapping of at most `capacity` bytes.
    pub fn new_mmap(registry: &mut MappingRegistry, capacity: usize) -> (r: PageAllocator)
        requires
            old(registry).wf(),
        ensures
            r is Mmap,
            r.wf(*final(registry)),
            r.live_count() == 0,
            forall|p: Page| !r.valid_page(p),
            final(registry).mapping_count() == old(registry).mapping_count() + 1,
            r->Mmap_0.descriptor() == old(registry).mapping_count(),
            final(registry).mapping_bytes(r->Mmap_0.descriptor()) == Seq::<u8>::empty(),
            final(registry).mapping_capacity(r->Mmap_0.descriptor()) == capacity,
            forall|e: int|
                old(registry).is_mapping(e) ==> #[trigger] final(registry).mapping_bytes(e) == old(
                    registry,
                ).mapping_bytes(e) && final(registry).mapping_capacity(e) == old(
                    registry,
                ).mapping_capacity(e),
    {
        PageAllocator::Mmap(MmapBasedPageAllocator::new(registry, capacity))
    }

    /// Turns a batch of indexed page contents into page handles through
    /// the selected backend; an allocator with no backend yet commits to
    /// the heap backend. A batch that repeats a page index is rejected
    /// whole, as is one the mapped backend's reservation cannot hold;
    /// a rejected batch changes nothing.
    pub fn allocate(
        &mut self,
        registry: &mut MappingRegistry,
        counter: &mut PageCounter,
        pages: &Vec<(PageIndex, PageBytes)>,
    ) -> (r: Result<Vec<(PageIndex, Page)>, PageAllocatorError>)
        requires
            old(self).wf(*old(registry)),
            old(counter).wf(),
            forall|i: int| 0 <= i < pages@.len() ==> (#[trigger] pages@[i]).1.wf(),
            old(counter).count() + pages@.len() <= u64::MAX,
        ensures
            final(self).wf(*final(registry)),
            final(counter).wf(),
            r is Ok <==> indices_unique(pages@) && old(self).can_allocate(
                *old(registry),
                pages@.len() as int,
            ),
            r == Err::<Vec<(PageIndex, Page)>, PageAllocatorError>(
                PageAllocatorError::DuplicatePageIndex,
            ) <==> !indices_unique(pages@),
            r is Err ==> {
                &&& *final(self) == *old(self)
                &&& *final(registry) == *old(registry)
                &&& *final(counter) == *old(counter)
                &&& (r->Err_0 == PageAllocatorError::DuplicatePageIndex || r->Err_0
                    == PageAllocatorError::MappingExhausted)
            },
            *old(self) is Empty || *old(self) is Heap ==> *final(self) is Heap || *final(self) == *old(self),
            *old(self) is Mmap ==> *final(self) is Mmap && final(self)->Mmap_0.descriptor() == old(self)->Mmap_0.descriptor(),
            *old(self) is Empty || *old(self) is Heap ==> *final(registry) == *old(registry),
            r is Ok ==> {
                &&& r->Ok_0@.len() == pages@.len()
                &&& forall|i: int|
                    0 <= i < r->Ok_0@.len() ==> {
                        &&& (#[trigger] r->Ok_0@[i]).0 == pages@[i].0
                        &&& final(self).valid_page(r->Ok_0@[i].1)
                        &&& final(self).page_bytes(*final(registry), r->Ok_0@[i].1) == pages@[i].1@
                        &&& final(self).page_refs(r->Ok_0@[i].1) == 1
                        &&& !old(self).valid_page(r->Ok_0@[i].1)
                    }
                &&& forall|i: int, j: int|
                    0 <= i < j < r->Ok_0@.len() ==> r->Ok_0@[i].1 != r->Ok_0@[j].1
                &&& forall|p: Page|
                    old(self).valid_page(p) ==> {
                        &&& #[trigger] final(self).valid_page(p)
                        &&& final(self).page_bytes(*final(registry), p) == old(self).page_bytes(
                            *old(registry),
                            p,
                        )
                        &&& final(self).page_refs(p) == old(self).page_refs(p)
                    }
                &&& final(registry).mapping_count() == old(registry).mapping_count()
                &&& *old(self) is Mmap ==> {
                    &&& final(registry).mapping_bytes(old(self)->Mmap_0.descriptor()).len() == old(
                        registry,
                    ).mapping_bytes(old(self)->Mmap_0.descriptor()).len() + pages@.len()
                        * PAGE_SIZE
                    &&& final(registry).mapping_capacity(old(self)->Mmap_0.descriptor()) == old(
                        registry,
                    ).mapping_capacity(old(self)->Mmap_0.descriptor())
                    &&& forall|e: int|
                        old(registry).is_mapping(e) && e != old(self)->Mmap_0.descriptor()
                            ==> #[trigger] final(registry).mapping_bytes(e) == old(
                            registry,
                        ).mapping_bytes(e) && final(registry).mapping_capacity(e) == old(
                            registry,
                        ).mapping_capacity(e)
                }
                &&& final(self).live_count() == old(self).live_count() + pages@.len()
                &&& final(counter).count() == old(counter).count() + pages@.len()
                &&& final(counter).history() == old(counter).history() + event_run(
                    PageEvent::Constructed,
                    pages@.len(),
                )
            },
    {
        if !batch_indices_unique(pages) {
            return Err(PageAllocatorError::DuplicatePageIndex);
        }
        match self {
            PageAllocator::Empty => {
                let mut h = HeapBasedPageAllocator::new();
                let out = h.allocate(counter, pages);
                *self = PageAllocator::Heap(h);
                Ok(out)
            },
            PageAllocator::Heap(h) => Ok(h.allocate(counter, pages)),
            PageAllocator::Mmap(m) => m.allocate(registry, counter, pages),
        }
    }

    /// A copy of a live page's content, read through the allocator that
    /// produced the page and the registry it is used with.
    pub fn contents(&self, registry: &MappingRegistry, page: &Page) -> (r: PageBytes)
        requires
            self.wf(*registry),
            self.valid_page(*page),
        ensures
            r.wf(),
            r@ == self.page_bytes(*registry, *page),
    {
        match self {
            PageAllocator::Empty => vstd::pervasive::unreached(),
            PageAllocator::Heap(h) => h.contents(page).duplicate(),
            PageAllocator::Mmap(m) => m.contents(registry, page),
        }
    }

    /// Overwrites `slice.len()` bytes of a live page in place, starting at
    /// `offset` within the page. The write is visible through every handle
    /// that shares the page; on the mapped backend it goes to the shared
    /// mapping, so pages aliasing the same mapping range see it as well.
    pub fn copy_from_slice(
        &mut self,
        registry: &mut MappingRegistry,
        page: &Page,
        offset: usize,
        slice: &[u8],
    )
        requires
            old(self).wf(*old(registry)),
            old(self).valid_page(*page),
            offset + slice@.len() <= PAGE_SIZE,
        ensures
            final(self).wf(*final(registry)),
            final(self).valid_page(*page),
            final(self).page_bytes(*final(registry), *page) == crate::page::overwrite(
                old(self).page_bytes(*old(registry), *page),
                offset as int,
                slice@,
            ),
            forall|q: Page|
                old(self).valid_page(q) ==> #[trigger] final(self).valid_page(q)
                    && final(self).page_refs(q) == old(self).page_refs(q),
            forall|q: Page| final(self).valid_page(q) ==> old(self).valid_page(q),
            final(self).live_count() == old(self).live_count(),
            final(registry).mapping_count() == old(registry).mapping_count(),
            *old(self) is Heap ==> *final(self) is Heap && *final(registry) == *old(registry)
                && (forall|q: Page|
                old(self).valid_page(q) && q != *page ==> #[trigger] final(self).page_bytes(
                    *final(registry),
                    q,
                ) == old(self).page_bytes(*old(registry), q)),
            *old(self) is Mmap ==> *final(self) == *old(self) && (forall|q: Page|
                old(self).valid_page(q) && old(self)->Mmap_0.page_offset(q)
                    != old(self)->Mmap_0.page_offset(*page) ==> #[trigger] final(self).page_bytes(
                    *final(registry),
                    q,
                ) == old(self).page_bytes(*old(registry), q)) && (forall|e: int|
                old(registry).is_mapping(e) && e != old(self)->Mmap_0.descriptor()
                    ==> #[trigger] final(registry).mapping_bytes(e) == old(
                    registry,
                ).mapping_bytes(e)),
    {
        match self {
            PageAllocator::Empty => vstd::pervasive::unreached(),
            PageAllocator::Heap(h) => h.copy_from_slice(page, offset, slice),
            PageAllocator::Mmap(m) => m.copy_from_slice(registry, page, offset, slice),
        }
    }

    /// Hands out one more handle to a live page: O(1), no content is
    /// duplicated, and the new handle is indistinguishable from the one it
    /// was cloned from. The page's ownership count grows by one.
    pub fn clone_page(&mut self, registry: &MappingRegistry, page: &Page) -> (r: Page)
        requires
            old(self).wf(*registry),
            old(self).valid_page(*page),
            old(self).page_refs(*page) < u64::MAX,
        ensures
            final(self).wf(*registry),
            r == *page,
            final(self).valid_page(*page),
            final(self).page_refs(*page) == old(self).page_refs(*page) + 1,
            forall|q: Page|
                old(self).valid_page(q) ==> #[trigger] final(self).valid_page(q)
                    && final(self).page_bytes(*registry, q) == old(self).page_bytes(*registry, q),
            forall|q: Page|
                old(self).valid_page(q) && q != *page ==> #[trigger] final(self).page_refs(q)
                    == old(self).page_refs(q),
            forall|q: Page| final(self).valid_page(q) ==> old(self).valid_page(q),
            final(self).live_count() == old(self).live_count(),
    {
        match self {
            PageAllocator::Empty => vstd::pervasive::unreached(),
            PageAllocator::Heap(h) => h.clone_page(page),
            PageAllocator::Mmap(m) => {
                proof {
                    crate::mmap::lemma_wf_live_page(m, *registry, *page);
                }
                m.clone_page(page)
            },
        }
    }

    /// Gives up one handle to a live page. While other handles share the
    /// page it stays live with its content intact; dropping the last
    /// handle releases the page's storage and decrements the live counter.
    pub fn drop_page(&mut self, registry: &MappingRegistry, counter: &mut PageCounter, page: Page)
        requires
            old(self).wf(*registry),
            old(counter).wf(),
            old(self).valid_page(page),
            old(self).page_refs(page) == 1 ==> old(counter).count() >= 1,
        ensures
            final(self).wf(*registry),
            final(counter).wf(),
            old(self).page_refs(page) > 1 ==> {
                &&& final(self).valid_page(page)
                &&& final(self).page_bytes(*registry, page) == old(self).page_bytes(
                    *registry,
                    page,
                )
                &&& final(self).page_refs(page) == old(self).page_refs(page) - 1
                &&& final(self).live_count() == old(self).live_count()
                &&& *final(counter) == *old(counter)
            },
            old(self).page_refs(page) == 1 ==> {
                &&& !final(self).valid_page(page)
                &&& final(self).live_count() == old(self).live_count() - 1
                &&& final(counter).count() == old(counter).count() - 1
                &&& final(counter).history() == old(counter).history().push(PageEvent::Released)
            },
            forall|q: Page|
                old(self).valid_page(q) && q != page ==> #[trigger] final(self).valid_page(q),
            forall|q: Page|
                old(self).valid_page(q) && q != page ==> #[trigger] final(self).page_bytes(
                    *registry,
                    q,
                ) == old(self).page_bytes(*registry, q),
            forall|q: Page|
                old(self).valid_page(q) && q != page ==> #[trigger] final(self).page_refs(q)
                    == old(self).page_refs(q),
            forall|q: Page| final(self).valid_page(q) ==> old(self).valid_page(q),
    {
        match self {
            PageAllocator::Empty => vstd::pervasive::unreached(),
            PageAllocator::Heap(h) => h.drop_page(counter, page),
            PageAllocator::Mmap(m) => {
                proof {
                    crate::mmap::lemma_wf_live_page(m, *registry, page);
                }
                m.drop_page(counter, page)
            },
        }
    }

    /// The persisted identity of this allocator: which backend a
    /// checkpoint or transferred delta belongs to, with the mapping
    /// context for the mapped backend.
    pub fn serialize(&self) -> (r: PageAllocatorSerialization)
        ensures
            *self is Empty <==> r is Empty,
            *self is Heap <==> r is Heap,
            *self is Mmap <==> r is Mmap,
            *self is Mmap ==> r->Mmap_0.descriptor as int == self->Mmap_0.descriptor(),
    {
        match self {
            PageAllocator::Empty => PageAllocatorSerialization::Empty,
            PageAllocator::Heap(h) => h.serialize(),
            PageAllocator::Mmap(m) => m.serialize(),
        }
    }

    /// Reconstructs an allocator — with no pages yet — from a persisted
    /// identity: every backend tag is valid here, but a mapped context
    /// naming no mapping of the registry is rejected as a distinct fatal
    /// value.
    pub fn deserialize(serialized: PageAllocatorSerialization, registry: &MappingRegistry) -> (r:
        Result<PageAllocator, PageAllocatorError>)
        requires
            registry.wf(),
        ensures
            r is Ok <==> !(serialized matches PageAllocatorSerialization::Mmap(c)
                && !registry.is_mapping(c.descriptor as int)),
            r is Err ==> r->Err_0 == PageAllocatorError::InvalidMappingContext,
            r is Ok ==> {
                &&& r->Ok_0.wf(*registry)
                &&& r->Ok_0.live_count() == 0
                &&& (forall|p: Page| !r->Ok_0.valid_page(p))
                &&& (serialized is Empty <==> r->Ok_0 is Empty)
                &&& (serialized is Heap <==> r->Ok_0 is Heap)
                &&& (serialized is Mmap <==> r->Ok_0 is Mmap)
                &&& serialized matches PageAllocatorSerialization::Mmap(c)
                    ==> r->Ok_0->Mmap_0.descriptor() == c.descriptor as int
            },
    {
        match serialized {
            PageAllocatorSerialization::Empty => Ok(PageAllocator::Empty),
            PageAllocatorSerialization::Heap => Ok(
                PageAllocator::Heap(HeapBasedPageAllocator::new()),
            ),
            PageAllocatorSerialization::Mmap(_) => {
                match MmapBasedPageAllocator::deserialize(serialized, registry) {
                    Ok(m) => Ok(PageAllocator::Mmap(m)),
                    Err(e) => Err(PageAllocatorError::InvalidMappingContext),
                }
            },
        }
    }

    /// Whether a serialized delta can be decoded by this allocator under
    /// `registry`: its tag names this allocator's backend, and a mapped
    /// delta resolves against the allocator's mapping.
    pub open spec fn delta_decodable(
        &self,
        registry: MappingRegistry,
        delta: PageDeltaSerialization,
    ) -> bool {
        match self {
            PageAllocator::Empty => delta is Empty,
            PageAllocator::Heap(_) => delta is Heap,
            PageAllocator::Mmap(m) => m.delta_decodable(registry, delta),
        }
    }

    /// Serializes a page delta of live pages through the selected
    /// backend's format; the result decodes under this allocator and this
    /// registry.
    pub fn serialize_page_delta(
        &self,
        registry: &MappingRegistry,
        delta: &Vec<(PageIndex, Page)>,
    ) -> (r: PageDeltaSerialization)
        requires
            self.wf(*registry),
            self.delta_valid(delta@),
        ensures
            self.delta_decodable(*registry, r),
            *self is Empty ==> r is Empty,
            *self is Heap ==> (r matches PageDeltaSerialization::Heap(records) && records@.len()
                == delta@.len() && crate::heap::heap_records_model(records@)
                == self.delta_contents(*registry, delta@)),
            *self is Mmap ==> (r matches PageDeltaSerialization::Mmap { context, pages } && {
                &&& context.descriptor as int == self->Mmap_0.descriptor()
                &&& pages@.len() == delta@.len()
                &&& crate::mmap::mmap_records_model(pages@) == self->Mmap_0.delta_offsets(delta@)
            }),
    {
        match self {
            PageAllocator::Empty => PageDeltaSerialization::Empty,
            PageAllocator::Heap(h) => {
                let r = h.serialize_page_delta(delta);
                proof {
                    assert(h.delta_contents(delta@) =~= self.delta_contents(*registry, delta@));
                }
                r
            },
            PageAllocator::Mmap(m) => {
                let r = m.serialize_page_delta(delta);
                proof {
                    let pages = r->Mmap_pages@;
                    assert(crate::mmap::mmap_records_model(pages).len() == pages.len());
                    assert(m.delta_offsets(delta@).len() == delta@.len());
                    assert forall|i: int| 0 <= i < pages.len() implies ((#[trigger] pages[i]).offset
                        % PAGE_SIZE == 0 && pages[i].offset + PAGE_SIZE <= registry.mapping_bytes(
                        m.descriptor(),
                    ).len()) by {
                        assert(crate::mmap::mmap_records_model(pages)[i] == m.delta_offsets(
                            delta@,
                        )[i]);
                        assert(self.valid_page(delta@[i].1));
                        crate::mmap::lemma_wf_live_page(m, *registry, delta@[i].1);
                    }
                }
                r
            },
        }
    }

    /// How many page records a serialized delta carries.
    pub open spec fn delta_record_count(delta: PageDeltaSerialization) -> int {
        match delta {
            PageDeltaSerialization::Empty => 0,
            PageDeltaSerialization::Heap(records) => records@.len() as int,
            PageDeltaSerialization::Mmap { context, pages } => pages@.len() as int,
        }
    }

    /// Decodes a serialized page delta into fresh page handles through the
    /// selected backend. A delta carrying another backend's tag is a fatal
    /// mismatch; a mapped delta that does not resolve against the registry
    /// is a fatal invalid context. Either rejection changes nothing.
    pub fn deserialize_page_delta(
        &mut self,
        registry: &MappingRegistry,
        counter: &mut PageCounter,
        delta: PageDeltaSerialization,
    ) -> (r: Result<Vec<(PageIndex, Page)>, PageAllocatorError>)
        requires
            old(self).wf(*registry),
            old(counter).wf(),
            old(counter).count() + Self::delta_record_count(delta) <= u64::MAX,
            delta matches PageDeltaSerialization::Heap(records) ==> {
                &&& forall|i: int| 0 <= i < records@.len() ==> (#[trigger] records@[i]).bytes.wf()
                &&& forall|i: int, j: int|
                    0 <= i < j < records@.len() ==> records@[i].index != records@[j].index
            },
            delta matches PageDeltaSerialization::Mmap { context, pages } ==> forall|i: int, j: int|
                0 <= i < j < pages@.len() ==> pages@[i].index != pages@[j].index,
        ensures
            final(self).wf(*registry),
            final(counter).wf(),
            r is Ok <==> old(self).delta_decodable(*registry, delta),
            r is Err ==> {
                &&& *final(self) == *old(self)
                &&& *final(counter) == *old(counter)
                &&& (r->Err_0 == PageAllocatorError::BackendMismatch || r->Err_0
                    == PageAllocatorError::InvalidMappingContext)
            },
            (*old(self) is Empty && !(delta is Empty)) || (*old(self) is Heap && !(delta is Heap))
                || (*old(self) is Mmap && !(delta is Mmap)) ==> (r matches Err(e) && e
                == PageAllocatorError::BackendMismatch),
            *old(self) is Mmap && delta is Mmap && !old(self).delta_decodable(*registry, delta)
                ==> (r matches Err(e) && e == PageAllocatorError::InvalidMappingContext),
            r is Ok ==> {
                &&& r->Ok_0@.len() == Self::delta_record_count(delta)
                &&& forall|i: int|
                    0 <= i < r->Ok_0@.len() ==> {
                        &&& final(self).valid_page((#[trigger] r->Ok_0@[i]).1)
                        &&& final(self).page_refs(r->Ok_0@[i].1) == 1
                        &&& !old(self).valid_page(r->Ok_0@[i].1)
                    }
                &&& forall|i: int, j: int|
                    0 <= i < j < r->Ok_0@.len() ==> r->Ok_0@[i].1 != r->Ok_0@[j].1
                &&& forall|p: Page|
                    old(self).valid_page(p) ==> {
                        &&& #[trigger] final(self).valid_page(p)
                        &&& final(self).page_bytes(*registry, p) == old(self).page_bytes(
                            *registry,
                            p,
                        )
                        &&& final(self).page_refs(p) == old(self).page_refs(p)
                    }
                &&& delta matches PageDeltaSerialization::Heap(records)
                    ==> final(self).delta_contents(*registry, r->Ok_0@)
                    == crate::heap::heap_records_model(records@)
                &&& delta matches PageDeltaSerialization::Mmap { context, pages }
                    ==> crate::mmap::mmap_records_model(pages@)
                    == final(self)->Mmap_0.delta_offsets(r->Ok_0@)
                &&& final(self).live_count() == old(self).live_count() + Self::delta_record_count(
                    delta,
                )
                &&& final(counter).count() == old(counter).count() + Self::delta_record_count(
                    delta,
                )
                &&& final(counter).history() == old(counter).history() + event_run(
                    PageEvent::Constructed,
                    Self::delta_record_count(delta) as nat,
                )
            },
    {
        match self {
            PageAllocator::Empty => {
                match delta {
                    PageDeltaSerialization::Empty => {
                        proof {
                            assert(counter.history() =~= counter.history() + event_run(
                                PageEvent::Constructed,
                                0,
                            ));
                        }
                        Ok(Vec::new())
                    },
                    _ => Err(PageAllocatorError::BackendMismatch),
                }
            },
            PageAllocator::Heap(h) => {
                let r = h.deserialize_page_delta(counter, delta);
                proof {
                    if r is Ok {
                        assert(h.delta_contents(r->Ok_0@) =~= PageAllocator::Heap(
                            *h,
                        ).delta_contents(*registry, r->Ok_0@));
                    }
                }
                r
            },
            PageAllocator::Mmap(m) => m.deserialize_page_delta(counter, registry, delta),
        }
    }
}

/// Shared ownership: after a page handle is cloned, giving up one of the
/// two handles leaves the page live and its content, seen through the
/// remaining handle, unchanged. `a0` is the allocator before the clone;
/// the premises are exactly what `clone_page` ensures of the allocator
/// `a1` after a clone and what `drop_page` ensures of `a2` when more than
/// one handle shares the dropped page.
pub proof fn lemma_clone_then_drop_preserves_content(
    registry: MappingRegistry,
    a0: PageAllocator,
    a1: PageAllocator,
    a2: PageAllocator,
    p: Page,
    c: Page,
)
    requires
        a0.valid_page(p),
        a0.page_refs(p) >= 1,
        c == p,
        a1.valid_page(p),
        a1.page_refs(p) == a0.page_refs(p) + 1,
        a1.page_bytes(registry, p) == a0.page_bytes(registry, p),
        a1.page_refs(p) > 1 ==> a2.valid_page(p) && a2.page_bytes(registry, p) == a1.page_bytes(
            registry,
            p,
        ),
    ensures
        a2.valid_page(c),
        a2.page_bytes(registry, c) == a0.page_bytes(registry, c),
{
}

} // verus!
