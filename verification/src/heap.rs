//! The heap backend: page storage entirely inside normal process memory,
//! with no cross-process sharing capability.
//!
//! Pages live in an arena owned by the allocator; a [`Page`] handle is a
//! slot in that arena, and each slot carries a shared-ownership count so
//! that the slot is released exactly when the last handle is dropped.

use vstd::prelude::*;

use crate::accounting::PageCounter;
use crate::accounting::PageEvent;
use crate::accounting::event_run;
use crate::accounting::lemma_live_slots_push;
use crate::accounting::lemma_live_slots_update;
use crate::accounting::live_slots;
use crate::page::PAGE_SIZE;
use crate::page::Page;
use crate::page::PageBytes;
use crate::page::PageIndex;
use crate::serialization::PageAllocatorError;
use crate::serialization::PageAllocatorSerialization;
use crate::serialization::PageDeltaSerialization;
use crate::serialization::PageSerialization;

verus! {

/// A memory page allocated on the process heap: its content and the number
/// of handles that currently share it.
#[derive(Debug)]
pub struct HeapBasedPage {
    contents: PageBytes,
    refs: u64,
}

/// The model of one heap-backend delta record: the page's index and bytes.
pub open spec fn heap_record_model(record: PageSerialization) -> (PageIndex, Seq<u8>) {
    (record.index, record.bytes@)
}

/// The model of a heap-backend delta payload: index and bytes, record for
/// record.
pub open spec fn heap_records_model(records: Seq<PageSerialization>) -> Seq<(PageIndex, Seq<u8>)> {
    records.map_values(|r: PageSerialization| heap_record_model(r))
}

/// An allocator whose pages live on the process heap. It holds no shared
/// context beyond its arena of pages, never fails to allocate, and
/// serializes to a bare backend tag.
#[derive(Debug)]
pub struct HeapBasedPageAllocator {
    slots: Vec<Option<HeapBasedPage>>,
}

impl HeapBasedPageAllocator {
    /// Whether `p` is a live page of this allocator.
    pub closed spec fn valid_page(&self, p: Page) -> bool {
        p.slot < self.slots@.len() && self.slots@[p.slot as int] is Some
    }

    /// The content of live page `p`.
    pub closed spec fn page_bytes(&self, p: Page) -> Seq<u8> {
        self.slots@[p.slot as int]->Some_0.contents@
    }

    /// How many handles currently share live page `p`.
    pub closed spec fn page_refs(&self, p: Page) -> int {
        self.slots@[p.slot as int]->Some_0.refs as int
    }

    /// The number of live pages this allocator holds.
    pub closed spec fn live_count(&self) -> int {
        live_slots(self.slots@)
    }

    /// Every live page holds exactly one page of bytes and is shared by at
    /// least one handle.
    pub closed spec fn wf(&self) -> bool {
        forall|i: int|
            0 <= i < self.slots@.len() && self.slots@[i] is Some ==> {
                &&& (#[trigger] self.slots@[i])->Some_0.contents@.len() == PAGE_SIZE
                &&& self.slots@[i]->Some_0.refs >= 1
            }
    }

    /// The content mapping a delta of live pages stands for: index and
    /// bytes, entry for entry.
    pub open spec fn delta_contents(&self, delta: Seq<(PageIndex, Page)>) -> Seq<
        (PageIndex, Seq<u8>),
    > {
        Seq::new(delta.len(), |i: int| (delta[i].0, self.page_bytes(delta[i].1)))
    }

    /// Whether every page of `delta` is a live page of this allocator.
    pub open spec fn delta_valid(&self, delta: Seq<(PageIndex, Page)>) -> bool {
        forall|i: int| 0 <= i < delta.len() ==> self.valid_page((#[trigger] delta[i]).1)
    }

    /// A fresh allocator with no pages.
    pub fn new() -> (r: HeapBasedPageAllocator)
        ensures
            r.wf(),
            r.live_count() == 0,
            forall|p: Page| !r.valid_page(p),
    {
        HeapBasedPageAllocator { slots: Vec::new() }
    }

    /// Turns a batch of indexed page contents into page handles, copying
    /// each input buffer into a freshly owned page. Never fails. Each new
    /// page starts with one handle, and the live counter grows by the batch
    /// size.
    pub fn allocate(&mut self, counter: &mut PageCounter, pages: &Vec<(PageIndex, PageBytes)>)
        -> (r: Vec<(PageIndex, Page)>)
        requires
            old(self).wf(),
            old(counter).wf(),
            forall|i: int| 0 <= i < pages@.len() ==> (#[trigger] pages@[i]).1.wf(),
            forall|i: int, j: int|
                0 <= i < j < pages@.len() ==> pages@[i].0 != pages@[j].0,
            old(counter).count() + pages@.len() <= u64::MAX,
        ensures
            final(self).wf(),
            final(counter).wf(),
            r@.len() == pages@.len(),
            forall|i: int|
                0 <= i < r@.len() ==> {
                    &&& (#[trigger] r@[i]).0 == pages@[i].0
                    &&& final(self).valid_page(r@[i].1)
                    &&& final(self).page_bytes(r@[i].1) == pages@[i].1@
                    &&& final(self).page_refs(r@[i].1) == 1
                    &&& !old(self).valid_page(r@[i].1)
                },
            forall|i: int, j: int| 0 <= i < j < r@.len() ==> r@[i].1 != r@[j].1,
            forall|p: Page|
                old(self).valid_page(p) ==> {
                    &&& #[trigger] final(self).valid_page(p)
                    &&& final(self).page_bytes(p) == old(self).page_bytes(p)
                    &&& final(self).page_refs(p) == old(self).page_refs(p)
                },
            final(self).live_count() == old(self).live_count() + pages@.len(),
            final(counter).count() == old(counter).count() + pages@.len(),
            final(counter).history() == old(counter).history() + event_run(
                PageEvent::Constructed,
                pages@.len(),
            ),
    {
        let base = self.slots.len();
        let mut r: Vec<(PageIndex, Page)> = Vec::new();
        let mut i: usize = 0;
        while i < pages.len()
            invariant
                old(self).wf(),
                self.wf(),
                counter.wf(),
                i <= pages@.len(),
                base == old(self).slots@.len(),
                forall|k: int| 0 <= k < pages@.len() ==> (#[trigger] pages@[k]).1.wf(),
                old(counter).count() + pages@.len() <= u64::MAX,
                self.slots@.len() == base + i,
                forall|k: int| 0 <= k < base ==> self.slots@[k] == old(self).slots@[k],
                forall|k: int|
                    0 <= k < i ==> {
                        &&& (#[trigger] self.slots@[base + k]) is Some
                        &&& self.slots@[base + k]->Some_0.contents@ == pages@[k].1@
                        &&& self.slots@[base + k]->Some_0.refs == 1
                    },
                r@.len() == i,
                forall|k: int|
                    0 <= k < i ==> {
                        &&& (#[trigger] r@[k]).0 == pages@[k].0
                        &&& r@[k].1.slot == base + k
                    },
                live_slots(self.slots@) == live_slots(old(self).slots@) + i,
                counter.count() == old(counter).count() + i,
                counter.history() == old(counter).history() + event_run(
                    PageEvent::Constructed,
                    i as nat,
                ),
            decreases pages@.len() - i,
        {
            let slot = self.slots.len();
            let page = HeapBasedPage { contents: pages[i].1.duplicate(), refs: 1 };
            proof {
                lemma_live_slots_push(self.slots@, Some(page));
            }
            self.slots.push(Some(page));
            counter.inc();
            r.push((pages[i].0, Page { slot }));
            i = i + 1;
            proof {
                assert(counter.history() =~= old(counter).history() + event_run(
                    PageEvent::Constructed,
                    i as nat,
                ));
            }
        }
        r
    }

    /// A read-only view of a live page's content, through the allocator
    /// that produced it.
    pub fn contents<'a>(&'a self, page: &Page) -> (r: &'a PageBytes)
        requires
            self.wf(),
            self.valid_page(*page),
        ensures
            r.wf(),
            r@ == self.page_bytes(*page),
    {
        match &self.slots[page.slot] {
            Some(p) => &p.contents,
            None => vstd::pervasive::unreached(),
        }
    }

    /// Overwrites `slice.len()` bytes of a live page in place, starting at
    /// `offset`. The write is visible through every handle that shares the
    /// page; every other page is untouched.
    pub fn copy_from_slice(&mut self, page: &Page, offset: usize, slice: &[u8])
        requires
            old(self).wf(),
            old(self).valid_page(*page),
            offset + slice@.len() <= PAGE_SIZE,
        ensures
            final(self).wf(),
            final(self).valid_page(*page),
            final(self).page_bytes(*page) == crate::page::overwrite(
                old(self).page_bytes(*page),
                offset as int,
                slice@,
            ),
            final(self).page_refs(*page) == old(self).page_refs(*page),
            forall|q: Page|
                old(self).valid_page(q) ==> #[trigger] final(self).valid_page(q)
                    && final(self).page_refs(q) == old(self).page_refs(q),
            forall|q: Page|
                old(self).valid_page(q) && q != *page ==> final(self).page_bytes(q) == old(
                    self,
                ).page_bytes(q),
            forall|q: Page| final(self).valid_page(q) ==> old(self).valid_page(q),
            final(self).live_count() == old(self).live_count(),
    {
        let ghost all_old = self.slots@;
        let mut taken: Option<HeapBasedPage> = None;
        self.slots.set_and_swap(page.slot, &mut taken);
        let mut p = match taken {
            Some(p) => p,
            None => vstd::pervasive::unreached(),
        };
        let mut j: usize = 0;
        while j < slice.len()
            invariant
                j <= slice@.len(),
                offset + slice@.len() <= PAGE_SIZE,
                page.slot < all_old.len(),
                all_old[page.slot as int] is Some,
                p.contents.wf(),
                p.contents@.len() == PAGE_SIZE,
                p.refs == all_old[page.slot as int]->Some_0.refs,
                forall|k: int|
                    0 <= k < PAGE_SIZE ==> p.contents@[k] == if offset <= k < offset + j {
                        slice@[k - offset]
                    } else {
                        all_old[page.slot as int]->Some_0.contents@[k]
                    },
            decreases slice@.len() - j,
        {
            let b = slice[j];
            p.contents.write_byte(offset + j, b);
            j = j + 1;
        }
        proof {
            lemma_live_slots_update(self.slots@, page.slot as int, Some(p));
            lemma_live_slots_update(all_old, page.slot as int, None);
        }
        self.slots.set(page.slot, Some(p));
        proof {
            assert(self.page_bytes(*page) =~= crate::page::overwrite(
                old(self).page_bytes(*page),
                offset as int,
                slice@,
            ));
        }
    }

    /// Hands out one more handle to a live page: O(1), no content is
    /// duplicated, and the new handle is indistinguishable from the one it
    /// was cloned from. The page's ownership count grows by one.
    pub fn clone_page(&mut self, page: &Page) -> (r: Page)
        requires
            old(self).wf(),
            old(self).valid_page(*page),
            old(self).page_refs(*page) < u64::MAX,
        ensures
            final(self).wf(),
            r == *page,
            final(self).valid_page(*page),
            final(self).page_refs(*page) == old(self).page_refs(*page) + 1,
            forall|q: Page|
                old(self).valid_page(q) ==> #[trigger] final(self).valid_page(q)
                    && final(self).page_bytes(q) == old(self).page_bytes(q),
            forall|q: Page|
                old(self).valid_page(q) && q != *page ==> final(self).page_refs(q) == old(
                    self,
                ).page_refs(q),
            forall|q: Page| final(self).valid_page(q) ==> old(self).valid_page(q),
            final(self).live_count() == old(self).live_count(),
    {
        let ghost all_old = self.slots@;
        let mut taken: Option<HeapBasedPage> = None;
        self.slots.set_and_swap(page.slot, &mut taken);
        let p = match taken {
            Some(p) => p,
            None => vstd::pervasive::unreached(),
        };
        let refs = p.refs;
        let shared = HeapBasedPage { contents: p.contents, refs: refs + 1 };
        proof {
            lemma_live_slots_update(self.slots@, page.slot as int, Some(shared));
            lemma_live_slots_update(all_old, page.slot as int, None);
        }
        self.slots.set(page.slot, Some(shared));
        Page { slot: page.slot }
    }

    /// Gives up one handle to a live page. While other handles share the
    /// page it stays live with its content intact; dropping the last handle
    /// releases the page's storage and decrements the live counter.
    pub fn drop_page(&mut self, counter: &mut PageCounter, page: Page)
        requires
            old(self).wf(),
            old(counter).wf(),
            old(self).valid_page(page),
            old(self).page_refs(page) == 1 ==> old(counter).count() >= 1,
        ensures
            final(self).wf(),
            final(counter).wf(),
            old(self).page_refs(page) > 1 ==> {
                &&& final(self).valid_page(page)
                &&& final(self).page_bytes(page) == old(self).page_bytes(page)
                &&& final(self).page_refs(page) == old(self).page_refs(page) - 1
                &&& final(self).live_count() == old(self).live_count()
                &&& *final(counter) == *old(counter)
            },
            old(self).page_refs(page) == 1 ==> {
                &&& !final(self).valid_page(page)
                &&& final(self).live_count() == old(self).live_count() - 1
                &&& final(counter).count() == old(counter).count() - 1
                &&& final(counter).history() == old(counter).history().push(PageEvent::Released)
            },
            forall|q: Page|
                old(self).valid_page(q) && q != page ==> #[trigger] final(self).valid_page(q),
            forall|q: Page|
                old(self).valid_page(q) && q != page ==> #[trigger] final(self).page_bytes(q)
                    == old(self).page_bytes(q),
            forall|q: Page|
                old(self).valid_page(q) && q != page ==> #[trigger] final(self).page_refs(q)
                    == old(self).page_refs(q),
            forall|q: Page| final(self).valid_page(q) ==> old(self).valid_page(q),
    {
        let ghost all_old = self.slots@;
        let mut taken: Option<HeapBasedPage> = None;
        self.slots.set_and_swap(page.slot, &mut taken);
        let p = match taken {
            Some(p) => p,
            None => vstd::pervasive::unreached(),
        };
        proof {
            lemma_live_slots_update(all_old, page.slot as int, None);
        }
        if p.refs > 1 {
            let refs = p.refs;
            let shared = HeapBasedPage { contents: p.contents, refs: refs - 1 };
            proof {
                lemma_live_slots_update(self.slots@, page.slot as int, Some(shared));
            }
            self.slots.set(page.slot, Some(shared));
        } else {
            counter.dec();
        }
    }

    /// The persisted identity of this allocator: a bare backend tag, since
    /// the heap backend carries no state worth persisting.
    pub fn serialize(&self) -> (r: PageAllocatorSerialization)
        ensures
            r == PageAllocatorSerialization::Heap,
    {
        PageAllocatorSerialization::Heap
    }

    /// Reconstructs a default instance from a heap backend tag. A tag
    /// belonging to a different backend is a programming-contract
    /// violation and is rejected as a distinct fatal value.
    pub fn deserialize(serialized: PageAllocatorSerialization) -> (r: Result<
        HeapBasedPageAllocator,
        PageAllocatorError,
    >)
        ensures
            r is Ok <==> serialized is Heap,
            r is Ok ==> {
                &&& r->Ok_0.wf()
                &&& r->Ok_0.live_count() == 0
                &&& forall|p: Page| !r->Ok_0.valid_page(p)
            },
            r is Err ==> r->Err_0 == PageAllocatorError::BackendMismatch,
    {
        match serialized {
            PageAllocatorSerialization::Heap => Ok(Self::default()),
            PageAllocatorSerialization::Empty | PageAllocatorSerialization::Mmap(..) => Err(
                PageAllocatorError::BackendMismatch,
            ),
        }
    }

    /// Serializes a page delta by copying every page's bytes into a flat
    /// list of index-and-bytes records tagged as heap-origin.
    pub fn serialize_page_delta(&self, delta: &Vec<(PageIndex, Page)>) -> (r:
        PageDeltaSerialization)
        requires
            self.wf(),
            self.delta_valid(delta@),
        ensures
            r is Heap,
            r->Heap_0@.len() == delta@.len(),
            heap_records_model(r->Heap_0@) == self.delta_contents(delta@),
            forall|i: int| 0 <= i < r->Heap_0@.len() ==> (#[trigger] r->Heap_0@[i]).bytes.wf(),
            forall|i: int, j: int|
                0 <= i < j < delta@.len() && delta@[i].0 != delta@[j].0 ==> r->Heap_0@[i].index
                    != r->Heap_0@[j].index,
    {
        let mut records: Vec<PageSerialization> = Vec::new();
        let mut i: usize = 0;
        while i < delta.len()
            invariant
                self.wf(),
                self.delta_valid(delta@),
                i <= delta@.len(),
                records@.len() == i,
                forall|k: int|
                    0 <= k < i ==> {
                        &&& (#[trigger] records@[k]).index == delta@[k].0
                        &&& records@[k].bytes@ == self.page_bytes(delta@[k].1)
                        &&& records@[k].bytes.wf()
                    },
            decreases delta@.len() - i,
        {
            let bytes = self.contents(&delta[i].1).duplicate();
            records.push(PageSerialization { index: delta[i].0, bytes });
            i = i + 1;
        }
        proof {
            assert(heap_records_model(records@) =~= self.delta_contents(delta@));
        }
        PageDeltaSerialization::Heap(records)
    }

    /// Decodes a heap-tagged page delta by copying each record into a
    /// freshly allocated page, incrementing the live counter per page. A
    /// delta tagged for a different backend is rejected as a fatal
    /// mismatch, leaving the allocator and the counter untouched.
    pub fn deserialize_page_delta(
        &mut self,
        counter: &mut PageCounter,
        delta: PageDeltaSerialization,
    ) -> (r: Result<Vec<(PageIndex, Page)>, PageAllocatorError>)
        requires
            old(self).wf(),
            old(counter).wf(),
            delta is Heap ==> {
                &&& forall|i: int|
                    0 <= i < delta->Heap_0@.len() ==> (#[trigger] delta->Heap_0@[i]).bytes.wf()
                &&& forall|i: int, j: int|
                    0 <= i < j < delta->Heap_0@.len() ==> delta->Heap_0@[i].index
                        != delta->Heap_0@[j].index
                &&& old(counter).count() + delta->Heap_0@.len() <= u64::MAX
            },
        ensures
            final(self).wf(),
            final(counter).wf(),
            r is Ok <==> delta is Heap,
            r is Err ==> {
                &&& r->Err_0 == PageAllocatorError::BackendMismatch
                &&& *final(self) == *old(self)
                &&& *final(counter) == *old(counter)
            },
            r is Ok ==> {
                &&& r->Ok_0@.len() == delta->Heap_0@.len()
                &&& final(self).delta_contents(r->Ok_0@) == heap_records_model(delta->Heap_0@)
                &&& forall|i: int|
                    0 <= i < r->Ok_0@.len() ==> {
                        &&& final(self).valid_page((#[trigger] r->Ok_0@[i]).1)
                        &&& r->Ok_0@[i].0 == delta->Heap_0@[i].index
                        &&& final(self).page_bytes(r->Ok_0@[i].1) == delta->Heap_0@[i].bytes@
                        &&& final(self).page_refs(r->Ok_0@[i].1) == 1
                        &&& !old(self).valid_page(r->Ok_0@[i].1)
                    }
                &&& forall|i: int, j: int|
                    0 <= i < j < r->Ok_0@.len() ==> r->Ok_0@[i].1 != r->Ok_0@[j].1
                &&& forall|p: Page|
                    old(self).valid_page(p) ==> {
                        &&& #[trigger] final(self).valid_page(p)
                        &&& final(self).page_bytes(p) == old(self).page_bytes(p)
                        &&& final(self).page_refs(p) == old(self).page_refs(p)
                    }
                &&& final(self).live_count() == old(self).live_count() + delta->Heap_0@.len()
                &&& final(counter).count() == old(counter).count() + delta->Heap_0@.len()
                &&& final(counter).history() == old(counter).history() + event_run(
                    PageEvent::Constructed,
                    delta->Heap_0@.len(),
                )
            },
    {
        match delta {
            PageDeltaSerialization::Heap(records) => {
                let mut pages: Vec<(PageIndex, PageBytes)> = Vec::new();
                let mut i: usize = 0;
                while i < records.len()
                    invariant
                        i <= records@.len(),
                        pages@.len() == i,
                        forall|k: int|
                            0 <= k < records@.len() ==> (#[trigger] records@[k]).bytes.wf(),
                        forall|k: int|
                            0 <= k < i ==> {
                                &&& (#[trigger] pages@[k]).0 == records@[k].index
                                &&& pages@[k].1@ == records@[k].bytes@
                                &&& pages@[k].1.wf()
                            },
                    decreases records@.len() - i,
                {
                    pages.push((records[i].index, records[i].bytes.duplicate()));
                    i = i + 1;
                }
                let out = self.allocate(counter, &pages);
                proof {
                    assert(self.delta_contents(out@) =~= heap_records_model(records@));
                }
                Ok(out)
            },
            PageDeltaSerialization::Empty | PageDeltaSerialization::Mmap { .. } => Err(
                PageAllocatorError::BackendMismatch,
            ),
        }
    }
}

impl Default for HeapBasedPageAllocator {
    /// The default heap allocator is a fresh one with no pages.
    fn default() -> (r: HeapBasedPageAllocator)
        ensures
            r.wf(),
            r.live_count() == 0,
            forall|p: Page| !r.valid_page(p),
    {
        HeapBasedPageAllocator::new()
    }
}

/// Round trip over the heap backend: for any pairs of index and page
/// content, the pages decoded from the serialization of a delta allocated
/// from those pairs are content-equal, index for index, to the pairs. The
/// premises are exactly what `allocate` ensures of the pages it hands out,
/// what `serialize_page_delta` ensures of the records it produces, and
/// what `deserialize_page_delta` ensures of the pages it reconstructs.
pub proof fn lemma_heap_delta_round_trip(
    pairs: Seq<(PageIndex, Seq<u8>)>,
    a: HeapBasedPageAllocator,
    delta: Seq<(PageIndex, Page)>,
    records: Seq<PageSerialization>,
    b: HeapBasedPageAllocator,
    out: Seq<(PageIndex, Page)>,
)
    requires
        a.delta_contents(delta) == pairs,
        heap_records_model(records) == a.delta_contents(delta),
        b.delta_contents(out) == heap_records_model(records),
    ensures
        out.len() == pairs.len(),
        forall|i: int|
            0 <= i < pairs.len() ==> (#[trigger] out[i]).0 == pairs[i].0 && b.page_bytes(out[i].1)
                == pairs[i].1,
{
    assert(a.delta_contents(delta).len() == delta.len());
    assert(heap_records_model(records).len() == records.len());
    assert(b.delta_contents(out).len() == out.len());
    assert forall|i: int| 0 <= i < pairs.len() implies (#[trigger] out[i]).0 == pairs[i].0
        && b.page_bytes(out[i].1) == pairs[i].1 by {
        assert(b.delta_contents(out)[i] == pairs[i]);
        assert(b.delta_contents(out)[i] == (out[i].0, b.page_bytes(out[i].1)));
    }
}

} // verus!
