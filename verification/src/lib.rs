//! A page-oriented memory management core: allocation, sharing and
//! serialization of fixed-size memory pages.
//!
//! Pages are allocated through one of two backends — a heap backend whose
//! pages live in ordinary process memory, and a mapped backend whose pages
//! live in a shared, descriptor-addressed mapping — behind one uniform,
//! cheaply shareable [`page::Page`] handle. Page deltas and allocator
//! identities serialize to backend-tagged values that round-trip exactly;
//! decoding under the wrong backend tag is rejected as a fatal
//! inconsistency, never silently accepted. A process-wide counter of live
//! pages is kept for observability.

use vstd::prelude::*;

pub mod accounting;
pub mod allocator;
pub mod heap;
pub mod mmap;
pub mod page;
pub mod serialization;

pub use crate::accounting::PageCounter;
pub use crate::allocator::PageAllocator;
pub use crate::heap::HeapBasedPage;
pub use crate::heap::HeapBasedPageAllocator;
pub use crate::mmap::MappingRegistry;
pub use crate::mmap::MmapBasedPage;
pub use crate::mmap::MmapBasedPageAllocator;
pub use crate::page::PAGE_SIZE;
pub use crate::page::Page;
pub use crate::page::PageBytes;
pub use crate::page::PageIndex;
pub use crate::serialization::MmapContext;
pub use crate::serialization::MmapPageSerialization;
pub use crate::serialization::PageAllocatorError;
pub use crate::serialization::PageAllocatorSerialization;
pub use crate::serialization::PageDeltaSerialization;
pub use crate::serialization::PageSerialization;

verus! {

} // verus!
