//! The tagged serialization protocol for allocator identities and page
//! deltas, and the failure values of the core.
//!
//! Both wire values carry an explicit backend tag. Tags are produced and
//! consumed in matching pairs by a correctly operating caller; a decoder
//! handed the wrong tag reports a distinct, fatal inconsistency rather than
//! aborting the process or silently producing wrong content.

use vstd::prelude::*;

use crate::page::PageBytes;
use crate::page::PageIndex;

verus! {

/// Failures of the page allocation core.
///
/// The first two variants are programming-contract violations: a correctly
/// operating caller never observes them, and no correctness guarantee
/// survives them, so they are surfaced as distinct fatal values instead of
/// a generic abort. Only `MappingExhausted` is a recoverable condition.
#[derive(Clone, Copy, Debug, PartialEq, Eq, Structural)]
pub enum PageAllocatorError {
    /// A serialized value carried the tag of a different backend than the
    /// one decoding it.
    BackendMismatch,
    /// A mapped-backend serialization referred to no known mapping, or to
    /// offsets outside the mapping it names.
    InvalidMappingContext,
    /// An allocation batch repeated a page index; a `PageIndex` appears at
    /// most once within one allocation request.
    DuplicatePageIndex,
    /// The mapped backend's reservation cannot hold the requested pages.
    /// Recoverable: the caller decides whether to re-request allocation.
    MappingExhausted,
}

/// Context needed to reopen or share the mapped backend's backing mapping:
/// the descriptor under which the mapping registry knows it.
#[derive(Clone, Copy, Debug, PartialEq, Eq, Structural)]
pub struct MmapContext {
    pub descriptor: usize,
}

/// The persisted identity of a page allocator: which backend a checkpoint
/// or transferred delta belongs to, plus — only for the mapped backend —
/// the context needed to reopen its mapping.
#[derive(Clone, Copy, Debug, PartialEq, Eq, Structural)]
pub enum PageAllocatorSerialization {
    /// An allocator that has not committed to a backend yet.
    Empty,
    /// The heap backend; it carries no state worth persisting.
    Heap,
    /// The mapped backend, identified by its mapping context.
    Mmap(MmapContext),
}

/// One page of a heap-backend delta: the index and a full copy of the
/// page's bytes.
#[derive(Debug)]
pub struct PageSerialization {
    pub index: PageIndex,
    pub bytes: PageBytes,
}

/// One page of a mapped-backend delta: the index and the page's byte
/// offset within the backing mapping. No bytes are copied.
#[derive(Clone, Copy, Debug, PartialEq, Eq, Structural)]
pub struct MmapPageSerialization {
    pub index: PageIndex,
    pub offset: usize,
}

/// A serialized page delta: the modified pages of one state transition,
/// tagged with the backend that produced them.
#[derive(Debug)]
pub enum PageDeltaSerialization {
    /// A delta of no pages, from an allocator with no backend yet.
    Empty,
    /// A heap-backend delta: full byte copies, one record per page.
    Heap(Vec<PageSerialization>),
    /// A mapped-backend delta: the mapping context plus one offset record
    /// per page, avoiding byte copies.
    Mmap { context: MmapContext, pages: Vec<MmapPageSerialization> },
}

} // verus!
