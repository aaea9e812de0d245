//! The page data model: page indices, page-sized byte buffers, and the
//! backend-agnostic page handle.

use vstd::prelude::*;

verus! {

/// Size in bytes of one memory page.
pub const PAGE_SIZE: usize = 4096;

/// Ordinal identifying a page's position within a virtual address space.
///
/// Equality and ordering are by value. Within one allocation batch or one
/// page delta a `PageIndex` appears at most once.
#[derive(Clone, Copy, Debug, PartialEq, Eq, Structural, Hash, PartialOrd, Ord)]
pub struct PageIndex(pub u64);

impl PageIndex {
    pub fn new(value: u64) -> (r: PageIndex)
        ensures
            r == (PageIndex(value)),
    {
        PageIndex(value)
    }

    pub fn get(&self) -> (r: u64)
        ensures
            r == self.0,
    {
        self.0
    }
}

/// One page's worth of content: always exactly [`PAGE_SIZE`] bytes, fully
/// initialized. No partially valid page buffer can be constructed.
#[derive(Debug)]
pub struct PageBytes {
    bytes: Vec<u8>,
}

impl View for PageBytes {
    type V = Seq<u8>;

    closed spec fn view(&self) -> Seq<u8> {
        self.bytes@
    }
}

impl PageBytes {
    /// A page buffer is well formed when it holds exactly one page of bytes.
    /// Every constructor of this type establishes this.
    pub open spec fn wf(&self) -> bool {
        self@.len() == PAGE_SIZE
    }

    /// A page filled with one repeated byte value.
    pub fn new_filled(value: u8) -> (r: PageBytes)
        ensures
            r.wf(),
            r@ == Seq::new(PAGE_SIZE as nat, |i: int| value),
    {
        let mut bytes: Vec<u8> = Vec::new();
        let mut i: usize = 0;
        while i < PAGE_SIZE
            invariant
                i <= PAGE_SIZE,
                bytes@ =~= Seq::new(i as nat, |j: int| value),
            decreases PAGE_SIZE - i,
        {
            bytes.push(value);
            i = i + 1;
        }
        proof {
            assert(bytes@ =~= Seq::new(PAGE_SIZE as nat, |i: int| value));
        }
        PageBytes { bytes }
    }

    /// A page of all-zero bytes.
    pub fn new_zeroed() -> (r: PageBytes)
        ensures
            r.wf(),
            r@ == Seq::new(PAGE_SIZE as nat, |i: int| 0u8),
    {
        PageBytes::new_filled(0)
    }

    /// Takes ownership of exactly one page of bytes.
    pub fn from_vec(bytes: Vec<u8>) -> (r: Result<PageBytes, Vec<u8>>)
        ensures
            bytes@.len() == PAGE_SIZE <==> r is Ok,
            r is Ok ==> r->Ok_0.wf() && r->Ok_0@ == bytes@,
            r is Err ==> r->Err_0@ == bytes@,
    {
        if bytes.len() == PAGE_SIZE {
            Ok(PageBytes { bytes })
        } else {
            Err(bytes)
        }
    }

    /// The byte at position `i`.
    pub fn read_byte(&self, i: usize) -> (r: u8)
        requires
            self.wf(),
            i < PAGE_SIZE,
        ensures
            r == self@[i as int],
    {
        self.bytes[i]
    }

    /// Overwrites the byte at position `i`.
    pub fn write_byte(&mut self, i: usize, value: u8)
        requires
            old(self).wf(),
            i < PAGE_SIZE,
        ensures
            final(self).wf(),
            final(self)@ == old(self)@.update(i as int, value),
    {
        self.bytes.set(i, value);
    }

    /// An independent buffer holding the same bytes.
    pub fn duplicate(&self) -> (r: PageBytes)
        requires
            self.wf(),
        ensures
            r.wf(),
            r@ == self@,
    {
        let mut bytes: Vec<u8> = Vec::new();
        let mut i: usize = 0;
        while i < PAGE_SIZE
            invariant
                self.wf(),
                i <= PAGE_SIZE,
                bytes@ =~= self@.subrange(0, i as int),
            decreases PAGE_SIZE - i,
        {
            bytes.push(self.bytes[i]);
            i = i + 1;
        }
        proof {
            assert(bytes@ =~= self@);
        }
        PageBytes { bytes }
    }
}

/// The result of overwriting `bytes` with `data`, starting at `offset`:
/// bytes inside the written range come from `data`, all others are kept.
pub open spec fn overwrite(bytes: Seq<u8>, offset: int, data: Seq<u8>) -> Seq<u8> {
    Seq::new(
        bytes.len(),
        |i: int|
            if offset <= i < offset + data.len() {
                data[i - offset]
            } else {
                bytes[i]
            },
    )
}

/// An opaque handle to one allocated page.
///
/// A `Page` is produced only by a page allocator, and its content must be
/// read and written through the allocator instance that produced it:
/// content accessors take the allocator as a parameter, modeling a
/// borrowed-context read rather than a self-contained object. Handles are
/// shared and released through the owning allocator (`clone_page`,
/// `drop_page`), which keeps the per-page ownership count; the page's
/// storage is released exactly when the last handle is dropped.
#[derive(Debug)]
pub struct Page {
    pub(crate) slot: usize,
}

impl Page {
    /// The arena slot this handle refers to, for use in contracts.
    pub closed spec fn id(&self) -> int {
        self.slot as int
    }
}

} // verus!
