//! What can go wrong inside the pager.

use vstd::prelude::*;

verus! {

/// Why the page cache refused an operation.
#[derive(Clone, Copy, Debug, PartialEq, Eq, Structural)]
pub enum CacheError {
    /// No room could be made: every candidate for eviction is dirty, pinned or locked.
    Full,
    /// The key is already in the cache.
    KeyExists,
    /// A page has I/O in flight.
    Locked,
    /// A page is dirty.
    Dirty,
    /// A page is pinned.
    Pinned,
}

/// An invariant of the file that does not hold.
#[derive(Clone, Copy, Debug, PartialEq, Eq, Structural)]
pub enum CorruptKind {
    /// A page to free lies outside `2..=database_size`.
    InvalidFreePage,
    /// A pointer-map page carries a content offset other than zero.
    PtrmapPageOffset,
    /// A pointer-map entry lies outside the data of its page.
    PtrmapEntryOutOfBounds,
    /// The type byte of a pointer-map entry is none of the five types.
    PtrmapEntryType,
    /// The header holds a page size that is no power of two in `512..=65536`,
    /// or a reserved space that leaves less than 480 usable bytes.
    PageSize,
    /// The largest root page of an auto-vacuumed file is zero or cannot grow.
    RootPage,
    /// The database cannot grow: its size would leave the range of page numbers.
    DatabaseSize,
    /// The count of free pages would leave its range.
    FreelistCount,
    /// A slot of a free-list trunk lies outside the page.
    TrunkSlot,
    /// A log frame is shorter than its header, or its page is not page-sized.
    Frame,
}

/// An invariant of the pager's memory that does not hold.
#[derive(Clone, Copy, Debug, PartialEq, Eq, Structural)]
pub enum InternalKind {
    /// A pointer-map entry was asked to be set for the header page or a pointer-map page.
    PtrmapTarget,
    /// A page is not among the data pages that a pointer-map page maps.
    PtrmapNotMapped,
    /// A buffer is too small for a pointer-map entry.
    BufferTooSmall,
    /// The cache refused a page that should have had room.
    CacheInsert(CacheError),
    /// The cache could not be emptied.
    CacheClear(CacheError),
    /// A page to be kept in the cache breaks the rules of its flags.
    PageState,
    /// Incremental auto-vacuum is not available.
    IncrementalVacuum,
    /// A cache cannot have room for no page at all.
    CacheCapacity,
}

/// An error of the pager.
#[derive(Clone, Copy, Debug, PartialEq, Eq, Structural)]
pub enum PagerError {
    /// The file is damaged. Fatal for the operation, not for the process.
    Corrupt(CorruptKind),
    /// The pager's own state is inconsistent.
    InternalError(InternalKind),
    /// The cache could not admit a new page; the caller may drop pins and retry.
    CacheFull,
}

} // verus!
