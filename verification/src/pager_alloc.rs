//! New pages: growing the database by one page, and creating its first page.

use vstd::prelude::*;
use crate::error::{CacheError, CorruptKind, InternalKind, PagerError};
use crate::header::{
    default_header, spec_page_size, spec_usable_space, valid_sizes,
    write_default_header, DATABASE_HEADER_SIZE, DEFAULT_PAGE_SIZE, HEADER_DATABASE_SIZE,
};
use crate::model::{
    header, header_u32, lemma_wf_admitted, lemma_wf_insert_dirty,
    lemma_wf_set_page, page_ok, page_wait, pages, set_header_u32, set_page, wf,
};
use crate::page::{
    allocate_page, btree_init_page, btree_initialized, FlagSet, Page, PageContentView, PageType,
    PageView, BTREE_HEADER_SIZE,
};
use crate::page_cache::{evict_lru, insert_outcome, lemma_by_id_at, room_needed, PageCacheKey};
use crate::pager::{AllocatePage1State, Page1State, Pager, PagerView};
use crate::ptrmap::{is_ptrmap_page, spec_is_ptrmap_page};
use crate::state::{AutoVacuumMode, BtreePageAllocMode, DbState};
use crate::types::{IOResult, IoEvent, IoRequest};

verus! {

/// A new page of zero bytes: loaded and dirty.
pub open spec fn new_page(id: usize, page_size: int) -> PageView {
    PageView {
        id,
        flags: FlagSet { uptodate: false, locked: false, error: false, dirty: true, loaded: true },
        pin_count: 0,
        contents: Some(
            PageContentView {
                offset: 0,
                buffer: Seq::new(page_size as nat, |i: int| 0u8),
                overflow_cells: Seq::empty(),
            },
        ),
    }
}

/// The pager after a new dirty page was put into the cache. Pages that
/// were used longest ago leave if room is needed. Without room nothing changes.
pub open spec fn add_page(v: PagerView, p: PageView) -> (PagerView, Result<(), PagerError>) {
    match insert_outcome(v.cache, v.capacity, p.id) {
        Ok(_) => (
            PagerView {
                cache: evict_lru(v.cache, room_needed(v.cache.len(), v.capacity)).push(p),
                dirty: v.dirty.insert(p.id),
                ..v
            },
            Ok(()),
        ),
        Err(CacheError::Full) => (v, Err(PagerError::CacheFull)),
        Err(e) => (v, Err(PagerError::InternalError(InternalKind::CacheInsert(e)))),
    }
}

/// Whether the next page of the database is a pointer-map page, which
/// comes into being together with the data page behind it.
pub open spec fn grows_by_two(v: PagerView) -> bool {
    v.auto_vacuum_mode == AutoVacuumMode::Full && spec_is_ptrmap_page(
        header_u32(v, HEADER_DATABASE_SIZE) + 1,
        spec_page_size(header(v)),
    )
}

/// The number of the data page that the next allocation creates.
pub open spec fn next_page_id(v: PagerView) -> int {
    header_u32(v, HEADER_DATABASE_SIZE) + (if grows_by_two(v) {
        2int
    } else {
        1int
    })
}

/// The pager after the database has grown by one data page, and what the
/// allocation answers: the number of the new page.
///
/// The new page is the page behind the last one; if auto-vacuum is full
/// and that place belongs to a pointer-map page, the pointer-map page is
/// created there and the new page behind it. The header takes the new
/// size first; then the new pages enter the cache, zeroed and dirty.
/// The allocation waits for page 1 if the header cannot be read, and
/// fails if the header is damaged, if the database cannot grow, or if
/// the cache has no room.
pub open spec fn allocate_step(v: PagerView) -> (PagerView, Result<IOResult<usize>, PagerError>) {
    match page_wait(v, 1) {
        Some(req) => (v, Ok(IOResult::IO(req))),
        None => if !valid_sizes(header(v)) {
            (v, Err(PagerError::Corrupt(CorruptKind::PageSize)))
        } else if next_page_id(v) > u32::MAX {
            (v, Err(PagerError::Corrupt(CorruptKind::DatabaseSize)))
        } else {
            let page_size = spec_page_size(header(v));
            let sized = set_header_u32(v, HEADER_DATABASE_SIZE, next_page_id(v) as u32);
            let mapped = if grows_by_two(v) {
                add_page(sized, new_page((next_page_id(v) - 1) as usize, page_size))
            } else {
                (sized, Ok(()))
            };
            match mapped.1 {
                Err(e) => (mapped.0, Err(e)),
                Ok(_) => {
                    let added = add_page(mapped.0, new_page(next_page_id(v) as usize, page_size));
                    match added.1 {
                        Err(e) => (added.0, Err(e)),
                        Ok(_) => (added.0, Ok(IOResult::Done(next_page_id(v) as usize))),
                    }
                },
            }
        },
    }
}

/// `p` after its content became an empty B-tree page.
pub open spec fn with_btree_header(
    p: PageView,
    page_type: PageType,
    offset: usize,
    usable_space: u16,
) -> PageView {
    PageView {
        contents: Some(btree_initialized(p.contents->0, page_type, offset, usable_space)),
        ..p
    }
}

/// The pager after the database has grown by one empty B-tree page.
///
/// Grows the database as `allocate_step` does, and writes the header of
/// an empty B-tree page of the given type at `offset` of the new page.
/// Fails, and changes nothing, if that header does not fit the page.
pub open spec fn do_allocate_step(v: PagerView, page_type: PageType, offset: usize) -> (
    PagerView,
    Result<IOResult<usize>, PagerError>,
) {
    match page_wait(v, 1) {
        Some(req) => (v, Ok(IOResult::IO(req))),
        None => if !valid_sizes(header(v)) {
            (v, Err(PagerError::Corrupt(CorruptKind::PageSize)))
        } else if offset + BTREE_HEADER_SIZE > spec_page_size(header(v)) {
            (v, Err(PagerError::InternalError(InternalKind::BufferTooSmall)))
        } else {
            let grown = allocate_step(v);
            match grown.1 {
                Ok(IOResult::Done(id)) => (
                    PagerView {
                        cache: set_page(
                            grown.0.cache,
                            id,
                            with_btree_header(
                                pages(grown.0)[id],
                                page_type,
                                offset,
                                (spec_usable_space(header(v)) % 65536) as u16,
                            ),
                        ),
                        ..grown.0
                    },
                    grown.1,
                ),
                _ => grown,
            }
        },
    }
}

/// The first page of a new database: the header of a database of one
/// page of `page_size` bytes, and behind it an empty table leaf.
pub open spec fn first_page(page_size: int) -> PageView {
    PageView {
        id: 1,
        flags: FlagSet { uptodate: false, locked: false, error: false, dirty: false, loaded: true },
        pin_count: 0,
        contents: Some(
            btree_initialized(
                PageContentView {
                    offset: 0,
                    buffer: crate::bytes::splice(
                        Seq::new(page_size as nat, |i: int| 0u8),
                        0,
                        default_header(page_size),
                    ),
                    overflow_cells: Seq::empty(),
                },
                PageType::TableLeaf,
                DATABASE_HEADER_SIZE,
                (page_size % 65536) as u16,
            ),
        ),
    }
}

/// The page size of a database that is about to be created.
pub open spec fn initial_page_size(v: PagerView) -> int {
    match v.page_size {
        Some(page_size) => page_size as int,
        None => DEFAULT_PAGE_SIZE as int,
    }
}

/// One step of the creation of the first page.
///
/// At first the page is built and is to be written to the database
/// file; the database counts as being initialized from then on. When the
/// write has completed, the page enters the cache and the database
/// counts as initialized.
pub open spec fn allocate_page1_step(v: PagerView, event: IoEvent) -> (
    PagerView,
    Result<IOResult<()>, PagerError>,
) {
    match v.page1_state {
        Page1State::Start => (
            PagerView {
                db_state: DbState::Initializing,
                page1_state: Page1State::Writing(first_page(initial_page_size(v))),
                ..v
            },
            Ok(IOResult::IO(IoRequest::WritePage1)),
        ),
        Page1State::Writing(page) => match event {
            IoEvent::InFlight(0) => match insert_outcome(v.cache, v.capacity, 1) {
                Ok(_) => (
                    PagerView {
                        cache: evict_lru(v.cache, room_needed(v.cache.len(), v.capacity)).push(page),
                        db_state: DbState::Initialized,
                        page1_state: Page1State::Done,
                        ..v
                    },
                    Ok(IOResult::Done(())),
                ),
                Err(e) => (v, Err(PagerError::InternalError(InternalKind::CacheInsert(e)))),
            },
            _ => (v, Ok(IOResult::IO(IoRequest::WaitWrites))),
        },
        Page1State::Done => (v, Ok(IOResult::Done(()))),
    }
}

/// One step of making sure that the first page exists.
///
/// Nothing is to be done for an initialized database. Otherwise the
/// caller must have tried to take the lock that guards initialization:
/// without it, or while another connection is initializing, the call
/// waits. With it, the first page is created as by `allocate_page1_step`.
pub open spec fn maybe_allocate_page1_step(v: PagerView, lock_acquired: bool, event: IoEvent) -> (
    PagerView,
    Result<IOResult<()>, PagerError>,
) {
    if v.db_state == DbState::Initialized {
        (v, Ok(IOResult::Done(())))
    } else if !lock_acquired {
        (v, Ok(IOResult::IO(IoRequest::WaitInit)))
    } else if (v.db_state == DbState::Uninitialized && !(v.page1_state is Writing)) || (v.db_state
        == DbState::Initializing && v.page1_state is Writing) {
        allocate_page1_step(v, event)
    } else {
        (v, Ok(IOResult::IO(IoRequest::WaitInit)))
    }
}

impl Pager {
    /// Puts a new dirty page into the cache and into the dirty set.
    fn add_page(&mut self, page: Page) -> (r: Result<(), PagerError>)
        requires
            wf(old(self)@),
            page_ok(page@),
            page@.flags.dirty,
            page@.flags.loaded,
        ensures
            wf(final(self)@),
            (final(self)@, r) == add_page(old(self)@, page@),
            r is Ok ==> pages(final(self)@).dom().contains(page@.id) && pages(
                final(self)@,
            )[page@.id] == page@,
    {
        let ghost v = self@;
        let id: usize = page.inner.id;
        match self.page_cache.insert(PageCacheKey::new(id), page) {
            Ok(_) => {
                proof {
                    lemma_wf_admitted(v, self@.cache, page@);
                    lemma_wf_insert_dirty(PagerView { cache: self@.cache, ..v }, id);
                }
                self.dirty_pages.insert(id);
                Ok(())
            },
            Err(CacheError::Full) => Err(PagerError::CacheFull),
            Err(e) => Err(PagerError::InternalError(InternalKind::CacheInsert(e))),
        }
    }

    /// Gets a new page that increasing the size of the page or uses a free page.
    /// Currently free list pages are not yet supported.
    ///
    /// See `allocate_step`.
    pub fn allocate_page(&mut self) -> (r: Result<IOResult<usize>, PagerError>)
        requires
            wf(old(self)@),
        ensures
            wf(final(self)@),
            (final(self)@, r) == allocate_step(old(self)@),
            r is Ok && r->Ok_0 is Done ==> pages(final(self)@).dom().contains(r->Ok_0->Done_0)
                && pages(final(self)@)[r->Ok_0->Done_0] == new_page(
                r->Ok_0->Done_0,
                spec_page_size(header(old(self)@)),
            ) && r->Ok_0->Done_0 == next_page_id(old(self)@) && r->Ok_0->Done_0 <= u32::MAX,
    {
        let page_size: u32 = match self.get_page_size() {
            Ok(IOResult::Done(page_size)) => page_size,
            Ok(IOResult::IO(req)) => {
                return Ok(IOResult::IO(req));
            },
            Err(e) => {
                return Err(e);
            },
        };
        let old_db_size: u32 = match self.get_header_field(HEADER_DATABASE_SIZE) {
            IOResult::Done(size) => size,
            IOResult::IO(req) => {
                return Ok(IOResult::IO(req));
            },
        };
        if old_db_size == u32::MAX {
            return Err(PagerError::Corrupt(CorruptKind::DatabaseSize));
        }
        //  If the following conditions are met, allocate a pointer map page, add to cache and increment the database size
        //  - autovacuum is enabled
        //  - the last page is a pointer map page
        let with_ptrmap: bool = matches!(self.auto_vacuum_mode, AutoVacuumMode::Full)
            && is_ptrmap_page(old_db_size + 1, page_size as usize);
        if with_ptrmap && old_db_size == u32::MAX - 1 {
            return Err(PagerError::Corrupt(CorruptKind::DatabaseSize));
        }
        let new_db_size: u32 = if with_ptrmap {
            old_db_size + 2
        } else {
            old_db_size + 1
        };
        let _ = self.set_header_field(HEADER_DATABASE_SIZE, new_db_size);
        if with_ptrmap {
            let mut page = allocate_page((new_db_size - 1) as usize, page_size as usize, 0);
            page.set_dirty();
            match self.add_page(page) {
                Ok(_) => {},
                Err(e) => {
                    return Err(e);
                },
            }
        }
        let mut page = allocate_page(new_db_size as usize, page_size as usize, 0);
        page.set_dirty();
        match self.add_page(page) {
            Ok(_) => Ok(IOResult::Done(new_db_size as usize)),
            Err(e) => Err(e),
        }
    }

    /// Allocate a new overflow page.
    /// This is done when a cell overflows and new space is needed.
    ///
    /// The page is zeroed; see `allocate_step`.
    pub fn allocate_overflow_page(&mut self) -> (r: Result<IOResult<usize>, PagerError>)
        requires
            wf(old(self)@),
        ensures
            wf(final(self)@),
            (final(self)@, r) == allocate_step(old(self)@),
            r is Ok && r->Ok_0 is Done ==> pages(final(self)@).dom().contains(r->Ok_0->Done_0)
                && pages(final(self)@)[r->Ok_0->Done_0] == new_page(
                r->Ok_0->Done_0,
                spec_page_size(header(old(self)@)),
            ) && r->Ok_0->Done_0 == next_page_id(old(self)@) && r->Ok_0->Done_0 <= u32::MAX,
    {
        self.allocate_page()
    }

    /// Allocate a new page to the btree via the pager.
    /// This marks the page as dirty and writes the page header.
    ///
    /// See `do_allocate_step`. The mode is not looked at: the database
    /// only grows.
    #[verifier::rlimit(40)]
    pub fn do_allocate_page(
        &mut self,
        page_type: PageType,
        offset: usize,
        _alloc_mode: BtreePageAllocMode,
    ) -> (r: Result<IOResult<usize>, PagerError>)
        requires
            wf(old(self)@),
        ensures
            wf(final(self)@),
            (final(self)@, r) == do_allocate_step(old(self)@, page_type, offset),
            r is Ok && r->Ok_0 is Done ==> r->Ok_0->Done_0 == next_page_id(old(self)@)
                && r->Ok_0->Done_0 <= u32::MAX,
    {
        let usable_space: usize = match self.usable_size() {
            Ok(IOResult::Done(usable_space)) => usable_space,
            Ok(IOResult::IO(req)) => {
                return Ok(IOResult::IO(req));
            },
            Err(e) => {
                return Err(e);
            },
        };
        let page_size: u32 = match self.get_page_size() {
            Ok(IOResult::Done(page_size)) => page_size,
            Ok(IOResult::IO(req)) => {
                return Ok(IOResult::IO(req));
            },
            Err(e) => {
                return Err(e);
            },
        };
        if offset > page_size as usize || page_size as usize - offset < BTREE_HEADER_SIZE {
            return Err(PagerError::InternalError(InternalKind::BufferTooSmall));
        }
        let ghost v = self@;
        let id: usize = match self.allocate_page() {
            Ok(IOResult::Done(id)) => id,
            other => {
                return other;
            },
        };
        let ghost grown = self@;
        match self.page_cache.position(id) {
            Some(k) => {
                proof {
                    lemma_by_id_at(grown.cache, k as int);
                    lemma_wf_set_page(
                        grown,
                        k as int,
                        with_btree_header(
                            grown.cache[k as int],
                            page_type,
                            offset,
                            (usable_space % 65536) as u16,
                        ),
                    );
                }
                let page = self.page_cache.page_at_mut(k);
                match &mut page.inner.contents {
                    Some(c) => {
                        btree_init_page(c, page_type, offset, (usable_space % 65536) as u16);
                    },
                    None => {},
                }
            },
            None => {},
        }
        Ok(IOResult::Done(id))
    }

    /// One step of the creation of the first page; see `allocate_page1_step`.
    pub fn allocate_page1(&mut self, event: IoEvent) -> (r: Result<IOResult<()>, PagerError>)
        requires
            wf(old(self)@),
            !(old(self)@.page1_state is Done),
        ensures
            wf(final(self)@),
            (final(self)@, r) == allocate_page1_step(old(self)@, event),
    {
        let ghost v = self@;
        if matches!(self.allocate_page1_state, AllocatePage1State::Start) {
            self.db_state.set(DbState::Initializing);
            let page_size: u32 = match self.page_size {
                Some(page_size) => page_size,
                None => DEFAULT_PAGE_SIZE,
            };
            let mut page = allocate_page(1, page_size as usize, 0);
            match &mut page.inner.contents {
                Some(c) => {
                    write_default_header(&mut c.buffer, page_size);
                    // Create the sqlite_schema table, for this we just need to create the btree page
                    // for the first page of the database which is basically like any other btree page
                    // but with a 100 byte offset, so we just init the page so that sqlite understands
                    // this is a correct page.
                    btree_init_page(
                        c,
                        PageType::TableLeaf,
                        DATABASE_HEADER_SIZE,
                        (page_size % 65536) as u16,
                    );
                },
                None => {},
            }
            assert(page@ == first_page(page_size as int));
            self.allocate_page1_state = AllocatePage1State::Writing { page };
            proof {
                crate::model::lemma_wf_page1(v, self@.db_state, self@.page1_state);
            }
            return Ok(IOResult::IO(IoRequest::WritePage1));
        }
        match event {
            IoEvent::InFlight(0) => {},
            _ => {
                return Ok(IOResult::IO(IoRequest::WaitWrites));
            },
        }
        match self.page_cache.check_insert(&PageCacheKey::new(1)) {
            Ok(_) => {},
            Err(e) => {
                return Err(PagerError::InternalError(InternalKind::CacheInsert(e)));
            },
        }
        let mut state = AllocatePage1State::Done;
        std::mem::swap(&mut self.allocate_page1_state, &mut state);
        match state {
            AllocatePage1State::Writing { page } => {
                let _ = self.page_cache.insert(PageCacheKey::new(1), page);
                self.db_state.set(DbState::Initialized);
                proof {
                    lemma_wf_admitted(v, self@.cache, page@);
                    crate::model::lemma_wf_page1(
                        PagerView { cache: self@.cache, ..v },
                        self@.db_state,
                        self@.page1_state,
                    );
                }
                Ok(IOResult::Done(()))
            },
            _ => Ok(IOResult::Done(())),
        }
    }

    /// One step of making sure that the first page exists; see
    /// `maybe_allocate_page1_step`. `lock_acquired` says whether the
    /// caller holds the lock that guards initialization.
    pub fn maybe_allocate_page1(&mut self, lock_acquired: bool, event: IoEvent) -> (r: Result<
        IOResult<()>,
        PagerError,
    >)
        requires
            wf(old(self)@),
        ensures
            wf(final(self)@),
            (final(self)@, r) == maybe_allocate_page1_step(old(self)@, lock_acquired, event),
    {
        if !self.db_state.is_initialized() {
            if lock_acquired {
                match (self.db_state.get(), self.allocating_page1()) {
                    // In case of being empty or (allocating and this connection is performing allocation) then allocate the first page
                    (DbState::Uninitialized, false) | (DbState::Initializing, true) => {
                        self.allocate_page1(event)
                    },
                    _ => Ok(IOResult::IO(IoRequest::WaitInit)),
                }
            } else {
                Ok(IOResult::IO(IoRequest::WaitInit))
            }
        } else {
            Ok(IOResult::Done(()))
        }
    }
}

} // verus!
