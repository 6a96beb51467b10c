//! The free list: pages that the B-tree gave back.
//!
//! The free list is a chain of trunk pages that starts in the database
//! header. A trunk page holds the number of the next trunk page in its
//! first four bytes, the number of its leaves in the next four, and then
//! the page numbers of its leaves. A freed page becomes a leaf of the first
//! trunk page, or the first trunk page itself if that one is full or there
//! is none.

use vstd::prelude::*;
use crate::bytes::{read_u32, spec_read_u32, u32_be_bytes};
use crate::error::{CorruptKind, InternalKind, PagerError};
use crate::header::{
    spec_usable_space, valid_sizes, HEADER_DATABASE_SIZE,
    HEADER_FREELIST_PAGES, HEADER_FREELIST_TRUNK_PAGE,
};
use crate::model::{
    header, header_u32, lemma_wf_frame, lemma_wf_set_page, page_ok, page_wait, pages,
    set_header_u32, set_page, wf, write_page,
};
use crate::page::{FlagSet, PageContentView, PageView};
use crate::page_cache::lemma_by_id_at;
use crate::pager::{Pager, PagerView};
use crate::state::FreePageState;
use crate::types::{IOResult, IoRequest};

verus! {

/// The size of the header of a trunk page: the next trunk page and the number of leaves.
pub const TRUNK_PAGE_HEADER_SIZE: usize = 8;

/// The size of one leaf entry of a trunk page.
pub const LEAF_ENTRY_SIZE: usize = 4;

/// Where a trunk page holds the number of the next trunk page.
pub const TRUNK_PAGE_NEXT_PAGE_OFFSET: usize = 0;

/// Where a trunk page holds the number of its leaves.
pub const TRUNK_PAGE_LEAF_COUNT_OFFSET: usize = 4;

/// How many leaves a trunk page has room for: one for every four usable
/// bytes, less the two that its header takes.
pub open spec fn max_trunk_leaves(usable_space: int) -> int {
    usable_space / 4 - 2
}

/// The number of leaves that a trunk page holds.
pub open spec fn trunk_leaf_count(c: PageContentView) -> int {
    spec_read_u32(c.buffer, c.offset + TRUNK_PAGE_LEAF_COUNT_OFFSET)
}

/// Where a trunk page holds its leaf number `n`.
pub open spec fn trunk_leaf_slot(c: PageContentView, n: int) -> int {
    c.offset + TRUNK_PAGE_HEADER_SIZE + n * LEAF_ENTRY_SIZE
}

/// `p` without overflow cells.
pub open spec fn without_overflow(p: PageView) -> PageView {
    PageView {
        contents: Some(PageContentView { overflow_cells: Seq::empty(), ..p.contents->0 }),
        ..p
    }
}

/// `p` marked as no longer up to date.
pub open spec fn stale(p: PageView) -> PageView {
    PageView { flags: FlagSet { uptodate: false, ..p.flags }, ..p }
}

/// The pager after the cached copy of a freed page was marked stale.
pub open spec fn mark_stale(v: PagerView, id: usize) -> PagerView {
    if pages(v).dom().contains(id) {
        PagerView { cache: set_page(v.cache, id, stale(pages(v)[id])), ..v }
    } else {
        v
    }
}

/// The freed page becomes the first trunk page: it points to the trunk
/// page that was first, has no leaves, and the header points to it.
///
/// Waits until the bytes of the freed page and of page 1 can be used.
pub open spec fn free_new_trunk(v: PagerView, id: usize) -> (
    PagerView,
    Result<IOResult<()>, PagerError>,
) {
    let at = PagerView { free_page_state: FreePageState::NewTrunk { page_id: id }, ..v };
    if id > u32::MAX {
        (at, Err(PagerError::Corrupt(CorruptKind::InvalidFreePage)))
    } else if page_wait(v, id) is Some {
        (at, Ok(IOResult::IO(page_wait(v, id)->0)))
    } else if page_wait(v, 1) is Some {
        (at, Ok(IOResult::IO(page_wait(v, 1)->0)))
    } else {
        let c = pages(v)[id].contents->0;
        if c.offset + TRUNK_PAGE_HEADER_SIZE > c.buffer.len() {
            (at, Err(PagerError::Corrupt(CorruptKind::TrunkSlot)))
        } else {
            let linked = write_page(
                v,
                id,
                c.offset + TRUNK_PAGE_NEXT_PAGE_OFFSET,
                u32_be_bytes(header_u32(v, HEADER_FREELIST_TRUNK_PAGE)),
            );
            let emptied = write_page(
                linked,
                id,
                c.offset + TRUNK_PAGE_LEAF_COUNT_OFFSET,
                u32_be_bytes(0),
            );
            let rooted = set_header_u32(emptied, HEADER_FREELIST_TRUNK_PAGE, id as u32);
            (
                PagerView { free_page_state: FreePageState::Start, ..mark_stale(rooted, id) },
                Ok(IOResult::Done(())),
            )
        }
    }
}

/// The freed page becomes a leaf of the first trunk page if that page
/// has room, and the first trunk page itself if it has none or there is
/// no trunk page.
///
/// Waits until the bytes of page 1 and of the trunk page can be used.
pub open spec fn free_add_to_trunk(v: PagerView, id: usize) -> (
    PagerView,
    Result<IOResult<()>, PagerError>,
) {
    let at = PagerView { free_page_state: FreePageState::AddToTrunk { page_id: id }, ..v };
    if id > u32::MAX {
        (at, Err(PagerError::Corrupt(CorruptKind::InvalidFreePage)))
    } else if page_wait(v, 1) is Some {
        (at, Ok(IOResult::IO(page_wait(v, 1)->0)))
    } else if !valid_sizes(header(v)) {
        (at, Err(PagerError::Corrupt(CorruptKind::PageSize)))
    } else if header_u32(v, HEADER_FREELIST_TRUNK_PAGE) == 0 {
        free_new_trunk(v, id)
    } else {
        let trunk = header_u32(v, HEADER_FREELIST_TRUNK_PAGE) as usize;
        if page_wait(v, trunk) is Some {
            (at, Ok(IOResult::IO(page_wait(v, trunk)->0)))
        } else {
            let c = pages(v)[trunk].contents->0;
            if c.offset + TRUNK_PAGE_HEADER_SIZE > c.buffer.len() {
                (at, Err(PagerError::Corrupt(CorruptKind::TrunkSlot)))
            } else if trunk_leaf_count(c) < max_trunk_leaves(spec_usable_space(header(v))) {
                if trunk_leaf_slot(c, trunk_leaf_count(c)) + LEAF_ENTRY_SIZE > c.buffer.len() {
                    (at, Err(PagerError::Corrupt(CorruptKind::TrunkSlot)))
                } else {
                    let counted = write_page(
                        v,
                        trunk,
                        c.offset + TRUNK_PAGE_LEAF_COUNT_OFFSET,
                        u32_be_bytes((trunk_leaf_count(c) + 1) as u32),
                    );
                    let listed = write_page(
                        counted,
                        trunk,
                        trunk_leaf_slot(c, trunk_leaf_count(c)),
                        u32_be_bytes(id as u32),
                    );
                    (
                        PagerView {
                            free_page_state: FreePageState::Start,
                            ..mark_stale(listed, id)
                        },
                        Ok(IOResult::Done(())),
                    )
                }
            } else {
                free_new_trunk(v, id)
            }
        }
    }
}

/// The beginning of freeing a page: the page must lie in `2..=database_size`.
/// Its overflow cells are dropped if it is loaded, and the header counts
/// one free page more. Then the page goes to the first trunk page, if
/// the header names one, or becomes the first trunk page.
///
/// Waits until the bytes of page 1 can be used and the page is cached.
pub open spec fn free_start(v: PagerView, id: usize) -> (
    PagerView,
    Result<IOResult<()>, PagerError>,
) {
    if page_wait(v, 1) is Some {
        (v, Ok(IOResult::IO(page_wait(v, 1)->0)))
    } else if id < 2 || id > header_u32(v, HEADER_DATABASE_SIZE) {
        (v, Err(PagerError::Corrupt(CorruptKind::InvalidFreePage)))
    } else if !pages(v).dom().contains(id) {
        (v, Ok(IOResult::IO(IoRequest::LoadPage { page_idx: id })))
    } else if header_u32(v, HEADER_FREELIST_PAGES) == u32::MAX {
        (v, Err(PagerError::Corrupt(CorruptKind::FreelistCount)))
    } else {
        let cleared = if pages(v)[id].flags.loaded {
            PagerView { cache: set_page(v.cache, id, without_overflow(pages(v)[id])), ..v }
        } else {
            v
        };
        let counted = set_header_u32(
            cleared,
            HEADER_FREELIST_PAGES,
            (header_u32(v, HEADER_FREELIST_PAGES) + 1) as u32,
        );
        if header_u32(v, HEADER_FREELIST_TRUNK_PAGE) != 0 {
            free_add_to_trunk(counted, id)
        } else {
            free_new_trunk(counted, id)
        }
    }
}

/// One step of freeing page `id`.
///
/// A call that finds another page being freed fails and changes nothing.
pub open spec fn free_page_step(v: PagerView, id: usize) -> (
    PagerView,
    Result<IOResult<()>, PagerError>,
) {
    match v.free_page_state {
        FreePageState::Start => free_start(v, id),
        FreePageState::AddToTrunk { page_id } => if page_id != id {
            (v, Err(PagerError::InternalError(InternalKind::PageState)))
        } else {
            free_add_to_trunk(v, id)
        },
        FreePageState::NewTrunk { page_id } => if page_id != id {
            (v, Err(PagerError::InternalError(InternalKind::PageState)))
        } else {
            free_new_trunk(v, id)
        },
    }
}

impl Pager {
    /// Marks the cached copy of a page as no longer up to date.
    fn mark_stale(&mut self, id: usize)
        requires
            wf(old(self)@),
        ensures
            wf(final(self)@),
            final(self)@ == mark_stale(old(self)@, id),
    {
        match self.page_cache.position(id) {
            Some(k) => {
                proof {
                    lemma_by_id_at(self@.cache, k as int);
                    assert(pages(self@).dom().contains(id));
                    assert(page_ok(self@.cache[k as int]));
                    lemma_wf_set_page(self@, k as int, stale(self@.cache[k as int]));
                }
                let page = self.page_cache.page_at_mut(k);
                page.clear_uptodate();
            },
            None => {},
        }
    }

    fn set_free_state(&mut self, state: FreePageState)
        requires
            wf(old(self)@),
        ensures
            wf(final(self)@),
            final(self)@ == (PagerView { free_page_state: state, ..old(self)@ }),
    {
        self.free_page_state = state;
        proof {
            lemma_wf_frame(old(self)@, self@);
        }
    }

    fn free_new_trunk(&mut self, id: usize) -> (r: Result<IOResult<()>, PagerError>)
        requires
            wf(old(self)@),
        ensures
            wf(final(self)@),
            (final(self)@, r) == free_new_trunk(old(self)@, id),
    {
        let ghost v = self@;
        if id > u32::MAX as usize {
            self.set_free_state(FreePageState::NewTrunk { page_id: id });
            return Err(PagerError::Corrupt(CorruptKind::InvalidFreePage));
        }
        let k: usize = match self.ready_page(id) {
            Ok(k) => k,
            Err(req) => {
                self.set_free_state(FreePageState::NewTrunk { page_id: id });
                return Ok(IOResult::IO(req));
            },
        };
        let trunk_page_id: u32 = match self.get_header_field(HEADER_FREELIST_TRUNK_PAGE) {
            IOResult::Done(value) => value,
            IOResult::IO(req) => {
                self.set_free_state(FreePageState::NewTrunk { page_id: id });
                return Ok(IOResult::IO(req));
            },
        };
        let contents = self.page_cache.page_at(k).get_contents();
        let offset: usize = contents.offset;
        let len: usize = contents.buffer.len();
        if offset > len || len - offset < TRUNK_PAGE_HEADER_SIZE {
            self.set_free_state(FreePageState::NewTrunk { page_id: id });
            return Err(PagerError::Corrupt(CorruptKind::TrunkSlot));
        }
        // If we get here, need to make this page a new trunk
        // Point to previous trunk
        proof {
            crate::model::lemma_wf_write_page(
                v,
                k as int,
                offset + TRUNK_PAGE_NEXT_PAGE_OFFSET,
                u32_be_bytes(trunk_page_id),
            );
        }
        self.write_u32_at(k, offset + TRUNK_PAGE_NEXT_PAGE_OFFSET, trunk_page_id);
        let ghost linked = self@;
        proof {
            crate::model::lemma_wf_write_page(
                linked,
                k as int,
                offset + TRUNK_PAGE_LEAF_COUNT_OFFSET,
                u32_be_bytes(0),
            );
        }
        // Zero leaf count
        self.write_u32_at(k, offset + TRUNK_PAGE_LEAF_COUNT_OFFSET, 0);
        let ghost emptied = self@;
        assert(page_wait(emptied, 1) is None);
        // Update page 1 to point to new trunk
        let _ = self.set_header_field(HEADER_FREELIST_TRUNK_PAGE, id as u32);
        // Clear flags
        self.mark_stale(id);
        self.set_free_state(FreePageState::Start);
        Ok(IOResult::Done(()))
    }

    fn free_add_to_trunk(&mut self, id: usize) -> (r: Result<IOResult<()>, PagerError>)
        requires
            wf(old(self)@),
        ensures
            wf(final(self)@),
            (final(self)@, r) == free_add_to_trunk(old(self)@, id),
    {
        let ghost v = self@;
        if id > u32::MAX as usize {
            self.set_free_state(FreePageState::AddToTrunk { page_id: id });
            return Err(PagerError::Corrupt(CorruptKind::InvalidFreePage));
        }
        let usable_space: usize = match self.usable_size() {
            Ok(IOResult::Done(usable_space)) => usable_space,
            Ok(IOResult::IO(req)) => {
                self.set_free_state(FreePageState::AddToTrunk { page_id: id });
                return Ok(IOResult::IO(req));
            },
            Err(e) => {
                self.set_free_state(FreePageState::AddToTrunk { page_id: id });
                return Err(e);
            },
        };
        let trunk_page_id: u32 = match self.get_header_field(HEADER_FREELIST_TRUNK_PAGE) {
            IOResult::Done(value) => value,
            IOResult::IO(req) => {
                self.set_free_state(FreePageState::AddToTrunk { page_id: id });
                return Ok(IOResult::IO(req));
            },
        };
        if trunk_page_id == 0 {
            return self.free_new_trunk(id);
        }
        // Add as leaf to current trunk
        let k: usize = match self.ready_page(trunk_page_id as usize) {
            Ok(k) => k,
            Err(req) => {
                self.set_free_state(FreePageState::AddToTrunk { page_id: id });
                return Ok(IOResult::IO(req));
            },
        };
        let trunk_page_contents = self.page_cache.page_at(k).get_contents();
        let offset: usize = trunk_page_contents.offset;
        let len: usize = trunk_page_contents.buffer.len();
        if offset > len || len - offset < TRUNK_PAGE_HEADER_SIZE {
            self.set_free_state(FreePageState::AddToTrunk { page_id: id });
            return Err(PagerError::Corrupt(CorruptKind::TrunkSlot));
        }
        let number_of_leaf_pages: u32 = read_u32(
            &trunk_page_contents.buffer,
            offset + TRUNK_PAGE_LEAF_COUNT_OFFSET,
        );
        // Reserve 2 slots for the trunk page header which is 8 bytes or 2*LEAF_ENTRY_SIZE
        let max_free_list_entries: usize = (usable_space / LEAF_ENTRY_SIZE) - 2;
        if (number_of_leaf_pages as usize) < max_free_list_entries {
            let leaf_bytes: usize = (number_of_leaf_pages as usize) * LEAF_ENTRY_SIZE;
            let room: usize = len - offset - TRUNK_PAGE_HEADER_SIZE;
            if leaf_bytes > room || room - leaf_bytes < LEAF_ENTRY_SIZE {
                self.set_free_state(FreePageState::AddToTrunk { page_id: id });
                return Err(PagerError::Corrupt(CorruptKind::TrunkSlot));
            }
            let slot: usize = offset + TRUNK_PAGE_HEADER_SIZE + leaf_bytes;
            proof {
                crate::model::lemma_wf_write_page(
                    v,
                    k as int,
                    offset + TRUNK_PAGE_LEAF_COUNT_OFFSET,
                    u32_be_bytes((number_of_leaf_pages + 1) as u32),
                );
            }
            self.write_u32_at(k, offset + TRUNK_PAGE_LEAF_COUNT_OFFSET, number_of_leaf_pages + 1);
            self.write_u32_at(k, slot, id as u32);
            self.mark_stale(id);
            self.set_free_state(FreePageState::Start);
            return Ok(IOResult::Done(()));
        }
        self.free_new_trunk(id)
    }

    // Providing a page is optional, if provided it will be used to avoid reading the page from disk.
    // This is implemented in accordance with sqlite freepage2() function.
    /// Gives a page back to the free list. One call is one step; see
    /// `free_page_step`.
    pub fn free_page(&mut self, page_id: usize) -> (r: Result<IOResult<()>, PagerError>)
        requires
            wf(old(self)@),
        ensures
            wf(final(self)@),
            (final(self)@, r) == free_page_step(old(self)@, page_id),
    {
        match self.free_page_state {
            FreePageState::Start => self.free_start(page_id),
            FreePageState::AddToTrunk { page_id: held } => {
                if held != page_id {
                    Err(PagerError::InternalError(InternalKind::PageState))
                } else {
                    self.free_add_to_trunk(page_id)
                }
            },
            FreePageState::NewTrunk { page_id: held } => {
                if held != page_id {
                    Err(PagerError::InternalError(InternalKind::PageState))
                } else {
                    self.free_new_trunk(page_id)
                }
            },
        }
    }

    fn free_start(&mut self, page_id: usize) -> (r: Result<IOResult<()>, PagerError>)
        requires
            wf(old(self)@),
        ensures
            wf(final(self)@),
            (final(self)@, r) == free_start(old(self)@, page_id),
    {
        let ghost v = self@;
        let database_size: u32 = match self.get_header_field(HEADER_DATABASE_SIZE) {
            IOResult::Done(value) => value,
            IOResult::IO(req) => {
                return Ok(IOResult::IO(req));
            },
        };
        if page_id < 2 || page_id > database_size as usize {
            return Err(PagerError::Corrupt(CorruptKind::InvalidFreePage));
        }
        let k: usize = match self.page_cache.position(page_id) {
            Some(k) => k,
            None => {
                return Ok(IOResult::IO(IoRequest::LoadPage { page_idx: page_id }));
            },
        };
        let freelist_pages: u32 = match self.get_header_field(HEADER_FREELIST_PAGES) {
            IOResult::Done(value) => value,
            IOResult::IO(req) => {
                return Ok(IOResult::IO(req));
            },
        };
        if freelist_pages == u32::MAX {
            return Err(PagerError::Corrupt(CorruptKind::FreelistCount));
        }
        let trunk_page_id: u32 = match self.get_header_field(HEADER_FREELIST_TRUNK_PAGE) {
            IOResult::Done(value) => value,
            IOResult::IO(req) => {
                return Ok(IOResult::IO(req));
            },
        };
        proof {
            lemma_by_id_at(v.cache, k as int);
            assert(pages(v).dom().contains(page_id));
            assert(page_ok(v.cache[k as int]));
        }
        if self.page_cache.page_at(k).is_loaded() {
            proof {
                lemma_wf_set_page(v, k as int, without_overflow(v.cache[k as int]));
            }
            let page = self.page_cache.page_at_mut(k);
            match &mut page.inner.contents {
                Some(c) => {
                    c.overflow_cells.clear();
                    assert(c@.overflow_cells =~= Seq::empty());
                },
                None => {},
            }
        }
        let ghost cleared = self@;
        assert(page_wait(cleared, 1) is None);
        assert(header(cleared) == header(v));
        let _ = self.set_header_field(HEADER_FREELIST_PAGES, freelist_pages + 1);
        if trunk_page_id != 0 {
            self.free_add_to_trunk(page_id)
        } else {
            self.free_new_trunk(page_id)
        }
    }
}

} // verus!
