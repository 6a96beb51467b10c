//! Work on cached pages: marking them dirty, writing into them, pinning
//! them, and reading and writing the database header on the first page.

use vstd::prelude::*;
use crate::bytes::{read_u32, u32_be_bytes, write_bytes};
use crate::error::{CorruptKind, InternalKind, PagerError};
use crate::header::{
    header_page_size, header_reserved_space, spec_page_size, spec_usable_space, valid_page_size,
    valid_sizes, DATABASE_HEADER_SIZE, MIN_USABLE_SPACE,
};
use crate::model::{
    header, header_u32, lemma_wf_dropped,
    lemma_wf_set_page, lemma_wf_write_page, mark_dirty, page_bytes, page_ok, page_wait, pages,
    set_header_u32, set_page, wf, write_page,
};
use crate::page::{Page, PageView};
use crate::page_cache::{
    first_obstacle, index_of, lemma_by_id_at, without_dirty, CacheResizeResult, PageCacheKey,
};
use crate::pager::{check_page, Pager, PagerView};
use crate::state::DbState;
use crate::types::{IOResult, IoRequest};

verus! {

/// `p` with one pin more.
pub open spec fn pinned(p: PageView) -> PageView {
    PageView { pin_count: (p.pin_count + 1) as usize, ..p }
}

/// `p` with one pin less.
pub open spec fn unpinned(p: PageView) -> PageView {
    PageView { pin_count: (p.pin_count - 1) as usize, ..p }
}

/// What `usable_space` answers while the sizes are not both known: the
/// page size that was set or that the header names, less the reserved
/// space that the header names.
pub open spec fn sizes_from_header(v: PagerView) -> (int, int) {
    (
        match v.page_size {
            Some(page_size) => page_size as int,
            None => spec_page_size(header(v)),
        },
        match v.reserved_space {
            Some(reserved) => reserved as int,
            None => header(v)[crate::header::HEADER_RESERVED_SPACE as int] as int,
        },
    )
}

/// Whether bytes can be written into page `page_id` from `at` on: the
/// bytes of the page must be usable, and the new bytes must fit them.
pub open spec fn write_page_outcome(v: PagerView, page_id: usize, at: usize, len: nat) -> Result<
    (),
    PagerError,
> {
    if page_wait(v, page_id) is Some {
        Err(PagerError::InternalError(InternalKind::PageState))
    } else if at + len > page_bytes(v, page_id).len() {
        Err(PagerError::InternalError(InternalKind::BufferTooSmall))
    } else {
        Ok(())
    }
}

/// What is left of a page of `page_size` bytes when `reserved` bytes at
/// its end are kept free.
pub open spec fn usable_of(page_size: int, reserved: int) -> int {
    page_size - reserved
}

/// Whether `usable` can be the usable size of a page: a page size of the
/// file format less a reserved space of at most 255 bytes, and at least 480.
pub open spec fn is_usable_space(usable: int) -> bool {
    usable >= MIN_USABLE_SPACE && exists|page_size: int, reserved: int|
        valid_page_size(page_size) && 0 <= reserved <= 255 && #[trigger] usable_of(
            page_size,
            reserved,
        ) == usable
}

/// What an answer on the usable size of a page is, whatever the pager
/// holds: a usable size, a wait for the first page, or the complaint that
/// the header is damaged.
pub open spec fn sizes_answer(r: Result<IOResult<usize>, PagerError>) -> bool {
    match r {
        Ok(IOResult::Done(usable)) => is_usable_space(usable as int),
        Ok(IOResult::IO(req)) => req == (IoRequest::LoadPage { page_idx: 1 }) || req
            == (IoRequest::WaitPage { page_idx: 1 }),
        Err(e) => e == PagerError::Corrupt(CorruptKind::PageSize),
    }
}

/// `p` with its loaded flag set.
pub open spec fn with_loaded(p: PageView) -> PageView {
    PageView { flags: crate::page::FlagSet { loaded: true, ..p.flags }, ..p }
}

/// Whether `e` says that the cache could not be emptied because a page
/// is locked or pinned.
pub open spec fn clear_refused(e: PagerError) -> bool {
    e == PagerError::InternalError(InternalKind::CacheClear(crate::error::CacheError::Locked)) || e
        == PagerError::InternalError(InternalKind::CacheClear(crate::error::CacheError::Pinned))
}

impl Pager {
    /// The place in the cache of page `id`, if its bytes can be used.
    pub(crate) fn ready_page(&self, id: usize) -> (r: Result<usize, IoRequest>)
        requires
            wf(self@),
        ensures
            match r {
                Ok(i) => page_wait(self@, id) is None && i < self@.cache.len() && self@.cache[i as int]
                    == pages(self@)[id] && self@.cache[i as int].id == id && self@.cache[i as int].contents is Some
                    && self@.cache[i as int].flags.loaded && index_of(self@.cache, id) == i
                    && pages(self@).dom().contains(id),
                Err(req) => page_wait(self@, id) == Some(req),
            },
    {
        match self.page_cache.position(id) {
            None => Err(IoRequest::LoadPage { page_idx: id }),
            Some(i) => {
                proof {
                    lemma_by_id_at(self@.cache, i as int);
                }
                let page = self.page_cache.page_at(i);
                if page.is_locked() || !page.is_loaded() {
                    Err(IoRequest::WaitPage { page_idx: id })
                } else {
                    Ok(i)
                }
            },
        }
    }

    /// Writes `data` into the page at place `i` from `at` on, and marks the page dirty.
    pub(crate) fn write_at(&mut self, i: usize, at: usize, data: &[u8])
        requires
            wf(old(self)@),
            i < old(self)@.cache.len(),
            old(self)@.cache[i as int].flags.loaded,
            at + data.len() <= old(self)@.cache[i as int].contents->0.buffer.len(),
        ensures
            wf(final(self)@),
            final(self)@ == write_page(old(self)@, old(self)@.cache[i as int].id, at as int, data@),
    {
        let id: usize = self.page_cache.page_at(i).inner.id;
        proof {
            lemma_wf_write_page(self@, i as int, at as int, data@);
        }
        let page = self.page_cache.page_at_mut(i);
        match &mut page.inner.contents {
            Some(c) => {
                write_bytes(&mut c.buffer, at, data);
            },
            None => {},
        }
        page.set_dirty();
        self.dirty_pages.insert(id);
    }

    /// Writes a big-endian `u32` into the page at place `i`, and marks the page dirty.
    pub(crate) fn write_u32_at(&mut self, i: usize, at: usize, value: u32)
        requires
            wf(old(self)@),
            i < old(self)@.cache.len(),
            old(self)@.cache[i as int].flags.loaded,
            at + 4 <= old(self)@.cache[i as int].contents->0.buffer.len(),
        ensures
            wf(final(self)@),
            final(self)@ == write_page(
                old(self)@,
                old(self)@.cache[i as int].id,
                at as int,
                u32_be_bytes(value),
            ),
    {
        let bytes: [u8; 4] = [
            (value / 16777216) as u8,
            ((value / 65536) % 256) as u8,
            ((value / 256) % 256) as u8,
            (value % 256) as u8,
        ];
        assert(bytes@ =~= u32_be_bytes(value));
        self.write_at(i, at, bytes.as_slice());
    }

    /// Marks the page at place `i` dirty.
    pub(crate) fn mark_dirty_at(&mut self, i: usize)
        requires
            wf(old(self)@),
            i < old(self)@.cache.len(),
            old(self)@.cache[i as int].flags.loaded,
        ensures
            wf(final(self)@),
            final(self)@ == mark_dirty(old(self)@, old(self)@.cache[i as int].id),
    {
        let id: usize = self.page_cache.page_at(i).inner.id;
        proof {
            lemma_wf_write_page(self@, i as int, 0, Seq::empty());
        }
        let page = self.page_cache.page_at_mut(i);
        page.set_dirty();
        self.dirty_pages.insert(id);
    }

    /// Marks a page dirty and puts it into the dirty set. Fails, and
    /// changes nothing, if the page is not cached or not loaded.
    pub fn add_dirty(&mut self, page_id: usize) -> (r: Result<(), PagerError>)
        requires
            wf(old(self)@),
        ensures
            wf(final(self)@),
            pages(old(self)@).dom().contains(page_id) && pages(old(self)@)[page_id].flags.loaded
                ==> r is Ok && final(self)@ == mark_dirty(old(self)@, page_id),
            !(pages(old(self)@).dom().contains(page_id) && pages(old(self)@)[page_id].flags.loaded)
                ==> r == Err::<(), PagerError>(PagerError::InternalError(InternalKind::PageState))
                && final(self)@ == old(self)@,
    {
        match self.page_cache.position(page_id) {
            Some(i) => {
                proof {
                    lemma_by_id_at(self@.cache, i as int);
                }
                if self.page_cache.page_at(i).is_loaded() {
                    self.mark_dirty_at(i);
                    Ok(())
                } else {
                    Err(PagerError::InternalError(InternalKind::PageState))
                }
            },
            None => Err(PagerError::InternalError(InternalKind::PageState)),
        }
    }

    /// Writes `data` into a cached page from byte `at` of its buffer on,
    /// and marks the page dirty. Fails, and changes nothing, if the bytes
    /// of the page cannot be used or `data` does not fit.
    pub fn write_page(&mut self, page_id: usize, at: usize, data: &[u8]) -> (r: Result<
        (),
        PagerError,
    >)
        requires
            wf(old(self)@),
        ensures
            wf(final(self)@),
            r == write_page_outcome(old(self)@, page_id, at, data@.len()),
            r is Ok ==> final(self)@ == write_page(old(self)@, page_id, at as int, data@),
            r is Err ==> final(self)@ == old(self)@,
    {
        match self.ready_page(page_id) {
            Err(_) => Err(PagerError::InternalError(InternalKind::PageState)),
            Ok(i) => {
                let len: usize = self.page_cache.page_at(i).get_contents().buffer.len();
                if at > len || data.len() > len - at {
                    return Err(PagerError::InternalError(InternalKind::BufferTooSmall));
                }
                self.write_at(i, at, data);
                Ok(())
            },
        }
    }

    /// Pins a cached page, so that the cache does not drop it. Answers
    /// whether it did: not if the page is not cached, or has all the
    /// pins that can be counted.
    pub fn pin_page(&mut self, page_id: usize) -> (done: bool)
        requires
            wf(old(self)@),
        ensures
            wf(final(self)@),
            done == (pages(old(self)@).dom().contains(page_id) && pages(old(self)@)[page_id].pin_count
                < usize::MAX),
            done ==> final(self)@ == (PagerView {
                cache: set_page(old(self)@.cache, page_id, pinned(pages(old(self)@)[page_id])),
                ..old(self)@
            }),
            !done ==> final(self)@ == old(self)@,
    {
        match self.page_cache.position(page_id) {
            Some(i) => {
                proof {
                    lemma_by_id_at(self@.cache, i as int);
                }
                if self.page_cache.page_at(i).inner.pin_count == usize::MAX {
                    return false;
                }
                proof {
                    lemma_wf_set_page(self@, i as int, pinned(self@.cache[i as int]));
                }
                let page = self.page_cache.page_at_mut(i);
                page.pin();
                true
            },
            None => false,
        }
    }

    /// Takes one pin off a cached page. Answers whether it did: not if
    /// the page is not cached or not pinned.
    pub fn unpin_page(&mut self, page_id: usize) -> (done: bool)
        requires
            wf(old(self)@),
        ensures
            wf(final(self)@),
            done == (pages(old(self)@).dom().contains(page_id) && pages(old(self)@)[page_id].pin_count
                > 0),
            done ==> final(self)@ == (PagerView {
                cache: set_page(old(self)@.cache, page_id, unpinned(pages(old(self)@)[page_id])),
                ..old(self)@
            }),
            !done ==> final(self)@ == old(self)@,
    {
        match self.page_cache.position(page_id) {
            Some(i) => {
                proof {
                    lemma_by_id_at(self@.cache, i as int);
                }
                if !self.page_cache.page_at(i).is_pinned() {
                    return false;
                }
                proof {
                    lemma_wf_set_page(self@, i as int, unpinned(self@.cache[i as int]));
                }
                let page = self.page_cache.page_at_mut(i);
                page.unpin();
                true
            },
            None => false,
        }
    }

    /// One of the four-byte fields of the database header, which is the
    /// first 100 bytes of page 1. Waits for page 1 if its bytes cannot be used.
    pub fn get_header_field(&self, field: usize) -> (r: IOResult<u32>)
        requires
            wf(self@),
            field + 4 <= DATABASE_HEADER_SIZE,
        ensures
            r == (match page_wait(self@, 1) {
                Some(req) => IOResult::IO(req),
                None => IOResult::Done(header_u32(self@, field)),
            }),
    {
        match self.ready_page(1) {
            Err(req) => IOResult::IO(req),
            Ok(i) => {
                let page = self.page_cache.page_at(i);
                assert(page_ok(page@));
                IOResult::Done(read_u32(&page.get_contents().buffer, field))
            },
        }
    }

    /// Sets one of the four-byte fields of the database header, which
    /// marks page 1 dirty. Waits for page 1, and changes nothing, if its
    /// bytes cannot be used.
    pub fn set_header_field(&mut self, field: usize, value: u32) -> (r: IOResult<()>)
        requires
            wf(old(self)@),
            field + 4 <= DATABASE_HEADER_SIZE,
        ensures
            wf(final(self)@),
            match page_wait(old(self)@, 1) {
                Some(req) => r == IOResult::<()>::IO(req) && final(self)@ == old(self)@,
                None => r == IOResult::Done(()) && final(self)@ == set_header_u32(
                    old(self)@,
                    field,
                    value,
                ),
            },
    {
        match self.ready_page(1) {
            Err(req) => IOResult::IO(req),
            Ok(i) => {
                assert(page_ok(self@.cache[i as int]));
                self.write_u32_at(i, field, value);
                IOResult::Done(())
            },
        }
    }

    /// The page size that the database header names. Waits for page 1
    /// if its bytes cannot be used; fails if the header names no page
    /// size of the file format or leaves less than 480 bytes usable.
    pub fn get_page_size(&self) -> (r: Result<IOResult<u32>, PagerError>)
        requires
            wf(self@),
        ensures
            r == (match page_wait(self@, 1) {
                Some(req) => Ok::<IOResult<u32>, PagerError>(IOResult::IO(req)),
                None => if valid_sizes(header(self@)) {
                    Ok::<IOResult<u32>, PagerError>(
                        IOResult::Done(spec_page_size(header(self@)) as u32),
                    )
                } else {
                    Err::<IOResult<u32>, PagerError>(PagerError::Corrupt(CorruptKind::PageSize))
                },
            }),
    {
        match self.ready_page(1) {
            Err(req) => Ok(IOResult::IO(req)),
            Ok(i) => {
                let page = self.page_cache.page_at(i);
                assert(page_ok(page@));
                match header_page_size(&page.get_contents().buffer) {
                    Ok(page_size) => Ok(IOResult::Done(page_size)),
                    Err(e) => Err(e),
                }
            },
        }
    }

    /// The "usable size" of a database page is the page size specified by the 2-byte integer at offset 16
    /// in the header, minus the "reserved" space size recorded in the 1-byte integer at offset 20 in the header.
    /// The usable size of a page might be an odd number. However, the usable size is not allowed to be less than 480.
    /// In other words, if the page size is 512, then the reserved space size cannot exceed 32.
    ///
    /// Both sizes are read from the header once and kept. A page size
    /// that was set before the database existed takes the place of the
    /// header's.
    pub fn usable_space(&mut self) -> (r: Result<IOResult<usize>, PagerError>)
        requires
            wf(old(self)@),
        ensures
            wf(final(self)@),
            sizes_answer(r),
            old(self)@.page_size is Some && old(self)@.reserved_space is Some ==> final(self)@
                == old(self)@ && r == (if old(self)@.page_size->0 - old(self)@.reserved_space->0
                >= MIN_USABLE_SPACE {
                Ok::<IOResult<usize>, PagerError>(
                    IOResult::Done(
                        (old(self)@.page_size->0 - old(self)@.reserved_space->0) as usize,
                    ),
                )
            } else {
                Err::<IOResult<usize>, PagerError>(PagerError::Corrupt(CorruptKind::PageSize))
            }),
            !(old(self)@.page_size is Some && old(self)@.reserved_space is Some) ==> match page_wait(
                old(self)@,
                1,
            ) {
                Some(req) => r == Ok::<IOResult<usize>, PagerError>(IOResult::IO(req)) && final(self)@ == old(self)@,
                None => if valid_sizes(header(old(self)@)) && sizes_from_header(old(self)@).0
                    - sizes_from_header(old(self)@).1 >= MIN_USABLE_SPACE {
                    r == Ok::<IOResult<usize>, PagerError>(
                        IOResult::Done(
                            (sizes_from_header(old(self)@).0 - sizes_from_header(
                                old(self)@,
                            ).1) as usize,
                        ),
                    ) && final(self)@ == (PagerView {
                        page_size: Some(sizes_from_header(old(self)@).0 as u32),
                        reserved_space: Some(sizes_from_header(old(self)@).1 as u8),
                        ..old(self)@
                    })
                } else {
                    r == Err::<IOResult<usize>, PagerError>(
                        PagerError::Corrupt(CorruptKind::PageSize),
                    ) && final(self)@ == old(self)@
                },
            },
    {
        let (page_size, reserved): (u32, u8) = match (self.page_size, self.reserved_space) {
            (Some(page_size), Some(reserved)) => (page_size, reserved),
            _ => {
                match self.ready_page(1) {
                    Err(req) => {
                        return Ok(IOResult::IO(req));
                    },
                    Ok(i) => {
                        let page = self.page_cache.page_at(i);
                        assert(page_ok(page@));
                        let buffer = &page.get_contents().buffer;
                        let from_header: u32 = match header_page_size(buffer) {
                            Ok(page_size) => page_size,
                            Err(e) => {
                                return Err(e);
                            },
                        };
                        let page_size: u32 = match self.page_size {
                            Some(page_size) => page_size,
                            None => from_header,
                        };
                        let reserved: u8 = match self.reserved_space {
                            Some(reserved) => reserved,
                            None => header_reserved_space(buffer),
                        };
                        (page_size, reserved)
                    },
                }
            },
        };
        if page_size - reserved as u32 >= MIN_USABLE_SPACE {
            self.page_size = Some(page_size);
            self.reserved_space = Some(reserved);
            proof {
                crate::model::lemma_wf_frame(old(self)@, self@);
                assert(usable_of(page_size as int, reserved as int) == page_size - reserved);
            }
            Ok(IOResult::Done((page_size - reserved as u32) as usize))
        } else {
            Err(PagerError::Corrupt(CorruptKind::PageSize))
        }
    }

    /// The usable size of a page as the database header gives it now.
    pub fn usable_size(&self) -> (r: Result<IOResult<usize>, PagerError>)
        requires
            wf(self@),
        ensures
            sizes_answer(r),
            r == (match page_wait(self@, 1) {
                Some(req) => Ok::<IOResult<usize>, PagerError>(IOResult::IO(req)),
                None => if valid_sizes(header(self@)) {
                    Ok::<IOResult<usize>, PagerError>(
                        IOResult::Done(spec_usable_space(header(self@)) as usize),
                    )
                } else {
                    Err::<IOResult<usize>, PagerError>(PagerError::Corrupt(CorruptKind::PageSize))
                },
            }),
    {
        match self.ready_page(1) {
            Err(req) => Ok(IOResult::IO(req)),
            Ok(i) => {
                let page = self.page_cache.page_at(i);
                assert(page_ok(page@));
                let buffer = &page.get_contents().buffer;
                match header_page_size(buffer) {
                    Ok(page_size) => {
                        let reserved: u8 = header_reserved_space(buffer);
                        assert(usable_of(page_size as int, reserved as int) == page_size
                            - reserved);
                        Ok(IOResult::Done((page_size - reserved as u32) as usize))
                    },
                    Err(e) => Err(e),
                }
            },
        }
    }

    /// Set the initial page size for the database. Should only be called before the database is initialized
    pub fn set_initial_page_size(&mut self, size: u32)
        requires
            wf(old(self)@),
            old(self)@.db_state == DbState::Uninitialized,
            valid_page_size(size as int),
        ensures
            wf(final(self)@),
            final(self)@ == (PagerView { page_size: Some(size), ..old(self)@ }),
    {
        self.page_size = Some(size);
        proof {
            crate::model::lemma_wf_frame(old(self)@, self@);
        }
    }

    /// Changes the size of the page cache. Pages that were used longest
    /// ago leave until the cache fits its new size, as far as they are
    /// neither dirty nor pinned nor locked. Fails for a capacity of 0.
    pub fn change_page_cache_size(&mut self, capacity: usize) -> (r: Result<
        CacheResizeResult,
        PagerError,
    >)
        requires
            wf(old(self)@),
        ensures
            wf(final(self)@),
            capacity == 0 ==> r == Err::<CacheResizeResult, PagerError>(
                PagerError::InternalError(InternalKind::CacheCapacity),
            ) && final(self)@ == old(self)@,
            capacity > 0 ==> final(self)@ == (PagerView {
                cache: crate::page_cache::evict_lru(
                    old(self)@.cache,
                    if old(self)@.cache.len() > capacity {
                        (old(self)@.cache.len() - capacity) as nat
                    } else {
                        0
                    },
                ),
                capacity,
                ..old(self)@
            }) && r == Ok::<CacheResizeResult, PagerError>(
                if final(self)@.cache.len() <= capacity {
                    CacheResizeResult::Done
                } else {
                    CacheResizeResult::PendingEvictions
                },
            ),
    {
        if capacity == 0 {
            return Err(PagerError::InternalError(InternalKind::CacheCapacity));
        }
        let r = self.page_cache.resize(capacity);
        proof {
            lemma_wf_dropped(old(self)@, self@.cache, capacity);
        }
        Ok(r)
    }

    /// Puts a dirty page into the cache, in place of the page cached
    /// under its number if there is one, and marks it loaded.
    ///
    /// Fails, and changes nothing, if the page has another number than
    /// `id` or no bytes, or if the cache has no room for it.
    pub fn update_dirty_loaded_page_in_cache(&mut self, id: usize, page: Page) -> (r: Result<
        (),
        PagerError,
    >)
        requires
            wf(old(self)@),
            page@.flags.dirty,
        ensures
            wf(final(self)@),
            r is Err ==> final(self)@ == old(self)@,
            r is Err ==> r->Err_0 == PagerError::InternalError(InternalKind::PageState) || r->Err_0
                == PagerError::InternalError(InternalKind::CacheInsert(crate::error::CacheError::Full)),
            !page_ok(crate::page::PageView {
                flags: crate::page::FlagSet { loaded: true, ..page@.flags },
                ..page@
            }) || page@.id != id ==> r == Err::<(), PagerError>(
                PagerError::InternalError(InternalKind::PageState),
            ),
            page_ok(crate::page::PageView {
                flags: crate::page::FlagSet { loaded: true, ..page@.flags },
                ..page@
            }) && page@.id == id ==> {
                let loaded = crate::page::PageView {
                    flags: crate::page::FlagSet { loaded: true, ..page@.flags },
                    ..page@
                };
                if pages(old(self)@).dom().contains(id) {
                    r is Ok && final(self)@ == (PagerView {
                        cache: old(self)@.cache.remove(index_of(old(self)@.cache, id)).push(loaded),
                        ..old(self)@
                    })
                } else {
                    match crate::page_cache::insert_outcome(
                        old(self)@.cache,
                        old(self)@.capacity,
                        id,
                    ) {
                        Ok(_) => r is Ok && final(self)@ == (PagerView {
                            cache: crate::page_cache::evict_lru(
                                old(self)@.cache,
                                crate::page_cache::room_needed(
                                    old(self)@.cache.len(),
                                    old(self)@.capacity,
                                ),
                            ).push(loaded),
                            ..old(self)@
                        }),
                        Err(e) => r == Err::<(), PagerError>(
                            PagerError::InternalError(InternalKind::CacheInsert(e)),
                        ),
                    }
                }
            },
    {
        let mut page = page;
        page.set_loaded();
        if page.inner.id != id || !check_page(&page) {
            return Err(PagerError::InternalError(InternalKind::PageState));
        }
        let ghost before = self@;
        let ghost loaded = page@;
        match self.page_cache.insert_ignore_existing(PageCacheKey::new(id), page) {
            Ok(_) => {
                proof {
                    if pages(before).dom().contains(id) {
                        let i = index_of(before.cache, id);
                        crate::model::lemma_wf_replaced(before, self@.cache, loaded);
                    } else {
                        crate::model::lemma_wf_admitted(before, self@.cache, loaded);
                    }
                }
                Ok(())
            },
            Err(e) => Err(PagerError::InternalError(InternalKind::CacheInsert(e))),
        }
    }

    /// Invalidates entire page cache by removing all dirty and clean pages. Usually used in case
    /// of a rollback or in case we want to invalidate page cache after starting a read transaction
    /// right after new writes happened which would invalidate current page cache.
    ///
    /// The dirty set is emptied and every dirty flag cleared in any
    /// case. The pages stay, and the call fails, if one of them is
    /// locked or pinned.
    pub fn clear_page_cache(&mut self) -> (r: Result<(), PagerError>)
        requires
            wf(old(self)@),
        ensures
            wf(final(self)@),
            r is Err ==> clear_refused(r->Err_0),
            match first_obstacle(old(self)@.cache.map_values(|p: PageView| without_dirty(p))) {
                Some(e) => r == Err::<(), PagerError>(
                    PagerError::InternalError(InternalKind::CacheClear(e)),
                ) && final(self)@ == (PagerView {
                    cache: old(self)@.cache.map_values(|p: PageView| without_dirty(p)),
                    dirty: Set::empty(),
                    ..old(self)@
                }),
                None => r is Ok && final(self)@ == (PagerView {
                    cache: Seq::empty(),
                    dirty: Set::empty(),
                    ..old(self)@
                }),
            },
    {
        proof {
            crate::model::lemma_wf_cleared(self@);
            crate::page_cache::lemma_obstacle_without_dirty(self@.cache);
        }
        self.dirty_pages.clear();
        self.page_cache.unset_dirty_all_pages();
        match self.page_cache.clear() {
            Ok(_) => Ok(()),
            Err(e) => Err(PagerError::InternalError(InternalKind::CacheClear(e))),
        }
    }
}

} // verus!
