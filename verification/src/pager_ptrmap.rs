//! The pointer map at work: looking up and setting the entry of a page,
//! and creating the root page of a B-tree.

use vstd::prelude::*;
use crate::error::{CorruptKind, InternalKind, PagerError};
use crate::header::{spec_page_size, valid_sizes, HEADER_DATABASE_SIZE, HEADER_LARGEST_ROOT_PAGE};
use crate::model::{header, header_u32, mark_dirty, page_wait, pages, wf, write_page};
use crate::page::PageType;
use crate::pager::{Pager, PagerView};
use crate::pager_alloc::{do_allocate_step, grows_by_two, next_page_id};
use crate::ptrmap::{
    entry_bytes, get_ptrmap_offset_in_page, get_ptrmap_page_no_for_db_page, is_ptrmap_page,
    parse_entry, spec_is_ptrmap_page, spec_ptrmap_offset, spec_ptrmap_page_for, PtrmapEntry,
    PtrmapType, FIRST_PTRMAP_PAGE_NO, PTRMAP_ENTRY_SIZE,
};
use crate::state::{AutoVacuumMode, BtreePageAllocMode, CreateBTreeFlags};
use crate::types::{IOResult, IoRequest};

verus! {

/// The pointer-map page that holds the entry of page `target`.
pub open spec fn ptrmap_page_of(v: PagerView, target: u32) -> usize {
    spec_ptrmap_page_for(target as int, spec_page_size(header(v))) as usize
}

/// Where in its pointer-map page the entry of page `target` begins.
pub open spec fn ptrmap_slot_of(v: PagerView, target: u32) -> int {
    spec_ptrmap_offset(target as int, ptrmap_page_of(v, target) as int)
}

/// Whether page `target` has no pointer-map entry: it is the header page
/// or a pointer-map page.
pub open spec fn unmapped(v: PagerView, target: u32) -> bool {
    target < FIRST_PTRMAP_PAGE_NO || spec_is_ptrmap_page(target as int, spec_page_size(header(v)))
}

/// What a lookup in the pointer map answers.
///
/// The answer is `None` for the header page and for a pointer-map page.
/// The lookup waits for page 1 and for the pointer-map page if their
/// bytes cannot be used. It fails if the header is damaged, if the
/// pointer-map page carries a content offset, if the entry lies outside
/// the page, or if its type byte names no type.
pub open spec fn ptrmap_get_result(v: PagerView, target: u32) -> Result<
    IOResult<Option<PtrmapEntry>>,
    PagerError,
> {
    match page_wait(v, 1) {
        Some(req) => Ok(IOResult::IO(req)),
        None => if !valid_sizes(header(v)) {
            Err(PagerError::Corrupt(CorruptKind::PageSize))
        } else if unmapped(v, target) {
            Ok(IOResult::Done(None))
        } else {
            match page_wait(v, ptrmap_page_of(v, target)) {
                Some(req) => Ok(IOResult::IO(req)),
                None => {
                    let content = pages(v)[ptrmap_page_of(v, target)].contents->0;
                    let slot = ptrmap_slot_of(v, target);
                    if content.offset != 0 {
                        Err(PagerError::Corrupt(CorruptKind::PtrmapPageOffset))
                    } else if slot + PTRMAP_ENTRY_SIZE > content.buffer.len() {
                        Err(PagerError::Corrupt(CorruptKind::PtrmapEntryOutOfBounds))
                    } else {
                        match parse_entry(content.buffer.subrange(slot, slot + PTRMAP_ENTRY_SIZE)) {
                            Some(entry) => Ok(IOResult::Done(Some(entry))),
                            None => Err(PagerError::Corrupt(CorruptKind::PtrmapEntryType)),
                        }
                    }
                },
            }
        },
    }
}

/// The pager after the pointer-map entry of a page was set, and what
/// the call answers.
///
/// The entry is written into the pointer-map page, which becomes dirty.
/// The call waits for page 1 and for the pointer-map page if their bytes
/// cannot be used. It fails, and changes nothing, if the header is
/// damaged, if the page is the header page or a pointer-map page, or if
/// the entry lies outside the pointer-map page.
pub open spec fn ptrmap_put_step(v: PagerView, target: u32, entry: PtrmapEntry) -> (
    PagerView,
    Result<IOResult<()>, PagerError>,
) {
    match page_wait(v, 1) {
        Some(req) => (v, Ok(IOResult::IO(req))),
        None => if !valid_sizes(header(v)) {
            (v, Err(PagerError::Corrupt(CorruptKind::PageSize)))
        } else if unmapped(v, target) {
            (v, Err(PagerError::InternalError(InternalKind::PtrmapTarget)))
        } else {
            match page_wait(v, ptrmap_page_of(v, target)) {
                Some(req) => (v, Ok(IOResult::IO(req))),
                None => {
                    let slot = ptrmap_slot_of(v, target);
                    if slot + PTRMAP_ENTRY_SIZE > crate::model::page_bytes(
                        v,
                        ptrmap_page_of(v, target),
                    ).len() {
                        (v, Err(PagerError::Corrupt(CorruptKind::PtrmapEntryOutOfBounds)))
                    } else {
                        (
                            write_page(v, ptrmap_page_of(v, target), slot, entry_bytes(entry)),
                            Ok(IOResult::Done(())),
                        )
                    }
                },
            }
        },
    }
}

/// The type of the root page that the flags ask for.
pub open spec fn root_page_type(flags: CreateBTreeFlags) -> PageType {
    if flags.spec_is_table() {
        PageType::TableLeaf
    } else {
        PageType::IndexLeaf
    }
}

/// The pager after a root page was created under full auto-vacuum, and
/// what the call answers: the number of the root page.
///
/// The largest root page so far must be at least 1, and the database
/// must have a page. The database grows
/// by one empty B-tree page, and its pointer-map entry says that it is a
/// root page. The pointer-map page is made dirty before the database
/// grows, so that it is still cached afterwards, unless it is created
/// together with the new page.
pub open spec fn btree_create_full(v: PagerView, page_type: PageType) -> (
    PagerView,
    Result<IOResult<u32>, PagerError>,
) {
    match page_wait(v, 1) {
        Some(req) => (v, Ok(IOResult::IO(req))),
        None => if !valid_sizes(header(v)) {
            (v, Err(PagerError::Corrupt(CorruptKind::PageSize)))
        } else if header_u32(v, HEADER_LARGEST_ROOT_PAGE) == 0 || header_u32(
            v,
            HEADER_LARGEST_ROOT_PAGE,
        ) + 2 > u32::MAX {
            (v, Err(PagerError::Corrupt(CorruptKind::RootPage)))
        } else if header_u32(v, HEADER_DATABASE_SIZE) == 0 || next_page_id(v) > u32::MAX {
            (v, Err(PagerError::Corrupt(CorruptKind::DatabaseSize)))
        } else {
            let root = next_page_id(v) as u32;
            let map_page = ptrmap_page_of(v, root);
            if !grows_by_two(v) && page_wait(v, map_page) is Some {
                (v, Ok(IOResult::IO(page_wait(v, map_page)->0)))
            } else {
                let held = if grows_by_two(v) {
                    v
                } else {
                    mark_dirty(v, map_page)
                };
                let grown = do_allocate_step(held, page_type, 0);
                match grown.1 {
                    Ok(IOResult::Done(id)) => {
                        let mapped = ptrmap_put_step(
                            grown.0,
                            id as u32,
                            PtrmapEntry { entry_type: PtrmapType::RootPage, parent_page_no: 0 },
                        );
                        (
                            mapped.0,
                            match mapped.1 {
                                Ok(IOResult::Done(_)) => Ok(IOResult::Done(id as u32)),
                                Ok(IOResult::IO(req)) => Ok(IOResult::IO(req)),
                                Err(e) => Err(e),
                            },
                        )
                    },
                    Ok(IOResult::IO(req)) => (grown.0, Ok(IOResult::IO(req))),
                    Err(e) => (grown.0, Err(e)),
                }
            }
        },
    }
}

/// The pager after a root page was created, and what the call answers:
/// the number of the root page.
///
/// Without auto-vacuum the database grows by one empty B-tree page.
/// With full auto-vacuum see `btree_create_full`. Incremental
/// auto-vacuum is refused.
pub open spec fn btree_create_step(v: PagerView, flags: CreateBTreeFlags) -> (
    PagerView,
    Result<IOResult<u32>, PagerError>,
) {
    match v.auto_vacuum_mode {
        AutoVacuumMode::Off => {
            let grown = do_allocate_step(v, root_page_type(flags), 0);
            (
                grown.0,
                match grown.1 {
                    Ok(IOResult::Done(id)) => Ok(IOResult::Done(id as u32)),
                    Ok(IOResult::IO(req)) => Ok(IOResult::IO(req)),
                    Err(e) => Err(e),
                },
            )
        },
        AutoVacuumMode::Full => btree_create_full(v, root_page_type(flags)),
        AutoVacuumMode::Incremental => (
            v,
            Err(PagerError::InternalError(InternalKind::IncrementalVacuum)),
        ),
    }
}

impl Pager {
    /// Where the entry of page `target` is: the place in the cache of its
    /// pointer-map page, and the offset of the entry in that page.
    fn ptrmap_slot(&self, target: u32) -> (r: Result<(usize, usize), IoRequest>)
        requires
            wf(self@),
            page_wait(self@, 1) is None,
            valid_sizes(header(self@)),
            !unmapped(self@, target),
        ensures
            match r {
                Ok((k, slot)) => page_wait(self@, ptrmap_page_of(self@, target)) is None && k
                    < self@.cache.len() && self@.cache[k as int] == pages(self@)[ptrmap_page_of(
                    self@,
                    target,
                )] && self@.cache[k as int].id == ptrmap_page_of(self@, target)
                    && self@.cache[k as int].contents is Some && self@.cache[k as int].flags.loaded
                    && slot == ptrmap_slot_of(self@, target),
                Err(req) => page_wait(self@, ptrmap_page_of(self@, target)) == Some(req),
            },
    {
        let page_size: usize = match self.get_page_size() {
            Ok(IOResult::Done(page_size)) => page_size as usize,
            _ => 512,
        };
        let ptrmap_pg_no: u32 = get_ptrmap_page_no_for_db_page(target, page_size);
        proof {
            crate::ptrmap::lemma_ptrmap_page_fixed_point(target as int, page_size as int);
        }
        let slot: usize = match get_ptrmap_offset_in_page(target, ptrmap_pg_no, page_size) {
            Ok(slot) => slot,
            Err(_) => 0,
        };
        match self.ready_page(ptrmap_pg_no as usize) {
            Ok(k) => Ok((k, slot)),
            Err(req) => Err(req),
        }
    }

    /// Retrieves the pointer map entry for a given database page.
    /// `target_page_num` (1-indexed) is the page whose entry is sought.
    /// Returns `Ok(None)` if the page is not supposed to have a ptrmap entry (e.g. header, or a ptrmap page itself).
    ///
    /// See `ptrmap_get_result`.
    pub fn ptrmap_get(&self, target_page_num: u32) -> (r: Result<
        IOResult<Option<PtrmapEntry>>,
        PagerError,
    >)
        requires
            wf(self@),
        ensures
            r == ptrmap_get_result(self@, target_page_num),
    {
        let configured_page_size: usize = match self.get_page_size() {
            Ok(IOResult::Done(size)) => size as usize,
            Ok(IOResult::IO(req)) => {
                return Ok(IOResult::IO(req));
            },
            Err(e) => {
                return Err(e);
            },
        };
        if target_page_num < FIRST_PTRMAP_PAGE_NO || is_ptrmap_page(
            target_page_num,
            configured_page_size,
        ) {
            return Ok(IOResult::Done(None));
        }
        let (k, offset_in_ptrmap_page): (usize, usize) = match self.ptrmap_slot(target_page_num) {
            Ok(found) => found,
            Err(req) => {
                return Ok(IOResult::IO(req));
            },
        };
        let page_content = self.page_cache.page_at(k).get_contents();
        // Ptrmap pages are not page 1, so their internal offset within their buffer should be 0.
        if page_content.offset != 0 {
            return Err(PagerError::Corrupt(CorruptKind::PtrmapPageOffset));
        }
        let actual_data_length: usize = page_content.buffer.len();
        // Check if the calculated offset for the entry is within the bounds of the actual page data length.
        if offset_in_ptrmap_page > actual_data_length || actual_data_length - offset_in_ptrmap_page
            < PTRMAP_ENTRY_SIZE {
            return Err(PagerError::Corrupt(CorruptKind::PtrmapEntryOutOfBounds));
        }
        let entry_slice = vstd::slice::slice_subrange(
            page_content.buffer.as_slice(),
            offset_in_ptrmap_page,
            offset_in_ptrmap_page + PTRMAP_ENTRY_SIZE,
        );
        match PtrmapEntry::deserialize(entry_slice) {
            Some(entry) => Ok(IOResult::Done(Some(entry))),
            None => Err(PagerError::Corrupt(CorruptKind::PtrmapEntryType)),
        }
    }

    /// Writes or updates the pointer map entry for a given database page.
    /// `db_page_no_to_update` (1-indexed) is the page whose entry is to be set.
    /// `entry_type` and `parent_page_no` define the new entry.
    ///
    /// See `ptrmap_put_step`.
    pub fn ptrmap_put(
        &mut self,
        db_page_no_to_update: u32,
        entry_type: PtrmapType,
        parent_page_no: u32,
    ) -> (r: Result<IOResult<()>, PagerError>)
        requires
            wf(old(self)@),
        ensures
            wf(final(self)@),
            (final(self)@, r) == ptrmap_put_step(
                old(self)@,
                db_page_no_to_update,
                PtrmapEntry { entry_type, parent_page_no },
            ),
    {
        let page_size: usize = match self.get_page_size() {
            Ok(IOResult::Done(size)) => size as usize,
            Ok(IOResult::IO(req)) => {
                return Ok(IOResult::IO(req));
            },
            Err(e) => {
                return Err(e);
            },
        };
        if db_page_no_to_update < FIRST_PTRMAP_PAGE_NO || is_ptrmap_page(
            db_page_no_to_update,
            page_size,
        ) {
            return Err(PagerError::InternalError(InternalKind::PtrmapTarget));
        }
        let (k, offset_in_ptrmap_page): (usize, usize) = match self.ptrmap_slot(
            db_page_no_to_update,
        ) {
            Ok(found) => found,
            Err(req) => {
                return Ok(IOResult::IO(req));
            },
        };
        let len: usize = self.page_cache.page_at(k).get_contents().buffer.len();
        if offset_in_ptrmap_page > len || len - offset_in_ptrmap_page < PTRMAP_ENTRY_SIZE {
            return Err(PagerError::Corrupt(CorruptKind::PtrmapEntryOutOfBounds));
        }
        let entry = PtrmapEntry { entry_type, parent_page_no };
        let mut bytes: Vec<u8> = crate::bytes::zeroed(PTRMAP_ENTRY_SIZE);
        let _ = entry.serialize(bytes.as_mut_slice());
        assert(bytes@ =~= entry_bytes(entry));
        self.write_at(k, offset_in_ptrmap_page, bytes.as_slice());
        Ok(IOResult::Done(()))
    }

    /// This method is used to allocate a new root page for a btree, both for tables and indexes
    ///
    /// See `btree_create_step`.
    pub fn btree_create(&mut self, flags: &CreateBTreeFlags) -> (r: Result<IOResult<u32>, PagerError>)
        requires
            wf(old(self)@),
            flags.spec_is_table() || flags.spec_is_index(),
        ensures
            wf(final(self)@),
            (final(self)@, r) == btree_create_step(old(self)@, *flags),
    {
        let page_type = if flags.is_table() {
            PageType::TableLeaf
        } else {
            PageType::IndexLeaf
        };
        match self.auto_vacuum_mode {
            AutoVacuumMode::Off => {
                match self.do_allocate_page(page_type, 0, BtreePageAllocMode::Any) {
                    Ok(IOResult::Done(id)) => Ok(IOResult::Done(id as u32)),
                    Ok(IOResult::IO(req)) => Ok(IOResult::IO(req)),
                    Err(e) => Err(e),
                }
            },
            AutoVacuumMode::Full => self.btree_create_full(page_type),
            AutoVacuumMode::Incremental => Err(
                PagerError::InternalError(InternalKind::IncrementalVacuum),
            ),
        }
    }

    //  If autovacuum is enabled, we need to allocate a new page number that is greater than the largest root page number
    #[verifier::rlimit(60)]
    fn btree_create_full(&mut self, page_type: PageType) -> (r: Result<IOResult<u32>, PagerError>)
        requires
            wf(old(self)@),
            old(self)@.auto_vacuum_mode == AutoVacuumMode::Full,
        ensures
            wf(final(self)@),
            (final(self)@, r) == btree_create_full(old(self)@, page_type),
    {
        let page_size: usize = match self.get_page_size() {
            Ok(IOResult::Done(size)) => size as usize,
            Ok(IOResult::IO(req)) => {
                return Ok(IOResult::IO(req));
            },
            Err(e) => {
                return Err(e);
            },
        };
        let largest_root: u32 = match self.get_header_field(HEADER_LARGEST_ROOT_PAGE) {
            IOResult::Done(value) => value,
            IOResult::IO(req) => {
                return Ok(IOResult::IO(req));
            },
        };
        //  Largest root page number cannot be 0 because that is set to 1 when creating the database with autovacuum enabled
        if largest_root == 0 || largest_root >= u32::MAX - 1 {
            return Err(PagerError::Corrupt(CorruptKind::RootPage));
        }
        let mut root_page_num: u32 = largest_root + 1;
        if is_ptrmap_page(root_page_num, page_size) {
            root_page_num = root_page_num + 1;
        }
        //  the very first root page is page 3
        assert(root_page_num >= 3);
        let db_size: u32 = match self.get_header_field(HEADER_DATABASE_SIZE) {
            IOResult::Done(value) => value,
            IOResult::IO(req) => {
                return Ok(IOResult::IO(req));
            },
        };
        if db_size == 0 || db_size == u32::MAX {
            return Err(PagerError::Corrupt(CorruptKind::DatabaseSize));
        }
        let with_ptrmap: bool = is_ptrmap_page(db_size + 1, page_size);
        if with_ptrmap && db_size == u32::MAX - 1 {
            return Err(PagerError::Corrupt(CorruptKind::DatabaseSize));
        }
        let root: u32 = if with_ptrmap {
            db_size + 2
        } else {
            db_size + 1
        };
        if !with_ptrmap {
            let map_page: u32 = get_ptrmap_page_no_for_db_page(root, page_size);
            match self.ready_page(map_page as usize) {
                Err(req) => {
                    return Ok(IOResult::IO(req));
                },
                Ok(k) => {
                    self.mark_dirty_at(k);
                },
            }
        }
        //  root_page_num here is the desired root page
        match self.do_allocate_page(page_type, 0, BtreePageAllocMode::Exact(root_page_num)) {
            Ok(IOResult::Done(id)) => {
                match self.ptrmap_put(id as u32, PtrmapType::RootPage, 0) {
                    Ok(IOResult::Done(_)) => Ok(IOResult::Done(id as u32)),
                    Ok(IOResult::IO(req)) => Ok(IOResult::IO(req)),
                    Err(e) => Err(e),
                }
            },
            Ok(IOResult::IO(req)) => Ok(IOResult::IO(req)),
            Err(e) => Err(e),
        }
    }
}

} // verus!
