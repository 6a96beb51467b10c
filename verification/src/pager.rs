//! The pager: the page cache, the set of dirty pages, and the state of
//! every operation that may have to wait for outside work.

use vstd::prelude::*;
use std::collections::HashSet;
use crate::error::{CorruptKind, InternalKind, PagerError};
use crate::header::DATABASE_HEADER_SIZE;
use crate::model::{
    lemma_wf_admitted, lemma_wf_same_pages, lemma_wf_set_page, page_ok, pages, set_page, wf,
};
use crate::page::{FlagSet, Page, PageView};
use crate::page_cache::{PageCache, PageCacheKey};
use crate::state::{
    AtomicDbState, AutoVacuumMode, CacheFlushState, CheckpointState, CommitState, DbState,
    FreePageState,
};
use crate::types::CheckpointResult;

verus! {

/// This will keep track of the state of current cache commit in order to not repeat work
pub struct CommitInfo {
    pub(crate) state: CommitState,
    /// Dirty pages to be flushed.
    pub(crate) dirty_pages: Vec<usize>,
    /// What the checkpoint of this commit moved.
    pub(crate) checkpoint_result: CheckpointResult,
}

/// This will keep track of the state of current cache flush in order to not repeat work
pub struct FlushInfo {
    pub(crate) state: CacheFlushState,
    /// Dirty pages to be flushed.
    pub(crate) dirty_pages: Vec<usize>,
}

/// How far the creation of the first page has come.
pub enum AllocatePage1State {
    Start,
    /// The page is being written to the database file.
    Writing { page: Page },
    Done,
}

/// What an `AllocatePage1State` holds.
pub enum Page1State {
    Start,
    Writing(PageView),
    Done,
}

impl View for AllocatePage1State {
    type V = Page1State;

    open spec fn view(&self) -> Page1State {
        match self {
            AllocatePage1State::Start => Page1State::Start,
            AllocatePage1State::Writing { page } => Page1State::Writing(page@),
            AllocatePage1State::Done => Page1State::Done,
        }
    }
}

/// The pager interface implements the persistence layer by providing access
/// to pages of the database file, including caching, concurrency control, and
/// transaction management.
pub struct Pager {
    /// A page cache for the database.
    pub(crate) page_cache: PageCache,
    pub(crate) dirty_pages: HashSet<usize>,
    pub(crate) commit_info: CommitInfo,
    pub(crate) flush_info: FlushInfo,
    pub(crate) checkpoint_state: CheckpointState,
    pub(crate) checkpoint_result: CheckpointResult,
    pub(crate) auto_vacuum_mode: AutoVacuumMode,
    /// 0 -> Database is empty,
    /// 1 -> Database is being initialized,
    /// 2 -> Database is initialized and ready for use.
    pub(crate) db_state: AtomicDbState,
    pub(crate) allocate_page1_state: AllocatePage1State,
    /// Cache page_size and reserved_space at Pager init and reuse for subsequent
    /// `usable_space` calls.
    pub(crate) page_size: Option<u32>,
    pub(crate) reserved_space: Option<u8>,
    pub(crate) free_page_state: FreePageState,
}

/// What a `Pager` holds.
pub struct PagerView {
    /// The cached pages; the page that was used longest ago comes first.
    pub cache: Seq<PageView>,
    /// The number of pages that the cache is meant to hold at most.
    pub capacity: usize,
    /// The numbers of the pages that are waiting to be written to the log.
    pub dirty: Set<usize>,
    pub commit_state: CommitState,
    /// The dirty pages as they were when the commit began, in the order in which they are written.
    pub commit_pages: Seq<usize>,
    pub commit_checkpoint: CheckpointResult,
    pub flush_state: CacheFlushState,
    /// The dirty pages as they were when the flush began, in the order in which they are written.
    pub flush_pages: Seq<usize>,
    pub checkpoint_state: CheckpointState,
    pub checkpoint_result: CheckpointResult,
    pub auto_vacuum_mode: AutoVacuumMode,
    pub db_state: DbState,
    pub page1_state: Page1State,
    pub page_size: Option<u32>,
    pub reserved_space: Option<u8>,
    pub free_page_state: FreePageState,
}

impl View for Pager {
    type V = PagerView;

    open(crate) spec fn view(&self) -> PagerView {
        PagerView {
            cache: self.page_cache@,
            capacity: self.page_cache.spec_capacity(),
            dirty: self.dirty_pages@,
            commit_state: self.commit_info.state,
            commit_pages: self.commit_info.dirty_pages@,
            commit_checkpoint: self.commit_info.checkpoint_result,
            flush_state: self.flush_info.state,
            flush_pages: self.flush_info.dirty_pages@,
            checkpoint_state: self.checkpoint_state,
            checkpoint_result: self.checkpoint_result,
            auto_vacuum_mode: self.auto_vacuum_mode,
            db_state: self.db_state@,
            page1_state: self.allocate_page1_state@,
            page_size: self.page_size,
            reserved_space: self.reserved_space,
            free_page_state: self.free_page_state,
        }
    }
}

/// Where the bytes of a page that is not cached are to come from.
#[derive(Clone, Copy, Debug, PartialEq, Eq, Structural)]
pub enum ReadPage {
    /// The page was cached: nothing is to be read.
    Cached,
    /// The log holds a newer image of the page in this frame: read it
    /// from there, and not from the database file.
    FromWal { frame_id: u64 },
    /// Read the page from the database file.
    FromFile,
}

/// The bytes of a page, if it has bytes.
pub open spec fn page_image(p: PageView) -> Option<Seq<u8>> {
    match p.contents {
        Some(c) => Some(c.buffer),
        None => None,
    }
}

/// Whether `bytes` are the bytes of the first page of a new database
/// whose page size is their number.
pub open spec fn first_page_image(bytes: Seq<u8>) -> bool {
    &&& crate::header::valid_page_size(bytes.len() as int)
    &&& Some(bytes) == page_image(crate::pager_alloc::first_page(bytes.len() as int))
}

/// A page that waits for its bytes: locked, and nothing else.
pub open spec fn locked_page(id: usize) -> PageView {
    PageView {
        id,
        flags: FlagSet { uptodate: false, locked: true, error: false, dirty: false, loaded: false },
        pin_count: 0,
        contents: None,
    }
}

/// A page whose read has completed with `data`: it has the bytes, is
/// up to date and loaded, and is no longer locked. The content of the first
/// page starts behind the database header.
pub open spec fn read_completed(p: PageView, data: Seq<u8>) -> PageView {
    PageView {
        flags: FlagSet { uptodate: true, locked: false, loaded: true, ..p.flags },
        contents: Some(
            crate::page::PageContentView {
                offset: if p.id == 1 {
                    DATABASE_HEADER_SIZE
                } else {
                    0
                },
                buffer: data,
                overflow_cells: Seq::empty(),
            },
        ),
        ..p
    }
}

/// Whether a page keeps the rules for a cached page.
pub fn check_page(page: &Page) -> (b: bool)
    ensures
        b == page_ok(page@),
{
    if page.is_loaded() && page.inner.contents.is_none() {
        return false;
    }
    if page.is_dirty() && !page.is_loaded() {
        return false;
    }
    match &page.inner.contents {
        Some(c) => !(page.inner.id == 1 && c.buffer.len() < DATABASE_HEADER_SIZE),
        None => true,
    }
}

impl Pager {
    /// A pager over `page_cache`. The creation of the first page counts
    /// as done if `db_state` says that the database is initialized, and
    /// as not begun otherwise. Fails if a page of the cache breaks the
    /// rules of its flags.
    pub fn new(page_cache: PageCache, db_state: AtomicDbState) -> (r: Result<Self, PagerError>)
        requires
            page_cache.wf(),
        ensures
            (forall|id: usize| #[trigger]
                page_cache.pages().dom().contains(id) ==> page_ok(page_cache.pages()[id])) <==> r is Ok,
            r is Err ==> r->Err_0 == PagerError::InternalError(InternalKind::PageState),
            r is Ok ==> wf(r->Ok_0@) && r->Ok_0@ == (PagerView {
                cache: page_cache@,
                capacity: page_cache.spec_capacity(),
                dirty: Set::empty(),
                commit_state: CommitState::Start,
                commit_pages: Seq::empty(),
                commit_checkpoint: CheckpointResult { num_wal_frames: 0, num_checkpointed_frames: 0 },
                flush_state: CacheFlushState::Start,
                flush_pages: Seq::empty(),
                checkpoint_state: CheckpointState::Checkpoint,
                checkpoint_result: CheckpointResult { num_wal_frames: 0, num_checkpointed_frames: 0 },
                auto_vacuum_mode: AutoVacuumMode::Off,
                db_state: db_state@,
                page1_state: if db_state@ == DbState::Initialized {
                    Page1State::Done
                } else {
                    Page1State::Start
                },
                page_size: None,
                reserved_space: None,
                free_page_state: FreePageState::Start,
            }),
    {
        let n: usize = page_cache.len();
        let mut i: usize = 0;
        while i < n
            invariant
                i <= n,
                n == page_cache@.len(),
                page_cache.wf(),
                forall|k: int| 0 <= k < i ==> page_ok(#[trigger] page_cache@[k]),
            decreases n - i,
        {
            if !check_page(page_cache.page_at(i)) {
                proof {
                    crate::page_cache::lemma_by_id_at(page_cache@, i as int);
                    assert(page_cache.pages().dom().contains(page_cache@[i as int].id));
                    assert(!page_ok(page_cache.pages()[page_cache@[i as int].id]));
                }
                return Err(PagerError::InternalError(InternalKind::PageState));
            }
            i = i + 1;
        }
        let allocate_page1_state = if !db_state.is_initialized() {
            AllocatePage1State::Start
        } else {
            AllocatePage1State::Done
        };
        let pager = Pager {
            page_cache,
            dirty_pages: HashSet::new(),
            commit_info: CommitInfo {
                state: CommitState::Start,
                dirty_pages: Vec::new(),
                checkpoint_result: CheckpointResult::new(),
            },
            flush_info: FlushInfo { state: CacheFlushState::Start, dirty_pages: Vec::new() },
            checkpoint_state: CheckpointState::Checkpoint,
            checkpoint_result: CheckpointResult::new(),
            auto_vacuum_mode: AutoVacuumMode::Off,
            db_state,
            allocate_page1_state,
            page_size: None,
            reserved_space: None,
            free_page_state: FreePageState::Start,
        };
        proof {
            assert forall|id: usize| #[trigger] pages(pager@).dom().contains(id) implies page_ok(
                pages(pager@)[id],
            ) by {
                let k = choose|k: int| 0 <= k < page_cache@.len() && #[trigger] page_cache@[k].id == id;
                crate::page_cache::lemma_by_id_at(page_cache@, k);
            }
        }
        Ok(pager)
    }

    /// A pager without pages for a database that is not initialized.
    pub(crate) fn placeholder() -> (pager: Self)
        ensures
            wf(pager@),
    {
        Pager {
            page_cache: PageCache::new(1),
            dirty_pages: HashSet::new(),
            commit_info: CommitInfo {
                state: CommitState::Start,
                dirty_pages: Vec::new(),
                checkpoint_result: CheckpointResult::new(),
            },
            flush_info: FlushInfo { state: CacheFlushState::Start, dirty_pages: Vec::new() },
            checkpoint_state: CheckpointState::Checkpoint,
            checkpoint_result: CheckpointResult::new(),
            auto_vacuum_mode: AutoVacuumMode::Off,
            db_state: AtomicDbState::new(DbState::Uninitialized),
            allocate_page1_state: AllocatePage1State::Start,
            page_size: None,
            reserved_space: None,
            free_page_state: FreePageState::Start,
        }
    }

    /// The auto-vacuum mode of the database.
    pub fn get_auto_vacuum_mode(&self) -> (mode: AutoVacuumMode)
        ensures
            mode == self@.auto_vacuum_mode,
    {
        self.auto_vacuum_mode
    }

    /// Sets the auto-vacuum mode of the database.
    pub fn set_auto_vacuum_mode(&mut self, mode: AutoVacuumMode)
        ensures
            final(self)@ == (PagerView { auto_vacuum_mode: mode, ..old(self)@ }),
    {
        self.auto_vacuum_mode = mode;
    }

    /// How far the creation of the database has come.
    pub fn db_state(&self) -> (state: DbState)
        ensures
            state == self@.db_state,
    {
        self.db_state.get()
    }

    /// Whether the first page is being written to the database file.
    pub fn allocating_page1(&self) -> (b: bool)
        ensures
            b == (self@.page1_state is Writing),
    {
        matches!(self.allocate_page1_state, AllocatePage1State::Writing { .. })
    }

    /// The first page while it is being written to the database file.
    pub fn page1_image(&self) -> (r: Option<&Page>)
        ensures
            match r {
                Some(p) => self@.page1_state == Page1State::Writing(p@) && (wf(self@)
                    ==> crate::model::is_first_page(p@)),
                None => !(self@.page1_state is Writing),
            },
    {
        match &self.allocate_page1_state {
            AllocatePage1State::Writing { page } => Some(page),
            _ => None,
        }
    }

    /// A copy of the bytes of the first page while it is being written
    /// to the database file.
    pub fn page1_bytes(&self) -> (r: Option<Vec<u8>>)
        requires
            wf(self@),
        ensures
            match r {
                Some(bytes) => self@.page1_state is Writing && Some(bytes@) == crate::pager::page_image(
                    self@.page1_state->Writing_0,
                ) && first_page_image(bytes@),
                None => !(self@.page1_state is Writing),
            },
    {
        match &self.allocate_page1_state {
            AllocatePage1State::Writing { page } => Some(
                crate::bytes::copy_bytes(&page.get_contents().buffer),
            ),
            _ => None,
        }
    }

    /// A copy of the bytes of a cached page; `None` if the page is not
    /// cached or has no bytes.
    pub fn page_image(&self, page_idx: usize) -> (r: Option<Vec<u8>>)
        requires
            wf(self@),
        ensures
            match r {
                Some(bytes) => pages(self@).dom().contains(page_idx) && Some(bytes@) == page_image(
                    pages(self@)[page_idx],
                ),
                None => !pages(self@).dom().contains(page_idx) || pages(
                    self@,
                )[page_idx].contents is None,
            },
    {
        match self.page(page_idx) {
            Some(page) => match &page.inner.contents {
                Some(c) => Some(crate::bytes::copy_bytes(&c.buffer)),
                None => None,
            },
            None => None,
        }
    }

    /// The flags of a cached page; `None` if the page is not cached.
    pub fn page_flags(&self, page_idx: usize) -> (r: Option<FlagSet>)
        requires
            wf(self@),
        ensures
            match r {
                Some(flags) => pages(self@).dom().contains(page_idx) && flags == pages(
                    self@,
                )[page_idx].flags,
                None => !pages(self@).dom().contains(page_idx),
            },
    {
        match self.page(page_idx) {
            Some(page) => Some(page.flags()),
            None => None,
        }
    }

    /// The cached page with number `page_idx`. The order of use stays as it is.
    pub fn page(&self, page_idx: usize) -> (r: Option<&Page>)
        requires
            wf(self@),
        ensures
            match r {
                Some(p) => pages(self@).dom().contains(page_idx) && p@ == pages(self@)[page_idx],
                None => !pages(self@).dom().contains(page_idx),
            },
    {
        self.page_cache.peek(&PageCacheKey::new(page_idx))
    }

    /// Get a page from the cache, if it exists. The page becomes the most recently used.
    pub fn cache_get(&mut self, page_idx: usize) -> (r: Option<&Page>)
        requires
            wf(old(self)@),
        ensures
            wf(final(self)@),
            match r {
                Some(p) => pages(old(self)@).dom().contains(page_idx) && p@ == pages(
                    old(self)@,
                )[page_idx] && final(self)@ == (PagerView {
                    cache: crate::page_cache::touch(old(self)@.cache, page_idx),
                    ..old(self)@
                }),
                None => !pages(old(self)@).dom().contains(page_idx) && final(self)@ == old(self)@,
            },
    {
        let key = PageCacheKey::new(page_idx);
        let found = self.page_cache.get(&key).is_some();
        proof {
            lemma_wf_same_pages(old(self)@, self@.cache);
        }
        if found {
            self.page_cache.peek(&key)
        } else {
            None
        }
    }

    /// Whether the page is in the dirty set.
    pub fn is_dirty_page(&self, page_idx: usize) -> (b: bool)
        ensures
            b == self@.dirty.contains(page_idx),
    {
        self.dirty_pages.contains(&page_idx)
    }

    /// Whether the dirty set is empty.
    pub fn has_no_dirty_pages(&self) -> (b: bool)
        ensures
            b == (self@.dirty == Set::<usize>::empty()),
    {
        let b = self.dirty_pages.is_empty();
        assert(self@.dirty.is_empty() <==> self@.dirty =~= Set::<usize>::empty());
        b
    }

    /// The number of cached pages.
    pub fn cached_pages(&self) -> (n: usize)
        ensures
            n == self@.cache.len(),
    {
        self.page_cache.len()
    }

    /// The state of the commit.
    pub fn commit_state(&self) -> (s: CommitState)
        ensures
            s == self@.commit_state,
    {
        self.commit_info.state
    }

    /// The state of the flush.
    pub fn flush_state(&self) -> (s: CacheFlushState)
        ensures
            s == self@.flush_state,
    {
        self.flush_info.state
    }

    /// The state of the checkpoint.
    pub fn checkpoint_state(&self) -> (s: CheckpointState)
        ensures
            s == self@.checkpoint_state,
    {
        self.checkpoint_state
    }

    /// The state of freeing a page.
    pub fn free_page_state(&self) -> (s: FreePageState)
        ensures
            s == self@.free_page_state,
    {
        self.free_page_state
    }

    /// Reads a page from the database.
    ///
    /// A cached page is returned as it is and becomes the most recently
    /// used. Otherwise a locked page without bytes enters the cache, and
    /// the answer says where its bytes are to be read from: from the
    /// frame `wal_frame` of the log if the log holds one for this page, and
    /// from the database file if it holds none. The caller starts that
    /// read and hands the bytes to `complete_read`. If the cache has no
    /// room, nothing changes.
    pub fn read_page(&mut self, page_idx: usize, wal_frame: Option<u64>) -> (r: Result<
        ReadPage,
        PagerError,
    >)
        requires
            wf(old(self)@),
        ensures
            wf(final(self)@),
            pages(old(self)@).dom().contains(page_idx) ==> r == Ok::<ReadPage, PagerError>(
                ReadPage::Cached,
            ) && final(self)@ == (PagerView {
                cache: crate::page_cache::touch(old(self)@.cache, page_idx),
                ..old(self)@
            }),
            !pages(old(self)@).dom().contains(page_idx) ==> match crate::page_cache::insert_outcome(
                old(self)@.cache,
                old(self)@.capacity,
                page_idx,
            ) {
                Ok(_) => r == Ok::<ReadPage, PagerError>(
                    match wal_frame {
                        Some(frame_id) => ReadPage::FromWal { frame_id },
                        None => ReadPage::FromFile,
                    },
                ) && final(self)@ == (PagerView {
                    cache: crate::page_cache::evict_lru(
                        old(self)@.cache,
                        crate::page_cache::room_needed(old(self)@.cache.len(), old(self)@.capacity),
                    ).push(locked_page(page_idx)),
                    ..old(self)@
                }),
                Err(_) => r == Err::<ReadPage, PagerError>(PagerError::CacheFull) && final(self)@
                    == old(self)@,
            },
    {
        let page_key = PageCacheKey::new(page_idx);
        let found = self.page_cache.get(&page_key).is_some();
        proof {
            lemma_wf_same_pages(old(self)@, self@.cache);
        }
        if found {
            return Ok(ReadPage::Cached);
        }
        let mut page = Page::new(page_idx);
        page.set_locked();
        let ghost before = self@;
        match self.page_cache.insert(page_key, page) {
            Ok(_) => {
                proof {
                    lemma_wf_admitted(before, self@.cache, locked_page(page_idx));
                }
                match wal_frame {
                    Some(frame_id) => Ok(ReadPage::FromWal { frame_id }),
                    None => Ok(ReadPage::FromFile),
                }
            },
            Err(_) => Err(PagerError::CacheFull),
        }
    }

    /// Takes the bytes of a page whose read has completed: the page gets
    /// them, becomes up to date and loaded, and is no longer locked.
    ///
    /// Fails, and changes nothing, if no read of the page is in flight
    /// (the page is not cached, not locked, or loaded already), or if the
    /// bytes of the first page are fewer than a database header.
    pub fn complete_read(&mut self, page_idx: usize, data: Vec<u8>) -> (r: Result<(), PagerError>)
        requires
            wf(old(self)@),
        ensures
            wf(final(self)@),
            r == complete_read_outcome(old(self)@, page_idx, data@),
            r is Err ==> final(self)@ == old(self)@,
            r is Ok ==> final(self)@ == (PagerView {
                cache: set_page(
                    old(self)@.cache,
                    page_idx,
                    read_completed(pages(old(self)@)[page_idx], data@),
                ),
                ..old(self)@
            }),
    {
        match self.page_cache.position(page_idx) {
            None => Err(PagerError::InternalError(InternalKind::PageState)),
            Some(i) => {
                proof {
                    crate::page_cache::lemma_by_id_at(self@.cache, i as int);
                }
                let current = self.page_cache.page_at(i);
                if !current.is_locked() || current.is_loaded() {
                    return Err(PagerError::InternalError(InternalKind::PageState));
                }
                if page_idx == 1 && data.len() < DATABASE_HEADER_SIZE {
                    return Err(PagerError::Corrupt(CorruptKind::PageSize));
                }
                let offset: usize = if page_idx == 1 {
                    DATABASE_HEADER_SIZE
                } else {
                    0
                };
                proof {
                    lemma_wf_set_page(
                        self@,
                        i as int,
                        read_completed(self@.cache[i as int], data@),
                    );
                }
                let page = self.page_cache.page_at_mut(i);
                page.inner.contents = Some(crate::page::PageContent::new(offset, data));
                page.set_uptodate();
                page.set_loaded();
                page.clear_locked();
                Ok(())
            },
        }
    }
}

/// Whether the bytes of a completed read are taken.
pub open spec fn complete_read_outcome(v: PagerView, page_idx: usize, data: Seq<u8>) -> Result<
    (),
    PagerError,
> {
    if !pages(v).dom().contains(page_idx) || !pages(v)[page_idx].flags.locked || pages(
        v,
    )[page_idx].flags.loaded {
        Err(PagerError::InternalError(InternalKind::PageState))
    } else if page_idx == 1 && data.len() < DATABASE_HEADER_SIZE {
        Err(PagerError::Corrupt(CorruptKind::PageSize))
    } else {
        Ok(())
    }
}

} // verus!
