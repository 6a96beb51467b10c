use pager::header::{
    HEADER_DATABASE_SIZE, HEADER_FREELIST_PAGES, HEADER_FREELIST_TRUNK_PAGE,
    HEADER_LARGEST_ROOT_PAGE,
};
use pager::ptrmap::{get_ptrmap_page_no_for_db_page, is_ptrmap_page, FIRST_PTRMAP_PAGE_NO};
use pager::{
    allocate_page, AtomicDbState, AutoVacuumMode, BtreePageAllocMode, CacheError,
    CacheFlushState, CacheResizeResult, CheckpointResult, CheckpointState, CommitState,
    CorruptKind, CreateBTreeFlags, DbState, FlagSet, FreePageState, IOResult, InternalKind,
    IoEvent, IoRequest, LimboResult, Page, PageCache, PageType, Pager, PagerCommitResult,
    PagerError, PtrmapEntry, PtrmapType, ReadPage,
};

/// A pager whose first page exists.
fn new_pager(page_size: u32, capacity: usize) -> Pager {
    let mut pager = Pager::new(
        PageCache::new(capacity),
        AtomicDbState::new(DbState::Uninitialized),
    )
    .unwrap();
    pager.set_initial_page_size(page_size);
    assert_eq!(pager.allocate_page1(IoEvent::Idle), Ok(IOResult::IO(IoRequest::WritePage1)));
    assert_eq!(pager.allocate_page1(IoEvent::InFlight(0)), Ok(IOResult::Done(())));
    pager
}

/// A pager with full auto-vacuum and `roots` root pages.
fn test_pager_setup(page_size: u32, initial_db_pages: u32) -> Pager {
    let mut pager = new_pager(page_size, (initial_db_pages + 10) as usize);
    assert_eq!(pager.set_header_field(HEADER_LARGEST_ROOT_PAGE, 1), IOResult::Done(()));
    pager.set_auto_vacuum_mode(AutoVacuumMode::Full);
    //  Allocate all the pages as btree root pages
    for _ in 0..initial_db_pages {
        match pager.btree_create(&CreateBTreeFlags::new_table()) {
            Ok(IOResult::Done(_root_page_id)) => (),
            Ok(IOResult::IO(_)) => {
                panic!("test_pager_setup: btree_create returned IOResult::IO unexpectedly");
            }
            Err(e) => {
                panic!("test_pager_setup: btree_create failed: {e:?}");
            }
        }
    }
    pager
}

fn field(pager: &Pager, at: usize) -> u32 {
    match pager.get_header_field(at) {
        IOResult::Done(value) => value,
        IOResult::IO(req) => panic!("header is not readable: {req:?}"),
    }
}

fn grow(pager: &mut Pager) -> usize {
    match pager.allocate_page() {
        Ok(IOResult::Done(id)) => id,
        other => panic!("allocation did not complete: {other:?}"),
    }
}

/// Runs a commit against a log that takes every frame at once. Returns
/// the frames as (page, size of the database), the result, and the requests.
fn run_commit(
    pager: &mut Pager,
    wal_checkpoint_disabled: bool,
    should_checkpoint: bool,
) -> (Vec<(usize, u32)>, PagerCommitResult, Vec<IoRequest>) {
    let mut frames = Vec::new();
    let mut requests = Vec::new();
    let mut event = IoEvent::Idle;
    loop {
        match pager.commit_dirty_pages(wal_checkpoint_disabled, event).unwrap() {
            IOResult::Done(result) => return (frames, result, requests),
            IOResult::IO(request) => {
                requests.push(request);
                event = match request {
                    IoRequest::AppendFrame { page_id, db_size } => {
                        frames.push((page_id, db_size));
                        IoEvent::InFlight(0)
                    }
                    IoRequest::WaitWrites => IoEvent::InFlight(0),
                    IoRequest::SyncWal => IoEvent::WalSynced { should_checkpoint },
                    IoRequest::Checkpoint => IoEvent::Checkpointed(CheckpointResult {
                        num_wal_frames: 5,
                        num_checkpointed_frames: 4,
                    }),
                    IoRequest::SyncDbFile => IoEvent::DbSync { syncing: true },
                    IoRequest::WaitDbSync => IoEvent::DbSync { syncing: false },
                    IoRequest::FinishCommit => IoEvent::CommitSignalled,
                    other => panic!("unexpected request {other:?}"),
                };
            }
        }
    }
}

/// Brings a page into the cache as a read from the database file would.
fn load(pager: &mut Pager, page_idx: usize, data: Vec<u8>) {
    assert_eq!(pager.read_page(page_idx, None), Ok(ReadPage::FromFile));
    assert_eq!(pager.complete_read(page_idx, data), Ok(()));
}

#[test]
fn test_ptrmap_page_allocation() {
    let page_size = 4096;
    let initial_db_pages = 10;
    let mut pager = test_pager_setup(page_size, initial_db_pages);

    // Page 5 should be mapped by ptrmap page 2.
    let db_page_to_update: u32 = 5;
    let expected_ptrmap_pg_no =
        get_ptrmap_page_no_for_db_page(db_page_to_update, page_size as usize);
    assert_eq!(expected_ptrmap_pg_no, FIRST_PTRMAP_PAGE_NO);

    //  Ensure the pointer map page ref is created and loadable via the pager
    let ptrmap_page_ref = pager.read_page(expected_ptrmap_pg_no as usize, None);
    assert!(ptrmap_page_ref.is_ok());

    //  Ensure that the database header size is correctly reflected
    assert_eq!(field(&pager, HEADER_DATABASE_SIZE), initial_db_pages + 2); // (1+1) -> (header + ptrmap)

    //  Read the entry from the ptrmap page and verify it
    let entry = pager.ptrmap_get(db_page_to_update).unwrap();
    assert!(matches!(entry, IOResult::Done(Some(_))));
    let IOResult::Done(Some(entry)) = entry else {
        panic!("entry is not Some");
    };
    assert_eq!(entry.entry_type, PtrmapType::RootPage);
    assert_eq!(entry.parent_page_no, 0);
}

#[test]
fn roots_under_full_autovacuum_avoid_ptrmap_pages() {
    let mut pager = new_pager(512, 300);
    pager.set_header_field(HEADER_LARGEST_ROOT_PAGE, 1);
    pager.set_auto_vacuum_mode(AutoVacuumMode::Full);
    let mut roots = Vec::new();
    for _ in 0..110 {
        match pager.btree_create(&CreateBTreeFlags::new_index()).unwrap() {
            IOResult::Done(root) => roots.push(root),
            IOResult::IO(req) => panic!("unexpected wait {req:?}"),
        }
    }
    assert_eq!(roots[0], 3);
    assert_eq!(roots[101], 104);
    // page 105 is a pointer-map page, so the next root is page 106
    assert_eq!(roots[102], 106);
    assert_eq!(field(&pager, HEADER_DATABASE_SIZE), 113);
    for root in &roots {
        assert!(!is_ptrmap_page(*root, 512));
        assert_eq!(
            pager.ptrmap_get(*root),
            Ok(IOResult::Done(Some(PtrmapEntry {
                entry_type: PtrmapType::RootPage,
                parent_page_no: 0
            })))
        );
    }
    assert_eq!(pager.ptrmap_get(1), Ok(IOResult::Done(None)));
    assert_eq!(pager.ptrmap_get(2), Ok(IOResult::Done(None)));
    assert_eq!(pager.ptrmap_get(105), Ok(IOResult::Done(None)));
    assert_eq!(pager.ptrmap_get(0), Ok(IOResult::Done(None)));
    // the new root is an empty index leaf
    let image = pager.page_image(106).unwrap();
    assert_eq!(&image[0..12], &[10, 0, 0, 0, 0, 0x02, 0x00, 0, 0, 0, 0, 0]);
    assert!(pager.is_dirty_page(105));
    assert!(pager.is_dirty_page(2));
}

#[test]
fn fresh_database_without_autovacuum() {
    let mut pager = Pager::new(PageCache::new(10), AtomicDbState::new(DbState::Uninitialized))
        .unwrap();
    pager.set_initial_page_size(4096);
    assert_eq!(pager.db_state(), DbState::Uninitialized);
    assert_eq!(
        pager.maybe_allocate_page1(true, IoEvent::Idle),
        Ok(IOResult::IO(IoRequest::WritePage1))
    );
    assert_eq!(pager.db_state(), DbState::Initializing);
    assert!(pager.allocating_page1());
    assert_eq!(pager.page1_bytes().unwrap().len(), 4096);
    assert_eq!(
        pager.maybe_allocate_page1(true, IoEvent::InFlight(1)),
        Ok(IOResult::IO(IoRequest::WaitWrites))
    );
    assert_eq!(pager.maybe_allocate_page1(true, IoEvent::InFlight(0)), Ok(IOResult::Done(())));
    assert_eq!(pager.db_state(), DbState::Initialized);
    assert!(!pager.allocating_page1());
    assert_eq!(pager.begin_write_tx(true, IoEvent::Idle), Ok(IOResult::Done(())));

    assert_eq!(pager.allocate_page(), Ok(IOResult::Done(2)));
    assert_eq!(pager.write_page(2, 100, &[1, 2, 3]), Ok(()));
    assert_eq!(field(&pager, HEADER_DATABASE_SIZE), 2);

    let (frames, result, requests) = run_commit(&mut pager, false, false);
    assert_eq!(result, PagerCommitResult::WalWritten);
    assert_eq!(frames.len(), 2);
    let mut pages: Vec<usize> = frames.iter().map(|f| f.0).collect();
    pages.sort();
    assert_eq!(pages, vec![1, 2]);
    // the commit marker is on the last frame, and only there
    assert_eq!(frames[0].1, 0);
    assert_eq!(frames[1].1, 2);
    // the database file is not touched
    assert!(!requests.contains(&IoRequest::SyncDbFile));
    assert!(!requests.contains(&IoRequest::Checkpoint));
    assert_eq!(requests[requests.len() - 1], IoRequest::FinishCommit);
    assert_eq!(requests[requests.len() - 2], IoRequest::SyncWal);
    assert!(pager.has_no_dirty_pages());
    assert_eq!(pager.cached_pages(), 0);
    assert_eq!(pager.commit_state(), CommitState::Start);
}

#[test]
fn first_page_image() {
    let mut pager = Pager::new(PageCache::new(4), AtomicDbState::new(DbState::Uninitialized))
        .unwrap();
    assert!(pager.page1_bytes().is_none());
    assert!(pager.page1_image().is_none());
    assert_eq!(pager.allocate_page1(IoEvent::Idle), Ok(IOResult::IO(IoRequest::WritePage1)));
    let image = pager.page1_bytes().unwrap();
    // without an initial page size the database has pages of 4096 bytes
    assert_eq!(image.len(), 4096);
    assert_eq!(&image[0..16], b"SQLite format 3\0");
    assert_eq!(&image[16..18], &[0x10, 0x00]);
    assert_eq!(&image[28..32], &[0, 0, 0, 1]);
    assert_eq!(&image[100..112], &[13, 0, 0, 0, 0, 0x10, 0x00, 0, 0, 0, 0, 0]);
    let page = pager.page1_image().unwrap();
    assert_eq!(page.get().id, 1);
    assert_eq!(page.get_contents().offset, 100);
    assert!(page.is_loaded() && !page.is_dirty());
    assert!(pager.page(1).is_none());
    assert_eq!(pager.allocate_page1(IoEvent::Idle), Ok(IOResult::IO(IoRequest::WaitWrites)));
    assert_eq!(pager.allocate_page1(IoEvent::InFlight(0)), Ok(IOResult::Done(())));
    assert_eq!(pager.page(1).unwrap().get_contents().offset, 100);
    assert_eq!(pager.get_page_size(), Ok(IOResult::Done(4096)));
    assert!(!pager.is_dirty_page(1));
}

#[test]
fn first_page_waits_without_the_init_lock() {
    let mut pager = Pager::new(PageCache::new(4), AtomicDbState::new(DbState::Uninitialized))
        .unwrap();
    assert_eq!(
        pager.maybe_allocate_page1(false, IoEvent::Idle),
        Ok(IOResult::IO(IoRequest::WaitInit))
    );
    assert_eq!(pager.db_state(), DbState::Uninitialized);
    // another connection is initializing
    let mut other = Pager::new(PageCache::new(4), AtomicDbState::new(DbState::Initializing))
        .unwrap();
    assert_eq!(
        other.maybe_allocate_page1(true, IoEvent::Idle),
        Ok(IOResult::IO(IoRequest::WaitInit))
    );
    assert_eq!(
        other.begin_write_tx(true, IoEvent::Idle),
        Ok(IOResult::IO(IoRequest::WaitInit))
    );
    // an initialized database needs nothing
    let mut ready = Pager::new(PageCache::new(4), AtomicDbState::new(DbState::Initialized))
        .unwrap();
    assert_eq!(ready.maybe_allocate_page1(false, IoEvent::Idle), Ok(IOResult::Done(())));
    assert!(!ready.allocating_page1());
}

#[test]
fn first_page_needs_room_in_the_cache() {
    let mut cache = PageCache::new(1);
    let mut pinned = allocate_page(5, 512, 0);
    pinned.pin();
    cache.insert(pager::PageCacheKey::new(5), pinned).unwrap();
    let mut pager = Pager::new(cache, AtomicDbState::new(DbState::Uninitialized)).unwrap();
    assert_eq!(pager.allocate_page1(IoEvent::Idle), Ok(IOResult::IO(IoRequest::WritePage1)));
    assert_eq!(
        pager.allocate_page1(IoEvent::InFlight(0)),
        Err(PagerError::InternalError(InternalKind::CacheInsert(CacheError::Full)))
    );
    assert!(pager.allocating_page1());
    assert!(pager.unpin_page(5));
    assert_eq!(pager.allocate_page1(IoEvent::InFlight(0)), Ok(IOResult::Done(())));
    assert!(pager.page(5).is_none());
}

#[test]
fn new_pager_checks_the_pages_of_its_cache() {
    let mut cache = PageCache::new(4);
    let mut broken = Page::new(3);
    broken.set_dirty();
    cache.insert(pager::PageCacheKey::new(3), broken).unwrap();
    assert!(matches!(
        Pager::new(cache, AtomicDbState::new(DbState::Initialized)),
        Err(PagerError::InternalError(InternalKind::PageState))
    ));
    let mut cache = PageCache::new(4);
    cache.insert(pager::PageCacheKey::new(3), allocate_page(3, 512, 0)).unwrap();
    let pager = Pager::new(cache, AtomicDbState::new(DbState::Initialized)).unwrap();
    assert_eq!(pager.cached_pages(), 1);
    assert_eq!(pager.get_auto_vacuum_mode(), AutoVacuumMode::Off);
    assert_eq!(pager.commit_state(), CommitState::Start);
    assert_eq!(pager.flush_state(), CacheFlushState::Start);
    assert_eq!(pager.checkpoint_state(), CheckpointState::Checkpoint);
    assert_eq!(pager.free_page_state(), FreePageState::Start);
    assert!(pager.has_no_dirty_pages());
}

#[test]
fn read_hits_the_log_before_the_file() {
    let mut pager = new_pager(512, 10);
    assert_eq!(pager.read_page(7, Some(12)), Ok(ReadPage::FromWal { frame_id: 12 }));
    assert_eq!(
        pager.page_flags(7),
        Some(FlagSet { uptodate: false, locked: true, error: false, dirty: false, loaded: false })
    );
    assert!(pager.page_image(7).is_none());
    // the read is in flight: a second request finds the page cached
    assert_eq!(pager.read_page(7, None), Ok(ReadPage::Cached));
    let mut data = vec![0u8; 512];
    data[0] = 0x42;
    assert_eq!(pager.complete_read(7, data.clone()), Ok(()));
    assert_eq!(
        pager.page_flags(7),
        Some(FlagSet { uptodate: true, locked: false, error: false, dirty: false, loaded: true })
    );
    assert_eq!(pager.page_image(7), Some(data));
    assert_eq!(pager.page(7).unwrap().get_contents().offset, 0);
    assert_eq!(pager.cache_get(7).unwrap().get().id, 7);
    assert!(pager.cache_get(8).is_none());
    assert_eq!(pager.read_page(8, None), Ok(ReadPage::FromFile));
}

#[test]
fn completed_read_needs_a_read_in_flight() {
    let mut pager = new_pager(512, 10);
    assert_eq!(
        pager.complete_read(9, vec![0; 512]),
        Err(PagerError::InternalError(InternalKind::PageState))
    );
    // page 1 is loaded already
    assert_eq!(
        pager.complete_read(1, vec![0; 512]),
        Err(PagerError::InternalError(InternalKind::PageState))
    );
    assert_eq!(pager.read_page(3, None), Ok(ReadPage::FromFile));
    assert_eq!(pager.complete_read(3, vec![1; 512]), Ok(()));
    assert_eq!(
        pager.complete_read(3, vec![2; 512]),
        Err(PagerError::InternalError(InternalKind::PageState))
    );
    assert_eq!(pager.page_image(3), Some(vec![1; 512]));
}

#[test]
fn first_page_from_disk_must_hold_a_header() {
    let mut pager = Pager::new(PageCache::new(4), AtomicDbState::new(DbState::Initialized))
        .unwrap();
    assert_eq!(
        pager.get_header_field(HEADER_DATABASE_SIZE),
        IOResult::IO(IoRequest::LoadPage { page_idx: 1 })
    );
    assert_eq!(pager.usable_space(), Ok(IOResult::IO(IoRequest::LoadPage { page_idx: 1 })));
    assert_eq!(pager.read_page(1, None), Ok(ReadPage::FromFile));
    assert_eq!(
        pager.get_header_field(HEADER_DATABASE_SIZE),
        IOResult::IO(IoRequest::WaitPage { page_idx: 1 })
    );
    assert_eq!(
        pager.set_header_field(HEADER_DATABASE_SIZE, 4),
        IOResult::IO(IoRequest::WaitPage { page_idx: 1 })
    );
    assert_eq!(pager.allocate_page(), Ok(IOResult::IO(IoRequest::WaitPage { page_idx: 1 })));
    assert_eq!(
        pager.complete_read(1, vec![0; 99]),
        Err(PagerError::Corrupt(CorruptKind::PageSize))
    );
    let mut image = vec![0u8; 1024];
    pager::header::write_default_header(&mut image, 1024);
    image[20] = 24;
    image[28..32].copy_from_slice(&40u32.to_be_bytes());
    assert_eq!(pager.complete_read(1, image), Ok(()));
    assert_eq!(pager.page(1).unwrap().get_contents().offset, 100);
    assert_eq!(pager.get_header_field(HEADER_DATABASE_SIZE), IOResult::Done(40));
    assert_eq!(pager.get_page_size(), Ok(IOResult::Done(1024)));
    assert_eq!(pager.usable_size(), Ok(IOResult::Done(1000)));
    assert_eq!(pager.usable_space(), Ok(IOResult::Done(1000)));
}

#[test]
fn usable_space_is_read_once() {
    let mut pager = new_pager(512, 10);
    assert_eq!(pager.usable_space(), Ok(IOResult::Done(512)));
    // the header changes, the cached sizes stay
    assert_eq!(pager.write_page(1, 20, &[32]), Ok(()));
    assert_eq!(pager.usable_size(), Ok(IOResult::Done(480)));
    assert_eq!(pager.usable_space(), Ok(IOResult::Done(512)));
    assert_eq!(pager.write_page(1, 20, &[33]), Ok(()));
    assert_eq!(pager.usable_size(), Err(PagerError::Corrupt(CorruptKind::PageSize)));
    assert_eq!(pager.get_page_size(), Err(PagerError::Corrupt(CorruptKind::PageSize)));
    assert_eq!(pager.allocate_page(), Err(PagerError::Corrupt(CorruptKind::PageSize)));
    assert_eq!(pager.ptrmap_get(3), Err(PagerError::Corrupt(CorruptKind::PageSize)));
    assert_eq!(
        pager.ptrmap_put(3, PtrmapType::FreePage, 0),
        Err(PagerError::Corrupt(CorruptKind::PageSize))
    );
    assert_eq!(pager.usable_space(), Ok(IOResult::Done(512)));
}

#[test]
fn allocation_grows_the_database() {
    let mut pager = new_pager(512, 10);
    assert_eq!(field(&pager, HEADER_DATABASE_SIZE), 1);
    let mut last = 1;
    for expected in 2..7usize {
        let id = grow(&mut pager);
        assert_eq!(id, expected);
        assert!(field(&pager, HEADER_DATABASE_SIZE) > last);
        last = field(&pager, HEADER_DATABASE_SIZE);
        assert_eq!(last as usize, id);
        assert_eq!(
            pager.page_flags(id),
            Some(FlagSet {
                uptodate: false,
                locked: false,
                error: false,
                dirty: true,
                loaded: true
            })
        );
        assert_eq!(pager.page_image(id), Some(vec![0; 512]));
        assert!(pager.is_dirty_page(id));
    }
    assert!(pager.is_dirty_page(1));
    assert_eq!(pager.allocate_overflow_page(), Ok(IOResult::Done(7)));
    assert_eq!(pager.page_image(7), Some(vec![0; 512]));
}

#[test]
fn allocation_under_full_autovacuum_creates_ptrmap_pages() {
    let mut pager = new_pager(512, 300);
    pager.set_auto_vacuum_mode(AutoVacuumMode::Full);
    assert_eq!(pager.get_auto_vacuum_mode(), AutoVacuumMode::Full);
    // page 2 is a pointer-map page: the first data page is page 3
    assert_eq!(grow(&mut pager), 3);
    assert_eq!(field(&pager, HEADER_DATABASE_SIZE), 3);
    assert!(pager.is_dirty_page(2));
    assert_eq!(pager.page_image(2), Some(vec![0; 512]));
    for expected in 4..105usize {
        assert_eq!(grow(&mut pager), expected);
    }
    assert_eq!(grow(&mut pager), 106);
    assert!(pager.page(105).is_some());
    assert_eq!(field(&pager, HEADER_DATABASE_SIZE), 106);
}

#[test]
fn allocation_fails_when_the_database_cannot_grow() {
    let mut pager = new_pager(512, 10);
    pager.set_header_field(HEADER_DATABASE_SIZE, u32::MAX);
    assert_eq!(pager.allocate_page(), Err(PagerError::Corrupt(CorruptKind::DatabaseSize)));
    assert_eq!(field(&pager, HEADER_DATABASE_SIZE), u32::MAX);
    // a size of 0 makes page 1 the next page, which is cached already
    pager.set_header_field(HEADER_DATABASE_SIZE, 0);
    assert_eq!(
        pager.allocate_page(),
        Err(PagerError::InternalError(InternalKind::CacheInsert(CacheError::KeyExists)))
    );
}

#[test]
fn allocation_fails_without_room_in_the_cache() {
    let mut pager = new_pager(512, 2);
    assert_eq!(grow(&mut pager), 2);
    // page 1 and page 2 are dirty and cannot leave
    assert_eq!(pager.allocate_page(), Err(PagerError::CacheFull));
    assert_eq!(pager.read_page(9, None), Err(PagerError::CacheFull));
    assert_eq!(pager.cached_pages(), 2);
    assert!(pager.page(9).is_none());
    assert_eq!(pager.change_page_cache_size(3), Ok(CacheResizeResult::Done));
    assert_eq!(pager.read_page(9, None), Ok(ReadPage::FromFile));
}

#[test]
fn do_allocate_page_writes_a_btree_header() {
    let mut pager = new_pager(512, 10);
    assert_eq!(pager.write_page(1, 20, &[12]), Ok(()));
    assert_eq!(
        pager.do_allocate_page(PageType::IndexInterior, 8, BtreePageAllocMode::Any),
        Ok(IOResult::Done(2))
    );
    let page = pager.page(2).unwrap();
    assert_eq!(page.get_contents().offset, 8);
    assert!(page.is_index());
    // the cell content area starts at the end of the 500 usable bytes
    assert_eq!(
        &pager.page_image(2).unwrap()[8..20],
        &[2, 0, 0, 0, 0, 0x01, 0xf4, 0, 0, 0, 0, 0]
    );
    assert_eq!(
        pager.do_allocate_page(PageType::TableLeaf, 501, BtreePageAllocMode::Le(9)),
        Err(PagerError::InternalError(InternalKind::BufferTooSmall))
    );
    assert_eq!(field(&pager, HEADER_DATABASE_SIZE), 2);
    assert_eq!(
        pager.do_allocate_page(PageType::TableLeaf, 500, BtreePageAllocMode::Exact(3)),
        Ok(IOResult::Done(3))
    );
}

#[test]
fn btree_create_without_autovacuum() {
    let mut pager = new_pager(4096, 10);
    assert_eq!(pager.btree_create(&CreateBTreeFlags::new_table()), Ok(IOResult::Done(2)));
    assert_eq!(pager.btree_create(&CreateBTreeFlags::new_index()), Ok(IOResult::Done(3)));
    assert_eq!(pager.page_image(2).unwrap()[0], 13);
    assert_eq!(pager.page_image(3).unwrap()[0], 10);
    assert_eq!(field(&pager, HEADER_DATABASE_SIZE), 3);
}

#[test]
fn btree_create_refuses_incremental_autovacuum() {
    let mut pager = new_pager(4096, 10);
    pager.set_auto_vacuum_mode(AutoVacuumMode::Incremental);
    assert_eq!(
        pager.btree_create(&CreateBTreeFlags::new_table()),
        Err(PagerError::InternalError(InternalKind::IncrementalVacuum))
    );
    assert_eq!(field(&pager, HEADER_DATABASE_SIZE), 1);
}

#[test]
fn btree_create_needs_a_largest_root_page() {
    let mut pager = new_pager(4096, 10);
    pager.set_auto_vacuum_mode(AutoVacuumMode::Full);
    assert_eq!(
        pager.btree_create(&CreateBTreeFlags::new_table()),
        Err(PagerError::Corrupt(CorruptKind::RootPage))
    );
    pager.set_header_field(HEADER_LARGEST_ROOT_PAGE, u32::MAX - 1);
    assert_eq!(
        pager.btree_create(&CreateBTreeFlags::new_table()),
        Err(PagerError::Corrupt(CorruptKind::RootPage))
    );
    pager.set_header_field(HEADER_LARGEST_ROOT_PAGE, 1);
    pager.set_header_field(HEADER_DATABASE_SIZE, 0);
    assert_eq!(
        pager.btree_create(&CreateBTreeFlags::new_table()),
        Err(PagerError::Corrupt(CorruptKind::DatabaseSize))
    );
}

#[test]
fn btree_create_waits_for_the_ptrmap_page() {
    let mut pager = new_pager(512, 10);
    pager.set_header_field(HEADER_LARGEST_ROOT_PAGE, 1);
    pager.set_header_field(HEADER_DATABASE_SIZE, 3);
    pager.set_auto_vacuum_mode(AutoVacuumMode::Full);
    assert_eq!(
        pager.btree_create(&CreateBTreeFlags::new_table()),
        Ok(IOResult::IO(IoRequest::LoadPage { page_idx: 2 }))
    );
    // nothing has happened
    assert_eq!(field(&pager, HEADER_DATABASE_SIZE), 3);
    assert_eq!(pager.cached_pages(), 1);
    assert_eq!(pager.read_page(2, None), Ok(ReadPage::FromFile));
    assert_eq!(
        pager.btree_create(&CreateBTreeFlags::new_table()),
        Ok(IOResult::IO(IoRequest::WaitPage { page_idx: 2 }))
    );
    assert_eq!(pager.complete_read(2, vec![0; 512]), Ok(()));
    assert_eq!(pager.btree_create(&CreateBTreeFlags::new_table()), Ok(IOResult::Done(4)));
    assert_eq!(&pager.page_image(2).unwrap()[5..10], &[1, 0, 0, 0, 0]);
    assert!(pager.is_dirty_page(2));
}

#[test]
fn ptrmap_put_and_get() {
    let mut pager = new_pager(512, 10);
    load(&mut pager, 2, vec![0; 512]);
    assert_eq!(pager.ptrmap_put(5, PtrmapType::Overflow2, 0x0a0b0c0d), Ok(IOResult::Done(())));
    assert_eq!(&pager.page_image(2).unwrap()[10..15], &[4, 0x0a, 0x0b, 0x0c, 0x0d]);
    assert!(pager.is_dirty_page(2));
    assert!(pager.page(2).unwrap().is_dirty());
    assert_eq!(
        pager.ptrmap_get(5),
        Ok(IOResult::Done(Some(PtrmapEntry {
            entry_type: PtrmapType::Overflow2,
            parent_page_no: 0x0a0b0c0d
        })))
    );
    // an entry that was never written has no type
    assert_eq!(pager.ptrmap_get(6), Err(PagerError::Corrupt(CorruptKind::PtrmapEntryType)));
    // the last entry of the page
    assert_eq!(pager.ptrmap_put(104, PtrmapType::BTreeNode, 3), Ok(IOResult::Done(())));
    assert_eq!(&pager.page_image(2).unwrap()[505..510], &[5, 0, 0, 0, 3]);
    assert_eq!(
        pager.ptrmap_get(106),
        Ok(IOResult::IO(IoRequest::LoadPage { page_idx: 105 }))
    );
    assert_eq!(
        pager.ptrmap_put(106, PtrmapType::RootPage, 0),
        Ok(IOResult::IO(IoRequest::LoadPage { page_idx: 105 }))
    );
}

#[test]
fn ptrmap_put_refuses_header_and_ptrmap_pages() {
    let mut pager = new_pager(512, 10);
    load(&mut pager, 2, vec![0; 512]);
    for target in [0u32, 1, 2, 105, 208] {
        assert_eq!(
            pager.ptrmap_put(target, PtrmapType::RootPage, 0),
            Err(PagerError::InternalError(InternalKind::PtrmapTarget))
        );
    }
    assert!(!pager.is_dirty_page(2));
    assert_eq!(pager.page_image(2), Some(vec![0; 512]));
}

#[test]
fn ptrmap_page_must_be_whole() {
    let mut pager = new_pager(512, 10);
    load(&mut pager, 2, vec![1; 12]);
    assert_eq!(
        pager.ptrmap_get(3),
        Ok(IOResult::Done(Some(PtrmapEntry {
            entry_type: PtrmapType::RootPage,
            parent_page_no: 0x01010101
        })))
    );
    assert_eq!(pager.ptrmap_get(5), Err(PagerError::Corrupt(CorruptKind::PtrmapEntryOutOfBounds)));
    assert_eq!(
        pager.ptrmap_put(5, PtrmapType::RootPage, 0),
        Err(PagerError::Corrupt(CorruptKind::PtrmapEntryOutOfBounds))
    );
    assert_eq!(pager.ptrmap_put(4, PtrmapType::FreePage, 0), Ok(IOResult::Done(())));
    assert_eq!(pager.page_image(2), Some(vec![1, 1, 1, 1, 1, 2, 0, 0, 0, 0, 1, 1]));
}

#[test]
fn ptrmap_page_with_a_content_offset_is_corrupt() {
    let mut pager = new_pager(512, 10);
    let mut page = allocate_page(2, 512, 7);
    page.set_dirty();
    assert_eq!(pager.update_dirty_loaded_page_in_cache(2, page), Ok(()));
    assert_eq!(pager.ptrmap_get(3), Err(PagerError::Corrupt(CorruptKind::PtrmapPageOffset)));
}

#[test]
fn update_dirty_loaded_page_in_cache_takes_the_page() {
    let mut pager = new_pager(512, 3);
    load(&mut pager, 4, vec![1; 512]);
    let mut page = Page::new(4);
    page.inner.contents = Some(pager::PageContent::new(0, vec![2; 512]));
    page.set_dirty();
    assert_eq!(pager.update_dirty_loaded_page_in_cache(4, page), Ok(()));
    assert_eq!(pager.page_image(4), Some(vec![2; 512]));
    assert!(pager.page(4).unwrap().is_loaded());
    assert!(pager.page(4).unwrap().is_dirty());
    assert_eq!(pager.cached_pages(), 2);
    // a page without bytes cannot be loaded
    let mut empty = Page::new(5);
    empty.set_dirty();
    assert_eq!(
        pager.update_dirty_loaded_page_in_cache(5, empty),
        Err(PagerError::InternalError(InternalKind::PageState))
    );
    let mut other = allocate_page(6, 512, 0);
    other.set_dirty();
    assert_eq!(
        pager.update_dirty_loaded_page_in_cache(5, other),
        Err(PagerError::InternalError(InternalKind::PageState))
    );
    let mut fits = allocate_page(6, 512, 0);
    fits.set_dirty();
    assert_eq!(pager.update_dirty_loaded_page_in_cache(6, fits), Ok(()));
    assert!(pager.pin_page(1));
    let mut late = allocate_page(7, 512, 0);
    late.set_dirty();
    assert_eq!(
        pager.update_dirty_loaded_page_in_cache(7, late),
        Err(PagerError::InternalError(InternalKind::CacheInsert(CacheError::Full)))
    );
    assert_eq!(pager.cached_pages(), 3);
}

#[test]
fn add_dirty_marks_loaded_pages() {
    let mut pager = new_pager(512, 10);
    assert_eq!(pager.add_dirty(1), Ok(()));
    assert!(pager.is_dirty_page(1));
    assert!(pager.page(1).unwrap().is_dirty());
    assert_eq!(pager.add_dirty(9), Err(PagerError::InternalError(InternalKind::PageState)));
    assert!(!pager.is_dirty_page(9));
    assert_eq!(pager.read_page(9, None), Ok(ReadPage::FromFile));
    assert_eq!(pager.add_dirty(9), Err(PagerError::InternalError(InternalKind::PageState)));
    assert!(!pager.is_dirty_page(9));
    assert!(!pager.has_no_dirty_pages());
}

#[test]
fn write_page_needs_a_loaded_page_and_room() {
    let mut pager = new_pager(512, 10);
    assert_eq!(pager.write_page(1, 510, &[1, 2]), Ok(()));
    assert_eq!(
        pager.write_page(1, 511, &[1, 2]),
        Err(PagerError::InternalError(InternalKind::BufferTooSmall))
    );
    assert_eq!(
        pager.write_page(1, 600, &[]),
        Err(PagerError::InternalError(InternalKind::BufferTooSmall))
    );
    assert_eq!(
        pager.write_page(2, 0, &[1]),
        Err(PagerError::InternalError(InternalKind::PageState))
    );
    assert_eq!(&pager.page_image(1).unwrap()[509..512], &[0, 1, 2]);
}

#[test]
fn every_page_of_the_dirty_set_is_cached_loaded_and_dirty() {
    let mut pager = new_pager(512, 4);
    grow(&mut pager);
    grow(&mut pager);
    load(&mut pager, 9, vec![0; 512]);
    // page 9 is clean and leaves when room is needed; the dirty pages stay
    load(&mut pager, 10, vec![0; 512]);
    assert!(pager.page(9).is_none());
    for id in [1usize, 2, 3] {
        assert!(pager.is_dirty_page(id));
        let flags = pager.page_flags(id).unwrap();
        assert!(flags.dirty && flags.loaded);
    }
    assert!(!pager.is_dirty_page(10));
}

#[test]
fn pinned_pages_stay_in_the_cache() {
    let mut pager = new_pager(512, 2);
    load(&mut pager, 5, vec![0; 512]);
    assert!(pager.pin_page(5));
    assert!(pager.pin_page(5));
    assert!(!pager.pin_page(6));
    assert_eq!(pager.page(5).unwrap().get().pin_count, 2);
    // page 1 has to leave for page 6, page 5 stays
    load(&mut pager, 6, vec![0; 512]);
    assert!(pager.page(1).is_none());
    assert!(pager.page(5).is_some());
    assert_eq!(
        pager.clear_page_cache(),
        Err(PagerError::InternalError(InternalKind::CacheClear(CacheError::Pinned)))
    );
    assert_eq!(pager.cached_pages(), 2);
    assert!(pager.unpin_page(5));
    assert!(pager.unpin_page(5));
    assert!(!pager.unpin_page(5));
    assert!(!pager.unpin_page(77));
    assert_eq!(pager.clear_page_cache(), Ok(()));
    assert_eq!(pager.cached_pages(), 0);
}

#[test]
fn cache_size_can_change() {
    let mut pager = new_pager(512, 10);
    for id in 2..6usize {
        load(&mut pager, id, vec![0; 512]);
    }
    pager.set_header_field(HEADER_DATABASE_SIZE, 5);
    assert_eq!(grow(&mut pager), 6);
    assert_eq!(
        pager.change_page_cache_size(0),
        Err(PagerError::InternalError(InternalKind::CacheCapacity))
    );
    assert_eq!(pager.cached_pages(), 6);
    assert_eq!(pager.change_page_cache_size(3), Ok(CacheResizeResult::Done));
    // page 1 is dirty and stays; of the others those used last stay
    assert!(pager.page(1).is_some());
    assert!(pager.page(5).is_some());
    assert!(pager.page(2).is_some() == false);
    assert_eq!(pager.cached_pages(), 3);
    assert_eq!(pager.change_page_cache_size(1), Ok(CacheResizeResult::PendingEvictions));
    assert_eq!(pager.cached_pages(), 2);
}

#[test]
fn commit_with_checkpoint() {
    let mut pager = new_pager(512, 10);
    grow(&mut pager);
    let (frames, result, requests) = run_commit(&mut pager, false, true);
    assert_eq!(
        result,
        PagerCommitResult::Checkpointed(CheckpointResult {
            num_wal_frames: 5,
            num_checkpointed_frames: 4
        })
    );
    assert_eq!(frames.len(), 2);
    let tail: Vec<IoRequest> = requests[1..].to_vec();
    assert_eq!(
        tail,
        vec![
            IoRequest::AppendFrame { page_id: frames[1].0, db_size: 2 },
            IoRequest::SyncWal,
            IoRequest::Checkpoint,
            IoRequest::SyncDbFile,
            IoRequest::WaitDbSync,
            IoRequest::WaitWrites,
            IoRequest::SyncDbFile,
            IoRequest::WaitDbSync,
            IoRequest::FinishCommit,
        ]
    );
    assert_eq!(pager.commit_state(), CommitState::Start);
    assert_eq!(pager.checkpoint_state(), CheckpointState::Checkpoint);
}

#[test]
fn commit_without_checkpoint_when_disabled() {
    let mut pager = new_pager(512, 10);
    grow(&mut pager);
    let (_, result, requests) = run_commit(&mut pager, true, true);
    assert_eq!(result, PagerCommitResult::WalWritten);
    assert!(!requests.contains(&IoRequest::Checkpoint));
}

#[test]
fn commit_of_nothing_is_done_at_once() {
    let mut pager = new_pager(512, 10);
    assert_eq!(
        pager.commit_dirty_pages(false, IoEvent::Idle),
        Ok(IOResult::Done(PagerCommitResult::WalWritten))
    );
    assert_eq!(pager.cached_pages(), 1);
    assert_eq!(pager.cacheflush(IoEvent::Idle), Ok(IOResult::Done(())));
    assert_eq!(
        pager.end_tx(false, false, IoEvent::Idle),
        Ok(IOResult::Done(PagerCommitResult::WalWritten))
    );
}

#[test]
fn commit_step_by_step() {
    let mut pager = new_pager(512, 10);
    assert_eq!(pager.add_dirty(1), Ok(()));
    assert_eq!(
        pager.commit_dirty_pages(false, IoEvent::Idle),
        Ok(IOResult::IO(IoRequest::AppendFrame { page_id: 1, db_size: 1 }))
    );
    assert_eq!(
        pager.commit_state(),
        CommitState::WaitAppendFrame { current_page_to_append_idx: 0 }
    );
    assert_eq!(
        pager.commit_dirty_pages(false, IoEvent::Idle),
        Ok(IOResult::IO(IoRequest::WaitWrites))
    );
    assert_eq!(
        pager.commit_dirty_pages(false, IoEvent::InFlight(2)),
        Ok(IOResult::IO(IoRequest::WaitWrites))
    );
    assert!(pager.page(1).unwrap().is_dirty());
    assert_eq!(
        pager.commit_dirty_pages(false, IoEvent::InFlight(0)),
        Ok(IOResult::IO(IoRequest::SyncWal))
    );
    // the last frame is acknowledged: the cache and the dirty set are empty
    assert_eq!(pager.cached_pages(), 0);
    assert!(pager.has_no_dirty_pages());
    assert_eq!(pager.commit_state(), CommitState::SyncWal);
    assert_eq!(
        pager.commit_dirty_pages(false, IoEvent::WalSyncPending),
        Ok(IOResult::IO(IoRequest::SyncWal))
    );
    assert_eq!(
        pager.commit_dirty_pages(false, IoEvent::WalSynced { should_checkpoint: false }),
        Ok(IOResult::IO(IoRequest::FinishCommit))
    );
    assert_eq!(pager.commit_state(), CommitState::Finish { checkpointed: false });
    assert_eq!(
        pager.commit_dirty_pages(false, IoEvent::Idle),
        Ok(IOResult::IO(IoRequest::FinishCommit))
    );
    assert_eq!(
        pager.end_tx(false, false, IoEvent::CommitSignalled),
        Ok(IOResult::Done(PagerCommitResult::WalWritten))
    );
    assert_eq!(pager.commit_state(), CommitState::Start);
}

#[test]
fn commit_fails_while_a_page_is_pinned() {
    let mut pager = new_pager(512, 10);
    assert_eq!(pager.add_dirty(1), Ok(()));
    load(&mut pager, 2, vec![0; 512]);
    assert!(pager.pin_page(2));
    assert_eq!(
        pager.commit_dirty_pages(false, IoEvent::Idle),
        Ok(IOResult::IO(IoRequest::AppendFrame { page_id: 1, db_size: 1 }))
    );
    assert_eq!(
        pager.commit_dirty_pages(false, IoEvent::InFlight(0)),
        Err(PagerError::InternalError(InternalKind::CacheClear(CacheError::Pinned)))
    );
    // nothing has changed
    assert!(pager.page(1).unwrap().is_dirty());
    assert!(pager.is_dirty_page(1));
    assert_eq!(
        pager.commit_state(),
        CommitState::WaitAppendFrame { current_page_to_append_idx: 0 }
    );
    assert!(pager.unpin_page(2));
    assert_eq!(
        pager.commit_dirty_pages(false, IoEvent::InFlight(0)),
        Ok(IOResult::IO(IoRequest::SyncWal))
    );
}

#[test]
fn commit_needs_its_pages_cached() {
    let mut pager = new_pager(512, 10);
    grow(&mut pager);
    assert!(matches!(
        pager.commit_dirty_pages(false, IoEvent::Idle),
        Ok(IOResult::IO(IoRequest::AppendFrame { .. }))
    ));
    // the cache is invalidated in the middle of the commit
    assert_eq!(pager.clear_page_cache(), Ok(()));
    assert_eq!(
        pager.commit_dirty_pages(false, IoEvent::InFlight(0)),
        Err(PagerError::InternalError(InternalKind::PageState))
    );
}

#[test]
fn end_tx_with_rollback_changes_nothing() {
    let mut pager = new_pager(512, 10);
    grow(&mut pager);
    assert_eq!(
        pager.end_tx(true, false, IoEvent::Idle),
        Ok(IOResult::Done(PagerCommitResult::Rollback))
    );
    assert!(pager.is_dirty_page(2));
    assert_eq!(pager.cached_pages(), 2);
    assert_eq!(pager.commit_state(), CommitState::Start);
}

#[test]
fn cacheflush_keeps_the_cache() {
    let mut pager = new_pager(512, 10);
    grow(&mut pager);
    grow(&mut pager);
    let mut frames = Vec::new();
    let mut event = IoEvent::Idle;
    loop {
        match pager.cacheflush(event).unwrap() {
            IOResult::Done(()) => break,
            IOResult::IO(IoRequest::AppendFrame { page_id, db_size }) => {
                assert!(matches!(pager.flush_state(), CacheFlushState::WaitAppendFrame { .. }));
                frames.push((page_id, db_size));
                assert_eq!(
                    pager.cacheflush(IoEvent::InFlight(3)),
                    Ok(IOResult::IO(IoRequest::WaitWrites))
                );
                event = IoEvent::InFlight(0);
            }
            IOResult::IO(other) => panic!("unexpected request {other:?}"),
        }
    }
    let mut pages: Vec<usize> = frames.iter().map(|f| f.0).collect();
    pages.sort();
    assert_eq!(pages, vec![1, 2, 3]);
    // no frame of a flush commits
    assert!(frames.iter().all(|f| f.1 == 0));
    assert_eq!(pager.cached_pages(), 3);
    assert!(pager.has_no_dirty_pages());
    for id in [1usize, 2, 3] {
        assert!(!pager.page(id).unwrap().is_dirty());
        assert!(pager.page(id).unwrap().is_loaded());
    }
    assert_eq!(pager.flush_state(), CacheFlushState::Start);
}

#[test]
fn checkpoint_step_by_step() {
    let mut pager = new_pager(512, 10);
    let result = CheckpointResult { num_wal_frames: 9, num_checkpointed_frames: 7 };
    assert_eq!(pager.checkpoint(IoEvent::Idle), IOResult::IO(IoRequest::Checkpoint));
    assert_eq!(pager.checkpoint(IoEvent::CheckpointPending), IOResult::IO(IoRequest::Checkpoint));
    assert_eq!(pager.checkpoint_state(), CheckpointState::Checkpoint);
    assert_eq!(pager.checkpoint(IoEvent::Checkpointed(result)), IOResult::IO(IoRequest::SyncDbFile));
    assert_eq!(pager.checkpoint_state(), CheckpointState::WaitSyncDbFile);
    assert_eq!(
        pager.checkpoint(IoEvent::DbSync { syncing: true }),
        IOResult::IO(IoRequest::WaitDbSync)
    );
    assert_eq!(
        pager.checkpoint(IoEvent::DbSync { syncing: false }),
        IOResult::IO(IoRequest::WaitWrites)
    );
    assert_eq!(pager.checkpoint_state(), CheckpointState::CheckpointDone);
    assert_eq!(pager.checkpoint(IoEvent::InFlight(1)), IOResult::IO(IoRequest::WaitWrites));
    assert_eq!(pager.checkpoint(IoEvent::InFlight(0)), IOResult::Done(result));
    assert_eq!(pager.checkpoint_state(), CheckpointState::Checkpoint);
    // the cache is untouched
    assert_eq!(pager.cached_pages(), 1);
}

#[test]
fn wal_checkpoint_empties_the_cache() {
    let mut pager = new_pager(512, 10);
    let result = CheckpointResult { num_wal_frames: 3, num_checkpointed_frames: 3 };
    assert_eq!(
        pager.wal_checkpoint(true, IoEvent::Idle),
        Ok(IOResult::Done(CheckpointResult { num_wal_frames: 0, num_checkpointed_frames: 0 }))
    );
    assert_eq!(pager.wal_checkpoint(false, IoEvent::Idle), Ok(IOResult::IO(IoRequest::Checkpoint)));
    assert_eq!(
        pager.wal_checkpoint(false, IoEvent::CheckpointPending),
        Ok(IOResult::IO(IoRequest::Checkpoint))
    );
    assert_eq!(pager.cached_pages(), 1);
    assert_eq!(
        pager.wal_checkpoint(false, IoEvent::Checkpointed(result)),
        Ok(IOResult::Done(result))
    );
    assert_eq!(pager.cached_pages(), 0);
    // a dirty page keeps the cache from being emptied
    let mut pager = new_pager(512, 10);
    grow(&mut pager);
    assert_eq!(
        pager.wal_checkpoint(false, IoEvent::Checkpointed(result)),
        Err(PagerError::InternalError(InternalKind::CacheClear(CacheError::Dirty)))
    );
    assert_eq!(pager.cached_pages(), 2);
}

#[test]
fn checkpoint_at_shutdown_syncs_the_log_first() {
    let mut pager = new_pager(512, 10);
    let result = CheckpointResult { num_wal_frames: 3, num_checkpointed_frames: 3 };
    assert_eq!(pager.checkpoint_shutdown(false, IoEvent::Idle), Ok(IOResult::IO(IoRequest::SyncWal)));
    assert_eq!(
        pager.checkpoint_shutdown(false, IoEvent::WalSyncPending),
        Ok(IOResult::IO(IoRequest::SyncWal))
    );
    assert_eq!(
        pager.checkpoint_shutdown(false, IoEvent::WalSynced { should_checkpoint: false }),
        Ok(IOResult::IO(IoRequest::Checkpoint))
    );
    assert_eq!(
        pager.checkpoint_shutdown(false, IoEvent::CheckpointPending),
        Ok(IOResult::IO(IoRequest::Checkpoint))
    );
    assert_eq!(
        pager.checkpoint_shutdown(false, IoEvent::Checkpointed(result)),
        Ok(IOResult::Done(()))
    );
    assert_eq!(pager.cached_pages(), 0);
    let mut pager = new_pager(512, 10);
    assert_eq!(
        pager.checkpoint_shutdown(true, IoEvent::WalSynced { should_checkpoint: true }),
        Ok(IOResult::Done(()))
    );
    assert_eq!(pager.cached_pages(), 1);
}

fn frame(page_number: u32, db_size: u32, fill: u8, len: usize) -> Vec<u8> {
    let mut frame = vec![0u8; 24];
    frame[0..4].copy_from_slice(&page_number.to_be_bytes());
    frame[4..8].copy_from_slice(&db_size.to_be_bytes());
    frame.extend(vec![fill; len]);
    frame
}

#[test]
fn inserted_frame_reaches_the_cached_page() {
    let mut pager = new_pager(512, 10);
    load(&mut pager, 3, vec![0; 512]);
    let header = pager.wal_insert_frame(&frame(3, 0, 7, 512)).unwrap();
    assert_eq!(header.page_number, 3);
    assert_eq!(header.db_size, 0);
    assert_eq!(pager.page_image(3), Some(vec![7; 512]));
    assert!(pager.page(3).unwrap().is_dirty());
    assert!(pager.is_dirty_page(3));
    // a frame for a page that is not cached changes nothing
    assert!(pager.wal_insert_frame(&frame(4, 0, 8, 512)).is_ok());
    assert!(pager.page(4).is_none());
    assert!(pager.is_dirty_page(3));
    // the frame that commits cleans every page of the dirty set
    let header = pager.wal_insert_frame(&frame(4, 9, 8, 512)).unwrap();
    assert!(header.is_commit_frame());
    assert!(pager.has_no_dirty_pages());
    assert!(!pager.page(3).unwrap().is_dirty());
    assert_eq!(pager.page_image(3), Some(vec![7; 512]));
    assert_eq!(pager.cached_pages(), 2);
}

#[test]
fn inserted_frame_must_fit() {
    let mut pager = new_pager(512, 10);
    assert_eq!(
        pager.wal_insert_frame(&[0u8; 23]),
        Err(PagerError::Corrupt(CorruptKind::Frame))
    );
    assert_eq!(
        pager.wal_insert_frame(&frame(1, 0, 7, 100)),
        Err(PagerError::Corrupt(CorruptKind::Frame))
    );
    assert_eq!(pager.read_page(3, None), Ok(ReadPage::FromFile));
    assert_eq!(
        pager.wal_insert_frame(&frame(3, 0, 7, 512)),
        Err(PagerError::InternalError(InternalKind::PageState))
    );
    assert!(!pager.is_dirty_page(1));
    assert!(pager.has_no_dirty_pages());
}

#[test]
fn begin_read_tx_invalidates_a_stale_cache() {
    let mut pager = new_pager(512, 10);
    grow(&mut pager);
    assert_eq!(pager.begin_read_tx(LimboResult::Granted, false), Ok(LimboResult::Granted));
    assert_eq!(pager.cached_pages(), 2);
    assert_eq!(pager.begin_read_tx(LimboResult::Busy, false), Ok(LimboResult::Busy));
    assert_eq!(pager.begin_read_tx(LimboResult::Granted, true), Ok(LimboResult::Granted));
    assert_eq!(pager.cached_pages(), 0);
    assert!(pager.has_no_dirty_pages());
    load(&mut pager, 2, vec![0; 512]);
    pager.pin_page(2);
    assert_eq!(
        pager.begin_read_tx(LimboResult::Granted, true),
        Err(PagerError::InternalError(InternalKind::CacheClear(CacheError::Pinned)))
    );
}

#[test]
fn rollback_discards_what_was_changed() {
    let mut pager = new_pager(512, 10);
    pager.set_header_field(HEADER_DATABASE_SIZE, 4);
    let (_, _, _) = run_commit(&mut pager, false, false);
    let on_disk_3 = vec![3u8; 512];
    let on_disk_4 = vec![4u8; 512];
    load(&mut pager, 1, {
        let mut image = vec![0u8; 512];
        pager::header::write_default_header(&mut image, 512);
        image
    });
    load(&mut pager, 3, on_disk_3.clone());
    load(&mut pager, 4, on_disk_4.clone());
    assert_eq!(pager.write_page(3, 0, &[9, 9, 9]), Ok(()));
    assert_eq!(pager.write_page(4, 10, &[8]), Ok(()));
    assert!(pager.is_dirty_page(3) && pager.is_dirty_page(4));
    // a commit and a free are under way when the transaction is abandoned
    assert!(matches!(
        pager.commit_dirty_pages(false, IoEvent::Idle),
        Ok(IOResult::IO(IoRequest::AppendFrame { .. }))
    ));
    assert_eq!(pager.checkpoint(IoEvent::Idle), IOResult::IO(IoRequest::Checkpoint));
    assert_eq!(pager.rollback(), Ok(()));
    assert_eq!(pager.cached_pages(), 0);
    assert!(pager.has_no_dirty_pages());
    assert_eq!(pager.commit_state(), CommitState::Start);
    assert_eq!(pager.flush_state(), CacheFlushState::Start);
    assert_eq!(pager.checkpoint_state(), CheckpointState::Checkpoint);
    assert_eq!(pager.free_page_state(), FreePageState::Start);
    // the page comes from the file again, as it was before
    assert_eq!(pager.read_page(3, None), Ok(ReadPage::FromFile));
    assert_eq!(pager.complete_read(3, on_disk_3.clone()), Ok(()));
    assert_eq!(pager.page_image(3), Some(on_disk_3));
    assert!(!pager.page(3).unwrap().is_dirty());
}

#[test]
fn rollback_fails_while_a_page_is_pinned() {
    let mut pager = new_pager(512, 10);
    grow(&mut pager);
    assert!(pager.pin_page(2));
    assert_eq!(
        pager.rollback(),
        Err(PagerError::InternalError(InternalKind::CacheClear(CacheError::Pinned)))
    );
    // the dirty set is empty and no page is dirty, but the pages stay
    assert!(pager.has_no_dirty_pages());
    assert_eq!(pager.cached_pages(), 2);
    assert!(!pager.page(1).unwrap().is_dirty());
    assert!(!pager.page(2).unwrap().is_dirty());
    assert!(pager.unpin_page(2));
    assert_eq!(pager.rollback(), Ok(()));
    assert_eq!(pager.cached_pages(), 0);
}

#[test]
fn free_page_fills_the_trunk_and_starts_a_new_one() {
    let mut pager = new_pager(512, 20);
    for _ in 0..5 {
        grow(&mut pager);
    }
    assert_eq!(field(&pager, HEADER_DATABASE_SIZE), 6);
    // page 3 is the first trunk page and holds 125 leaves
    pager.set_header_field(HEADER_FREELIST_TRUNK_PAGE, 3);
    assert_eq!(pager.write_page(3, 4, &125u32.to_be_bytes()), Ok(()));
    assert_eq!(pager.page(4).unwrap().is_uptodate(), false);

    assert_eq!(pager.free_page(4), Ok(IOResult::Done(())));
    let trunk = pager.page_image(3).unwrap();
    assert_eq!(&trunk[4..8], &126u32.to_be_bytes());
    assert_eq!(&trunk[8 + 125 * 4..8 + 126 * 4], &4u32.to_be_bytes());
    assert_eq!(field(&pager, HEADER_FREELIST_TRUNK_PAGE), 3);
    assert_eq!(field(&pager, HEADER_FREELIST_PAGES), 1);
    assert_eq!(pager.free_page_state(), FreePageState::Start);

    // the trunk is full: the next page becomes the first trunk page
    assert_eq!(pager.free_page(5), Ok(IOResult::Done(())));
    assert_eq!(pager.page_image(3).unwrap(), trunk);
    let new_trunk = pager.page_image(5).unwrap();
    assert_eq!(&new_trunk[0..4], &3u32.to_be_bytes());
    assert_eq!(&new_trunk[4..8], &0u32.to_be_bytes());
    assert_eq!(field(&pager, HEADER_FREELIST_TRUNK_PAGE), 5);
    assert_eq!(field(&pager, HEADER_FREELIST_PAGES), 2);
    assert!(pager.is_dirty_page(5));
    assert!(!pager.page(5).unwrap().is_uptodate());
    assert_eq!(pager.free_page_state(), FreePageState::Start);

    // the new trunk takes the next page as its first leaf
    assert_eq!(pager.free_page(6), Ok(IOResult::Done(())));
    let new_trunk = pager.page_image(5).unwrap();
    assert_eq!(&new_trunk[4..12], &[0, 0, 0, 1, 0, 0, 0, 6]);
    assert_eq!(field(&pager, HEADER_FREELIST_PAGES), 3);
}

#[test]
fn free_page_without_a_trunk_makes_one() {
    let mut pager = new_pager(512, 20);
    pager.set_header_field(HEADER_DATABASE_SIZE, 2);
    load(&mut pager, 2, vec![0xffu8; 512]);
    assert_eq!(pager.read_page(2, None), Ok(ReadPage::Cached));
    assert_eq!(pager.free_page(2), Ok(IOResult::Done(())));
    assert_eq!(field(&pager, HEADER_FREELIST_TRUNK_PAGE), 2);
    assert_eq!(field(&pager, HEADER_FREELIST_PAGES), 1);
    assert_eq!(&pager.page_image(2).unwrap()[0..9], &[0, 0, 0, 0, 0, 0, 0, 0, 0xff]);
}

#[test]
fn free_page_outside_the_database_is_corrupt() {
    let mut pager = new_pager(512, 20);
    grow(&mut pager);
    grow(&mut pager);
    assert_eq!(pager.free_page(1), Err(PagerError::Corrupt(CorruptKind::InvalidFreePage)));
    assert_eq!(pager.free_page(0), Err(PagerError::Corrupt(CorruptKind::InvalidFreePage)));
    assert_eq!(pager.free_page(4), Err(PagerError::Corrupt(CorruptKind::InvalidFreePage)));
    assert_eq!(field(&pager, HEADER_FREELIST_PAGES), 0);
    assert_eq!(pager.free_page_state(), FreePageState::Start);
    assert_eq!(pager.free_page(3), Ok(IOResult::Done(())));
}

#[test]
fn free_page_waits_for_its_pages() {
    let mut pager = new_pager(512, 20);
    pager.set_header_field(HEADER_DATABASE_SIZE, 9);
    pager.set_header_field(HEADER_FREELIST_TRUNK_PAGE, 7);
    assert_eq!(pager.free_page(4), Ok(IOResult::IO(IoRequest::LoadPage { page_idx: 4 })));
    assert_eq!(field(&pager, HEADER_FREELIST_PAGES), 0);
    assert_eq!(pager.read_page(4, None), Ok(ReadPage::FromFile));
    // the page need not be loaded to become a leaf, but the trunk must be
    assert_eq!(pager.free_page(4), Ok(IOResult::IO(IoRequest::LoadPage { page_idx: 7 })));
    assert_eq!(pager.free_page_state(), FreePageState::AddToTrunk { page_id: 4 });
    assert_eq!(field(&pager, HEADER_FREELIST_PAGES), 1);
    assert_eq!(
        pager.free_page(5),
        Err(PagerError::InternalError(InternalKind::PageState))
    );
    assert_eq!(pager.read_page(7, None), Ok(ReadPage::FromFile));
    assert_eq!(pager.free_page(4), Ok(IOResult::IO(IoRequest::WaitPage { page_idx: 7 })));
    let mut trunk = vec![0u8; 512];
    trunk[4..8].copy_from_slice(&126u32.to_be_bytes());
    assert_eq!(pager.complete_read(7, trunk), Ok(()));
    // the trunk is full and the page not loaded: it has to be read first
    assert_eq!(pager.free_page(4), Ok(IOResult::IO(IoRequest::WaitPage { page_idx: 4 })));
    assert_eq!(pager.free_page_state(), FreePageState::NewTrunk { page_id: 4 });
    assert_eq!(pager.complete_read(4, vec![0xee; 512]), Ok(()));
    assert_eq!(pager.free_page(4), Ok(IOResult::Done(())));
    assert_eq!(field(&pager, HEADER_FREELIST_PAGES), 1);
    assert_eq!(field(&pager, HEADER_FREELIST_TRUNK_PAGE), 4);
    assert_eq!(&pager.page_image(4).unwrap()[0..9], &[0, 0, 0, 7, 0, 0, 0, 0, 0xee]);
}

#[test]
fn free_page_checks_the_trunk_and_the_count() {
    let mut pager = new_pager(512, 20);
    grow(&mut pager);
    pager.set_header_field(HEADER_FREELIST_PAGES, u32::MAX);
    assert_eq!(pager.free_page(2), Err(PagerError::Corrupt(CorruptKind::FreelistCount)));
    pager.set_header_field(HEADER_FREELIST_PAGES, 0);
    pager.set_header_field(HEADER_FREELIST_TRUNK_PAGE, 9);
    load(&mut pager, 9, vec![0; 4]);
    assert_eq!(pager.free_page(2), Err(PagerError::Corrupt(CorruptKind::TrunkSlot)));
    assert_eq!(pager.free_page_state(), FreePageState::AddToTrunk { page_id: 2 });
}

#[test]
fn free_page_drops_overflow_cells() {
    let mut pager = new_pager(512, 20);
    let mut page = allocate_page(2, 512, 0);
    page.inner.contents.as_mut().unwrap().overflow_cells.push(pager::page::OverflowCell {
        index: 1,
        payload: vec![1, 2],
    });
    page.set_dirty();
    assert_eq!(pager.update_dirty_loaded_page_in_cache(2, page), Ok(()));
    pager.set_header_field(HEADER_DATABASE_SIZE, 2);
    assert_eq!(pager.page(2).unwrap().get_contents().overflow_cells.len(), 1);
    assert_eq!(pager.free_page(2), Ok(IOResult::Done(())));
    assert!(pager.page(2).unwrap().get_contents().overflow_cells.is_empty());
}
