use pager::header::{HEADER_DATABASE_SIZE, HEADER_LARGEST_ROOT_PAGE};
use pager::{
    allocate_page, AtomicDbState, AutoVacuumMode, BtreePageAllocMode, CacheError,
    CacheResizeResult, CheckpointResult, CorruptKind, CreateBTreeFlags, DbState, IOResult,
    InternalKind, IoEvent, IoRequest, LimboResult, PageCache, PageType, Pager,
    PagerCommitResult, PagerError, PtrmapEntry, PtrmapType, ReadPage, SharedPager,
};

fn new_shared(page_size: u32, capacity: usize) -> SharedPager {
    let pager = Pager::new(PageCache::new(capacity), AtomicDbState::new(DbState::Uninitialized))
        .unwrap();
    let shared = SharedPager::new(pager);
    assert!(shared.set_initial_page_size(page_size));
    assert_eq!(
        shared.maybe_allocate_page1(true, IoEvent::Idle),
        Ok(IOResult::IO(IoRequest::WritePage1))
    );
    assert_eq!(shared.page1_bytes().unwrap().len(), page_size as usize);
    assert_eq!(shared.allocate_page1(IoEvent::InFlight(0)), Ok(IOResult::Done(())));
    shared
}

#[test]
fn owners_share_one_pager() {
    let first = new_shared(512, 10);
    let second = first.share();
    // what one owner does, the other sees: the lock holds the pager itself
    assert_eq!(first.allocate_page(), Ok(IOResult::Done(2)));
    assert_eq!(second.get_header_field(HEADER_DATABASE_SIZE), IOResult::Done(2));
    assert_eq!(second.write_page(2, 0, &[5, 6]), Ok(()));
    assert_eq!(&first.page_image(2).unwrap()[0..3], &[5, 6, 0]);
    assert!(first.is_dirty_page(2));
    assert!(second.pin_page(2));
    assert_eq!(
        first.clear_page_cache(),
        Err(PagerError::InternalError(InternalKind::CacheClear(CacheError::Pinned)))
    );
    assert!(first.unpin_page(2));
    assert!(!first.unpin_page(2));
    assert_eq!(second.clear_page_cache(), Ok(()));
    assert!(first.page_image(2).is_none());
    assert_eq!(first.db_state(), DbState::Initialized);
}

#[test]
fn shared_pager_keeps_its_state_between_calls() {
    let shared = new_shared(512, 10);
    // the first page exists: nothing is left to do
    assert_eq!(shared.allocate_page1(IoEvent::Idle), Ok(IOResult::Done(())));
    assert!(!shared.set_initial_page_size(1024));
    assert_eq!(shared.get_page_size(), Ok(IOResult::Done(512)));
    assert_eq!(shared.usable_space(), Ok(IOResult::Done(512)));
    assert_eq!(shared.usable_size(), Ok(IOResult::Done(512)));
    assert_eq!(shared.begin_write_tx(true, IoEvent::Idle), Ok(IOResult::Done(())));
    assert_eq!(shared.read_page(7, Some(3)), Ok(ReadPage::FromWal { frame_id: 3 }));
    assert_eq!(shared.read_page(7, None), Ok(ReadPage::Cached));
    assert_eq!(shared.page_flags(7).unwrap().locked, true);
    assert_eq!(shared.complete_read(7, vec![1; 512]), Ok(()));
    assert_eq!(
        shared.complete_read(7, vec![1; 512]),
        Err(PagerError::InternalError(InternalKind::PageState))
    );
    assert_eq!(shared.add_dirty(7), Ok(()));
    assert_eq!(shared.add_dirty(8), Err(PagerError::InternalError(InternalKind::PageState)));
    assert_eq!(shared.page_flags(7).unwrap().dirty, true);
    assert_eq!(
        shared.change_page_cache_size(0),
        Err(PagerError::InternalError(InternalKind::CacheCapacity))
    );
    assert_eq!(shared.change_page_cache_size(5), Ok(CacheResizeResult::Done));
    assert_eq!(shared.set_header_field(HEADER_DATABASE_SIZE, 7), IOResult::Done(()));
    assert_eq!(shared.free_page(8), Err(PagerError::Corrupt(CorruptKind::InvalidFreePage)));
    assert_eq!(shared.free_page(7), Ok(IOResult::Done(())));
    assert_eq!(&shared.page_image(7).unwrap()[0..9], &[0, 0, 0, 0, 0, 0, 0, 0, 1]);
}

#[test]
fn shared_pager_commits_and_rolls_back() {
    let shared = new_shared(512, 10);
    assert_eq!(shared.allocate_page(), Ok(IOResult::Done(2)));
    let mut frames = Vec::new();
    let mut event = IoEvent::Idle;
    let result = loop {
        match shared.end_tx(false, false, event).unwrap() {
            IOResult::Done(result) => break result,
            IOResult::IO(IoRequest::AppendFrame { page_id, db_size }) => {
                frames.push((page_id, db_size, shared.page_image(page_id).unwrap().len()));
                event = IoEvent::InFlight(0);
            }
            IOResult::IO(IoRequest::SyncWal) => {
                event = IoEvent::WalSynced { should_checkpoint: false };
            }
            IOResult::IO(IoRequest::FinishCommit) => event = IoEvent::CommitSignalled,
            IOResult::IO(other) => panic!("unexpected request {other:?}"),
        }
    };
    assert_eq!(result, PagerCommitResult::WalWritten);
    assert_eq!(frames.len(), 2);
    assert_eq!(frames[0].1, 0);
    assert_eq!(frames[1].1, 2);
    assert_eq!(frames[1].2, 512);
    assert!(shared.page_image(1).is_none());
    assert_eq!(
        shared.end_tx(true, false, IoEvent::Idle),
        Ok(IOResult::Done(PagerCommitResult::Rollback))
    );
    assert_eq!(
        shared.commit_dirty_pages(false, IoEvent::Idle),
        Ok(IOResult::Done(PagerCommitResult::WalWritten))
    );
    assert_eq!(shared.cacheflush(IoEvent::Idle), Ok(IOResult::Done(())));
    assert_eq!(shared.read_page(3, None), Ok(ReadPage::FromFile));
    assert_eq!(
        shared.rollback(),
        Err(PagerError::InternalError(InternalKind::CacheClear(CacheError::Locked)))
    );
    assert_eq!(shared.complete_read(3, vec![0; 512]), Ok(()));
    assert_eq!(shared.rollback(), Ok(()));
    assert!(shared.page_image(3).is_none());
    assert_eq!(shared.begin_read_tx(LimboResult::Busy, true), Ok(LimboResult::Busy));
}

#[test]
fn shared_pager_checkpoints() {
    let shared = new_shared(512, 10);
    let result = CheckpointResult { num_wal_frames: 2, num_checkpointed_frames: 1 };
    assert_eq!(shared.checkpoint(IoEvent::Idle), IOResult::IO(IoRequest::Checkpoint));
    assert_eq!(
        shared.checkpoint(IoEvent::Checkpointed(result)),
        IOResult::IO(IoRequest::SyncDbFile)
    );
    assert_eq!(
        shared.checkpoint(IoEvent::DbSync { syncing: false }),
        IOResult::IO(IoRequest::WaitWrites)
    );
    assert_eq!(shared.checkpoint(IoEvent::InFlight(0)), IOResult::Done(result));
    assert_eq!(
        shared.checkpoint_shutdown(false, IoEvent::Idle),
        Ok(IOResult::IO(IoRequest::SyncWal))
    );
    assert_eq!(
        shared.wal_checkpoint(false, IoEvent::Checkpointed(result)),
        Ok(IOResult::Done(result))
    );
    assert!(shared.page_image(1).is_none());
    assert_eq!(
        shared.wal_insert_frame(&[0; 8]),
        Err(PagerError::Corrupt(CorruptKind::Frame))
    );
    let mut frame = vec![0u8; 24];
    frame[3] = 9;
    frame[7] = 1;
    assert_eq!(shared.wal_insert_frame(&frame).unwrap().page_number, 9);
}

#[test]
fn shared_pager_creates_roots() {
    let shared = new_shared(4096, 20);
    assert_eq!(shared.get_auto_vacuum_mode(), AutoVacuumMode::Off);
    shared.set_auto_vacuum_mode(AutoVacuumMode::Full);
    assert_eq!(shared.get_auto_vacuum_mode(), AutoVacuumMode::Full);
    assert_eq!(shared.set_header_field(HEADER_LARGEST_ROOT_PAGE, 1), IOResult::Done(()));
    assert_eq!(shared.btree_create(&CreateBTreeFlags::new_table()), Ok(IOResult::Done(3)));
    assert_eq!(shared.btree_create(&CreateBTreeFlags::new_index()), Ok(IOResult::Done(4)));
    assert_eq!(
        shared.ptrmap_get(4),
        Ok(IOResult::Done(Some(PtrmapEntry {
            entry_type: PtrmapType::RootPage,
            parent_page_no: 0
        })))
    );
    assert_eq!(shared.ptrmap_put(4, PtrmapType::BTreeNode, 3), Ok(IOResult::Done(())));
    assert_eq!(
        shared.ptrmap_get(4),
        Ok(IOResult::Done(Some(PtrmapEntry {
            entry_type: PtrmapType::BTreeNode,
            parent_page_no: 3
        })))
    );
    assert_eq!(
        shared.do_allocate_page(PageType::TableInterior, 0, BtreePageAllocMode::Any),
        Ok(IOResult::Done(5))
    );
    assert_eq!(shared.page_image(5).unwrap()[0], 5);
    let mut page = allocate_page(9, 4096, 0);
    page.set_dirty();
    assert_eq!(shared.update_dirty_loaded_page_in_cache(9, page), Ok(()));
    assert_eq!(shared.page_image(9).unwrap().len(), 4096);
}

#[test]
fn shared_pager_answers_as_the_pager_does() {
    let shared = new_shared(512, 3);
    // the bytes of the first page hold the header
    assert!(shared.page_image(1).unwrap().len() >= 100);
    assert!(shared.page1_bytes().is_none());
    assert_eq!(shared.write_page(1, 0, &[]), Ok(()));
    assert_eq!(
        shared.write_page(1, 512, &[1]),
        Err(PagerError::InternalError(InternalKind::BufferTooSmall))
    );
    assert_eq!(
        shared.write_page(4, 0, &[1]),
        Err(PagerError::InternalError(InternalKind::PageState))
    );
    // a page with another number than its key is refused, whatever the cache holds
    let mut page = allocate_page(6, 512, 0);
    page.set_dirty();
    assert_eq!(
        shared.update_dirty_loaded_page_in_cache(5, page),
        Err(PagerError::InternalError(InternalKind::PageState))
    );
    assert_eq!(shared.read_page(2, None), Ok(ReadPage::FromFile));
    assert!(shared.pin_page(2));
    assert_eq!(
        shared.begin_read_tx(LimboResult::Granted, true),
        Err(PagerError::InternalError(InternalKind::CacheClear(CacheError::Locked)))
    );
    assert_eq!(shared.complete_read(2, vec![0; 512]), Ok(()));
    assert_eq!(
        shared.clear_page_cache(),
        Err(PagerError::InternalError(InternalKind::CacheClear(CacheError::Pinned)))
    );
    assert_eq!(shared.begin_read_tx(LimboResult::Busy, false), Ok(LimboResult::Busy));
    assert!(shared.unpin_page(2));
    assert_eq!(shared.clear_page_cache(), Ok(()));
    // with 33 reserved bytes a page of 512 bytes leaves too few
    assert_eq!(shared.usable_size(), Ok(IOResult::IO(IoRequest::LoadPage { page_idx: 1 })));
    let mut image = vec![0u8; 512];
    pager::header::write_default_header(&mut image, 512);
    image[20] = 32;
    assert_eq!(shared.read_page(1, None), Ok(ReadPage::FromFile));
    assert_eq!(shared.get_page_size(), Ok(IOResult::IO(IoRequest::WaitPage { page_idx: 1 })));
    assert_eq!(shared.complete_read(1, image), Ok(()));
    assert_eq!(shared.usable_size(), Ok(IOResult::Done(480)));
    assert_eq!(shared.write_page(1, 20, &[33]), Ok(()));
    assert_eq!(shared.get_page_size(), Err(PagerError::Corrupt(CorruptKind::PageSize)));
    assert_eq!(shared.usable_size(), Err(PagerError::Corrupt(CorruptKind::PageSize)));
}

#[test]
fn first_page_bytes_behind_the_lock() {
    let pager = Pager::new(PageCache::new(2), AtomicDbState::new(DbState::Uninitialized)).unwrap();
    let shared = SharedPager::new(pager);
    assert!(!shared.set_initial_page_size(1000));
    assert!(shared.set_initial_page_size(1024));
    assert_eq!(shared.allocate_page1(IoEvent::Idle), Ok(IOResult::IO(IoRequest::WritePage1)));
    let image = shared.share().page1_bytes().unwrap();
    assert_eq!(image.len(), 1024);
    assert_eq!(&image[0..16], b"SQLite format 3\0");
    assert_eq!(&image[16..18], &[0x04, 0x00]);
    assert_eq!(&image[100..108], &[13, 0, 0, 0, 0, 0x04, 0x00, 0]);
    assert!(!shared.set_initial_page_size(2048));
}
