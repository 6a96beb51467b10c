//! A pager behind a reader-writer lock, for owners that share it.
//!
//! Each operation takes the lock for writing, runs one operation of the
//! pager, and lets the lock go. What the pager holds when the lock is
//! taken depends on what the other owners did before: the contracts here
//! say what holds of the answer whatever that was, mostly that it is the
//! answer which the pager's own contract gives for some pager that keeps
//! its rules.

use vstd::prelude::*;
use std::sync::Arc;
use parking_lot::{RawRwLock, RwLock, RwLockWriteGuard};
use crate::error::{CacheError, CorruptKind, InternalKind, PagerError};
use crate::header::{is_valid_page_size, valid_page_size, DATABASE_HEADER_SIZE};
use crate::model::{page_ok, pages, wf};
use crate::page::{FlagSet, Page, PageType};
use crate::page_cache::CacheResizeResult;
use crate::pager::{complete_read_outcome, first_page_image, Pager, PagerView, ReadPage};
use crate::pager_pages::{clear_refused, sizes_answer, with_loaded, write_page_outcome};
use crate::pager_alloc::{
    allocate_page1_step, allocate_step, do_allocate_step, maybe_allocate_page1_step,
};
use crate::pager_commit::{
    checkpoint_shutdown_step, checkpoint_step, commit_step, flush_step, is_snapshot,
    wal_checkpoint_step, wal_insert_frame_step,
};
use crate::pager_free::free_page_step;
use crate::pager_ptrmap::{btree_create_step, ptrmap_get_result, ptrmap_put_step};
use crate::pager_tx::rollback_step;
use crate::ptrmap::{PtrmapEntry, PtrmapType};
use crate::state::{
    AutoVacuumMode, BtreePageAllocMode, CacheFlushState, CommitState, CreateBTreeFlags, DbState,
    PagerCommitResult, WalFrameHeader,
};
use crate::types::{CheckpointResult, IOResult, IoEvent, IoRequest, LimboResult};

verus! {

/// `RawRwLock` of parking_lot: the lock without the data. Nothing is
/// known of what is inside.
#[verifier::external_type_specification]
#[verifier::external_body]
pub struct ExRawRwLock(RawRwLock);

/// `RwLock` of lock_api, which parking_lot instantiates with its
/// `RawRwLock`: a lock around a value of type `T`. Nothing is known of what
/// is inside.
#[verifier::external_type_specification]
#[verifier::external_body]
#[verifier::reject_recursive_types(R)]
#[verifier::reject_recursive_types(T)]
pub struct ExRwLock<R, T: ?Sized>(parking_lot::lock_api::RwLock<R, T>);

/// A pager that keeps its rules. Only such a pager goes behind the lock.
pub struct SealedPager {
    pager: Pager,
}

impl SealedPager {
    #[verifier::type_invariant]
    spec fn sealed(self) -> bool {
        wf(self.pager@)
    }

    /// Takes the pager out for one operation, and leaves an empty pager in its place.
    fn take(&mut self) -> (pager: Pager)
        ensures
            wf(pager@),
            pager == old(self).pager,
    {
        proof {
            use_type_invariant(&*self);
        }
        let mut pager = Pager::placeholder();
        core::mem::swap(&mut self.pager, &mut pager);
        pager
    }

    /// Puts the pager back after the operation.
    fn put(&mut self, pager: Pager)
        requires
            wf(pager@),
        ensures
            final(self).pager == pager,
    {
        let mut pager = pager;
        core::mem::swap(&mut self.pager, &mut pager);
    }
}

/// `RwLockWriteGuard` of parking_lot: the write access to a locked pager.
/// The lock is let go when the guard is dropped. Nothing is known of what
/// is inside.
#[verifier::external_body]
pub struct PagerGuard<'a> {
    guard: RwLockWriteGuard<'a, SealedPager>,
}

/// `RwLock::new` of parking_lot: a new lock, unlocked, around `pager`.
/// Nothing is claimed of it.
#[verifier::external_body]
fn lock_new(pager: SealedPager) -> (lock: RwLock<SealedPager>) {
    RwLock::new(pager)
}

/// `RwLock::write` of parking_lot: blocks until no other owner reads or
/// writes, and hands out exclusive access until the guard is dropped.
/// Nothing is claimed of what the lock holds at that time. A thread that
/// held a guard of the same lock would wait for itself; no guard outlives
/// the operation that took it, so that none does.
#[verifier::external_body]
fn lock_write<'a>(lock: &'a RwLock<SealedPager>) -> (guard: PagerGuard<'a>) {
    PagerGuard { guard: lock.write() }
}

/// `DerefMut::deref_mut` of the write guard of parking_lot: what the
/// lock holds. Nothing is claimed of it.
#[verifier::external_body]
fn guard_pager<'a, 'b>(guard: &'a mut PagerGuard<'b>) -> (pager: &'a mut SealedPager) {
    &mut *guard.guard
}

/// `Arc::clone` of std: another pointer to the same allocation, and so
/// to the same lock.
#[verifier::external_body]
fn lock_share(lock: &Arc<RwLock<SealedPager>>) -> (other: Arc<RwLock<SealedPager>>)
    ensures
        other == *lock,
{
    Arc::clone(lock)
}

/// A pager that several owners share.
pub struct SharedPager {
    lock: Arc<RwLock<SealedPager>>,
}

impl SharedPager {
    /// Puts a pager behind a lock.
    pub fn new(pager: Pager) -> (shared: Self)
        requires
            wf(pager@),
    {
        SharedPager { lock: Arc::new(lock_new(SealedPager { pager })) }
    }

    /// Whether two owners hold the same lock, and so share one pager.
    pub closed spec fn same_pager(&self, other: &SharedPager) -> bool {
        self.lock == other.lock
    }

    /// Another owner of the same pager.
    pub fn share(&self) -> (other: Self)
        ensures
            self.same_pager(&other),
    {
        SharedPager { lock: lock_share(&self.lock) }
    }

    /// `Pager::read_page` under the lock. A page that was not cached is to be
    /// read from the frame that was handed in, if one was, and from the database
    /// file otherwise; the only error is a cache without room.
    pub fn read_page(
        &self,
        page_idx: usize,
        wal_frame: Option<u64>,
    ) -> (r: Result<ReadPage, PagerError>)
        ensures
            match r {
                Ok(ReadPage::Cached) => true,
                Ok(ReadPage::FromWal { frame_id }) => wal_frame == Some(frame_id),
                Ok(ReadPage::FromFile) => wal_frame is None,
                Err(e) => e == PagerError::CacheFull,
            },
    {
        let mut guard = lock_write(&self.lock);
        let sealed = guard_pager(&mut guard);
        let mut pager = sealed.take();
        let r = pager.read_page(page_idx, wal_frame);
        sealed.put(pager);
        r
    }

    /// `Pager::complete_read` under the lock.
    pub fn complete_read(&self, page_idx: usize, data: Vec<u8>) -> (r: Result<(), PagerError>)
        ensures
            exists|v: PagerView| wf(v) && r == #[trigger] complete_read_outcome(v, page_idx, data@),
    {
        let mut guard = lock_write(&self.lock);
        let sealed = guard_pager(&mut guard);
        let mut pager = sealed.take();
        let r = pager.complete_read(page_idx, data);
        sealed.put(pager);
        r
    }

    /// `Pager::page_image` under the lock. The bytes of the first page hold
    /// at least the database header.
    pub fn page_image(&self, page_idx: usize) -> (r: Option<Vec<u8>>)
        ensures
            page_idx == 1 && r is Some ==> r->0@.len() >= DATABASE_HEADER_SIZE,
    {
        let mut guard = lock_write(&self.lock);
        let sealed = guard_pager(&mut guard);
        let mut pager = sealed.take();
        let ghost before = pager@;
        let r = pager.page_image(page_idx);
        proof {
            if r is Some && page_idx == 1 {
                assert(pages(before).dom().contains(1));
                assert(page_ok(pages(before)[1]));
            }
        }
        sealed.put(pager);
        r
    }

    /// `Pager::page_flags` under the lock. Whatever page is found, it keeps
    /// the rules of its flags: a dirty page is loaded.
    pub fn page_flags(&self, page_idx: usize) -> (r: Option<FlagSet>)
        ensures
            r is Some && r->0.dirty ==> r->0.loaded,
    {
        let mut guard = lock_write(&self.lock);
        let sealed = guard_pager(&mut guard);
        let mut pager = sealed.take();
        let r = pager.page_flags(page_idx);
        sealed.put(pager);
        r
    }

    /// `Pager::is_dirty_page` under the lock.
    pub fn is_dirty_page(&self, page_idx: usize) -> (b: bool)
    {
        let mut guard = lock_write(&self.lock);
        let sealed = guard_pager(&mut guard);
        let mut pager = sealed.take();
        let b = pager.is_dirty_page(page_idx);
        sealed.put(pager);
        b
    }

    /// `Pager::add_dirty` under the lock. It fails only for a page that is
    /// not cached or not loaded.
    pub fn add_dirty(&self, page_id: usize) -> (r: Result<(), PagerError>)
        ensures
            r is Err ==> r == Err::<(), PagerError>(PagerError::InternalError(InternalKind::PageState)),
    {
        let mut guard = lock_write(&self.lock);
        let sealed = guard_pager(&mut guard);
        let mut pager = sealed.take();
        let r = pager.add_dirty(page_id);
        sealed.put(pager);
        r
    }

    /// `Pager::write_page` under the lock.
    pub fn write_page(&self, page_id: usize, at: usize, data: &[u8]) -> (r: Result<(), PagerError>)
        ensures
            exists|v: PagerView|
                wf(v) && r == #[trigger] write_page_outcome(v, page_id, at, data@.len()),
    {
        let mut guard = lock_write(&self.lock);
        let sealed = guard_pager(&mut guard);
        let mut pager = sealed.take();
        let r = pager.write_page(page_id, at, data);
        sealed.put(pager);
        r
    }

    /// `Pager::pin_page` under the lock.
    pub fn pin_page(&self, page_id: usize) -> (done: bool)
    {
        let mut guard = lock_write(&self.lock);
        let sealed = guard_pager(&mut guard);
        let mut pager = sealed.take();
        let done = pager.pin_page(page_id);
        sealed.put(pager);
        done
    }

    /// `Pager::unpin_page` under the lock.
    pub fn unpin_page(&self, page_id: usize) -> (done: bool)
    {
        let mut guard = lock_write(&self.lock);
        let sealed = guard_pager(&mut guard);
        let mut pager = sealed.take();
        let done = pager.unpin_page(page_id);
        sealed.put(pager);
        done
    }

    /// `Pager::get_header_field` under the lock. If it waits, it waits for page 1.
    pub fn get_header_field(&self, field: usize) -> (r: IOResult<u32>)
        requires
            field + 4 <= DATABASE_HEADER_SIZE,
        ensures
            r is IO ==> r == IOResult::<u32>::IO(IoRequest::LoadPage { page_idx: 1 }) || r == IOResult::<u32>::IO(IoRequest::WaitPage { page_idx: 1 }),
    {
        let mut guard = lock_write(&self.lock);
        let sealed = guard_pager(&mut guard);
        let mut pager = sealed.take();
        let r = pager.get_header_field(field);
        sealed.put(pager);
        r
    }

    /// `Pager::set_header_field` under the lock. If it waits, it waits for page 1.
    pub fn set_header_field(&self, field: usize, value: u32) -> (r: IOResult<()>)
        requires
            field + 4 <= DATABASE_HEADER_SIZE,
        ensures
            r is IO ==> r == IOResult::<()>::IO(IoRequest::LoadPage { page_idx: 1 }) || r == IOResult::<()>::IO(IoRequest::WaitPage { page_idx: 1 }),
    {
        let mut guard = lock_write(&self.lock);
        let sealed = guard_pager(&mut guard);
        let mut pager = sealed.take();
        let r = pager.set_header_field(field, value);
        sealed.put(pager);
        r
    }

    /// `Pager::get_page_size` under the lock. The answer is a page size of
    /// the file format, a wait for the first page, or the complaint that the
    /// header is damaged.
    pub fn get_page_size(&self) -> (r: Result<IOResult<u32>, PagerError>)
        ensures
            match r {
                Ok(IOResult::Done(page_size)) => valid_page_size(page_size as int),
                Ok(IOResult::IO(req)) => req == (IoRequest::LoadPage { page_idx: 1 }) || req
                    == (IoRequest::WaitPage { page_idx: 1 }),
                Err(e) => e == PagerError::Corrupt(CorruptKind::PageSize),
            },
    {
        let mut guard = lock_write(&self.lock);
        let sealed = guard_pager(&mut guard);
        let mut pager = sealed.take();
        let r = pager.get_page_size();
        sealed.put(pager);
        r
    }

    /// `Pager::usable_space` under the lock. The answer is a usable size, a
    /// wait for the first page, or the complaint that the header is damaged.
    pub fn usable_space(&self) -> (r: Result<IOResult<usize>, PagerError>)
        ensures
            sizes_answer(r),
    {
        let mut guard = lock_write(&self.lock);
        let sealed = guard_pager(&mut guard);
        let mut pager = sealed.take();
        let r = pager.usable_space();
        sealed.put(pager);
        r
    }

    /// `Pager::usable_size` under the lock. The answer is a usable size, a
    /// wait for the first page, or the complaint that the header is damaged.
    pub fn usable_size(&self) -> (r: Result<IOResult<usize>, PagerError>)
        ensures
            sizes_answer(r),
    {
        let mut guard = lock_write(&self.lock);
        let sealed = guard_pager(&mut guard);
        let mut pager = sealed.take();
        let r = pager.usable_size();
        sealed.put(pager);
        r
    }

    /// `Pager::change_page_cache_size` under the lock. It fails for a
    /// capacity of 0, and only then.
    pub fn change_page_cache_size(
        &self,
        capacity: usize,
    ) -> (r: Result<CacheResizeResult, PagerError>)
        ensures
            r is Err <==> capacity == 0,
    {
        let mut guard = lock_write(&self.lock);
        let sealed = guard_pager(&mut guard);
        let mut pager = sealed.take();
        let r = pager.change_page_cache_size(capacity);
        sealed.put(pager);
        r
    }

    /// `Pager::clear_page_cache` under the lock. It fails only because a
    /// page is locked or pinned.
    pub fn clear_page_cache(&self) -> (r: Result<(), PagerError>)
        ensures
            r is Err ==> clear_refused(r->Err_0),
    {
        let mut guard = lock_write(&self.lock);
        let sealed = guard_pager(&mut guard);
        let mut pager = sealed.take();
        let r = pager.clear_page_cache();
        sealed.put(pager);
        r
    }

    /// `Pager::checkpoint` under the lock.
    pub fn checkpoint(&self, event: IoEvent) -> (r: IOResult<CheckpointResult>)
        ensures
            exists|v: PagerView| wf(v) && r == (#[trigger] checkpoint_step(v, event)).1,
    {
        let mut guard = lock_write(&self.lock);
        let sealed = guard_pager(&mut guard);
        let mut pager = sealed.take();
        let r = pager.checkpoint(event);
        sealed.put(pager);
        r
    }

    /// `Pager::commit_dirty_pages` under the lock.
    pub fn commit_dirty_pages(
        &self,
        wal_checkpoint_disabled: bool,
        event: IoEvent,
    ) -> (r: Result<IOResult<PagerCommitResult>, PagerError>)
        ensures
            exists|v: PagerView, snapshot: Seq<usize>|
                wf(v) && (v.commit_state == CommitState::Start ==> is_snapshot(snapshot, v.dirty)) && r == (#[trigger] commit_step(
                    v, wal_checkpoint_disabled, event,
                    snapshot,
                )).1,
    {
        let mut guard = lock_write(&self.lock);
        let sealed = guard_pager(&mut guard);
        let mut pager = sealed.take();
        let r = pager.commit_dirty_pages(wal_checkpoint_disabled, event);
        sealed.put(pager);
        r
    }

    /// `Pager::cacheflush` under the lock.
    pub fn cacheflush(&self, event: IoEvent) -> (r: Result<IOResult<()>, PagerError>)
        ensures
            exists|v: PagerView, snapshot: Seq<usize>|
                wf(v) && (v.flush_state == CacheFlushState::Start ==> is_snapshot(snapshot, v.dirty)) && r == (#[trigger] flush_step(
                    v, event,
                    snapshot,
                )).1,
    {
        let mut guard = lock_write(&self.lock);
        let sealed = guard_pager(&mut guard);
        let mut pager = sealed.take();
        let r = pager.cacheflush(event);
        sealed.put(pager);
        r
    }

    /// `Pager::wal_checkpoint` under the lock.
    pub fn wal_checkpoint(
        &self,
        wal_checkpoint_disabled: bool,
        event: IoEvent,
    ) -> (r: Result<IOResult<CheckpointResult>, PagerError>)
        ensures
            exists|v: PagerView| wf(v) && r == (#[trigger] wal_checkpoint_step(v, wal_checkpoint_disabled, event)).1,
    {
        let mut guard = lock_write(&self.lock);
        let sealed = guard_pager(&mut guard);
        let mut pager = sealed.take();
        let r = pager.wal_checkpoint(wal_checkpoint_disabled, event);
        sealed.put(pager);
        r
    }

    /// `Pager::checkpoint_shutdown` under the lock.
    pub fn checkpoint_shutdown(
        &self,
        wal_checkpoint_disabled: bool,
        event: IoEvent,
    ) -> (r: Result<IOResult<()>, PagerError>)
        ensures
            exists|v: PagerView| wf(v) && r == (#[trigger] checkpoint_shutdown_step(v, wal_checkpoint_disabled, event)).1,
    {
        let mut guard = lock_write(&self.lock);
        let sealed = guard_pager(&mut guard);
        let mut pager = sealed.take();
        let r = pager.checkpoint_shutdown(wal_checkpoint_disabled, event);
        sealed.put(pager);
        r
    }

    /// `Pager::wal_insert_frame` under the lock.
    pub fn wal_insert_frame(&self, frame: &[u8]) -> (r: Result<WalFrameHeader, PagerError>)
        ensures
            exists|v: PagerView| wf(v) && r == (#[trigger] wal_insert_frame_step(v, frame@)).1,
    {
        let mut guard = lock_write(&self.lock);
        let sealed = guard_pager(&mut guard);
        let mut pager = sealed.take();
        let r = pager.wal_insert_frame(frame);
        sealed.put(pager);
        r
    }

    /// `Pager::allocate_page` under the lock.
    pub fn allocate_page(&self) -> (r: Result<IOResult<usize>, PagerError>)
        ensures
            exists|v: PagerView| wf(v) && r == (#[trigger] allocate_step(v)).1,
    {
        let mut guard = lock_write(&self.lock);
        let sealed = guard_pager(&mut guard);
        let mut pager = sealed.take();
        let r = pager.allocate_page();
        sealed.put(pager);
        r
    }

    /// `Pager::do_allocate_page` under the lock.
    pub fn do_allocate_page(
        &self,
        page_type: PageType,
        offset: usize,
        alloc_mode: BtreePageAllocMode,
    ) -> (r: Result<IOResult<usize>, PagerError>)
        ensures
            exists|v: PagerView| wf(v) && r == (#[trigger] do_allocate_step(v, page_type, offset)).1,
    {
        let mut guard = lock_write(&self.lock);
        let sealed = guard_pager(&mut guard);
        let mut pager = sealed.take();
        let r = pager.do_allocate_page(page_type, offset, alloc_mode);
        sealed.put(pager);
        r
    }

    /// `Pager::allocate_page1` under the lock. Nothing is done, and the call
    /// is done, if the first page exists already.
    pub fn allocate_page1(&self, event: IoEvent) -> (r: Result<IOResult<()>, PagerError>)
        ensures
            exists|v: PagerView| wf(v) && r == (#[trigger] allocate_page1_step(v, event)).1,
    {
        let mut guard = lock_write(&self.lock);
        let sealed = guard_pager(&mut guard);
        let mut pager = sealed.take();
        let ghost before = pager@;
        let r = if pager.db_state().is_initialized() {
            Ok(IOResult::Done(()))
        } else {
            pager.allocate_page1(event)
        };
        proof {
            assert(wf(before) && r == allocate_page1_step(before, event).1);
        }
        sealed.put(pager);
        r
    }

    /// `Pager::maybe_allocate_page1` under the lock.
    pub fn maybe_allocate_page1(
        &self,
        lock_acquired: bool,
        event: IoEvent,
    ) -> (r: Result<IOResult<()>, PagerError>)
        ensures
            exists|v: PagerView| wf(v) && r == (#[trigger] maybe_allocate_page1_step(v, lock_acquired, event)).1,
    {
        let mut guard = lock_write(&self.lock);
        let sealed = guard_pager(&mut guard);
        let mut pager = sealed.take();
        let r = pager.maybe_allocate_page1(lock_acquired, event);
        sealed.put(pager);
        r
    }

    /// `Pager::page1_bytes` under the lock. The bytes are those of the first
    /// page of a new database whose page size is their number.
    pub fn page1_bytes(&self) -> (r: Option<Vec<u8>>)
        ensures
            r is Some ==> first_page_image(r->0@),
    {
        let mut guard = lock_write(&self.lock);
        let sealed = guard_pager(&mut guard);
        let mut pager = sealed.take();
        let r = pager.page1_bytes();
        sealed.put(pager);
        r
    }

    /// `Pager::ptrmap_get` under the lock.
    pub fn ptrmap_get(
        &self,
        target_page_num: u32,
    ) -> (r: Result<IOResult<Option<PtrmapEntry>>, PagerError>)
        ensures
            exists|v: PagerView| wf(v) && r == #[trigger] ptrmap_get_result(v, target_page_num),
    {
        let mut guard = lock_write(&self.lock);
        let sealed = guard_pager(&mut guard);
        let mut pager = sealed.take();
        let r = pager.ptrmap_get(target_page_num);
        sealed.put(pager);
        r
    }

    /// `Pager::ptrmap_put` under the lock.
    pub fn ptrmap_put(
        &self,
        db_page_no_to_update: u32,
        entry_type: PtrmapType,
        parent_page_no: u32,
    ) -> (r: Result<IOResult<()>, PagerError>)
        ensures
            exists|v: PagerView|
                wf(v) && r == (#[trigger] ptrmap_put_step(
                    v,
                    db_page_no_to_update,
                    PtrmapEntry { entry_type, parent_page_no },
                )).1,
    {
        let mut guard = lock_write(&self.lock);
        let sealed = guard_pager(&mut guard);
        let mut pager = sealed.take();
        let r = pager.ptrmap_put(db_page_no_to_update, entry_type, parent_page_no);
        sealed.put(pager);
        r
    }

    /// `Pager::btree_create` under the lock.
    pub fn btree_create(&self, flags: &CreateBTreeFlags) -> (r: Result<IOResult<u32>, PagerError>)
        requires
            flags.spec_is_table() || flags.spec_is_index(),
        ensures
            exists|v: PagerView| wf(v) && r == (#[trigger] btree_create_step(v, *flags)).1,
    {
        let mut guard = lock_write(&self.lock);
        let sealed = guard_pager(&mut guard);
        let mut pager = sealed.take();
        let r = pager.btree_create(flags);
        sealed.put(pager);
        r
    }

    /// `Pager::free_page` under the lock.
    pub fn free_page(&self, page_id: usize) -> (r: Result<IOResult<()>, PagerError>)
        ensures
            exists|v: PagerView| wf(v) && r == (#[trigger] free_page_step(v, page_id)).1,
    {
        let mut guard = lock_write(&self.lock);
        let sealed = guard_pager(&mut guard);
        let mut pager = sealed.take();
        let r = pager.free_page(page_id);
        sealed.put(pager);
        r
    }

    /// `Pager::begin_read_tx` under the lock. If the call succeeds, the
    /// answer is the answer of the log; it fails only if the database has
    /// changed and a page is locked or pinned.
    pub fn begin_read_tx(
        &self,
        result: LimboResult,
        changed: bool,
    ) -> (r: Result<LimboResult, PagerError>)
        ensures
            match r {
                Ok(answer) => answer == result,
                Err(e) => changed && clear_refused(e),
            },
    {
        let mut guard = lock_write(&self.lock);
        let sealed = guard_pager(&mut guard);
        let mut pager = sealed.take();
        let r = pager.begin_read_tx(result, changed);
        sealed.put(pager);
        r
    }

    /// `Pager::begin_write_tx` under the lock.
    pub fn begin_write_tx(
        &self,
        lock_acquired: bool,
        event: IoEvent,
    ) -> (r: Result<IOResult<()>, PagerError>)
        ensures
            exists|v: PagerView| wf(v) && r == (#[trigger] maybe_allocate_page1_step(v, lock_acquired, event)).1,
    {
        let mut guard = lock_write(&self.lock);
        let sealed = guard_pager(&mut guard);
        let mut pager = sealed.take();
        let r = pager.begin_write_tx(lock_acquired, event);
        sealed.put(pager);
        r
    }

    /// `Pager::end_tx` under the lock.
    pub fn end_tx(
        &self,
        rollback: bool,
        wal_checkpoint_disabled: bool,
        event: IoEvent,
    ) -> (r: Result<IOResult<PagerCommitResult>, PagerError>)
        ensures
            rollback ==> r == Ok::<IOResult<PagerCommitResult>, PagerError>(IOResult::Done(PagerCommitResult::Rollback)),
            !rollback ==> exists|v: PagerView, snapshot: Seq<usize>|
                wf(v) && (v.commit_state == CommitState::Start ==> is_snapshot(snapshot, v.dirty))
                    && r == (#[trigger] commit_step(
                    v,
                    wal_checkpoint_disabled,
                    event,
                    snapshot,
                )).1,
    {
        let mut guard = lock_write(&self.lock);
        let sealed = guard_pager(&mut guard);
        let mut pager = sealed.take();
        let r = pager.end_tx(rollback, wal_checkpoint_disabled, event);
        sealed.put(pager);
        r
    }

    /// `Pager::rollback` under the lock.
    pub fn rollback(&self) -> (r: Result<(), PagerError>)
        ensures
            exists|v: PagerView| wf(v) && r == (#[trigger] rollback_step(v)).1,
    {
        let mut guard = lock_write(&self.lock);
        let sealed = guard_pager(&mut guard);
        let mut pager = sealed.take();
        let r = pager.rollback();
        sealed.put(pager);
        r
    }

    /// `Pager::get_auto_vacuum_mode` under the lock.
    pub fn get_auto_vacuum_mode(&self) -> (mode: AutoVacuumMode)
    {
        let mut guard = lock_write(&self.lock);
        let sealed = guard_pager(&mut guard);
        let mut pager = sealed.take();
        let mode = pager.get_auto_vacuum_mode();
        sealed.put(pager);
        mode
    }

    /// `Pager::set_auto_vacuum_mode` under the lock.
    pub fn set_auto_vacuum_mode(&self, mode: AutoVacuumMode)
    {
        let mut guard = lock_write(&self.lock);
        let sealed = guard_pager(&mut guard);
        let mut pager = sealed.take();
        let ghost before = pager@;
        pager.set_auto_vacuum_mode(mode);
        proof {
            crate::model::lemma_wf_frame(before, pager@);
        }
        sealed.put(pager);
    }

    /// `Pager::db_state` under the lock.
    pub fn db_state(&self) -> (state: DbState)
    {
        let mut guard = lock_write(&self.lock);
        let sealed = guard_pager(&mut guard);
        let mut pager = sealed.take();
        let state = pager.db_state();
        sealed.put(pager);
        state
    }

    /// `Pager::set_initial_page_size` under the lock. The size is set, and
    /// the answer is `true`, if the database is not initialized and the size is
    /// a page size of the file format; otherwise nothing changes.
    pub fn set_initial_page_size(&self, size: u32) -> (done: bool)
        ensures
            done ==> valid_page_size(size as int),
    {
        let mut guard = lock_write(&self.lock);
        let sealed = guard_pager(&mut guard);
        let mut pager = sealed.take();
        let done = if pager.db_state() == DbState::Uninitialized && is_valid_page_size(size) {
            pager.set_initial_page_size(size);
            true
        } else {
            false
        };
        sealed.put(pager);
        done
    }

    /// `Pager::update_dirty_loaded_page_in_cache` under the lock. A page that
    /// has another number than `id`, or that breaks the rules of its flags when
    /// it is loaded, is refused; any other page is taken unless the cache has no
    /// room.
    pub fn update_dirty_loaded_page_in_cache(
        &self,
        id: usize,
        page: Page,
    ) -> (r: Result<(), PagerError>)
        requires
            page@.flags.dirty,
        ensures
            !page_ok(with_loaded(page@)) || page@.id != id ==> r == Err::<(), PagerError>(
                PagerError::InternalError(InternalKind::PageState),
            ),
            r is Err ==> r->Err_0 == PagerError::InternalError(InternalKind::PageState) || r->Err_0
                == PagerError::InternalError(InternalKind::CacheInsert(CacheError::Full)),
    {
        let mut guard = lock_write(&self.lock);
        let sealed = guard_pager(&mut guard);
        let mut pager = sealed.take();
        let r = pager.update_dirty_loaded_page_in_cache(id, page);
        sealed.put(pager);
        r
    }
}

} // verus!
