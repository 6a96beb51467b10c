//! The boundaries of a transaction: begin, end and rollback.

use vstd::prelude::*;
use crate::error::{InternalKind, PagerError};
use crate::model::{lemma_wf_cleared, lemma_wf_no_dirty, wf};
use crate::page::PageView;
use crate::page_cache::{first_obstacle, without_dirty};
use crate::pager::{Pager, PagerView};
use crate::pager_alloc::maybe_allocate_page1_step;
use crate::pager_commit::{commit_step, is_snapshot};
use crate::state::{
    CacheFlushState, CheckpointState, CommitState, FreePageState, PagerCommitResult,
};
use crate::types::{CheckpointResult, IOResult, IoEvent, LimboResult};

verus! {

/// The pager with every operation that spans several calls back at its
/// beginning. The creation of the first page is none of them: it happens
/// once, and its state follows the state of the database.
pub open spec fn reset_states(v: PagerView) -> PagerView {
    PagerView {
        commit_state: CommitState::Start,
        commit_pages: Seq::empty(),
        commit_checkpoint: CheckpointResult { num_wal_frames: 0, num_checkpointed_frames: 0 },
        flush_state: CacheFlushState::Start,
        flush_pages: Seq::empty(),
        checkpoint_state: CheckpointState::Checkpoint,
        checkpoint_result: CheckpointResult { num_wal_frames: 0, num_checkpointed_frames: 0 },
        free_page_state: FreePageState::Start,
        ..v
    }
}

/// The pager after a rollback, and whether the rollback succeeded.
///
/// The dirty set is emptied, every operation is back at its beginning,
/// and no page is dirty any more. Then the cache is emptied; if a page
/// is locked or pinned, the pages stay and the rollback fails.
pub open spec fn rollback_step(v: PagerView) -> (PagerView, Result<(), PagerError>) {
    let cleaned = v.cache.map_values(|p: PageView| without_dirty(p));
    match first_obstacle(cleaned) {
        Some(e) => (
            PagerView { cache: cleaned, dirty: Set::empty(), ..reset_states(v) },
            Err(PagerError::InternalError(InternalKind::CacheClear(e))),
        ),
        None => (PagerView { cache: Seq::empty(), dirty: Set::empty(), ..reset_states(v) }, Ok(())),
    }
}

impl Pager {
    fn reset_internal_states(&mut self)
        requires
            wf(old(self)@),
            old(self)@.dirty == Set::<usize>::empty(),
        ensures
            wf(final(self)@),
            final(self)@ == reset_states(old(self)@),
    {
        self.checkpoint_state = CheckpointState::Checkpoint;
        self.checkpoint_result = CheckpointResult::new();
        self.flush_info.state = CacheFlushState::Start;
        self.flush_info.dirty_pages = Vec::new();
        self.commit_info.state = CommitState::Start;
        self.commit_info.dirty_pages = Vec::new();
        self.commit_info.checkpoint_result = CheckpointResult::new();
        self.free_page_state = FreePageState::Start;
        proof {
            lemma_wf_no_dirty(old(self)@, self@);
        }
    }

    /// Starts a read transaction on the pager's side. `result` and
    /// `changed` are what the log answered when the read transaction began
    /// there. If the database has changed since the last one, the cached
    /// pages are no longer what a reader may see, and the whole cache is
    /// invalidated as by `clear_page_cache`.
    pub fn begin_read_tx(&mut self, result: LimboResult, changed: bool) -> (r: Result<
        LimboResult,
        PagerError,
    >)
        requires
            wf(old(self)@),
        ensures
            wf(final(self)@),
            match r {
                Ok(answer) => answer == result,
                Err(e) => changed && crate::pager_pages::clear_refused(e),
            },
            !changed ==> r == Ok::<LimboResult, PagerError>(result) && final(self)@ == old(self)@,
            changed ==> match first_obstacle(
                old(self)@.cache.map_values(|p: PageView| without_dirty(p)),
            ) {
                Some(e) => r == Err::<LimboResult, PagerError>(
                    PagerError::InternalError(InternalKind::CacheClear(e)),
                ) && final(self)@ == (PagerView {
                    cache: old(self)@.cache.map_values(|p: PageView| without_dirty(p)),
                    dirty: Set::empty(),
                    ..old(self)@
                }),
                None => r == Ok::<LimboResult, PagerError>(result) && final(self)@ == (PagerView {
                    cache: Seq::empty(),
                    dirty: Set::empty(),
                    ..old(self)@
                }),
            },
    {
        if changed {
            // Someone else changed the database -> assume our page cache is invalid (this is default SQLite behavior, we can probably do better with more granular invalidation)
            match self.clear_page_cache() {
                Ok(_) => {},
                Err(e) => {
                    return Err(e);
                },
            }
        }
        Ok(result)
    }

    /// Starts a write transaction on the pager's side: the first page
    /// must exist before the caller takes the write lock of the log, which
    /// it does when this call is done. See `maybe_allocate_page1_step`.
    pub fn begin_write_tx(&mut self, lock_acquired: bool, event: IoEvent) -> (r: Result<
        IOResult<()>,
        PagerError,
    >)
        requires
            wf(old(self)@),
        ensures
            wf(final(self)@),
            (final(self)@, r) == maybe_allocate_page1_step(old(self)@, lock_acquired, event),
    {
        self.maybe_allocate_page1(lock_acquired, event)
    }

    /// Ends a transaction. With `rollback` nothing changes in the pager
    /// and the answer is `Rollback`; the caller ends the write and the read
    /// transaction of the log. Otherwise one call is one step of the
    /// commit, see `commit_step`; when it is done, the caller ends both
    /// transactions of the log.
    pub fn end_tx(&mut self, rollback: bool, wal_checkpoint_disabled: bool, event: IoEvent) -> (r: Result<
        IOResult<PagerCommitResult>,
        PagerError,
    >)
        requires
            wf(old(self)@),
        ensures
            wf(final(self)@),
            rollback ==> final(self)@ == old(self)@ && r == Ok::<
                IOResult<PagerCommitResult>,
                PagerError,
            >(IOResult::Done(PagerCommitResult::Rollback)),
            !rollback && old(self)@.commit_state == CommitState::Start ==> exists|
                snapshot: Seq<usize>,
            |
                is_snapshot(snapshot, old(self)@.dirty) && (final(self)@, r) == #[trigger] commit_step(
                    old(self)@,
                    wal_checkpoint_disabled,
                    event,
                    snapshot,
                ),
            !rollback && old(self)@.commit_state != CommitState::Start ==> (final(self)@, r)
                == commit_step(old(self)@, wal_checkpoint_disabled, event, Seq::empty()),
    {
        if rollback {
            return Ok(IOResult::Done(PagerCommitResult::Rollback));
        }
        self.commit_dirty_pages(wal_checkpoint_disabled, event)
    }

    /// Abandons what the transaction has changed; see `rollback_step`.
    /// The caller restores its schema if it has changed, and rolls the
    /// log back.
    pub fn rollback(&mut self) -> (r: Result<(), PagerError>)
        requires
            wf(old(self)@),
        ensures
            wf(final(self)@),
            (final(self)@, r) == rollback_step(old(self)@),
            r is Ok ==> final(self)@.dirty == Set::<usize>::empty() && final(self)@.cache.len() == 0
                && final(self)@.commit_state == CommitState::Start && final(self)@.flush_state
                == CacheFlushState::Start && final(self)@.checkpoint_state
                == CheckpointState::Checkpoint && final(self)@.free_page_state
                == FreePageState::Start,
    {
        let ghost v = self@;
        proof {
            lemma_wf_cleared(v);
        }
        self.dirty_pages.clear();
        proof {
            lemma_wf_no_dirty(v, self@);
        }
        self.reset_internal_states();
        proof {
            lemma_wf_cleared(self@);
        }
        self.page_cache.unset_dirty_all_pages();
        match self.page_cache.clear() {
            Ok(_) => Ok(()),
            Err(e) => Err(PagerError::InternalError(InternalKind::CacheClear(e))),
        }
    }
}

} // verus!
