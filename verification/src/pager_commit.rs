//! Writing dirty pages to the log: commit, flush and checkpoint.
//!
//! Each of these is a state machine that advances by one event per call.
//! A call takes the event that answers the request of the call before,
//! moves as far as it can without outside work, and answers with the next
//! request or with the result.

use vstd::prelude::*;
use crate::error::{CorruptKind, InternalKind, PagerError};
use crate::header::HEADER_DATABASE_SIZE;
use crate::model::{
    header_u32, lemma_wf_frame, lemma_wf_progress, lemma_wf_set_page, page_wait, pages, set_page,
    wf, write_page,
};
use crate::page::PageView;
use crate::page_cache::{first_obstacle, index_of, lemma_by_id_at, without_dirty};
use crate::pager::{Pager, PagerView};
use crate::state::{
    parse_wal_frame_header, spec_frame_header, CacheFlushState, CheckpointState, CommitState,
    PagerCommitResult, WalFrameHeader, WAL_FRAME_HEADER_SIZE,
};
use crate::types::{CheckpointResult, IOResult, IoEvent, IoRequest};

verus! {

/// Whether `list` holds each member of `set` once, and nothing else.
pub open spec fn is_snapshot(list: Seq<usize>, set: Set<usize>) -> bool {
    list.to_set() == set && list.no_duplicates()
}

/// One step of a checkpoint.
///
/// The log is asked to copy its frames into the database file until it
/// reports that it has; then the database file is synced; then the step
/// waits until the writes of the checkpoint have drained, and answers with
/// what the log reported.
pub open spec fn checkpoint_step(v: PagerView, event: IoEvent) -> (
    PagerView,
    IOResult<CheckpointResult>,
) {
    match v.checkpoint_state {
        CheckpointState::Checkpoint => match event {
            IoEvent::Checkpointed(res) => (
                PagerView {
                    checkpoint_state: CheckpointState::WaitSyncDbFile,
                    checkpoint_result: res,
                    ..v
                },
                IOResult::IO(IoRequest::SyncDbFile),
            ),
            _ => (v, IOResult::IO(IoRequest::Checkpoint)),
        },
        CheckpointState::SyncDbFile => (
            PagerView { checkpoint_state: CheckpointState::WaitSyncDbFile, ..v },
            IOResult::IO(IoRequest::SyncDbFile),
        ),
        CheckpointState::WaitSyncDbFile => match event {
            IoEvent::DbSync { syncing: false } => (
                PagerView { checkpoint_state: CheckpointState::CheckpointDone, ..v },
                IOResult::IO(IoRequest::WaitWrites),
            ),
            _ => (v, IOResult::IO(IoRequest::WaitDbSync)),
        },
        CheckpointState::CheckpointDone => match event {
            IoEvent::InFlight(0) => (
                PagerView { checkpoint_state: CheckpointState::Checkpoint, ..v },
                IOResult::Done(v.checkpoint_result),
            ),
            _ => (v, IOResult::IO(IoRequest::WaitWrites)),
        },
    }
}

/// The request to append the page at place `i` of the commit's list.
///
/// The page has to be cached and loaded. The frame of the last page
/// carries the size of the database, which marks it as the frame that
/// commits; every other frame carries 0.
pub open spec fn commit_append(v: PagerView, i: usize) -> (
    PagerView,
    Result<IOResult<PagerCommitResult>, PagerError>,
) {
    let at = PagerView { commit_state: CommitState::AppendFrame { current_page_to_append_idx: i }, ..v };
    let page_id = v.commit_pages[i as int];
    let last = i + 1 == v.commit_pages.len();
    if !pages(v).dom().contains(page_id) || !pages(v)[page_id].flags.loaded {
        (at, Err(PagerError::InternalError(InternalKind::PageState)))
    } else if last && page_wait(v, 1) is Some {
        (at, Ok(IOResult::IO(page_wait(v, 1)->0)))
    } else {
        (
            PagerView {
                commit_state: CommitState::WaitAppendFrame { current_page_to_append_idx: i },
                ..v
            },
            Ok(
                IOResult::IO(
                    IoRequest::AppendFrame {
                        page_id,
                        db_size: if last {
                            header_u32(v, HEADER_DATABASE_SIZE)
                        } else {
                            0
                        },
                    },
                ),
            ),
        )
    }
}

/// What follows when the log has acknowledged the frame of the page at
/// place `i` of the commit's list.
///
/// The page is no longer dirty. After the last page the cache and the
/// dirty set are emptied and the log is to be synced; this fails, and
/// changes nothing, if a page of the cache is still dirty, locked or
/// pinned. After any other page the next page is appended.
pub open spec fn commit_ack(v: PagerView, i: usize) -> (
    PagerView,
    Result<IOResult<PagerCommitResult>, PagerError>,
) {
    let page_id = v.commit_pages[i as int];
    if !pages(v).dom().contains(page_id) {
        (v, Err(PagerError::InternalError(InternalKind::PageState)))
    } else {
        let cleaned = set_page(v.cache, page_id, without_dirty(pages(v)[page_id]));
        if i + 1 == v.commit_pages.len() {
            match first_obstacle(cleaned) {
                Some(e) => (v, Err(PagerError::InternalError(InternalKind::CacheClear(e)))),
                None => (
                    PagerView {
                        cache: Seq::empty(),
                        dirty: Set::empty(),
                        commit_state: CommitState::SyncWal,
                        ..v
                    },
                    Ok(IOResult::IO(IoRequest::SyncWal)),
                ),
            }
        } else {
            commit_append(PagerView { cache: cleaned, ..v }, (i + 1) as usize)
        }
    }
}

/// One step of the checkpoint that a commit runs, and the sync of the
/// database file that follows it.
pub open spec fn commit_checkpoint(v: PagerView, event: IoEvent) -> (
    PagerView,
    Result<IOResult<PagerCommitResult>, PagerError>,
) {
    let (w, r) = checkpoint_step(v, event);
    match r {
        IOResult::IO(req) => (
            PagerView { commit_state: CommitState::Checkpoint, ..w },
            Ok(IOResult::IO(req)),
        ),
        IOResult::Done(res) => (
            PagerView { commit_state: CommitState::WaitSyncDbFile, commit_checkpoint: res, ..w },
            Ok(IOResult::IO(IoRequest::SyncDbFile)),
        ),
    }
}

/// One step of a commit. `snapshot` is the dirty set as a list, which
/// counts only when the commit begins.
///
/// The pages of the list are appended to the log one by one, each after
/// the one before it was acknowledged. Then the log is synced. If the log
/// has grown past its threshold and checkpoints are not disabled, a
/// checkpoint follows, and a sync of the database file. At the end the
/// log is told that the batch is complete, and the commit is done.
/// A commit of an empty dirty set is done at once.
pub open spec fn commit_step(
    v: PagerView,
    wal_checkpoint_disabled: bool,
    event: IoEvent,
    snapshot: Seq<usize>,
) -> (PagerView, Result<IOResult<PagerCommitResult>, PagerError>) {
    match v.commit_state {
        CommitState::Start => if snapshot.len() == 0 {
            (v, Ok(IOResult::Done(PagerCommitResult::WalWritten)))
        } else {
            commit_append(PagerView { commit_pages: snapshot, ..v }, 0)
        },
        CommitState::AppendFrame { current_page_to_append_idx } => commit_append(
            v,
            current_page_to_append_idx,
        ),
        CommitState::WaitAppendFrame { current_page_to_append_idx } => match event {
            IoEvent::InFlight(0) => commit_ack(v, current_page_to_append_idx),
            _ => (v, Ok(IOResult::IO(IoRequest::WaitWrites))),
        },
        CommitState::SyncWal => match event {
            IoEvent::WalSynced { should_checkpoint } => if wal_checkpoint_disabled
                || !should_checkpoint {
                (
                    PagerView { commit_state: CommitState::Finish { checkpointed: false }, ..v },
                    Ok(IOResult::IO(IoRequest::FinishCommit)),
                )
            } else {
                commit_checkpoint(v, IoEvent::Idle)
            },
            _ => (v, Ok(IOResult::IO(IoRequest::SyncWal))),
        },
        CommitState::Checkpoint => commit_checkpoint(v, event),
        CommitState::SyncDbFile => (
            PagerView { commit_state: CommitState::WaitSyncDbFile, ..v },
            Ok(IOResult::IO(IoRequest::SyncDbFile)),
        ),
        CommitState::WaitSyncDbFile => match event {
            IoEvent::DbSync { syncing: false } => (
                PagerView { commit_state: CommitState::Finish { checkpointed: true }, ..v },
                Ok(IOResult::IO(IoRequest::FinishCommit)),
            ),
            _ => (v, Ok(IOResult::IO(IoRequest::WaitDbSync))),
        },
        CommitState::Finish { checkpointed } => match event {
            IoEvent::CommitSignalled => (
                PagerView { commit_state: CommitState::Start, ..v },
                Ok(
                    IOResult::Done(
                        if checkpointed {
                            PagerCommitResult::Checkpointed(v.commit_checkpoint)
                        } else {
                            PagerCommitResult::WalWritten
                        },
                    ),
                ),
            ),
            _ => (v, Ok(IOResult::IO(IoRequest::FinishCommit))),
        },
    }
}

/// The request to append the page at place `i` of the flush's list. The
/// page has to be cached and loaded; its frame carries no database size.
pub open spec fn flush_append(v: PagerView, i: usize) -> (
    PagerView,
    Result<IOResult<()>, PagerError>,
) {
    let page_id = v.flush_pages[i as int];
    if !pages(v).dom().contains(page_id) || !pages(v)[page_id].flags.loaded {
        (
            PagerView {
                flush_state: CacheFlushState::AppendFrame { current_page_to_append_idx: i },
                ..v
            },
            Err(PagerError::InternalError(InternalKind::PageState)),
        )
    } else {
        (
            PagerView {
                flush_state: CacheFlushState::WaitAppendFrame { current_page_to_append_idx: i },
                ..v
            },
            Ok(IOResult::IO(IoRequest::AppendFrame { page_id, db_size: 0 })),
        )
    }
}

/// One step of a flush. `snapshot` is the dirty set as a list, which
/// counts only when the flush begins.
///
/// The pages of the list are appended to the log one by one, each after
/// the one before it was acknowledged and is no longer dirty. After the
/// last page the dirty set is emptied; the cache keeps its pages.
pub open spec fn flush_step(v: PagerView, event: IoEvent, snapshot: Seq<usize>) -> (
    PagerView,
    Result<IOResult<()>, PagerError>,
) {
    match v.flush_state {
        CacheFlushState::Start => if snapshot.len() == 0 {
            (v, Ok(IOResult::Done(())))
        } else {
            flush_append(PagerView { flush_pages: snapshot, ..v }, 0)
        },
        CacheFlushState::AppendFrame { current_page_to_append_idx } => flush_append(
            v,
            current_page_to_append_idx,
        ),
        CacheFlushState::WaitAppendFrame { current_page_to_append_idx } => match event {
            IoEvent::InFlight(0) => {
                let page_id = v.flush_pages[current_page_to_append_idx as int];
                if !pages(v).dom().contains(page_id) {
                    (v, Err(PagerError::InternalError(InternalKind::PageState)))
                } else {
                    let cleaned = set_page(v.cache, page_id, without_dirty(pages(v)[page_id]));
                    if current_page_to_append_idx + 1 == v.flush_pages.len() {
                        (
                            PagerView {
                                cache: cleaned,
                                dirty: Set::empty(),
                                flush_state: CacheFlushState::Start,
                                ..v
                            },
                            Ok(IOResult::Done(())),
                        )
                    } else {
                        flush_append(
                            PagerView { cache: cleaned, ..v },
                            (current_page_to_append_idx + 1) as usize,
                        )
                    }
                }
            },
            _ => (v, Ok(IOResult::IO(IoRequest::WaitWrites))),
        },
    }
}

/// One step of a checkpoint on request, which empties the cache when
/// the log reports that it has copied its frames.
///
/// Nothing is done if checkpoints are disabled. The call fails, and the
/// cache keeps its pages, if one of them is dirty, locked or pinned.
pub open spec fn wal_checkpoint_step(v: PagerView, wal_checkpoint_disabled: bool, event: IoEvent) -> (
    PagerView,
    Result<IOResult<CheckpointResult>, PagerError>,
) {
    if wal_checkpoint_disabled {
        (
            v,
            Ok(
                IOResult::Done(
                    CheckpointResult { num_wal_frames: 0, num_checkpointed_frames: 0 },
                ),
            ),
        )
    } else {
        match event {
            IoEvent::Checkpointed(res) => match first_obstacle(v.cache) {
                Some(e) => (v, Err(PagerError::InternalError(InternalKind::CacheClear(e)))),
                None => (PagerView { cache: Seq::empty(), ..v }, Ok(IOResult::Done(res))),
            },
            _ => (v, Ok(IOResult::IO(IoRequest::Checkpoint))),
        }
    }
}

/// One step of the checkpoint at shutdown: the log is synced first, then
/// checkpointed as by `wal_checkpoint_step`.
pub open spec fn checkpoint_shutdown_step(
    v: PagerView,
    wal_checkpoint_disabled: bool,
    event: IoEvent,
) -> (PagerView, Result<IOResult<()>, PagerError>) {
    match event {
        IoEvent::WalSynced { should_checkpoint } => shutdown_result(
            wal_checkpoint_step(v, wal_checkpoint_disabled, IoEvent::Idle),
        ),
        IoEvent::CheckpointPending => shutdown_result(
            wal_checkpoint_step(v, wal_checkpoint_disabled, event),
        ),
        IoEvent::Checkpointed(_) => shutdown_result(
            wal_checkpoint_step(v, wal_checkpoint_disabled, event),
        ),
        _ => (v, Ok(IOResult::IO(IoRequest::SyncWal))),
    }
}

/// The answer of a checkpoint without what it moved.
pub open spec fn shutdown_result(
    step: (PagerView, Result<IOResult<CheckpointResult>, PagerError>),
) -> (PagerView, Result<IOResult<()>, PagerError>) {
    (
        step.0,
        match step.1 {
            Ok(IOResult::Done(_)) => Ok(IOResult::Done(())),
            Ok(IOResult::IO(req)) => Ok(IOResult::IO(req)),
            Err(e) => Err(e),
        },
    )
}

/// `p` without its dirty flag if its number is in `dirty`, and as it is otherwise.
pub open spec fn committed(p: PageView, dirty: Set<usize>) -> PageView {
    if dirty.contains(p.id) {
        without_dirty(p)
    } else {
        p
    }
}

/// The pager after a frame was written into the log from outside.
///
/// If the page of the frame is cached, it takes the bytes of the frame
/// and becomes dirty. If the frame commits, every page of the dirty set
/// is no longer dirty, and the dirty set is emptied. The call fails, and
/// changes nothing, if the frame is shorter than its header, or if its
/// page is cached and waits for a read or has another size.
pub open spec fn wal_insert_frame_step(v: PagerView, frame: Seq<u8>) -> (
    PagerView,
    Result<WalFrameHeader, PagerError>,
) {
    if frame.len() < WAL_FRAME_HEADER_SIZE {
        (v, Err(PagerError::Corrupt(CorruptKind::Frame)))
    } else {
        let header = spec_frame_header(frame);
        let raw = frame.subrange(WAL_FRAME_HEADER_SIZE as int, frame.len() as int);
        let id = header.page_number as usize;
        if pages(v).dom().contains(id) && page_wait(v, id) is Some {
            (v, Err(PagerError::InternalError(InternalKind::PageState)))
        } else if pages(v).dom().contains(id) && crate::model::page_bytes(v, id).len()
            != raw.len() {
            (v, Err(PagerError::Corrupt(CorruptKind::Frame)))
        } else {
            let w = if pages(v).dom().contains(id) {
                write_page(v, id, 0, raw)
            } else {
                v
            };
            (
                if header.db_size > 0 {
                    PagerView {
                        cache: w.cache.map_values(|p: PageView| committed(p, w.dirty)),
                        dirty: Set::empty(),
                        ..w
                    }
                } else {
                    w
                },
                Ok(header),
            )
        }
    }
}

impl Pager {
    /// The dirty set as a list.
    fn snapshot_dirty(&self) -> (list: Vec<usize>)
        ensures
            is_snapshot(list@, self@.dirty),
    {
        let mut list: Vec<usize> = Vec::new();
        for id in it: self.dirty_pages.iter()
            invariant
                list@ == it.seq().unref().subrange(0, it.index()),
                it.seq().unref().to_set() == self.dirty_pages@,
                it.seq().unref().subrange(0, it.seq().len() as int) =~= it.seq().unref(),
                it.seq().unref().no_duplicates(),
        {
            list.push(*id);
            assert(list@ =~= it.seq().unref().subrange(0, it.index() + 1));
        }
        list
    }

    /// One step of a checkpoint; see `checkpoint_step`.
    pub fn checkpoint(&mut self, event: IoEvent) -> (r: IOResult<CheckpointResult>)
        requires
            wf(old(self)@),
        ensures
            wf(final(self)@),
            (final(self)@, r) == checkpoint_step(old(self)@, event),
    {
        let r = match self.checkpoint_state {
            CheckpointState::Checkpoint => match event {
                IoEvent::Checkpointed(res) => {
                    self.checkpoint_result = res;
                    self.checkpoint_state = CheckpointState::WaitSyncDbFile;
                    IOResult::IO(IoRequest::SyncDbFile)
                },
                _ => IOResult::IO(IoRequest::Checkpoint),
            },
            CheckpointState::SyncDbFile => {
                self.checkpoint_state = CheckpointState::WaitSyncDbFile;
                IOResult::IO(IoRequest::SyncDbFile)
            },
            CheckpointState::WaitSyncDbFile => match event {
                IoEvent::DbSync { syncing: false } => {
                    self.checkpoint_state = CheckpointState::CheckpointDone;
                    IOResult::IO(IoRequest::WaitWrites)
                },
                _ => IOResult::IO(IoRequest::WaitDbSync),
            },
            CheckpointState::CheckpointDone => match event {
                IoEvent::InFlight(0) => {
                    self.checkpoint_state = CheckpointState::Checkpoint;
                    IOResult::Done(self.checkpoint_result)
                },
                _ => IOResult::IO(IoRequest::WaitWrites),
            },
        };
        proof {
            lemma_wf_frame(old(self)@, self@);
        }
        r
    }

    /// Asks for the frame of the page at place `i` of the commit's list.
    fn commit_append(&mut self, i: usize) -> (r: Result<IOResult<PagerCommitResult>, PagerError>)
        requires
            wf(old(self)@),
            i < old(self)@.commit_pages.len(),
            old(self)@.commit_state == (CommitState::AppendFrame { current_page_to_append_idx: i }),
        ensures
            wf(final(self)@),
            (final(self)@, r) == commit_append(old(self)@, i),
    {
        assert(self@.commit_pages == self.commit_info.dirty_pages@);
        let page_id: usize = self.commit_info.dirty_pages[i];
        let len: usize = self.commit_info.dirty_pages.len();
        let last: bool = i + 1 == len;
        match self.page_cache.position(page_id) {
            None => Err(PagerError::InternalError(InternalKind::PageState)),
            Some(k) => {
                proof {
                    lemma_by_id_at(self@.cache, k as int);
                }
                if !self.page_cache.page_at(k).is_loaded() {
                    return Err(PagerError::InternalError(InternalKind::PageState));
                }
                let db_size: u32 = if last {
                    match self.get_header_field(HEADER_DATABASE_SIZE) {
                        IOResult::IO(req) => {
                            return Ok(IOResult::IO(req));
                        },
                        IOResult::Done(size) => size,
                    }
                } else {
                    0
                };
                self.commit_info.state = CommitState::WaitAppendFrame {
                    current_page_to_append_idx: i,
                };
                proof {
                    lemma_wf_progress(old(self)@, self@);
                }
                Ok(IOResult::IO(IoRequest::AppendFrame { page_id, db_size }))
            },
        }
    }

    /// Takes note that the log has acknowledged the frame of the page at
    /// place `i` of the commit's list.
    fn commit_ack(&mut self, i: usize) -> (r: Result<IOResult<PagerCommitResult>, PagerError>)
        requires
            wf(old(self)@),
            old(self)@.commit_state == (CommitState::WaitAppendFrame {
                current_page_to_append_idx: i,
            }),
        ensures
            wf(final(self)@),
            (final(self)@, r) == commit_ack(old(self)@, i),
    {
        assert(self@.commit_pages == self.commit_info.dirty_pages@);
        let page_id: usize = self.commit_info.dirty_pages[i];
        let len: usize = self.commit_info.dirty_pages.len();
        let last: bool = i + 1 == len;
        match self.page_cache.position(page_id) {
            None => Err(PagerError::InternalError(InternalKind::PageState)),
            Some(k) => {
                let ghost v = self@;
                let ghost page = v.cache[k as int];
                proof {
                    lemma_by_id_at(v.cache, k as int);
                    assert(pages(v).dom().contains(page_id));
                    assert(crate::model::page_ok(page));
                    assert(v.commit_pages[i as int] == page_id);
                }
                if last {
                    let was_dirty: bool = self.page_cache.page_at(k).is_dirty();
                    let entry = self.page_cache.page_at_mut(k);
                    entry.clear_dirty();
                    proof {
                        crate::page_cache::lemma_by_id_update(v.cache, k as int, without_dirty(page));
                        assert(index_of(v.cache, page_id) == k);
                    }
                    match self.page_cache.clear() {
                        Err(e) => {
                            if was_dirty {
                                let entry = self.page_cache.page_at_mut(k);
                                entry.set_dirty();
                            }
                            assert(self@.cache =~= v.cache);
                            Err(PagerError::InternalError(InternalKind::CacheClear(e)))
                        },
                        Ok(_) => {
                            self.dirty_pages.clear();
                            self.commit_info.state = CommitState::SyncWal;
                            proof {
                                crate::model::lemma_wf_cleared(v);
                                crate::model::lemma_wf_no_dirty(
                                    PagerView { cache: Seq::empty(), dirty: Set::empty(), ..v },
                                    self@,
                                );
                            }
                            Ok(IOResult::IO(IoRequest::SyncWal))
                        },
                    }
                } else {
                    self.commit_info.state = CommitState::AppendFrame {
                        current_page_to_append_idx: i + 1,
                    };
                    proof {
                        let w = self@;
                        assert forall|id: usize| v.dirty.contains(id) && #[trigger] crate::model::is_acked(
                            v,
                            id,
                        ) implies crate::model::is_acked(w, id) by {
                            lemma_in_prefix_grows(v.commit_pages, i as int, i + 1, id);
                        }
                        lemma_wf_progress(v, w);
                        lemma_in_prefix_at(w.commit_pages, i as int, i + 1);
                        lemma_wf_set_page(w, k as int, without_dirty(page));
                    }
                    let entry = self.page_cache.page_at_mut(k);
                    entry.clear_dirty();
                    self.commit_append(i + 1)
                }
            },
        }
    }

    /// One step of the checkpoint that a commit runs.
    fn commit_checkpoint(&mut self, event: IoEvent) -> (r: Result<
        IOResult<PagerCommitResult>,
        PagerError,
    >)
        requires
            wf(old(self)@),
            commit_progress_is_zero(old(self)@),
        ensures
            wf(final(self)@),
            (final(self)@, r) == commit_checkpoint(old(self)@, event),
    {
        let ghost v = self@;
        match self.checkpoint(event) {
            IOResult::IO(req) => {
                self.commit_info.state = CommitState::Checkpoint;
                proof {
                    lemma_wf_progress(checkpoint_step(v, event).0, self@);
                }
                Ok(IOResult::IO(req))
            },
            IOResult::Done(res) => {
                self.commit_info.checkpoint_result = res;
                self.commit_info.state = CommitState::WaitSyncDbFile;
                proof {
                    lemma_wf_progress(checkpoint_step(v, event).0, self@);
                }
                Ok(IOResult::IO(IoRequest::SyncDbFile))
            },
        }
    }

    /// Flush all dirty pages to disk.
    /// In the base case, it will write the dirty pages to the WAL and then fsync the WAL.
    /// If the WAL size is over the checkpoint threshold, it will checkpoint the WAL to
    /// the database file and then fsync the database file.
    ///
    /// One call is one step of the commit; see `commit_step`. The list
    /// of pages is the dirty set as it is when the commit begins, each
    /// page once, in no order that could be foretold.
    pub fn commit_dirty_pages(&mut self, wal_checkpoint_disabled: bool, event: IoEvent) -> (r: Result<
        IOResult<PagerCommitResult>,
        PagerError,
    >)
        requires
            wf(old(self)@),
        ensures
            wf(final(self)@),
            old(self)@.commit_state == CommitState::Start ==> exists|snapshot: Seq<usize>|
                is_snapshot(snapshot, old(self)@.dirty) && (final(self)@, r) == #[trigger] commit_step(
                    old(self)@,
                    wal_checkpoint_disabled,
                    event,
                    snapshot,
                ),
            old(self)@.commit_state != CommitState::Start ==> (final(self)@, r) == commit_step(
                old(self)@,
                wal_checkpoint_disabled,
                event,
                Seq::empty(),
            ),
    {
        let ghost v = self@;
        match self.commit_info.state {
            CommitState::Start => {
                let dirty_pages = self.snapshot_dirty();
                if dirty_pages.len() == 0 {
                    assert((self@, Ok::<IOResult<PagerCommitResult>, PagerError>(IOResult::Done(PagerCommitResult::WalWritten)))
                        == commit_step(v, wal_checkpoint_disabled, event, dirty_pages@));
                    Ok(IOResult::Done(PagerCommitResult::WalWritten))
                } else {
                    let ghost snapshot = dirty_pages@;
                    self.commit_info.dirty_pages = dirty_pages;
                    self.commit_info.state = CommitState::AppendFrame {
                        current_page_to_append_idx: 0,
                    };
                    proof {
                        lemma_wf_progress(v, self@);
                    }
                    let r = self.commit_append(0);
                    assert((self@, r) == commit_step(v, wal_checkpoint_disabled, event, snapshot));
                    r
                }
            },
            CommitState::AppendFrame { current_page_to_append_idx } => self.commit_append(
                current_page_to_append_idx,
            ),
            CommitState::WaitAppendFrame { current_page_to_append_idx } => match event {
                IoEvent::InFlight(0) => self.commit_ack(current_page_to_append_idx),
                _ => Ok(IOResult::IO(IoRequest::WaitWrites)),
            },
            CommitState::SyncWal => match event {
                IoEvent::WalSynced { should_checkpoint } => {
                    if wal_checkpoint_disabled || !should_checkpoint {
                        self.commit_info.state = CommitState::Finish { checkpointed: false };
                        proof {
                            lemma_wf_progress(v, self@);
                        }
                        Ok(IOResult::IO(IoRequest::FinishCommit))
                    } else {
                        self.commit_checkpoint(IoEvent::Idle)
                    }
                },
                _ => Ok(IOResult::IO(IoRequest::SyncWal)),
            },
            CommitState::Checkpoint => self.commit_checkpoint(event),
            CommitState::SyncDbFile => {
                self.commit_info.state = CommitState::WaitSyncDbFile;
                proof {
                    lemma_wf_progress(v, self@);
                }
                Ok(IOResult::IO(IoRequest::SyncDbFile))
            },
            CommitState::WaitSyncDbFile => match event {
                IoEvent::DbSync { syncing: false } => {
                    self.commit_info.state = CommitState::Finish { checkpointed: true };
                    proof {
                        lemma_wf_progress(v, self@);
                    }
                    Ok(IOResult::IO(IoRequest::FinishCommit))
                },
                _ => Ok(IOResult::IO(IoRequest::WaitDbSync)),
            },
            CommitState::Finish { checkpointed } => match event {
                IoEvent::CommitSignalled => {
                    self.commit_info.state = CommitState::Start;
                    proof {
                        lemma_wf_progress(v, self@);
                    }
                    Ok(
                        IOResult::Done(
                            if checkpointed {
                                PagerCommitResult::Checkpointed(self.commit_info.checkpoint_result)
                            } else {
                                PagerCommitResult::WalWritten
                            },
                        ),
                    )
                },
                _ => Ok(IOResult::IO(IoRequest::FinishCommit)),
            },
        }
    }

    /// Asks for the frame of the page at place `i` of the flush's list.
    fn flush_append(&mut self, i: usize) -> (r: Result<IOResult<()>, PagerError>)
        requires
            wf(old(self)@),
            i < old(self)@.flush_pages.len(),
            old(self)@.flush_state == (CacheFlushState::AppendFrame {
                current_page_to_append_idx: i,
            }),
        ensures
            wf(final(self)@),
            (final(self)@, r) == flush_append(old(self)@, i),
    {
        assert(self@.flush_pages == self.flush_info.dirty_pages@);
        let page_id: usize = self.flush_info.dirty_pages[i];
        match self.page_cache.position(page_id) {
            None => Err(PagerError::InternalError(InternalKind::PageState)),
            Some(k) => {
                proof {
                    lemma_by_id_at(self@.cache, k as int);
                }
                if !self.page_cache.page_at(k).is_loaded() {
                    return Err(PagerError::InternalError(InternalKind::PageState));
                }
                self.flush_info.state = CacheFlushState::WaitAppendFrame {
                    current_page_to_append_idx: i,
                };
                proof {
                    lemma_wf_progress(old(self)@, self@);
                }
                Ok(IOResult::IO(IoRequest::AppendFrame { page_id, db_size: 0 }))
            },
        }
    }

    /// Flush all dirty pages to disk.
    /// Unlike commit_dirty_pages, this function does not commit, checkpoint now sync the WAL/Database.
    ///
    /// One call is one step of the flush; see `flush_step`. The list of
    /// pages is the dirty set as it is when the flush begins, each page
    /// once, in no order that could be foretold.
    pub fn cacheflush(&mut self, event: IoEvent) -> (r: Result<IOResult<()>, PagerError>)
        requires
            wf(old(self)@),
        ensures
            wf(final(self)@),
            old(self)@.flush_state == CacheFlushState::Start ==> exists|snapshot: Seq<usize>|
                is_snapshot(snapshot, old(self)@.dirty) && (final(self)@, r) == #[trigger] flush_step(
                    old(self)@,
                    event,
                    snapshot,
                ),
            old(self)@.flush_state != CacheFlushState::Start ==> (final(self)@, r) == flush_step(
                old(self)@,
                event,
                Seq::empty(),
            ),
    {
        let ghost v = self@;
        match self.flush_info.state {
            CacheFlushState::Start => {
                let dirty_pages = self.snapshot_dirty();
                if dirty_pages.len() == 0 {
                    assert((self@, Ok::<IOResult<()>, PagerError>(IOResult::Done(())))
                        == flush_step(v, event, dirty_pages@));
                    Ok(IOResult::Done(()))
                } else {
                    let ghost snapshot = dirty_pages@;
                    self.flush_info.dirty_pages = dirty_pages;
                    self.flush_info.state = CacheFlushState::AppendFrame {
                        current_page_to_append_idx: 0,
                    };
                    proof {
                        lemma_wf_progress(v, self@);
                    }
                    let r = self.flush_append(0);
                    assert((self@, r) == flush_step(v, event, snapshot));
                    r
                }
            },
            CacheFlushState::AppendFrame { current_page_to_append_idx } => self.flush_append(
                current_page_to_append_idx,
            ),
            CacheFlushState::WaitAppendFrame { current_page_to_append_idx } => match event {
                IoEvent::InFlight(0) => {
                    let i: usize = current_page_to_append_idx;
                    assert(v.flush_pages == self.flush_info.dirty_pages@);
                    let page_id: usize = self.flush_info.dirty_pages[i];
                    let len: usize = self.flush_info.dirty_pages.len();
                    match self.page_cache.position(page_id) {
                        None => Err(PagerError::InternalError(InternalKind::PageState)),
                        Some(k) => {
                            let ghost page = v.cache[k as int];
                            proof {
                                lemma_by_id_at(v.cache, k as int);
                                assert(pages(v).dom().contains(page_id));
                                assert(crate::model::page_ok(page));
                                assert(v.flush_pages[i as int] == page_id);
                                crate::page_cache::lemma_by_id_update(
                                    v.cache,
                                    k as int,
                                    without_dirty(page),
                                );
                                assert(index_of(v.cache, page_id) == k);
                            }
                            if i + 1 == len {
                                let entry = self.page_cache.page_at_mut(k);
                                entry.clear_dirty();
                                self.dirty_pages.clear();
                                self.flush_info.state = CacheFlushState::Start;
                                proof {
                                    let w = PagerView { dirty: Set::empty(), ..v };
                                    crate::model::lemma_wf_no_dirty(v, w);
                                    lemma_wf_set_page(w, k as int, without_dirty(page));
                                    crate::model::lemma_wf_no_dirty(
                                        PagerView {
                                            cache: v.cache.update(k as int, without_dirty(page)),
                                            ..w
                                        },
                                        self@,
                                    );
                                }
                                Ok(IOResult::Done(()))
                            } else {
                                self.flush_info.state = CacheFlushState::AppendFrame {
                                    current_page_to_append_idx: i + 1,
                                };
                                proof {
                                    let w = self@;
                                    assert forall|id: usize|
                                        v.dirty.contains(id) && #[trigger] crate::model::is_acked(
                                            v,
                                            id,
                                        ) implies crate::model::is_acked(w, id) by {
                                        lemma_in_prefix_grows(v.flush_pages, i as int, i + 1, id);
                                    }
                                    lemma_wf_progress(v, w);
                                    lemma_in_prefix_at(w.flush_pages, i as int, i + 1);
                                    lemma_wf_set_page(w, k as int, without_dirty(page));
                                }
                                let entry = self.page_cache.page_at_mut(k);
                                entry.clear_dirty();
                                self.flush_append(i + 1)
                            }
                        },
                    }
                },
                _ => Ok(IOResult::IO(IoRequest::WaitWrites)),
            },
        }
    }

    /// One step of a checkpoint on request; see `wal_checkpoint_step`.
    pub fn wal_checkpoint(&mut self, wal_checkpoint_disabled: bool, event: IoEvent) -> (r: Result<
        IOResult<CheckpointResult>,
        PagerError,
    >)
        requires
            wf(old(self)@),
        ensures
            wf(final(self)@),
            (final(self)@, r) == wal_checkpoint_step(old(self)@, wal_checkpoint_disabled, event),
    {
        if wal_checkpoint_disabled {
            return Ok(IOResult::Done(CheckpointResult::new()));
        }
        match event {
            IoEvent::Checkpointed(res) => {
                let ghost v = self@;
                match self.page_cache.clear() {
                    Ok(_) => {
                        proof {
                            crate::model::lemma_wf_emptied(v);
                        }
                        Ok(IOResult::Done(res))
                    },
                    Err(e) => Err(PagerError::InternalError(InternalKind::CacheClear(e))),
                }
            },
            _ => Ok(IOResult::IO(IoRequest::Checkpoint)),
        }
    }

    /// One step of the checkpoint at shutdown; see `checkpoint_shutdown_step`.
    pub fn checkpoint_shutdown(&mut self, wal_checkpoint_disabled: bool, event: IoEvent) -> (r: Result<
        IOResult<()>,
        PagerError,
    >)
        requires
            wf(old(self)@),
        ensures
            wf(final(self)@),
            (final(self)@, r) == checkpoint_shutdown_step(
                old(self)@,
                wal_checkpoint_disabled,
                event,
            ),
    {
        let step = match event {
            IoEvent::WalSynced { should_checkpoint } => self.wal_checkpoint(
                wal_checkpoint_disabled,
                IoEvent::Idle,
            ),
            IoEvent::CheckpointPending => self.wal_checkpoint(wal_checkpoint_disabled, event),
            IoEvent::Checkpointed(_) => self.wal_checkpoint(wal_checkpoint_disabled, event),
            _ => {
                return Ok(IOResult::IO(IoRequest::SyncWal));
            },
        };
        match step {
            Ok(IOResult::Done(_)) => Ok(IOResult::Done(())),
            Ok(IOResult::IO(req)) => Ok(IOResult::IO(req)),
            Err(e) => Err(e),
        }
    }

    /// Takes note of a frame that was written into the log from outside;
    /// see `wal_insert_frame_step`. The caller writes the frame into the
    /// log first.
    pub fn wal_insert_frame(&mut self, frame: &[u8]) -> (r: Result<WalFrameHeader, PagerError>)
        requires
            wf(old(self)@),
        ensures
            wf(final(self)@),
            (final(self)@, r) == wal_insert_frame_step(old(self)@, frame@),
    {
        let (header, raw_page) = match parse_wal_frame_header(frame) {
            Some(parts) => parts,
            None => {
                return Err(PagerError::Corrupt(CorruptKind::Frame));
            },
        };
        let id: usize = header.page_number as usize;
        match self.page_cache.position(id) {
            Some(k) => {
                proof {
                    lemma_by_id_at(self@.cache, k as int);
                    assert(pages(self@).dom().contains(id));
                    assert(crate::model::page_ok(self@.cache[k as int]));
                }
                let page = self.page_cache.page_at(k);
                if page.is_locked() || !page.is_loaded() {
                    return Err(PagerError::InternalError(InternalKind::PageState));
                }
                if page.get_contents().buffer.len() != raw_page.len() {
                    return Err(PagerError::Corrupt(CorruptKind::Frame));
                }
                self.write_at(k, 0, raw_page);
            },
            None => {},
        }
        if header.is_commit_frame() {
            let ghost w = self@;
            proof {
                crate::model::lemma_wf_map_pages(w, |p: PageView| committed(p, w.dirty));
            }
            let len: usize = self.page_cache.len();
            let mut i: usize = 0;
            while i < len
                invariant
                    i <= len,
                    len == w.cache.len(),
                    self@ == (PagerView { cache: self@.cache, ..w }),
                    self@.cache.len() == len,
                    forall|k: int| 0 <= k < i ==> #[trigger] self@.cache[k] == committed(w.cache[k], w.dirty),
                    forall|k: int| i <= k < len ==> #[trigger] self@.cache[k] == w.cache[k],
                decreases len - i,
            {
                let page_id: usize = self.page_cache.page_at(i).inner.id;
                if self.dirty_pages.contains(&page_id) {
                    let entry = self.page_cache.page_at_mut(i);
                    entry.clear_dirty();
                }
                i = i + 1;
            }
            assert(self@.cache =~= w.cache.map_values(|p: PageView| committed(p, w.dirty)));
            self.dirty_pages.clear();
        }
        Ok(header)
    }
}

/// Whether the commit is in a state in which the log has acknowledged none of its frames.
pub open spec fn commit_progress_is_zero(v: PagerView) -> bool {
    crate::model::commit_progress(v) == 0
}

/// A longer part of a list holds what a shorter part of it holds.
pub proof fn lemma_in_prefix_grows(list: Seq<usize>, n: int, m: int, id: usize)
    requires
        n <= m,
    ensures
        crate::model::in_prefix(list, n, id) ==> crate::model::in_prefix(list, m, id),
{
    if crate::model::in_prefix(list, n, id) {
        let k = choose|k: int| 0 <= k < n && k < list.len() && #[trigger] list[k] == id;
        assert(0 <= k < m && list[k] == id);
    }
}

/// The first `n` entries of a list hold each of them.
pub proof fn lemma_in_prefix_at(list: Seq<usize>, k: int, n: int)
    requires
        0 <= k < n,
        k < list.len(),
    ensures
        crate::model::in_prefix(list, n, list[k]),
{
}

} // verus!
