//! Results, requests and events shared by the pager's operations.

use vstd::prelude::*;

verus! {

/// What a write-ahead-log lock request answered.
#[derive(Clone, Copy, Debug, PartialEq, Eq, Structural)]
pub enum LimboResult {
    /// The lock is held by someone else.
    Busy,
    /// The lock was granted.
    Granted,
}

/// What a checkpoint moved.
#[derive(Clone, Copy, Debug, PartialEq, Eq, Structural)]
pub struct CheckpointResult {
    /// Frames in the log.
    pub num_wal_frames: u64,
    /// Frames copied back into the database file.
    pub num_checkpointed_frames: u64,
}

impl CheckpointResult {
    /// A checkpoint that found nothing and moved nothing.
    pub fn new() -> (r: Self)
        ensures
            r.num_wal_frames == 0,
            r.num_checkpointed_frames == 0,
    {
        CheckpointResult { num_wal_frames: 0, num_checkpointed_frames: 0 }
    }
}

/// Outside work that an operation waits for. The caller performs it and
/// calls the operation again with the event named here.
#[derive(Clone, Copy, Debug, PartialEq, Eq, Structural)]
pub enum IoRequest {
    /// The page is not cached. Look it up in the log, hand the answer to
    /// `Pager::read_page`, start the read that it names, and give the bytes
    /// to `Pager::complete_read`. Then call again with `IoEvent::Idle`.
    LoadPage { page_idx: usize },
    /// The page is being read. Run the I/O loop until the read completes,
    /// then call again with `IoEvent::Idle`.
    WaitPage { page_idx: usize },
    /// Append the cached page to the log as one frame; `db_size` is
    /// nonzero on the frame that commits. Answer with `IoEvent::InFlight`.
    AppendFrame { page_id: usize, db_size: u32 },
    /// Writes are still in flight. Answer with `IoEvent::InFlight`.
    WaitWrites,
    /// Fsync the log. Answer with `IoEvent::WalSyncPending` or `IoEvent::WalSynced`.
    SyncWal,
    /// Run a passive checkpoint of the log into the database file. Answer
    /// with `IoEvent::CheckpointPending` or `IoEvent::Checkpointed`.
    Checkpoint,
    /// Start an fsync of the database file. Answer with `IoEvent::DbSync`.
    SyncDbFile,
    /// The database file is being synced. Answer with `IoEvent::DbSync`.
    WaitDbSync,
    /// Tell the log that the batch of frames is complete and committed.
    /// Answer with `IoEvent::CommitSignalled`.
    FinishCommit,
    /// Write the first page, which `Pager::page1_image` holds, to the
    /// database file. Answer with `IoEvent::InFlight`.
    WritePage1,
    /// Another connection is creating the first page. Run the I/O loop and
    /// call again.
    WaitInit,
}

/// What the caller reports back after outside work.
#[derive(Clone, Copy, Debug, PartialEq, Eq, Structural)]
pub enum IoEvent {
    /// Nothing to report.
    Idle,
    /// The number of writes that have not completed yet.
    InFlight(usize),
    /// The fsync of the log has not completed.
    WalSyncPending,
    /// The log is durable; `should_checkpoint` is the log's own opinion on
    /// whether it has grown past its threshold.
    WalSynced { should_checkpoint: bool },
    /// The checkpoint has not completed.
    CheckpointPending,
    /// The checkpoint has completed.
    Checkpointed(CheckpointResult),
    /// Whether the fsync of the database file is still running.
    DbSync { syncing: bool },
    /// The log has taken note of the commit.
    CommitSignalled,
}

/// The answer of an operation that may have to wait for outside work.
#[derive(Debug, PartialEq, Eq)]
pub enum IOResult<T> {
    /// The operation is complete.
    Done(T),
    /// The operation waits for the request to be served.
    IO(IoRequest),
}

} // verus!
