//! The states of the pager's resumable operations, and the small values
//! that its callers hand in and get back.

use vstd::prelude::*;
use crate::bytes::spec_read_u32;
use crate::types::CheckpointResult;

verus! {

/// The state of the current pager cache flush.
#[derive(Clone, Copy, Debug, PartialEq, Eq, Structural)]
pub enum CacheFlushState {
    /// Idle.
    Start,
    /// Append a single frame to the WAL.
    AppendFrame { current_page_to_append_idx: usize },
    /// Wait for append frame to complete.
    WaitAppendFrame { current_page_to_append_idx: usize },
}

/// The state of the current pager cache commit.
#[derive(Clone, Copy, Debug, PartialEq, Eq, Structural)]
pub enum CommitState {
    /// Idle.
    Start,
    /// Append a single frame to the WAL.
    AppendFrame { current_page_to_append_idx: usize },
    /// Wait for append frame to complete.
    /// If the current page is the last page to append, sync wal and clear dirty pages and cache.
    WaitAppendFrame { current_page_to_append_idx: usize },
    /// Fsync the on-disk WAL.
    SyncWal,
    /// Checkpoint the WAL to the database file (if needed).
    Checkpoint,
    /// Fsync the database file.
    SyncDbFile,
    /// Waiting for the database file to be fsynced.
    WaitSyncDbFile,
    /// Everything is durable; the log is told that the batch is complete.
    Finish { checkpointed: bool },
}

/// The state of the current checkpoint.
#[derive(Clone, Copy, Debug, PartialEq, Eq, Structural)]
pub enum CheckpointState {
    /// Copy frames of the log back into the database file.
    Checkpoint,
    /// Fsync the database file.
    SyncDbFile,
    /// Waiting for the database file to be fsynced.
    WaitSyncDbFile,
    /// Waiting for the writes of the checkpoint to drain.
    CheckpointDone,
}

/// The state of freeing one page.
#[derive(Clone, Copy, Debug, PartialEq, Eq, Structural)]
pub enum FreePageState {
    /// Idle.
    Start,
    /// The page is to become a leaf of the first trunk page.
    AddToTrunk { page_id: usize },
    /// The page is to become the first trunk page itself.
    NewTrunk { page_id: usize },
}

/// The mode of allocating a btree page.
#[derive(Clone, Copy, Debug, PartialEq, Eq, Structural)]
pub enum BtreePageAllocMode {
    /// Allocate any btree page
    Any,
    /// Allocate a specific page number, typically used for root page allocation
    Exact(u32),
    /// Allocate a page number less than or equal to the parameter
    Le(u32),
}

/// Track the state of the auto-vacuum mode.
#[derive(Clone, Copy, Debug, PartialEq, Eq, Structural)]
pub enum AutoVacuumMode {
    /// No pointer map is kept.
    Off,
    /// A pointer map is kept, and free pages are given back at each commit.
    Full,
    /// A pointer map is kept, and free pages are given back on request.
    Incremental,
}

/// How far the creation of the database has come.
#[derive(Debug, Clone, Copy, PartialEq, Eq, Structural)]
pub enum DbState {
    /// Database is empty.
    Uninitialized,
    /// Database is being initialized.
    Initializing,
    /// Database is initialized and ready for use.
    Initialized,
}

/// The word that stands for a state.
pub open spec fn db_state_word(state: DbState) -> usize {
    match state {
        DbState::Uninitialized => 0,
        DbState::Initializing => 1,
        DbState::Initialized => 2,
    }
}

impl DbState {
    /// Whether the database is initialized and ready for use.
    #[inline]
    pub fn is_initialized(&self) -> (b: bool)
        ensures
            b == (*self == DbState::Initialized),
    {
        matches!(self, DbState::Initialized)
    }
}

/// A `DbState` held as one word: 0, 1 or 2.
#[derive(Debug)]
pub struct AtomicDbState {
    word: usize,
}

impl View for AtomicDbState {
    type V = DbState;

    closed spec fn view(&self) -> DbState {
        if self.word == 0 {
            DbState::Uninitialized
        } else if self.word == 1 {
            DbState::Initializing
        } else {
            DbState::Initialized
        }
    }
}

impl AtomicDbState {
    #[verifier::type_invariant]
    spec fn word_in_range(self) -> bool {
        self.word <= 2
    }

    /// The word that holds the state.
    pub closed spec fn spec_word(&self) -> usize {
        self.word
    }

    /// A word that holds `state`.
    #[inline]
    pub fn new(state: DbState) -> (s: Self)
        ensures
            s@ == state,
            s.spec_word() == db_state_word(state),
    {
        let word: usize = match state {
            DbState::Uninitialized => 0,
            DbState::Initializing => 1,
            DbState::Initialized => 2,
        };
        AtomicDbState { word }
    }

    /// Makes the word hold `state`.
    #[inline]
    pub fn set(&mut self, state: DbState)
        ensures
            final(self)@ == state,
            final(self).spec_word() == db_state_word(state),
    {
        let word: usize = match state {
            DbState::Uninitialized => 0,
            DbState::Initializing => 1,
            DbState::Initialized => 2,
        };
        self.word = word;
    }

    /// The state that the word holds.
    #[inline]
    pub fn get(&self) -> (state: DbState)
        ensures
            state == self@,
            self.spec_word() == db_state_word(state),
    {
        proof {
            use_type_invariant(self);
        }
        if self.word == 0 {
            DbState::Uninitialized
        } else if self.word == 1 {
            DbState::Initializing
        } else {
            DbState::Initialized
        }
    }

    /// Whether the word holds the state of an initialized database.
    #[inline]
    pub fn is_initialized(&self) -> (b: bool)
        ensures
            b == (self@ == DbState::Initialized),
    {
        self.get().is_initialized()
    }
}

/// The status of the current cache flush.
#[derive(Debug, Copy, Clone, PartialEq, Eq, Structural)]
pub enum PagerCommitResult {
    /// The WAL was written to disk and fsynced.
    WalWritten,
    /// The WAL was written, fsynced, and a checkpoint was performed.
    /// The database file was then also fsynced.
    Checkpointed(CheckpointResult),
    /// The transaction was abandoned.
    Rollback,
}

/// The bit of `CreateBTreeFlags` that asks for a table.
pub const BTREE_TABLE: u8 = 1;

/// The bit of `CreateBTreeFlags` that asks for an index.
pub const BTREE_INDEX: u8 = 2;

/// What kind of B-tree to create.
#[derive(Debug, Clone, Copy, PartialEq, Eq, Structural)]
pub struct CreateBTreeFlags(pub u8);

impl CreateBTreeFlags {
    /// The bit that asks for a table.
    pub const TABLE: u8 = BTREE_TABLE;

    /// The bit that asks for an index.
    pub const INDEX: u8 = BTREE_INDEX;

    /// Flags that ask for a table.
    pub fn new_table() -> (f: Self)
        ensures
            f.0 == BTREE_TABLE,
            f.spec_is_table(),
            !f.spec_is_index(),
    {
        assert(1u8 & 1u8 != 0 && 1u8 & 2u8 == 0) by (bit_vector);
        CreateBTreeFlags(BTREE_TABLE)
    }

    /// Flags that ask for an index.
    pub fn new_index() -> (f: Self)
        ensures
            f.0 == BTREE_INDEX,
            f.spec_is_index(),
            !f.spec_is_table(),
    {
        assert(2u8 & 2u8 != 0 && 2u8 & 1u8 == 0) by (bit_vector);
        CreateBTreeFlags(BTREE_INDEX)
    }

    /// Whether the table bit is set.
    pub open spec fn spec_is_table(&self) -> bool {
        self.0 & BTREE_TABLE != 0
    }

    /// Whether the index bit is set.
    pub open spec fn spec_is_index(&self) -> bool {
        self.0 & BTREE_INDEX != 0
    }

    /// Whether the flags ask for a table.
    #[verifier::when_used_as_spec(spec_is_table)]
    pub fn is_table(&self) -> (b: bool)
        ensures
            b == self.spec_is_table(),
    {
        (self.0 & BTREE_TABLE) != 0
    }

    /// Whether the flags ask for an index.
    #[verifier::when_used_as_spec(spec_is_index)]
    pub fn is_index(&self) -> (b: bool)
        ensures
            b == self.spec_is_index(),
    {
        (self.0 & BTREE_INDEX) != 0
    }

    /// The flags as one byte.
    pub fn get_flags(&self) -> (flags: u8)
        ensures
            flags == self.0,
    {
        self.0
    }
}

/// The size of the header of one frame of the log.
pub const WAL_FRAME_HEADER_SIZE: usize = 24;

/// The header of one frame of the log.
#[derive(Debug, Clone, Copy, PartialEq, Eq, Structural)]
pub struct WalFrameHeader {
    /// The page that the frame holds.
    pub page_number: u32,
    /// The size of the database in pages after the commit, on the frame
    /// that ends a transaction; 0 on every other frame.
    pub db_size: u32,
    pub salt_1: u32,
    pub salt_2: u32,
    pub checksum_1: u32,
    pub checksum_2: u32,
}

/// The header that the first 24 bytes of a frame hold.
pub open spec fn spec_frame_header(frame: Seq<u8>) -> WalFrameHeader {
    WalFrameHeader {
        page_number: spec_read_u32(frame, 0) as u32,
        db_size: spec_read_u32(frame, 4) as u32,
        salt_1: spec_read_u32(frame, 8) as u32,
        salt_2: spec_read_u32(frame, 12) as u32,
        checksum_1: spec_read_u32(frame, 16) as u32,
        checksum_2: spec_read_u32(frame, 20) as u32,
    }
}

impl WalFrameHeader {
    /// Whether the frame ends a transaction.
    pub fn is_commit_frame(&self) -> (b: bool)
        ensures
            b == (self.db_size > 0),
    {
        self.db_size > 0
    }
}

fn frame_field(frame: &[u8], pos: usize) -> (v: u32)
    requires
        pos + 4 <= frame.len(),
    ensures
        v == spec_read_u32(frame@, pos as int),
{
    let b0: u32 = frame[pos] as u32;
    let b1: u32 = frame[pos + 1] as u32;
    let b2: u32 = frame[pos + 2] as u32;
    let b3: u32 = frame[pos + 3] as u32;
    b0 * 16777216 + b1 * 65536 + b2 * 256 + b3
}

/// Splits a frame into its header and the page that follows it. `None`
/// if the frame is shorter than a header.
pub fn parse_wal_frame_header(frame: &[u8]) -> (r: Option<(WalFrameHeader, &[u8])>)
    ensures
        match r {
            Some((header, page)) => frame.len() >= WAL_FRAME_HEADER_SIZE && header
                == spec_frame_header(frame@) && page@ == frame@.subrange(
                WAL_FRAME_HEADER_SIZE as int,
                frame.len() as int,
            ),
            None => frame.len() < WAL_FRAME_HEADER_SIZE,
        },
{
    if frame.len() < WAL_FRAME_HEADER_SIZE {
        return None;
    }
    let header = WalFrameHeader {
        page_number: frame_field(frame, 0),
        db_size: frame_field(frame, 4),
        salt_1: frame_field(frame, 8),
        salt_2: frame_field(frame, 12),
        checksum_1: frame_field(frame, 16),
        checksum_2: frame_field(frame, 20),
    };
    let page = vstd::slice::slice_subrange(frame, WAL_FRAME_HEADER_SIZE, frame.len());
    Some((header, page))
}

} // verus!
