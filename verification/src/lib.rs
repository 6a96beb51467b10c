//! A page store between a B-tree engine and a single-file database: pages,
//! a bounded page cache, the free list, the pointer map, and the resumable
//! state machines that drive commits and checkpoints through a write-ahead log.
//!
//! The library never performs I/O. An operation that needs outside work
//! answers with an [`types::IoRequest`]; the caller performs it and calls the
//! operation again with the matching [`types::IoEvent`].

pub mod bytes;
pub mod error;
pub mod header;
pub mod laws;
pub mod model;
pub mod page;
pub mod page_cache;
pub mod pager;
pub mod pager_alloc;
pub mod pager_commit;
pub mod pager_free;
pub mod pager_pages;
pub mod pager_ptrmap;
pub mod pager_tx;
pub mod ptrmap;
pub mod shared;
pub mod state;
pub mod types;

pub use crate::error::{CacheError, CorruptKind, InternalKind, PagerError};
pub use crate::page::{allocate_page, FlagSet, Page, PageContent, PageInner, PageType};
pub use crate::page_cache::{CacheResizeResult, PageCache, PageCacheKey};
pub use crate::pager::{Pager, ReadPage};
pub use crate::ptrmap::{PtrmapEntry, PtrmapType};
pub use crate::shared::SharedPager;
pub use crate::state::{
    AtomicDbState, AutoVacuumMode, BtreePageAllocMode, CacheFlushState, CheckpointState,
    CommitState, CreateBTreeFlags, DbState, FreePageState, PagerCommitResult, WalFrameHeader,
};
pub use crate::types::{CheckpointResult, IOResult, IoEvent, IoRequest, LimboResult};
