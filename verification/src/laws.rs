//! What follows from the contracts of the pager's operations.

use vstd::prelude::*;
use crate::bytes::{lemma_read_u32_apart, lemma_read_u32_of_splice, spec_read_u32, u32_be_bytes};
use crate::error::{CorruptKind, PagerError};
use crate::header::{
    default_header, lemma_default_header, spec_page_size, spec_usable_space, valid_page_size, valid_sizes, HEADER_DATABASE_SIZE,
    HEADER_FREELIST_PAGES, HEADER_FREELIST_TRUNK_PAGE,
};
use crate::model::{
    header, header_u32, lemma_wf_admitted, lemma_wf_insert_dirty, lemma_wf_set_page,
    lemma_wf_write_page, mark_dirty, page_ok, page_wait, pages, set_header_u32, wf, write_page,
};
use crate::page::{content_page_type, evictable, PageType, PageView};
use crate::page_cache::{
    by_id, distinct_ids, evict_lru, first_obstacle, index_of, lemma_by_id_at, lemma_by_id_push,
    lemma_evict_keeps, lemma_obstacle_blocks, room_needed,
};
use crate::pager::PagerView;
use crate::pager_alloc::{
    add_page, first_page, allocate_step, do_allocate_step, grows_by_two, new_page, next_page_id,
    with_btree_header,
};
use crate::pager_commit::{checkpoint_step, commit_ack, commit_step, is_snapshot};
use crate::pager_free::{
    free_add_to_trunk, free_new_trunk, free_page_step, mark_stale, max_trunk_leaves,
    trunk_leaf_count, trunk_leaf_slot, LEAF_ENTRY_SIZE, TRUNK_PAGE_HEADER_SIZE,
};
use crate::pager_ptrmap::{btree_create_step, ptrmap_page_of, ptrmap_put_step, root_page_type};
use crate::ptrmap::{
    lemma_ptrmap_page_fixed_point, lemma_ptrmap_page_of_ptrmap_page, spec_is_ptrmap_page,
    spec_ptrmap_offset, spec_ptrmap_page_for, PtrmapEntry, PtrmapType, PTRMAP_ENTRY_SIZE,
};
use crate::state::{
    AutoVacuumMode, CheckpointState, CommitState, CreateBTreeFlags, FreePageState,
    PagerCommitResult,
};
use crate::types::{CheckpointResult, IOResult, IoEvent, IoRequest};

verus! {

/// The cache never drops a pinned page to make room, and the page stays as it is.
pub proof fn lemma_pinned_page_stays(s: Seq<PageView>, n: nat, id: usize)
    requires
        distinct_ids(s),
        by_id(s).dom().contains(id),
        by_id(s)[id].pin_count > 0,
    ensures
        by_id(evict_lru(s, n)).dom().contains(id),
        by_id(evict_lru(s, n))[id] == by_id(s)[id],
{
    lemma_evict_keeps(s, n);
}

/// A cache that holds a pinned page cannot be emptied.
pub proof fn lemma_pins_block_clear(s: Seq<PageView>, i: int)
    requires
        0 <= i < s.len(),
        s[i].pin_count > 0,
    ensures
        first_obstacle(s) is Some,
{
    lemma_obstacle_blocks(s, i);
}

/// When the log has acknowledged the last frame of a commit, the cache
/// and the dirty set are empty, so that no page is dirty any more, and the
/// log is to be synced.
pub proof fn lemma_commit_last_frame(v: PagerView, i: usize)
    requires
        wf(v),
        v.commit_state == (CommitState::WaitAppendFrame { current_page_to_append_idx: i }),
        i + 1 == v.commit_pages.len(),
        commit_ack(v, i).1 is Ok,
    ensures
        commit_ack(v, i).0.dirty == Set::<usize>::empty(),
        commit_ack(v, i).0.cache.len() == 0,
        commit_ack(v, i).0.commit_state == CommitState::SyncWal,
        commit_ack(v, i).1 == Ok::<IOResult<PagerCommitResult>, PagerError>(
            IOResult::IO(IoRequest::SyncWal),
        ),
{
}

/// A commit is done either at once, because the dirty set is empty, or
/// when the log has taken note of the commit, which it is asked to do only
/// after it was synced. From the sync on, the commit changes neither the
/// cache nor the dirty set: a commit that is done leaves the dirty set
/// empty unless a page was marked dirty after its last frame was
/// acknowledged.
pub proof fn lemma_commit_done(
    v: PagerView,
    wal_checkpoint_disabled: bool,
    event: IoEvent,
    snapshot: Seq<usize>,
)
    requires
        wf(v),
        is_snapshot(snapshot, v.dirty),
        commit_step(v, wal_checkpoint_disabled, event, snapshot).1 is Ok,
        commit_step(v, wal_checkpoint_disabled, event, snapshot).1->Ok_0 is Done,
    ensures
        v.commit_state == CommitState::Start || (v.commit_state is Finish && event
            == IoEvent::CommitSignalled),
        commit_step(v, wal_checkpoint_disabled, event, snapshot).0.commit_state
            == CommitState::Start,
        commit_step(v, wal_checkpoint_disabled, event, snapshot).0.dirty == v.dirty,
        commit_step(v, wal_checkpoint_disabled, event, snapshot).0.cache == v.cache,
        v.commit_state == CommitState::Start ==> v.dirty == Set::<usize>::empty(),
{
    if v.commit_state == CommitState::Start {
        if snapshot.len() > 0 {
            assert(snapshot.to_set().contains(snapshot[0]));
        } else {
            assert(v.dirty =~= Set::<usize>::empty());
        }
    }
}

/// The log is told that a commit is complete only in the last state of
/// the commit, which is entered when the log has been synced, or when the
/// sync of the database file that follows a checkpoint has completed.
pub proof fn lemma_commit_signal_follows_sync(
    v: PagerView,
    wal_checkpoint_disabled: bool,
    event: IoEvent,
    snapshot: Seq<usize>,
)
    requires
        wf(v),
        commit_step(v, wal_checkpoint_disabled, event, snapshot).1 == Ok::<
            IOResult<PagerCommitResult>,
            PagerError,
        >(IOResult::IO(IoRequest::FinishCommit)),
    ensures
        commit_step(v, wal_checkpoint_disabled, event, snapshot).0.commit_state is Finish,
        v.commit_state is Finish || (v.commit_state == CommitState::SyncWal && event is WalSynced)
            || (v.commit_state == CommitState::WaitSyncDbFile && event == (IoEvent::DbSync {
            syncing: false,
        })),
{
}

/// The frame that carries the size of the database, and so commits, is
/// the frame of the last page of a commit; every other frame carries 0.
pub proof fn lemma_commit_frame_is_last(
    v: PagerView,
    wal_checkpoint_disabled: bool,
    event: IoEvent,
    snapshot: Seq<usize>,
    page_id: usize,
    db_size: u32,
)
    requires
        wf(v),
        commit_step(v, wal_checkpoint_disabled, event, snapshot).1 == Ok::<
            IOResult<PagerCommitResult>,
            PagerError,
        >(IOResult::IO(IoRequest::AppendFrame { page_id, db_size })),
    ensures
        ({
            let w = commit_step(v, wal_checkpoint_disabled, event, snapshot).0;
            &&& w.commit_state is WaitAppendFrame
            &&& w.commit_pages[w.commit_state->WaitAppendFrame_current_page_to_append_idx as int]
                == page_id
            &&& db_size != 0 ==> w.commit_state->WaitAppendFrame_current_page_to_append_idx + 1
                == w.commit_pages.len()
        }),
{
}

/// The pointer-map page of a page is a pointer-map page, and the entry
/// of a data page lies within it: its offset is at least 0 and leaves room
/// for the five bytes of the entry.
pub proof fn lemma_ptrmap_entry_in_page(q: int, page_size: int)
    requires
        q >= 2,
        valid_page_size(page_size),
        !spec_is_ptrmap_page(q, page_size),
    ensures
        spec_is_ptrmap_page(spec_ptrmap_page_for(q, page_size), page_size),
        0 <= spec_ptrmap_offset(q, spec_ptrmap_page_for(q, page_size)),
        spec_ptrmap_offset(q, spec_ptrmap_page_for(q, page_size)) + PTRMAP_ENTRY_SIZE
            <= page_size,
{
    lemma_ptrmap_page_of_ptrmap_page(q, page_size);
    lemma_ptrmap_page_fixed_point(q, page_size);
}

/// A page outside `2..=database_size` cannot be freed: page 1 cannot,
/// and the page behind the last one cannot.
pub proof fn lemma_free_page_out_of_range(v: PagerView, id: usize)
    requires
        wf(v),
        v.free_page_state == FreePageState::Start,
        page_wait(v, 1) is None,
        id < 2 || id > header_u32(v, HEADER_DATABASE_SIZE),
    ensures
        free_page_step(v, id) == (
            v,
            Err::<IOResult<()>, PagerError>(PagerError::Corrupt(CorruptKind::InvalidFreePage)),
        ),
        free_page_step(v, 1).1 == Err::<IOResult<()>, PagerError>(
            PagerError::Corrupt(CorruptKind::InvalidFreePage),
        ),
        header_u32(v, HEADER_DATABASE_SIZE) < usize::MAX ==> free_page_step(
            v,
            (header_u32(v, HEADER_DATABASE_SIZE) + 1) as usize,
        ).1 == Err::<IOResult<()>, PagerError>(PagerError::Corrupt(CorruptKind::InvalidFreePage)),
{
}

/// A trunk page that holds `usable_space / 4 - 2` leaves or more takes no
/// further leaf: the freed page becomes the first trunk page instead.
pub proof fn lemma_full_trunk_is_replaced(v: PagerView, id: usize)
    requires
        wf(v),
        id <= u32::MAX,
        page_wait(v, 1) is None,
        valid_sizes(header(v)),
        header_u32(v, HEADER_FREELIST_TRUNK_PAGE) != 0,
        page_wait(v, header_u32(v, HEADER_FREELIST_TRUNK_PAGE) as usize) is None,
        ({
            let c = pages(v)[header_u32(v, HEADER_FREELIST_TRUNK_PAGE) as usize].contents->0;
            &&& c.offset + TRUNK_PAGE_HEADER_SIZE <= c.buffer.len()
            &&& trunk_leaf_count(c) >= max_trunk_leaves(spec_usable_space(header(v)))
        }),
    ensures
        free_add_to_trunk(v, id) == free_new_trunk(v, id),
{
}

/// A page that is written to holds what was written, and the pager keeps its rules.
pub proof fn lemma_write_page(v: PagerView, id: usize, at: int, data: Seq<u8>)
    requires
        wf(v),
        pages(v).dom().contains(id),
        pages(v)[id].flags.loaded,
    ensures
        wf(write_page(v, id, at, data)),
        pages(write_page(v, id, at, data)) == pages(v).insert(
            id,
            crate::model::with_dirty(crate::model::with_bytes(pages(v)[id], at, data)),
        ),
        wf(mark_dirty(v, id)),
        pages(mark_dirty(v, id)) == pages(v).insert(id, crate::model::with_dirty(pages(v)[id])),
{
    let i = index_of(v.cache, id);
    lemma_by_id_at(v.cache, i);
    lemma_wf_write_page(v, i, at, data);
}

/// A new page that the cache takes is there afterwards, and so is every
/// page that was dirty, pinned or locked, as it was.
pub proof fn lemma_add_page(v: PagerView, p: PageView)
    requires
        wf(v),
        page_ok(p),
        p.flags.dirty,
        p.flags.loaded,
        add_page(v, p).1 is Ok,
    ensures
        wf(add_page(v, p).0),
        pages(add_page(v, p).0).dom().contains(p.id),
        pages(add_page(v, p).0)[p.id] == p,
        !pages(v).dom().contains(p.id),
        forall|id: usize| #[trigger]
            pages(v).dom().contains(id) && !evictable(pages(v)[id]) ==> pages(
                add_page(v, p).0,
            ).dom().contains(id) && pages(add_page(v, p).0)[id] == pages(v)[id],
{
    let need = room_needed(v.cache.len(), v.capacity);
    let kept = evict_lru(v.cache, need);
    lemma_evict_keeps(v.cache, need);
    assert(!crate::page_cache::has_id(kept, p.id)) by {
        if crate::page_cache::has_id(kept, p.id) {
            assert(by_id(kept).dom().contains(p.id));
        }
    }
    lemma_by_id_push(kept, p);
    let cache = kept.push(p);
    assert(by_id(cache).remove(p.id) =~= by_id(kept));
    lemma_wf_admitted(v, cache, p);
    lemma_wf_insert_dirty(PagerView { cache, ..v }, p.id);
}

/// An allocation that succeeds makes the database larger: the header of
/// the first page, which stays cached, holds the number of the new page as
/// the size of the database, and that number is larger than the size before.
pub proof fn lemma_allocate_grows(v: PagerView)
    requires
        wf(v),
        allocate_step(v).1 is Ok,
        allocate_step(v).1->Ok_0 is Done,
    ensures
        page_wait(v, 1) is None,
        page_wait(allocate_step(v).0, 1) is None,
        header_u32(allocate_step(v).0, HEADER_DATABASE_SIZE) == allocate_step(
            v,
        ).1->Ok_0->Done_0,
        header_u32(allocate_step(v).0, HEADER_DATABASE_SIZE) > header_u32(
            v,
            HEADER_DATABASE_SIZE,
        ),
        wf(allocate_step(v).0),
{
    let new_size = next_page_id(v) as u32;
    let page_size = spec_page_size(header(v));
    let sized = set_header_u32(v, HEADER_DATABASE_SIZE, new_size);
    assert(page_ok(pages(v)[1]));
    lemma_write_page(v, 1, HEADER_DATABASE_SIZE as int, u32_be_bytes(new_size));
    lemma_read_u32_of_splice(header(v), HEADER_DATABASE_SIZE as int, new_size);
    assert(header_u32(sized, HEADER_DATABASE_SIZE) == new_size);
    assert(!evictable(pages(sized)[1]));
    let mapped = if grows_by_two(v) {
        add_page(sized, new_page((next_page_id(v) - 1) as usize, page_size))
    } else {
        (sized, Ok(()))
    };
    assert(pages(sized).dom().contains(1));
    assert(wf(sized));
    assert(mapped.1 is Ok);
    if grows_by_two(v) {
        lemma_add_page(sized, new_page((next_page_id(v) - 1) as usize, page_size));
    }
    assert(wf(mapped.0));
    assert(pages(mapped.0).dom().contains(1) && pages(mapped.0)[1] == pages(sized)[1]);
    let added = add_page(mapped.0, new_page(next_page_id(v) as usize, page_size));
    assert(added.1 is Ok);
    lemma_add_page(mapped.0, new_page(next_page_id(v) as usize, page_size));
    assert(pages(added.0).dom().contains(1) && pages(added.0)[1] == pages(sized)[1]);
    assert(allocate_step(v).0 == added.0);
}

/// A trunk page that holds fewer than `usable_space / 4 - 2` leaves takes
/// the freed page as its next leaf: its count grows by one, the slot
/// behind its last leaf holds the number of the freed page, and freeing
/// is done.
pub proof fn lemma_trunk_takes_leaf(v: PagerView, id: usize)
    requires
        wf(v),
        id <= u32::MAX,
        page_wait(v, 1) is None,
        valid_sizes(header(v)),
        header_u32(v, HEADER_FREELIST_TRUNK_PAGE) != 0,
        page_wait(v, header_u32(v, HEADER_FREELIST_TRUNK_PAGE) as usize) is None,
        ({
            let c = pages(v)[header_u32(v, HEADER_FREELIST_TRUNK_PAGE) as usize].contents->0;
            &&& c.offset + TRUNK_PAGE_HEADER_SIZE <= c.buffer.len()
            &&& trunk_leaf_count(c) < max_trunk_leaves(spec_usable_space(header(v)))
            &&& trunk_leaf_slot(c, trunk_leaf_count(c)) + LEAF_ENTRY_SIZE <= c.buffer.len()
        }),
    ensures
        ({
            let trunk = header_u32(v, HEADER_FREELIST_TRUNK_PAGE) as usize;
            let c = pages(v)[trunk].contents->0;
            let (w, r) = free_add_to_trunk(v, id);
            &&& r == Ok::<IOResult<()>, PagerError>(IOResult::Done(()))
            &&& w.free_page_state == FreePageState::Start
            &&& pages(w).dom().contains(trunk)
            &&& pages(w)[trunk].contents is Some
            &&& trunk_leaf_count(pages(w)[trunk].contents->0) == trunk_leaf_count(c) + 1
            &&& spec_read_u32(
                pages(w)[trunk].contents->0.buffer,
                trunk_leaf_slot(c, trunk_leaf_count(c)),
            ) == id
            &&& trunk_leaf_count(pages(w)[trunk].contents->0) <= max_trunk_leaves(
                spec_usable_space(header(v)),
            )
            &&& wf(w)
        }),
{
    let trunk = header_u32(v, HEADER_FREELIST_TRUNK_PAGE) as usize;
    let c = pages(v)[trunk].contents->0;
    let count = trunk_leaf_count(c);
    let slot = trunk_leaf_slot(c, count);
    let counted = write_page(v, trunk, c.offset + 4, u32_be_bytes((count + 1) as u32));
    lemma_write_page(v, trunk, c.offset + 4, u32_be_bytes((count + 1) as u32));
    let c1 = pages(counted)[trunk].contents->0;
    lemma_read_u32_of_splice(c.buffer, c.offset + 4, (count + 1) as u32);
    let listed = write_page(counted, trunk, slot, u32_be_bytes(id as u32));
    lemma_write_page(counted, trunk, slot, u32_be_bytes(id as u32));
    let c2 = pages(listed)[trunk].contents->0;
    lemma_read_u32_of_splice(c1.buffer, slot, id as u32);
    lemma_read_u32_apart(c1.buffer, slot, u32_be_bytes(id as u32), c.offset + 4);
    let w = mark_stale(listed, id);
    if pages(listed).dom().contains(id) {
        let i = index_of(listed.cache, id);
        lemma_by_id_at(listed.cache, i);
        assert(page_ok(pages(listed)[id]));
        lemma_wf_set_page(listed, i, crate::pager_free::stale(pages(listed)[id]));
    }
    crate::model::lemma_wf_frame(w, PagerView { free_page_state: FreePageState::Start, ..w });
    assert(pages(PagerView { free_page_state: FreePageState::Start, ..w }) == pages(w));
}

/// The database file is synced for a checkpoint only when the log has
/// reported that the checkpoint is complete.
pub proof fn lemma_db_sync_follows_checkpoint(v: PagerView, event: IoEvent)
    requires
        checkpoint_step(v, event).1 == IOResult::<CheckpointResult>::IO(IoRequest::SyncDbFile),
    ensures
        (v.checkpoint_state == CheckpointState::Checkpoint && event is Checkpointed)
            || v.checkpoint_state == CheckpointState::SyncDbFile,
        checkpoint_step(v, event).0.checkpoint_state == CheckpointState::WaitSyncDbFile,
{
}

/// An allocation of a B-tree page that succeeds makes the database
/// larger, as an allocation of any page does.
pub proof fn lemma_do_allocate_grows(v: PagerView, page_type: PageType, offset: usize)
    requires
        wf(v),
        do_allocate_step(v, page_type, offset).1 is Ok,
        do_allocate_step(v, page_type, offset).1->Ok_0 is Done,
    ensures
        page_wait(do_allocate_step(v, page_type, offset).0, 1) is None,
        header_u32(do_allocate_step(v, page_type, offset).0, HEADER_DATABASE_SIZE)
            == do_allocate_step(v, page_type, offset).1->Ok_0->Done_0,
        header_u32(do_allocate_step(v, page_type, offset).0, HEADER_DATABASE_SIZE) > header_u32(
            v,
            HEADER_DATABASE_SIZE,
        ),
        wf(do_allocate_step(v, page_type, offset).0),
        do_allocate_step(v, page_type, offset).1->Ok_0->Done_0 == next_page_id(v),
        next_page_id(v) <= u32::MAX,
        page_wait(v, 1) is None,
        valid_sizes(header(v)),
{
    let grown = allocate_step(v);
    let id = grown.1->Ok_0->Done_0;
    lemma_allocate_grows(v);
    // the new page is not the first page, which was cached before
    let page_size = spec_page_size(header(v));
    let sized = set_header_u32(v, HEADER_DATABASE_SIZE, next_page_id(v) as u32);
    lemma_write_page(v, 1, HEADER_DATABASE_SIZE as int, u32_be_bytes(next_page_id(v) as u32));
    let mapped = if grows_by_two(v) {
        add_page(sized, new_page((next_page_id(v) - 1) as usize, page_size))
    } else {
        (sized, Ok(()))
    };
    assert(pages(sized).dom().contains(1));
    assert(!evictable(pages(sized)[1]));
    if grows_by_two(v) {
        lemma_add_page(sized, new_page((next_page_id(v) - 1) as usize, page_size));
    }
    assert(pages(mapped.0).dom().contains(1));
    lemma_add_page(mapped.0, new_page(next_page_id(v) as usize, page_size));
    assert(id != 1);
    let i = index_of(grown.0.cache, id);
    assert(pages(grown.0).dom().contains(id));
    lemma_by_id_at(grown.0.cache, i);
    let p = with_btree_header(
        pages(grown.0)[id],
        page_type,
        offset,
        (spec_usable_space(header(v)) % 65536) as u16,
    );
    assert(page_ok(pages(grown.0)[id]));
    lemma_wf_set_page(grown.0, i, p);
}

/// The pointer-map entry of a page goes to another page than the first,
/// so that the header stays as it is.
proof fn lemma_ptrmap_put_keeps_header(v: PagerView, target: u32, entry: PtrmapEntry)
    requires
        wf(v),
        page_wait(v, 1) is None,
    ensures
        page_wait(ptrmap_put_step(v, target, entry).0, 1) is None,
        header(ptrmap_put_step(v, target, entry).0) == header(v),
{
    let w = ptrmap_put_step(v, target, entry).0;
    if w != v {
        lemma_ptrmap_page_fixed_point(target as int, spec_page_size(header(v)));
        let map_page = ptrmap_page_of(v, target);
        assert(map_page != 1);
        lemma_write_page(
            v,
            map_page,
            crate::pager_ptrmap::ptrmap_slot_of(v, target),
            crate::ptrmap::entry_bytes(entry),
        );
    }
}

/// A root page that is created makes the database larger: the header
/// holds the number of the root page as the size of the database, and that
/// number is larger than the size before.
#[verifier::rlimit(50)]
pub proof fn lemma_btree_create_grows(v: PagerView, flags: CreateBTreeFlags)
    requires
        wf(v),
        btree_create_step(v, flags).1 is Ok,
        btree_create_step(v, flags).1->Ok_0 is Done,
    ensures
        page_wait(btree_create_step(v, flags).0, 1) is None,
        header_u32(btree_create_step(v, flags).0, HEADER_DATABASE_SIZE) == btree_create_step(
            v,
            flags,
        ).1->Ok_0->Done_0,
        header_u32(btree_create_step(v, flags).0, HEADER_DATABASE_SIZE) > header_u32(
            v,
            HEADER_DATABASE_SIZE,
        ),
{
    let page_type = root_page_type(flags);
    if v.auto_vacuum_mode == AutoVacuumMode::Off {
        lemma_do_allocate_grows(v, page_type, 0);
    } else {
        let root = next_page_id(v) as u32;
        let map_page = ptrmap_page_of(v, root);
        let held = if grows_by_two(v) {
            v
        } else {
            mark_dirty(v, map_page)
        };
        if !grows_by_two(v) {
            lemma_ptrmap_page_fixed_point(root as int, spec_page_size(header(v)));
            assert(map_page != 1);
            lemma_write_page(v, map_page, 0, Seq::empty());
        }
        assert(pages(held).dom().contains(1) && pages(held)[1] == pages(v)[1]);
        let grown = do_allocate_step(held, page_type, 0);
        lemma_do_allocate_grows(held, page_type, 0);
        let id = grown.1->Ok_0->Done_0;
        let entry = PtrmapEntry { entry_type: PtrmapType::RootPage, parent_page_no: 0 };
        lemma_ptrmap_put_keeps_header(grown.0, id as u32, entry);
    }
}

/// The first page of a new database keeps the rules for a page. Its
/// header names the page size that the database was given, counts one page
/// and no free page, and its content behind the header is an empty table leaf.
pub proof fn lemma_first_page(page_size: int)
    requires
        valid_page_size(page_size),
    ensures
        page_ok(first_page(page_size)),
        first_page(page_size).contents->0.buffer.len() == page_size,
        valid_sizes(first_page(page_size).contents->0.buffer),
        spec_page_size(first_page(page_size).contents->0.buffer) == page_size,
        spec_read_u32(first_page(page_size).contents->0.buffer, HEADER_DATABASE_SIZE as int) == 1,
        spec_read_u32(first_page(page_size).contents->0.buffer, HEADER_FREELIST_PAGES as int)
            == 0,
        spec_read_u32(
            first_page(page_size).contents->0.buffer,
            HEADER_FREELIST_TRUNK_PAGE as int,
        ) == 0,
        content_page_type(first_page(page_size).contents->0) == Some(PageType::TableLeaf),
{
    lemma_default_header(page_size);
    let header = default_header(page_size);
    let buffer = first_page(page_size).contents->0.buffer;
    assert forall|i: int| 0 <= i < 100 implies buffer[i] == header[i] by {}
}

/// A freed page that becomes the first trunk page points to the trunk
/// page that was first and holds no leaf, and the header names it as the
/// first trunk page: the chain of trunk pages grows at its head.
pub proof fn lemma_new_trunk_heads_the_chain(v: PagerView, id: usize)
    requires
        wf(v),
        2 <= id <= u32::MAX,
        page_wait(v, id) is None,
        page_wait(v, 1) is None,
        pages(v)[id].contents->0.offset + TRUNK_PAGE_HEADER_SIZE
            <= pages(v)[id].contents->0.buffer.len(),
    ensures
        ({
            let c = pages(v)[id].contents->0;
            let (w, r) = free_new_trunk(v, id);
            &&& r == Ok::<IOResult<()>, PagerError>(IOResult::Done(()))
            &&& w.free_page_state == FreePageState::Start
            &&& wf(w)
            &&& page_wait(w, 1) is None
            &&& header_u32(w, HEADER_FREELIST_TRUNK_PAGE) == id
            &&& pages(w).dom().contains(id)
            &&& pages(w)[id].contents is Some
            &&& pages(w)[id].flags.dirty
            &&& !pages(w)[id].flags.uptodate
            &&& w.dirty.contains(id)
            &&& spec_read_u32(pages(w)[id].contents->0.buffer, c.offset as int) == header_u32(
                v,
                HEADER_FREELIST_TRUNK_PAGE,
            )
            &&& trunk_leaf_count(pages(w)[id].contents->0) == 0
        }),
{
    let c = pages(v)[id].contents->0;
    let next = header_u32(v, HEADER_FREELIST_TRUNK_PAGE);
    let linked = write_page(v, id, c.offset as int, u32_be_bytes(next));
    lemma_write_page(v, id, c.offset as int, u32_be_bytes(next));
    lemma_read_u32_of_splice(c.buffer, c.offset as int, next);
    let c1 = pages(linked)[id].contents->0;
    let emptied = write_page(linked, id, c.offset + 4, u32_be_bytes(0));
    lemma_write_page(linked, id, c.offset + 4, u32_be_bytes(0));
    lemma_read_u32_of_splice(c1.buffer, c.offset + 4, 0);
    lemma_read_u32_apart(c1.buffer, c.offset + 4, u32_be_bytes(0), c.offset as int);
    let c2 = pages(emptied)[id].contents->0;
    assert(page_ok(pages(emptied)[1]));
    let rooted = set_header_u32(emptied, HEADER_FREELIST_TRUNK_PAGE, id as u32);
    lemma_write_page(emptied, 1, HEADER_FREELIST_TRUNK_PAGE as int, u32_be_bytes(id as u32));
    lemma_read_u32_of_splice(header(emptied), HEADER_FREELIST_TRUNK_PAGE as int, id as u32);
    let i = index_of(rooted.cache, id);
    lemma_by_id_at(rooted.cache, i);
    assert(page_ok(pages(rooted)[id]));
    lemma_wf_set_page(rooted, i, crate::pager_free::stale(pages(rooted)[id]));
    let w = mark_stale(rooted, id);
    crate::model::lemma_wf_frame(w, PagerView { free_page_state: FreePageState::Start, ..w });
    assert(pages(PagerView { free_page_state: FreePageState::Start, ..w }) == pages(w));
}

} // verus!
