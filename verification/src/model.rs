//! What must hold of a pager between any two calls.

use vstd::prelude::*;
use crate::header::{valid_page_size, DATABASE_HEADER_SIZE};
use crate::page::{flags_consistent, FlagSet, PageView};
use crate::page_cache::{
    by_id, distinct_ids, has_id, lemma_by_id_at, lemma_by_id_update, without_dirty,
};
use crate::pager::{Page1State, PagerView};
use crate::state::{CacheFlushState, CommitState, DbState};
use crate::types::IoRequest;
use crate::bytes::{spec_read_u32, splice, u32_be_bytes};
use crate::page::PageContentView;

verus! {

/// The rules for one cached page: its flags agree with each other and with
/// its bytes, and the first page, if it has bytes, has room for the header.
pub open spec fn page_ok(p: PageView) -> bool {
    &&& flags_consistent(p)
    &&& p.id == 1 && p.contents is Some ==> p.contents->0.buffer.len() >= DATABASE_HEADER_SIZE
}

/// The cached pages by their numbers.
pub open spec fn pages(v: PagerView) -> Map<usize, PageView> {
    by_id(v.cache)
}

/// How many pages of its list a commit in progress has seen acknowledged by the log.
pub open spec fn commit_progress(v: PagerView) -> int {
    match v.commit_state {
        CommitState::AppendFrame { current_page_to_append_idx } => current_page_to_append_idx as int,
        CommitState::WaitAppendFrame { current_page_to_append_idx } => current_page_to_append_idx as int,
        _ => 0,
    }
}

/// How many pages of its list a flush in progress has seen acknowledged by the log.
pub open spec fn flush_progress(v: PagerView) -> int {
    match v.flush_state {
        CacheFlushState::AppendFrame { current_page_to_append_idx } => current_page_to_append_idx as int,
        CacheFlushState::WaitAppendFrame { current_page_to_append_idx } => current_page_to_append_idx as int,
        CacheFlushState::Start => 0,
    }
}

/// Whether `id` is among the first `n` entries of `list`.
pub open spec fn in_prefix(list: Seq<usize>, n: int, id: usize) -> bool {
    exists|k: int| 0 <= k < n && k < list.len() && #[trigger] list[k] == id
}

/// Whether the log has acknowledged the frame of page `id` in a commit or
/// a flush that is still in progress. Such a page is still in the dirty
/// set, which is emptied when the last frame is acknowledged, but it is no
/// longer dirty.
pub open spec fn is_acked(v: PagerView, id: usize) -> bool {
    in_prefix(v.commit_pages, commit_progress(v), id) || in_prefix(
        v.flush_pages,
        flush_progress(v),
        id,
    )
}

/// Whether a page is in the cache, loaded and dirty.
pub open spec fn cached_dirty(v: PagerView, id: usize) -> bool {
    &&& pages(v).dom().contains(id)
    &&& pages(v)[id].flags.loaded
    &&& pages(v)[id].flags.dirty
}

/// Whether `p` is the first page of a new database as it is built: the
/// header of a database of one page, whose page size is the size of the
/// page itself, and behind it an empty table leaf.
pub open spec fn is_first_page(p: PageView) -> bool {
    &&& p.contents is Some
    &&& valid_page_size(p.contents->0.buffer.len() as int)
    &&& p == crate::pager_alloc::first_page(p.contents->0.buffer.len() as int)
}

/// What holds of a pager between any two calls.
pub open spec fn wf(v: PagerView) -> bool {
    &&& v.capacity > 0
    &&& distinct_ids(v.cache)
    &&& forall|id: usize| #[trigger] pages(v).dom().contains(id) ==> page_ok(pages(v)[id])
    &&& forall|id: usize| #[trigger]
        v.dirty.contains(id) ==> is_acked(v, id) || cached_dirty(v, id)
    &&& match v.page1_state {
        Page1State::Start => v.db_state != DbState::Initialized,
        Page1State::Writing(p) => v.db_state == DbState::Initializing && p.id == 1 && page_ok(p)
            && p.flags.loaded && is_first_page(p),
        Page1State::Done => v.db_state == DbState::Initialized,
    }
    &&& v.page_size is Some ==> valid_page_size(v.page_size->0 as int)
    &&& match v.commit_state {
        CommitState::AppendFrame { current_page_to_append_idx } => current_page_to_append_idx
            < v.commit_pages.len(),
        CommitState::WaitAppendFrame { current_page_to_append_idx } => current_page_to_append_idx
            < v.commit_pages.len(),
        _ => true,
    }
    &&& match v.flush_state {
        CacheFlushState::AppendFrame { current_page_to_append_idx } => current_page_to_append_idx
            < v.flush_pages.len(),
        CacheFlushState::WaitAppendFrame { current_page_to_append_idx } => current_page_to_append_idx
            < v.flush_pages.len(),
        CacheFlushState::Start => true,
    }
}

/// Whether neither a commit nor a flush is in progress.
pub open spec fn writes_idle(v: PagerView) -> bool {
    v.commit_state == CommitState::Start && v.flush_state == CacheFlushState::Start
}

/// While no commit and no flush is in progress, every page of the dirty
/// set is in the cache, loaded and dirty. While one is in progress, this
/// holds of every page of the dirty set whose frame the log has not
/// acknowledged yet.
pub proof fn lemma_dirty_pages_are_cached(v: PagerView, id: usize)
    requires
        wf(v),
        v.dirty.contains(id),
        writes_idle(v) || !is_acked(v, id),
    ensures
        pages(v).dom().contains(id),
        pages(v)[id].flags.loaded,
        pages(v)[id].flags.dirty,
        pages(v)[id].contents is Some,
{
}

/// `s` with the page that has number `id` replaced by `p`.
pub open spec fn set_page(s: Seq<PageView>, id: usize, p: PageView) -> Seq<PageView> {
    s.update(crate::page_cache::index_of(s, id), p)
}

/// The pages of an emptied cache.
pub proof fn lemma_by_id_empty()
    ensures
        by_id(Seq::<PageView>::empty()).dom() == Set::<usize>::empty(),
        distinct_ids(Seq::<PageView>::empty()),
{
    assert(by_id(Seq::<PageView>::empty()).dom() =~= Set::<usize>::empty());
}

/// Clearing the dirty flag of every page keeps the pages in their places.
pub proof fn lemma_by_id_without_dirty(s: Seq<PageView>)
    requires
        distinct_ids(s),
    ensures
        distinct_ids(s.map_values(|p: PageView| without_dirty(p))),
        by_id(s.map_values(|p: PageView| without_dirty(p))).dom() == by_id(s).dom(),
        forall|id: usize| #[trigger]
            by_id(s).dom().contains(id) ==> by_id(s.map_values(|p: PageView| without_dirty(p)))[id]
                == without_dirty(by_id(s)[id]),
{
    let t = s.map_values(|p: PageView| without_dirty(p));
    assert forall|i: int, j: int| 0 <= i < j < t.len() implies t[i].id != t[j].id by {
        assert(s[i].id != s[j].id);
    }
    assert forall|id: usize| by_id(t).dom().contains(id) <==> by_id(s).dom().contains(id) by {
        if has_id(t, id) {
            let k = choose|k: int| 0 <= k < t.len() && #[trigger] t[k].id == id;
            assert(s[k].id == id);
        }
        if has_id(s, id) {
            let k = choose|k: int| 0 <= k < s.len() && #[trigger] s[k].id == id;
            assert(t[k].id == id);
        }
    }
    assert(by_id(t).dom() =~= by_id(s).dom());
    assert forall|id: usize| #[trigger] by_id(s).dom().contains(id) implies by_id(t)[id]
        == without_dirty(by_id(s)[id]) by {
        let k = choose|k: int| 0 <= k < s.len() && #[trigger] s[k].id == id;
        lemma_by_id_at(s, k);
        lemma_by_id_at(t, k);
    }
}

/// A page may change in its place as long as it keeps its number and the
/// rules for a page, and stays loaded and dirty if the dirty set counts on it.
pub proof fn lemma_wf_set_page(v: PagerView, i: int, p: PageView)
    requires
        wf(v),
        0 <= i < v.cache.len(),
        p.id == v.cache[i].id,
        page_ok(p),
        v.dirty.contains(p.id) ==> is_acked(v, p.id) || (p.flags.dirty && p.flags.loaded),
    ensures
        crate::page_cache::index_of(v.cache, p.id) == i,
        pages(v).dom().contains(p.id),
        pages(v)[p.id] == v.cache[i],
        wf(PagerView { cache: v.cache.update(i, p), ..v }),
        pages(PagerView { cache: v.cache.update(i, p), ..v }) == pages(v).insert(p.id, p),
{
    lemma_by_id_at(v.cache, i);
    lemma_by_id_update(v.cache, i, p);
    let w = PagerView { cache: v.cache.update(i, p), ..v };
    assert forall|id: usize| #[trigger] w.dirty.contains(id) implies is_acked(w, id)
        || cached_dirty(w, id) by {
        if is_acked(v, id) {
            assert(is_acked(w, id));
        } else {
            assert(cached_dirty(v, id));
        }
    }
}

/// The cache may drop pages and take one in as long as the new page keeps
/// the rules for a page: no page of the dirty set is among those dropped.
pub proof fn lemma_wf_admitted(v: PagerView, cache: Seq<PageView>, p: PageView)
    requires
        wf(v),
        distinct_ids(cache),
        crate::page_cache::admitted(pages(v), by_id(cache), p),
        page_ok(p),
    ensures
        wf(PagerView { cache, ..v }),
{
    let w = PagerView { cache, ..v };
    assert forall|id: usize| #[trigger] pages(w).dom().contains(id) implies page_ok(
        pages(w)[id],
    ) by {
        if id != p.id {
            assert(by_id(cache).remove(p.id).dom().contains(id));
        }
    }
    assert forall|id: usize| #[trigger] w.dirty.contains(id) implies is_acked(w, id)
        || cached_dirty(w, id) by {
        if is_acked(v, id) {
            assert(is_acked(w, id));
        } else {
            assert(cached_dirty(v, id));
            assert(!crate::page::evictable(pages(v)[id]));
            assert(by_id(cache).remove(p.id).dom().contains(id));
        }
    }
}

/// The cache may drop pages that are neither dirty nor pinned nor locked.
pub proof fn lemma_wf_dropped(v: PagerView, cache: Seq<PageView>, capacity: usize)
    requires
        wf(v),
        distinct_ids(cache),
        capacity > 0,
        crate::page_cache::kept_or_dropped(pages(v), by_id(cache)),
    ensures
        wf(PagerView { cache, capacity, ..v }),
{
    let w = PagerView { cache, capacity, ..v };
    assert forall|id: usize| #[trigger] w.dirty.contains(id) implies is_acked(w, id)
        || cached_dirty(w, id) by {
        if is_acked(v, id) {
            assert(is_acked(w, id));
        } else {
            assert(cached_dirty(v, id));
            assert(!crate::page::evictable(pages(v)[id]));
        }
    }
}

/// The order of use is free.
pub proof fn lemma_wf_same_pages(v: PagerView, cache: Seq<PageView>)
    requires
        wf(v),
        distinct_ids(cache),
        by_id(cache) == pages(v),
    ensures
        wf(PagerView { cache, ..v }),
{
    let w = PagerView { cache, ..v };
    assert forall|id: usize| #[trigger] w.dirty.contains(id) implies is_acked(w, id)
        || cached_dirty(w, id) by {
        if !is_acked(v, id) {
            assert(cached_dirty(v, id));
        }
    }
}

/// What keeps the bytes of page `id` from being used, if anything: the
/// page has to be brought into the cache, or its read is still in flight.
pub open spec fn page_wait(v: PagerView, id: usize) -> Option<IoRequest> {
    if !pages(v).dom().contains(id) {
        Some(IoRequest::LoadPage { page_idx: id })
    } else if pages(v)[id].flags.locked || !pages(v)[id].flags.loaded {
        Some(IoRequest::WaitPage { page_idx: id })
    } else {
        None
    }
}

/// The bytes of the cached page `id`.
pub open spec fn page_bytes(v: PagerView, id: usize) -> Seq<u8> {
    pages(v)[id].contents->0.buffer
}

/// The bytes of the first page, which begin with the database header.
pub open spec fn header(v: PagerView) -> Seq<u8> {
    page_bytes(v, 1)
}

/// One of the four-byte fields of the database header.
pub open spec fn header_u32(v: PagerView, field: usize) -> u32 {
    spec_read_u32(header(v), field as int) as u32
}

/// `p` with `data` written over its bytes from `at` on.
pub open spec fn with_bytes(p: PageView, at: int, data: Seq<u8>) -> PageView {
    PageView {
        contents: Some(
            PageContentView { buffer: splice(p.contents->0.buffer, at, data), ..p.contents->0 },
        ),
        ..p
    }
}

/// `p` with its dirty flag set.
pub open spec fn with_dirty(p: PageView) -> PageView {
    PageView { flags: FlagSet { dirty: true, ..p.flags }, ..p }
}

/// The pager after page `id` was marked dirty.
pub open spec fn mark_dirty(v: PagerView, id: usize) -> PagerView {
    PagerView {
        cache: set_page(v.cache, id, with_dirty(pages(v)[id])),
        dirty: v.dirty.insert(id),
        ..v
    }
}

/// The pager after `data` was written into page `id` from `at` on, which
/// marks the page dirty.
pub open spec fn write_page(v: PagerView, id: usize, at: int, data: Seq<u8>) -> PagerView {
    PagerView {
        cache: set_page(v.cache, id, with_dirty(with_bytes(pages(v)[id], at, data))),
        dirty: v.dirty.insert(id),
        ..v
    }
}

/// The pager after a four-byte field of the database header was set.
pub open spec fn set_header_u32(v: PagerView, field: usize, value: u32) -> PagerView {
    write_page(v, 1, field as int, u32_be_bytes(value))
}

/// A page that is written to becomes dirty and enters the dirty set.
pub proof fn lemma_wf_write_page(v: PagerView, i: int, at: int, data: Seq<u8>)
    requires
        wf(v),
        0 <= i < v.cache.len(),
        v.cache[i].flags.loaded,
    ensures
        pages(v).dom().contains(v.cache[i].id),
        pages(v)[v.cache[i].id] == v.cache[i],
        write_page(v, v.cache[i].id, at, data) == (PagerView {
            cache: v.cache.update(i, with_dirty(with_bytes(v.cache[i], at, data))),
            dirty: v.dirty.insert(v.cache[i].id),
            ..v
        }),
        wf(write_page(v, v.cache[i].id, at, data)),
        pages(write_page(v, v.cache[i].id, at, data)) == pages(v).insert(
            v.cache[i].id,
            with_dirty(with_bytes(v.cache[i], at, data)),
        ),
        mark_dirty(v, v.cache[i].id) == (PagerView {
            cache: v.cache.update(i, with_dirty(v.cache[i])),
            dirty: v.dirty.insert(v.cache[i].id),
            ..v
        }),
        wf(mark_dirty(v, v.cache[i].id)),
        pages(mark_dirty(v, v.cache[i].id)) == pages(v).insert(
            v.cache[i].id,
            with_dirty(v.cache[i]),
        ),
{
    let id = v.cache[i].id;
    lemma_by_id_at(v.cache, i);
    assert(page_ok(v.cache[i]));
    let p = with_dirty(with_bytes(v.cache[i], at, data));
    lemma_wf_set_page(v, i, p);
    lemma_wf_insert_dirty(PagerView { cache: v.cache.update(i, p), ..v }, id);
    let q = with_dirty(v.cache[i]);
    lemma_wf_set_page(v, i, q);
    lemma_wf_insert_dirty(PagerView { cache: v.cache.update(i, q), ..v }, id);
}

/// A page that is cached, loaded and dirty may enter the dirty set.
pub proof fn lemma_wf_insert_dirty(v: PagerView, id: usize)
    requires
        wf(v),
        cached_dirty(v, id),
    ensures
        wf(PagerView { dirty: v.dirty.insert(id), ..v }),
{
    let w = PagerView { dirty: v.dirty.insert(id), ..v };
    assert forall|k: usize| #[trigger] w.dirty.contains(k) implies is_acked(w, k) || cached_dirty(
        w,
        k,
    ) by {
        if k != id {
            assert(v.dirty.contains(k));
            if !is_acked(v, k) {
                assert(cached_dirty(v, k));
            }
        }
    }
}

/// A page that is loaded and dirty and keeps the rules for a page may
/// take the place of the page that is cached under its number.
pub proof fn lemma_wf_replaced(v: PagerView, cache: Seq<PageView>, p: PageView)
    requires
        wf(v),
        distinct_ids(cache),
        by_id(cache) == pages(v).insert(p.id, p),
        page_ok(p),
        p.flags.dirty,
        p.flags.loaded,
    ensures
        wf(PagerView { cache, ..v }),
{
    let w = PagerView { cache, ..v };
    assert forall|id: usize| #[trigger] w.dirty.contains(id) implies is_acked(w, id)
        || cached_dirty(w, id) by {
        if !is_acked(v, id) {
            assert(cached_dirty(v, id));
        }
    }
}

/// What is not in the rules may change freely.
pub proof fn lemma_wf_frame(v: PagerView, w: PagerView)
    requires
        wf(v),
        w.cache == v.cache,
        w.capacity == v.capacity,
        w.dirty == v.dirty,
        w.commit_state == v.commit_state,
        w.commit_pages == v.commit_pages,
        w.flush_state == v.flush_state,
        w.flush_pages == v.flush_pages,
        w.db_state == v.db_state,
        w.page1_state == v.page1_state,
        w.page_size is Some ==> valid_page_size(w.page_size->0 as int),
    ensures
        wf(w),
{
    assert(pages(w) == pages(v));
    assert forall|id: usize| #[trigger] w.dirty.contains(id) implies is_acked(w, id)
        || cached_dirty(w, id) by {
        if !is_acked(v, id) {
            assert(cached_dirty(v, id));
        }
    }
}

/// With an empty dirty set, every dirty flag may be cleared, and the
/// cache may be emptied.
pub proof fn lemma_wf_cleared(v: PagerView)
    requires
        wf(v),
    ensures
        wf(
            PagerView {
                cache: v.cache.map_values(|p: PageView| without_dirty(p)),
                dirty: Set::empty(),
                ..v
            },
        ),
        wf(PagerView { cache: Seq::empty(), dirty: Set::empty(), ..v }),
{
    lemma_by_id_without_dirty(v.cache);
    lemma_by_id_empty();
    let w = PagerView {
        cache: v.cache.map_values(|p: PageView| without_dirty(p)),
        dirty: Set::empty(),
        ..v
    };
    assert forall|id: usize| #[trigger] pages(w).dom().contains(id) implies page_ok(
        pages(w)[id],
    ) by {
        assert(pages(v).dom().contains(id));
        assert(page_ok(pages(v)[id]));
    }
}

/// A commit or a flush may move on as long as no acknowledgement is forgotten.
pub proof fn lemma_wf_progress(v: PagerView, w: PagerView)
    requires
        wf(v),
        w.cache == v.cache,
        w.capacity == v.capacity,
        w.dirty == v.dirty,
        w.db_state == v.db_state,
        w.page1_state == v.page1_state,
        w.page_size == v.page_size,
        forall|id: usize| v.dirty.contains(id) && #[trigger] is_acked(v, id) ==> is_acked(w, id),
        match w.commit_state {
            CommitState::AppendFrame { current_page_to_append_idx } => current_page_to_append_idx
                < w.commit_pages.len(),
            CommitState::WaitAppendFrame { current_page_to_append_idx } => current_page_to_append_idx
                < w.commit_pages.len(),
            _ => true,
        },
        match w.flush_state {
            CacheFlushState::AppendFrame { current_page_to_append_idx } => current_page_to_append_idx
                < w.flush_pages.len(),
            CacheFlushState::WaitAppendFrame { current_page_to_append_idx } => current_page_to_append_idx
                < w.flush_pages.len(),
            CacheFlushState::Start => true,
        },
    ensures
        wf(w),
{
    assert(pages(w) == pages(v));
    assert forall|id: usize| #[trigger] w.dirty.contains(id) implies is_acked(w, id)
        || cached_dirty(w, id) by {
        if !is_acked(v, id) {
            assert(cached_dirty(v, id));
        }
    }
}

/// With an empty dirty set the commit and the flush may be in any state.
pub proof fn lemma_wf_no_dirty(v: PagerView, w: PagerView)
    requires
        wf(v),
        w.cache == v.cache,
        w.capacity == v.capacity,
        w.dirty == Set::<usize>::empty(),
        w.db_state == v.db_state,
        w.page1_state == v.page1_state,
        w.page_size == v.page_size,
        match w.commit_state {
            CommitState::AppendFrame { current_page_to_append_idx } => current_page_to_append_idx
                < w.commit_pages.len(),
            CommitState::WaitAppendFrame { current_page_to_append_idx } => current_page_to_append_idx
                < w.commit_pages.len(),
            _ => true,
        },
        match w.flush_state {
            CacheFlushState::AppendFrame { current_page_to_append_idx } => current_page_to_append_idx
                < w.flush_pages.len(),
            CacheFlushState::WaitAppendFrame { current_page_to_append_idx } => current_page_to_append_idx
                < w.flush_pages.len(),
            CacheFlushState::Start => true,
        },
    ensures
        wf(w),
{
    assert(pages(w) == pages(v));
}

/// With an empty dirty set, each page may change as long as it keeps its
/// number and the rules for a page.
pub proof fn lemma_wf_map_pages(v: PagerView, f: spec_fn(PageView) -> PageView)
    requires
        wf(v),
        forall|p: PageView| #[trigger] f(p).id == p.id,
        forall|p: PageView| page_ok(p) ==> page_ok(#[trigger] f(p)),
    ensures
        wf(PagerView { cache: v.cache.map_values(f), dirty: Set::empty(), ..v }),
        pages(PagerView { cache: v.cache.map_values(f), dirty: Set::empty(), ..v }).dom() == pages(
            v,
        ).dom(),
        forall|id: usize| #[trigger]
            pages(v).dom().contains(id) ==> by_id(v.cache.map_values(f))[id] == f(pages(v)[id]),
{
    let s = v.cache;
    let t = s.map_values(f);
    let w = PagerView { cache: t, dirty: Set::empty(), ..v };
    assert forall|i: int, j: int| 0 <= i < j < t.len() implies t[i].id != t[j].id by {
        assert(s[i].id != s[j].id);
    }
    assert forall|id: usize| by_id(t).dom().contains(id) <==> by_id(s).dom().contains(id) by {
        if has_id(t, id) {
            let k = choose|k: int| 0 <= k < t.len() && #[trigger] t[k].id == id;
            assert(s[k].id == id);
        }
        if has_id(s, id) {
            let k = choose|k: int| 0 <= k < s.len() && #[trigger] s[k].id == id;
            assert(t[k].id == id);
        }
    }
    assert(by_id(t).dom() =~= by_id(s).dom());
    assert forall|id: usize| #[trigger] by_id(s).dom().contains(id) implies by_id(t)[id] == f(
        by_id(s)[id],
    ) by {
        let k = choose|k: int| 0 <= k < s.len() && #[trigger] s[k].id == id;
        lemma_by_id_at(s, k);
        lemma_by_id_at(t, k);
    }
    assert forall|id: usize| #[trigger] pages(w).dom().contains(id) implies page_ok(
        pages(w)[id],
    ) by {
        assert(pages(v).dom().contains(id));
        assert(page_ok(pages(v)[id]));
    }
}

/// A cache in which nothing is dirty, locked or pinned may be emptied:
/// what is left in the dirty set has been acknowledged by the log.
pub proof fn lemma_wf_emptied(v: PagerView)
    requires
        wf(v),
        crate::page_cache::first_obstacle(v.cache) is None,
    ensures
        wf(PagerView { cache: Seq::empty(), ..v }),
{
    let w = PagerView { cache: Seq::empty(), ..v };
    crate::page_cache::lemma_no_obstacle(v.cache);
    lemma_by_id_empty();
    assert(pages(w).dom() == Set::<usize>::empty());
    assert forall|id: usize| #[trigger] w.dirty.contains(id) implies is_acked(w, id)
        || cached_dirty(w, id) by {
        if !is_acked(v, id) {
            assert(cached_dirty(v, id));
            let k = choose|k: int| 0 <= k < v.cache.len() && #[trigger] v.cache[k].id == id;
            lemma_by_id_at(v.cache, k);
            assert(crate::page::evictable(v.cache[k]));
        }
    }
}

/// The creation of the first page may move on as long as its state and
/// the state of the database agree.
pub proof fn lemma_wf_page1(v: PagerView, db_state: DbState, page1_state: Page1State)
    requires
        wf(v),
        match page1_state {
            Page1State::Start => db_state != DbState::Initialized,
            Page1State::Writing(p) => db_state == DbState::Initializing && p.id == 1 && page_ok(p)
                && p.flags.loaded && is_first_page(p),
            Page1State::Done => db_state == DbState::Initialized,
        },
    ensures
        wf(PagerView { db_state, page1_state, ..v }),
{
    let w = PagerView { db_state, page1_state, ..v };
    assert(pages(w) == pages(v));
    assert forall|id: usize| #[trigger] w.dirty.contains(id) implies is_acked(w, id)
        || cached_dirty(w, id) by {
        if !is_acked(v, id) {
            assert(cached_dirty(v, id));
        }
    }
}

} // verus!
