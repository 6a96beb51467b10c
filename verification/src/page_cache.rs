//! A bounded cache of pages, keyed by page number.
//!
//! The cache keeps its pages in the order of their last use. When a new
//! page needs room, the pages that were used longest ago leave first; a page
//! that is dirty, pinned or locked never leaves.

use vstd::prelude::*;
use crate::error::CacheError;
use crate::page::{evictable, FlagSet, Page, PageView};

verus! {

/// The key of a cached page: its page number.
#[derive(Debug, Clone, Copy, PartialEq, Eq, Structural)]
pub struct PageCacheKey {
    pub pgno: usize,
}

impl PageCacheKey {
    /// The key of the page with number `pgno`.
    pub fn new(pgno: usize) -> (key: Self)
        ensures
            key.pgno == pgno,
    {
        PageCacheKey { pgno }
    }
}

/// Whether a change of capacity could bring the cache down to its new size.
#[derive(Debug, Clone, Copy, PartialEq, Eq, Structural)]
pub enum CacheResizeResult {
    /// The cache holds no more pages than its capacity.
    Done,
    /// The cache still holds more pages than its capacity: the pages over
    /// it are dirty, pinned or locked and leave when they no longer are.
    PendingEvictions,
}

/// No two pages of `s` have the same number.
pub open spec fn distinct_ids(s: Seq<PageView>) -> bool {
    forall|i: int, j: int| 0 <= i < j < s.len() ==> s[i].id != s[j].id
}

/// Whether `s` holds a page with number `id`.
pub open spec fn has_id(s: Seq<PageView>, id: usize) -> bool {
    exists|i: int| 0 <= i < s.len() && #[trigger] s[i].id == id
}

/// The pages of `s` by their numbers.
pub open spec fn by_id(s: Seq<PageView>) -> Map<usize, PageView> {
    Map::new(
        |id: usize| has_id(s, id),
        |id: usize| s[choose|i: int| 0 <= i < s.len() && #[trigger] s[i].id == id],
    )
}

/// How many pages of `s` may be dropped.
pub open spec fn count_evictable(s: Seq<PageView>) -> nat
    decreases s.len(),
{
    if s.len() == 0 {
        0
    } else {
        (if evictable(s[0]) {
            1nat
        } else {
            0nat
        }) + count_evictable(s.drop_first())
    }
}

/// `s` without the first `n` of its pages that may be dropped; without all
/// of those, if there are fewer than `n`. The front of `s` is the page
/// that was used longest ago.
pub open spec fn evict_lru(s: Seq<PageView>, n: nat) -> Seq<PageView>
    decreases s.len(),
{
    if n == 0 || s.len() == 0 {
        s
    } else if evictable(s[0]) {
        evict_lru(s.drop_first(), (n - 1) as nat)
    } else {
        seq![s[0]] + evict_lru(s.drop_first(), n)
    }
}

/// In a sequence without repeated numbers, the page with a given number is
/// the one that `by_id` finds.
pub proof fn lemma_by_id_at(s: Seq<PageView>, i: int)
    requires
        distinct_ids(s),
        0 <= i < s.len(),
    ensures
        by_id(s).dom().contains(s[i].id),
        by_id(s)[s[i].id] == s[i],
{
    let id = s[i].id;
    let j = choose|j: int| 0 <= j < s.len() && #[trigger] s[j].id == id;
    assert(i == j);
}

/// A new page at the end of the sequence is a new entry of the map.
pub proof fn lemma_by_id_push(s: Seq<PageView>, p: PageView)
    requires
        distinct_ids(s),
        !has_id(s, p.id),
    ensures
        distinct_ids(s.push(p)),
        by_id(s.push(p)) == by_id(s).insert(p.id, p),
{
    let t = s.push(p);
    assert(distinct_ids(t)) by {
        assert forall|i: int, j: int| 0 <= i < j < t.len() implies t[i].id != t[j].id by {
            if j == s.len() {
                assert(s[i].id != p.id);
            }
        }
    }
    assert forall|id: usize| by_id(t).dom().contains(id) <==> by_id(s).insert(p.id, p).dom().contains(
        id,
    ) by {
        if has_id(t, id) {
            let i = choose|i: int| 0 <= i < t.len() && #[trigger] t[i].id == id;
            if i < s.len() {
                assert(s[i].id == id);
            }
        }
        if has_id(s, id) {
            let i = choose|i: int| 0 <= i < s.len() && #[trigger] s[i].id == id;
            assert(t[i].id == id);
        }
        if id == p.id {
            assert(t[s.len() as int].id == id);
        }
    }
    assert forall|id: usize| by_id(t).dom().contains(id) implies by_id(t)[id] == by_id(s).insert(
        p.id,
        p,
    )[id] by {
        let i = choose|i: int| 0 <= i < t.len() && #[trigger] t[i].id == id;
        lemma_by_id_at(t, i);
        if i < s.len() {
            lemma_by_id_at(s, i);
        }
    }
    assert(by_id(t) =~= by_id(s).insert(p.id, p));
}

/// A page that takes the place of one with the same number takes its place in the map.
pub proof fn lemma_by_id_update(s: Seq<PageView>, i: int, p: PageView)
    requires
        distinct_ids(s),
        0 <= i < s.len(),
        p.id == s[i].id,
    ensures
        distinct_ids(s.update(i, p)),
        by_id(s.update(i, p)) == by_id(s).insert(p.id, p),
{
    let t = s.update(i, p);
    assert(distinct_ids(t)) by {
        assert forall|a: int, b: int| 0 <= a < b < t.len() implies t[a].id != t[b].id by {
            assert(s[a].id != s[b].id);
        }
    }
    assert forall|id: usize| by_id(t).dom().contains(id) <==> by_id(s).insert(p.id, p).dom().contains(
        id,
    ) by {
        if has_id(t, id) {
            let k = choose|k: int| 0 <= k < t.len() && #[trigger] t[k].id == id;
            assert(s[k].id == id);
        }
        if has_id(s, id) {
            let k = choose|k: int| 0 <= k < s.len() && #[trigger] s[k].id == id;
            assert(t[k].id == id);
        }
        if id == p.id {
            assert(t[i].id == id);
        }
    }
    assert forall|id: usize| by_id(t).dom().contains(id) implies by_id(t)[id] == by_id(s).insert(
        p.id,
        p,
    )[id] by {
        let k = choose|k: int| 0 <= k < t.len() && #[trigger] t[k].id == id;
        lemma_by_id_at(t, k);
        lemma_by_id_at(s, k);
    }
    assert(by_id(t) =~= by_id(s).insert(p.id, p));
}

/// A page that leaves the sequence leaves the map.
pub proof fn lemma_by_id_remove(s: Seq<PageView>, i: int)
    requires
        distinct_ids(s),
        0 <= i < s.len(),
    ensures
        distinct_ids(s.remove(i)),
        !has_id(s.remove(i), s[i].id),
        by_id(s.remove(i)) == by_id(s).remove(s[i].id),
{
    let t = s.remove(i);
    assert forall|k: int| 0 <= k < t.len() implies #[trigger] t[k] == s[if k < i {
        k
    } else {
        k + 1
    }] by {}
    assert(distinct_ids(t)) by {
        assert forall|a: int, b: int| 0 <= a < b < t.len() implies t[a].id != t[b].id by {
            let a2 = if a < i {
                a
            } else {
                a + 1
            };
            let b2 = if b < i {
                b
            } else {
                b + 1
            };
            assert(s[a2].id != s[b2].id);
        }
    }
    assert(!has_id(t, s[i].id)) by {
        if has_id(t, s[i].id) {
            let k = choose|k: int| 0 <= k < t.len() && #[trigger] t[k].id == s[i].id;
            let k2 = if k < i {
                k
            } else {
                k + 1
            };
            assert(s[k2].id == s[i].id);
        }
    }
    assert forall|id: usize| by_id(t).dom().contains(id) <==> by_id(s).remove(s[i].id).dom().contains(
        id,
    ) by {
        if has_id(t, id) {
            let k = choose|k: int| 0 <= k < t.len() && #[trigger] t[k].id == id;
            let k2 = if k < i {
                k
            } else {
                k + 1
            };
            assert(s[k2].id == id);
        }
        if has_id(s, id) && id != s[i].id {
            let k = choose|k: int| 0 <= k < s.len() && #[trigger] s[k].id == id;
            let k2 = if k < i {
                k
            } else {
                k - 1
            };
            assert(t[k2].id == id);
        }
    }
    assert forall|id: usize| by_id(t).dom().contains(id) implies by_id(t)[id] == by_id(s).remove(
        s[i].id,
    )[id] by {
        let k = choose|k: int| 0 <= k < t.len() && #[trigger] t[k].id == id;
        let k2 = if k < i {
            k
        } else {
            k + 1
        };
        lemma_by_id_at(t, k);
        lemma_by_id_at(s, k2);
    }
    assert(by_id(t) =~= by_id(s).remove(s[i].id));
}

/// Eviction drops as many pages as it was asked to, or every page that may be dropped.
pub proof fn lemma_evict_len(s: Seq<PageView>, n: nat)
    ensures
        evict_lru(s, n).len() == s.len() - (if n <= count_evictable(s) {
            n
        } else {
            count_evictable(s)
        }),
        count_evictable(s) <= s.len(),
    decreases s.len(),
{
    if s.len() > 0 {
        lemma_evict_len(s.drop_first(), n);
        if n > 0 {
            lemma_evict_len(s.drop_first(), (n - 1) as nat);
        }
    }
}

/// Eviction keeps every page that is dirty, pinned or locked, changes no
/// page that stays, and brings in no page.
pub proof fn lemma_evict_keeps(s: Seq<PageView>, n: nat)
    requires
        distinct_ids(s),
    ensures
        distinct_ids(evict_lru(s, n)),
        forall|id: usize| #[trigger]
            by_id(evict_lru(s, n)).dom().contains(id) ==> by_id(s).dom().contains(id) && by_id(
                evict_lru(s, n),
            )[id] == by_id(s)[id],
        forall|id: usize| #[trigger]
            by_id(s).dom().contains(id) && !evictable(by_id(s)[id]) ==> by_id(
                evict_lru(s, n),
            ).dom().contains(id),
    decreases s.len(),
{
    let r = evict_lru(s, n);
    if n == 0 || s.len() == 0 {
    } else {
        let rest = s.drop_first();
        assert(distinct_ids(rest)) by {
            assert forall|a: int, b: int| 0 <= a < b < rest.len() implies rest[a].id
                != rest[b].id by {
                assert(s[a + 1].id != s[b + 1].id);
            }
        }
        assert(rest =~= s.remove(0));
        lemma_by_id_remove(s, 0);
        lemma_by_id_at(s, 0);
        let m: nat = if evictable(s[0]) {
            (n - 1) as nat
        } else {
            n
        };
        let sub = evict_lru(rest, m);
        lemma_evict_keeps(rest, m);
        if evictable(s[0]) {
            assert(r == sub);
            assert forall|id: usize| #[trigger]
                by_id(s).dom().contains(id) && !evictable(by_id(s)[id]) implies by_id(
                r,
            ).dom().contains(id) by {
                assert(id != s[0].id);
                assert(by_id(rest).dom().contains(id));
                assert(by_id(rest)[id] == by_id(s)[id]);
            }
        } else {
            assert(r =~= seq![s[0]] + sub);
            // `s[0]` heads the result, and its number is not in `sub`.
            assert(!has_id(sub, s[0].id)) by {
                if has_id(sub, s[0].id) {
                    assert(by_id(sub).dom().contains(s[0].id));
                    assert(by_id(rest).dom().contains(s[0].id));
                }
            }
            assert(distinct_ids(r)) by {
                assert forall|a: int, b: int| 0 <= a < b < r.len() implies r[a].id != r[b].id by {
                    if a == 0 {
                        assert(sub[b - 1].id == r[b].id);
                    } else {
                        assert(sub[a - 1].id != sub[b - 1].id);
                    }
                }
            }
            assert forall|id: usize| #[trigger]
                by_id(r).dom().contains(id) implies by_id(s).dom().contains(id) && by_id(r)[id]
                == by_id(s)[id] by {
                let k = choose|k: int| 0 <= k < r.len() && #[trigger] r[k].id == id;
                lemma_by_id_at(r, k);
                if k > 0 {
                    assert(sub[k - 1].id == id);
                    lemma_by_id_at(sub, k - 1);
                    assert(by_id(sub).dom().contains(id));
                }
            }
            assert forall|id: usize| #[trigger]
                by_id(s).dom().contains(id) && !evictable(by_id(s)[id]) implies by_id(
                r,
            ).dom().contains(id) by {
                if id == s[0].id {
                    assert(r[0].id == id);
                } else {
                    assert(by_id(rest).dom().contains(id));
                    assert(by_id(sub).dom().contains(id));
                    let k = choose|k: int| 0 <= k < sub.len() && #[trigger] sub[k].id == id;
                    assert(r[k + 1].id == id);
                }
            }
        }
    }
}

/// Where the page with number `id` stands in `s`.
pub open spec fn index_of(s: Seq<PageView>, id: usize) -> int {
    choose|i: int| 0 <= i < s.len() && #[trigger] s[i].id == id
}

/// `s` after the page with number `id` was used: it moves to the end.
pub open spec fn touch(s: Seq<PageView>, id: usize) -> Seq<PageView> {
    s.remove(index_of(s, id)).push(s[index_of(s, id)])
}

/// How many pages have to leave a cache of `len` pages before one more fits.
pub open spec fn room_needed(len: nat, capacity: usize) -> nat {
    if len >= capacity {
        (len + 1 - capacity) as nat
    } else {
        0
    }
}

/// Whether a cache that holds `s` admits a page with number `id`.
pub open spec fn insert_outcome(s: Seq<PageView>, capacity: usize, id: usize) -> Result<
    (),
    CacheError,
> {
    if has_id(s, id) {
        Err(CacheError::KeyExists)
    } else if count_evictable(s) < room_needed(s.len(), capacity) {
        Err(CacheError::Full)
    } else {
        Ok(())
    }
}

/// What keeps a page in the cache, if anything does.
pub open spec fn obstacle(p: PageView) -> Option<CacheError> {
    if p.flags.locked {
        Some(CacheError::Locked)
    } else if p.flags.dirty {
        Some(CacheError::Dirty)
    } else if p.pin_count > 0 {
        Some(CacheError::Pinned)
    } else {
        None
    }
}

/// What keeps the first page of `s` that cannot be dropped, if there is such a page.
pub open spec fn first_obstacle(s: Seq<PageView>) -> Option<CacheError>
    decreases s.len(),
{
    if s.len() == 0 {
        None
    } else {
        match obstacle(s[0]) {
            Some(e) => Some(e),
            None => first_obstacle(s.drop_first()),
        }
    }
}

/// `p` with its dirty flag cleared.
pub open spec fn without_dirty(p: PageView) -> PageView {
    PageView { flags: FlagSet { dirty: false, ..p.flags }, ..p }
}

/// A cache with a page that is dirty, pinned or locked cannot be emptied.
pub proof fn lemma_obstacle_blocks(s: Seq<PageView>, i: int)
    requires
        0 <= i < s.len(),
        !evictable(s[i]),
    ensures
        first_obstacle(s) is Some,
    decreases s.len(),
{
    if i > 0 && obstacle(s[0]) is None {
        lemma_obstacle_blocks(s.drop_first(), i - 1);
    }
}

/// When no page is dirty any more, only a locked or a pinned page keeps
/// the cache from being emptied.
pub proof fn lemma_obstacle_without_dirty(s: Seq<PageView>)
    ensures
        first_obstacle(s.map_values(|p: PageView| without_dirty(p))) is None || first_obstacle(
            s.map_values(|p: PageView| without_dirty(p)),
        ) == Some(CacheError::Locked) || first_obstacle(
            s.map_values(|p: PageView| without_dirty(p)),
        ) == Some(CacheError::Pinned),
    decreases s.len(),
{
    let t = s.map_values(|p: PageView| without_dirty(p));
    if s.len() > 0 {
        lemma_obstacle_without_dirty(s.drop_first());
        assert(t.drop_first() =~= s.drop_first().map_values(|p: PageView| without_dirty(p)));
    }
}

/// A cache can be emptied if each of its pages may be dropped.
pub proof fn lemma_no_obstacle(s: Seq<PageView>)
    requires
        first_obstacle(s) is None,
    ensures
        forall|i: int| 0 <= i < s.len() ==> evictable(#[trigger] s[i]),
    decreases s.len(),
{
    if s.len() > 0 {
        lemma_no_obstacle(s.drop_first());
        assert forall|i: int| 0 <= i < s.len() implies evictable(#[trigger] s[i]) by {
            if i > 0 {
                assert(s[i] == s.drop_first()[i - 1]);
            }
        }
    }
}

/// How the pages after a call relate to the pages before it, when some may
/// have been dropped for want of room: no page came in, no page that stayed
/// has changed, and no page that was dirty, pinned or locked has left.
pub open spec fn kept_or_dropped(before: Map<usize, PageView>, after: Map<usize, PageView>) -> bool {
    &&& forall|id: usize| #[trigger]
        after.dom().contains(id) ==> before.dom().contains(id) && after[id] == before[id]
    &&& forall|id: usize| #[trigger]
        before.dom().contains(id) && !evictable(before[id]) ==> after.dom().contains(id)
}

/// How the pages after a call relate to the pages before it, when `page`
/// was admitted: it is there, and the others were kept or dropped.
pub open spec fn admitted(
    before: Map<usize, PageView>,
    after: Map<usize, PageView>,
    page: PageView,
) -> bool {
    &&& after.dom().contains(page.id)
    &&& after[page.id] == page
    &&& !before.dom().contains(page.id)
    &&& kept_or_dropped(before, after.remove(page.id))
}

/// A bounded cache of pages in the order of their last use.
pub struct PageCache {
    capacity: usize,
    /// The page that was used longest ago comes first.
    entries: Vec<Page>,
}

impl View for PageCache {
    type V = Seq<PageView>;

    /// The cached pages; the page that was used longest ago comes first.
    closed spec fn view(&self) -> Seq<PageView> {
        Seq::new(self.entries@.len(), |i: int| self.entries@[i]@)
    }
}

impl PageCache {
    /// The number of pages that the cache is meant to hold at most.
    pub closed spec fn spec_capacity(&self) -> usize {
        self.capacity
    }

    /// The cached pages by their numbers.
    pub open spec fn pages(&self) -> Map<usize, PageView> {
        by_id(self@)
    }

    /// The cache has room for at least one page and holds no page twice.
    pub open spec fn wf(&self) -> bool {
        &&& self.spec_capacity() > 0
        &&& distinct_ids(self@)
    }

    /// An empty cache for `capacity` pages.
    pub fn new(capacity: usize) -> (cache: Self)
        requires
            capacity > 0,
        ensures
            cache.wf(),
            cache@ == Seq::<PageView>::empty(),
            cache.spec_capacity() == capacity,
    {
        let cache = PageCache { capacity, entries: Vec::new() };
        assert(cache@ =~= Seq::<PageView>::empty());
        cache
    }

    /// The number of cached pages.
    pub fn len(&self) -> (n: usize)
        ensures
            n == self@.len(),
    {
        self.entries.len()
    }

    /// The number of pages that the cache is meant to hold at most.
    pub fn capacity(&self) -> (n: usize)
        ensures
            n == self.spec_capacity(),
    {
        self.capacity
    }

    /// Where the page with number `pgno` stands in the order of use.
    pub fn position(&self, pgno: usize) -> (r: Option<usize>)
        ensures
            match r {
                Some(i) => i < self@.len() && self@[i as int].id == pgno,
                None => !has_id(self@, pgno),
            },
    {
        let n: usize = self.entries.len();
        let mut i: usize = 0;
        while i < n
            invariant
                i <= n,
                n == self.entries@.len(),
                forall|k: int| 0 <= k < i ==> (#[trigger] self@[k]).id != pgno,
            decreases n - i,
        {
            if self.entries[i].inner.id == pgno {
                return Some(i);
            }
            i = i + 1;
        }
        None
    }

    /// Whether a page is cached under `key`.
    pub fn contains_key(&self, key: &PageCacheKey) -> (b: bool)
        ensures
            b == self.pages().dom().contains(key.pgno),
    {
        self.position(key.pgno).is_some()
    }

    /// The page cached under `key`. The order of use stays as it is.
    pub fn peek(&self, key: &PageCacheKey) -> (r: Option<&Page>)
        requires
            self.wf(),
        ensures
            match r {
                Some(p) => self.pages().dom().contains(key.pgno) && p@ == self.pages()[key.pgno],
                None => !self.pages().dom().contains(key.pgno),
            },
    {
        match self.position(key.pgno) {
            Some(i) => {
                proof {
                    lemma_by_id_at(self@, i as int);
                }
                Some(&self.entries[i])
            },
            None => None,
        }
    }
    /// The page cached under `key`, which becomes the most recently used.
    pub fn get(&mut self, key: &PageCacheKey) -> (r: Option<&Page>)
        requires
            old(self).wf(),
        ensures
            final(self).wf(),
            final(self).spec_capacity() == old(self).spec_capacity(),
            final(self).pages() == old(self).pages(),
            match r {
                Some(p) => old(self).pages().dom().contains(key.pgno) && p@ == old(self).pages()[key.pgno]
                    && final(self)@ == touch(old(self)@, key.pgno),
                None => !old(self).pages().dom().contains(key.pgno) && final(self)@ == old(
                    self,
                )@,
            },
    {
        match self.position(key.pgno) {
            Some(i) => {
                let ghost before = self@;
                proof {
                    lemma_by_id_at(before, i as int);
                    lemma_by_id_remove(before, i as int);
                    lemma_by_id_push(before.remove(i as int), before[i as int]);
                    assert(index_of(before, key.pgno) == i);
                }
                let page = self.entries.remove(i);
                self.entries.push(page);
                let last: usize = self.entries.len() - 1;
                assert(self@ =~= before.remove(i as int).push(before[i as int]));
                assert(by_id(before).remove(key.pgno).insert(key.pgno, before[i as int]) =~= by_id(
                    before,
                ));
                Some(&self.entries[last])
            },
            None => None,
        }
    }

    /// The page at place `i` of the order of use.
    pub fn page_at(&self, i: usize) -> (page: &Page)
        requires
            i < self@.len(),
        ensures
            page@ == self@[i as int],
    {
        &self.entries[i]
    }

    /// The page at place `i` of the order of use, to be changed. The cache
    /// holds what the page holds when the caller lets go of it; the caller
    /// must leave the page its number.
    pub(crate) fn page_at_mut(&mut self, i: usize) -> (page: &mut Page)
        requires
            i < old(self)@.len(),
        ensures
            page@ == old(self)@[i as int],
            final(self)@ == old(self)@.update(i as int, final(page)@),
            final(self).spec_capacity() == old(self).spec_capacity(),
    {
        let ghost before = self.entries@;
        let page = &mut self.entries[i];
        proof {
            assert(Seq::new(before.update(i as int, *final(page)).len(), |k: int| before.update(i as int, *final(page))[k]@)
                =~= Seq::new(before.len(), |k: int| before[k]@).update(i as int, final(page)@));
        }
        page
    }

    fn can_evict(page: &Page) -> (b: bool)
        ensures
            b == evictable(page@),
            b == (obstacle(page@) is None),
    {
        !page.is_dirty() && !page.is_locked() && !page.is_pinned()
    }

    fn count_evictable(&self) -> (n: usize)
        ensures
            n == count_evictable(self@),
    {
        let len: usize = self.entries.len();
        let mut n: usize = 0;
        let mut i: usize = 0;
        assert(self@.subrange(0, len as int) =~= self@);
        while i < len
            invariant
                i <= len,
                len == self@.len(),
                n <= i,
                n + count_evictable(self@.subrange(i as int, len as int)) == count_evictable(self@),
            decreases len - i,
        {
            assert(self@.subrange(i as int, len as int).drop_first() =~= self@.subrange(
                i + 1,
                len as int,
            ));
            if Self::can_evict(&self.entries[i]) {
                n = n + 1;
            }
            i = i + 1;
        }
        n
    }

    /// Drops the first `need` pages that may be dropped.
    fn evict(&mut self, need: usize)
        ensures
            final(self)@ == evict_lru(old(self)@, need as nat),
            final(self).spec_capacity() == old(self).spec_capacity(),
    {
        let mut remaining: usize = need;
        let mut i: usize = 0;
        assert(self@.subrange(0, 0) + evict_lru(self@.subrange(0, self@.len() as int), need as nat)
            =~= evict_lru(self@, need as nat)) by {
            assert(self@.subrange(0, self@.len() as int) =~= self@);
        }
        while i < self.entries.len() && remaining > 0
            invariant
                i <= self.entries@.len(),
                self.capacity == old(self).capacity,
                evict_lru(old(self)@, need as nat) == self@.subrange(0, i as int) + evict_lru(
                    self@.subrange(i as int, self@.len() as int),
                    remaining as nat,
                ),
            decreases self.entries@.len() - i,
        {
            let ghost before = self@;
            let ghost tail = before.subrange(i as int, before.len() as int);
            if Self::can_evict(&self.entries[i]) {
                let _ = self.entries.remove(i);
                remaining = remaining - 1;
                proof {
                    assert(self@ =~= before.remove(i as int));
                    assert(tail.drop_first() =~= self@.subrange(i as int, self@.len() as int));
                    assert(before.subrange(0, i as int) =~= self@.subrange(0, i as int));
                }
            } else {
                i = i + 1;
                proof {
                    assert(tail.drop_first() =~= self@.subrange(i as int, self@.len() as int));
                    assert(before.subrange(0, i - 1) + (seq![tail[0]] + evict_lru(
                        tail.drop_first(),
                        remaining as nat,
                    )) =~= self@.subrange(0, i as int) + evict_lru(
                        self@.subrange(i as int, self@.len() as int),
                        remaining as nat,
                    ));
                }
            }
        }
        proof {
            assert(self@.subrange(0, i as int) + evict_lru(
                self@.subrange(i as int, self@.len() as int),
                remaining as nat,
            ) =~= self@);
        }
    }

    /// Adds a page as the most recently used. Pages that were used longest
    /// ago leave if room is needed; a page that is dirty, pinned or locked
    /// never does. A refused page changes nothing.
    pub fn insert(&mut self, key: PageCacheKey, page: Page) -> (r: Result<(), CacheError>)
        requires
            old(self).wf(),
            key.pgno == page@.id,
        ensures
            final(self).wf(),
            final(self).spec_capacity() == old(self).spec_capacity(),
            r == insert_outcome(old(self)@, old(self).spec_capacity(), key.pgno),
            r is Err ==> final(self)@ == old(self)@,
            r is Ok ==> final(self)@ == evict_lru(
                old(self)@,
                room_needed(old(self)@.len(), old(self).spec_capacity()),
            ).push(page@),
            r is Ok ==> final(self)@.len() <= old(self).spec_capacity(),
            r is Ok ==> admitted(old(self).pages(), final(self).pages(), page@),
    {
        if self.position(key.pgno).is_some() {
            return Err(CacheError::KeyExists);
        }
        self.insert_new(page)
    }

    /// Whether `insert` would take a page under `key` now.
    pub fn check_insert(&self, key: &PageCacheKey) -> (r: Result<(), CacheError>)
        requires
            self.wf(),
        ensures
            r == insert_outcome(self@, self.spec_capacity(), key.pgno),
    {
        if self.position(key.pgno).is_some() {
            return Err(CacheError::KeyExists);
        }
        let len: usize = self.entries.len();
        let need: usize = if len >= self.capacity {
            len - self.capacity + 1
        } else {
            0
        };
        if self.count_evictable() < need {
            Err(CacheError::Full)
        } else {
            Ok(())
        }
    }

    /// Makes room for a page whose number is not in the cache, and adds it.
    fn insert_new(&mut self, page: Page) -> (r: Result<(), CacheError>)
        requires
            old(self).wf(),
            !has_id(old(self)@, page@.id),
        ensures
            final(self).wf(),
            final(self).spec_capacity() == old(self).spec_capacity(),
            r == insert_outcome(old(self)@, old(self).spec_capacity(), page@.id),
            r is Err ==> final(self)@ == old(self)@,
            r is Ok ==> final(self)@ == evict_lru(
                old(self)@,
                room_needed(old(self)@.len(), old(self).spec_capacity()),
            ).push(page@),
            r is Ok ==> final(self)@.len() <= old(self).spec_capacity(),
            r is Ok ==> admitted(old(self).pages(), final(self).pages(), page@),
    {
        let len: usize = self.entries.len();
        let need: usize = if len >= self.capacity {
            len - self.capacity + 1
        } else {
            0
        };
        if self.count_evictable() < need {
            return Err(CacheError::Full);
        }
        let ghost before = self@;
        proof {
            lemma_evict_len(before, need as nat);
            lemma_evict_keeps(before, need as nat);
            let kept = evict_lru(before, need as nat);
            assert(!has_id(kept, page@.id)) by {
                if has_id(kept, page@.id) {
                    assert(by_id(kept).dom().contains(page@.id));
                }
            }
            lemma_by_id_push(kept, page@);
        }
        self.evict(need);
        self.entries.push(page);
        assert(self@ =~= evict_lru(before, need as nat).push(page@));
        Ok(())
    }

    /// Adds a page as the most recently used, in place of the page that is
    /// cached under its key, if there is one.
    pub fn insert_ignore_existing(&mut self, key: PageCacheKey, page: Page) -> (r: Result<
        (),
        CacheError,
    >)
        requires
            old(self).wf(),
            key.pgno == page@.id,
        ensures
            final(self).wf(),
            final(self).spec_capacity() == old(self).spec_capacity(),
            has_id(old(self)@, key.pgno) ==> r is Ok && final(self)@ == old(self)@.remove(
                index_of(old(self)@, key.pgno),
            ).push(page@) && final(self).pages() == old(self).pages().insert(key.pgno, page@),
            !has_id(old(self)@, key.pgno) ==> r == insert_outcome(
                old(self)@,
                old(self).spec_capacity(),
                key.pgno,
            ) && (r is Ok ==> final(self)@ == evict_lru(
                old(self)@,
                room_needed(old(self)@.len(), old(self).spec_capacity()),
            ).push(page@) && admitted(old(self).pages(), final(self).pages(), page@)),
            r is Err ==> final(self)@ == old(self)@,
    {
        match self.position(key.pgno) {
            Some(i) => {
                let ghost before = self@;
                proof {
                    lemma_by_id_at(before, i as int);
                    lemma_by_id_remove(before, i as int);
                    lemma_by_id_push(before.remove(i as int), page@);
                    assert(index_of(before, key.pgno) == i);
                    assert(by_id(before).remove(key.pgno).insert(key.pgno, page@) =~= by_id(
                        before,
                    ).insert(key.pgno, page@));
                }
                let _ = self.entries.remove(i);
                self.entries.push(page);
                assert(self@ =~= before.remove(i as int).push(page@));
                Ok(())
            },
            None => self.insert_new(page),
        }
    }

    /// Drops the page cached under `key`, unless it is locked, dirty or pinned.
    pub fn delete(&mut self, key: PageCacheKey) -> (r: Result<(), CacheError>)
        requires
            old(self).wf(),
        ensures
            final(self).wf(),
            final(self).spec_capacity() == old(self).spec_capacity(),
            !has_id(old(self)@, key.pgno) ==> r is Ok && final(self)@ == old(self)@,
            has_id(old(self)@, key.pgno) ==> match obstacle(old(self).pages()[key.pgno]) {
                Some(e) => r == Err::<(), CacheError>(e) && final(self)@ == old(self)@,
                None => r is Ok && final(self)@ == old(self)@.remove(index_of(old(self)@, key.pgno))
                    && final(self).pages() == old(self).pages().remove(key.pgno),
            },
    {
        match self.position(key.pgno) {
            Some(i) => {
                proof {
                    lemma_by_id_at(self@, i as int);
                    lemma_by_id_remove(self@, i as int);
                    assert(index_of(self@, key.pgno) == i);
                }
                if self.entries[i].is_locked() {
                    return Err(CacheError::Locked);
                }
                if self.entries[i].is_dirty() {
                    return Err(CacheError::Dirty);
                }
                if self.entries[i].is_pinned() {
                    return Err(CacheError::Pinned);
                }
                let ghost before = self@;
                let _ = self.entries.remove(i);
                assert(self@ =~= before.remove(i as int));
                Ok(())
            },
            None => Ok(()),
        }
    }

    /// Changes the capacity, and drops pages that were used longest ago
    /// until the cache fits it, as far as pages may be dropped.
    pub fn resize(&mut self, capacity: usize) -> (r: CacheResizeResult)
        requires
            old(self).wf(),
            capacity > 0,
        ensures
            final(self).wf(),
            final(self).spec_capacity() == capacity,
            final(self)@ == evict_lru(
                old(self)@,
                if old(self)@.len() > capacity {
                    (old(self)@.len() - capacity) as nat
                } else {
                    0
                },
            ),
            r == if final(self)@.len() <= capacity {
                CacheResizeResult::Done
            } else {
                CacheResizeResult::PendingEvictions
            },
            kept_or_dropped(old(self).pages(), final(self).pages()),
    {
        let len: usize = self.entries.len();
        let need: usize = if len > capacity {
            len - capacity
        } else {
            0
        };
        proof {
            lemma_evict_keeps(self@, need as nat);
        }
        self.capacity = capacity;
        self.evict(need);
        if self.entries.len() <= capacity {
            CacheResizeResult::Done
        } else {
            CacheResizeResult::PendingEvictions
        }
    }

    /// Empties the cache. Fails, and changes nothing, if a page is locked,
    /// dirty or pinned; the error names what keeps the first such page.
    pub fn clear(&mut self) -> (r: Result<(), CacheError>)
        requires
            old(self).wf(),
        ensures
            final(self).wf(),
            final(self).spec_capacity() == old(self).spec_capacity(),
            match first_obstacle(old(self)@) {
                Some(e) => r == Err::<(), CacheError>(e) && final(self)@ == old(self)@,
                None => r is Ok && final(self)@ == Seq::<PageView>::empty(),
            },
    {
        let len: usize = self.entries.len();
        let mut i: usize = 0;
        assert(self@.subrange(0, len as int) =~= self@);
        while i < len
            invariant
                i <= len,
                len == self@.len(),
                *self == *old(self),
                self.wf(),
                first_obstacle(self@) == first_obstacle(self@.subrange(i as int, len as int)),
            decreases len - i,
        {
            assert(self@.subrange(i as int, len as int).drop_first() =~= self@.subrange(
                i + 1,
                len as int,
            ));
            if self.entries[i].is_locked() {
                return Err(CacheError::Locked);
            }
            if self.entries[i].is_dirty() {
                return Err(CacheError::Dirty);
            }
            if self.entries[i].is_pinned() {
                return Err(CacheError::Pinned);
            }
            i = i + 1;
        }
        self.entries.clear();
        assert(self@ =~= Seq::<PageView>::empty());
        Ok(())
    }

    /// Clears the dirty flag of every page.
    pub fn unset_dirty_all_pages(&mut self)
        requires
            old(self).wf(),
        ensures
            final(self).wf(),
            final(self).spec_capacity() == old(self).spec_capacity(),
            final(self)@ == old(self)@.map_values(|p: PageView| without_dirty(p)),
    {
        let len: usize = self.entries.len();
        let mut i: usize = 0;
        while i < len
            invariant
                i <= len,
                len == self@.len(),
                len == old(self)@.len(),
                self.capacity == old(self).capacity,
                forall|k: int| 0 <= k < i ==> #[trigger] self@[k] == without_dirty(old(self)@[k]),
                forall|k: int| i <= k < len ==> #[trigger] self@[k] == old(self)@[k],
            decreases len - i,
        {
            let ghost prev = self@;
            self.entries[i].clear_dirty();
            assert(self@ =~= prev.update(i as int, without_dirty(prev[i as int])));
            i = i + 1;
        }
        assert(self@ =~= old(self)@.map_values(|p: PageView| without_dirty(p)));
        assert(distinct_ids(self@)) by {
            assert forall|a: int, b: int| 0 <= a < b < self@.len() implies self@[a].id
                != self@[b].id by {
                assert(old(self)@[a].id != old(self)@[b].id);
            }
        }
    }
}

} // verus!
