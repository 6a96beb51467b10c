//! One page: its number, its flags, its pins and its bytes.

use vstd::prelude::*;
use crate::bytes::{read_u8, read_u16, read_u32, write_u8, write_u16, write_u32, splice, spec_read_u16, spec_read_u32, u16_be_bytes, u32_be_bytes};

verus! {

/// Page is up-to-date.
pub const PAGE_UPTODATE: usize = 1;

/// Page is locked for I/O to prevent concurrent access.
pub const PAGE_LOCKED: usize = 2;

/// Page had an I/O error.
pub const PAGE_ERROR: usize = 4;

/// Page is dirty. Flush needed.
pub const PAGE_DIRTY: usize = 8;

/// Page's contents are loaded in memory.
pub const PAGE_LOADED: usize = 16;

/// Whether `bit` is set in `flags`.
pub open spec fn has_flag(flags: usize, bit: usize) -> bool {
    flags & bit != 0
}

/// The five flags of one page, apart from the rest of the word that holds them.
#[derive(Clone, Copy, Debug, PartialEq, Eq, Structural)]
pub struct FlagSet {
    pub uptodate: bool,
    pub locked: bool,
    pub error: bool,
    pub dirty: bool,
    pub loaded: bool,
}

/// The flags that the word `flags` stands for.
pub open spec fn flag_set(flags: usize) -> FlagSet {
    FlagSet {
        uptodate: has_flag(flags, PAGE_UPTODATE),
        locked: has_flag(flags, PAGE_LOCKED),
        error: has_flag(flags, PAGE_ERROR),
        dirty: has_flag(flags, PAGE_DIRTY),
        loaded: has_flag(flags, PAGE_LOADED),
    }
}

proof fn lemma_set_flags(f: usize)
    ensures
        flag_set(f | PAGE_UPTODATE) == (FlagSet { uptodate: true, ..flag_set(f) }),
        flag_set(f | PAGE_LOCKED) == (FlagSet { locked: true, ..flag_set(f) }),
        flag_set(f | PAGE_ERROR) == (FlagSet { error: true, ..flag_set(f) }),
        flag_set(f | PAGE_DIRTY) == (FlagSet { dirty: true, ..flag_set(f) }),
        flag_set(f | PAGE_LOADED) == (FlagSet { loaded: true, ..flag_set(f) }),
{
    assert(forall|b: usize, c: usize|
        (b == 1 || b == 2 || b == 4 || b == 8 || b == 16) && (c == 1 || c == 2 || c == 4 || c == 8
            || c == 16) ==> (#[trigger] ((f | b) & c) != 0) == (b == c || f & c != 0))
        by (bit_vector);
}


proof fn lemma_clear_flags(f: usize)
    ensures
        flag_set(f & !PAGE_UPTODATE) == (FlagSet { uptodate: false, ..flag_set(f) }),
        flag_set(f & !PAGE_LOCKED) == (FlagSet { locked: false, ..flag_set(f) }),
        flag_set(f & !PAGE_ERROR) == (FlagSet { error: false, ..flag_set(f) }),
        flag_set(f & !PAGE_DIRTY) == (FlagSet { dirty: false, ..flag_set(f) }),
        flag_set(f & !PAGE_LOADED) == (FlagSet { loaded: false, ..flag_set(f) }),
{
    assert(forall|b: usize, c: usize|
        (b == 1 || b == 2 || b == 4 || b == 8 || b == 16) && (c == 1 || c == 2 || c == 4 || c == 8
            || c == 16) ==> (#[trigger] ((f & !b) & c) != 0) == (b != c && f & c != 0))
        by (bit_vector);
}

proof fn lemma_no_flags()
    ensures
        flag_set(0) == (FlagSet {
            uptodate: false,
            locked: false,
            error: false,
            dirty: false,
            loaded: false,
        }),
{
    assert(forall|c: usize| #[trigger] (0usize & c) == 0) by (bit_vector);
}

/// The kind of B-tree node that a page holds, as its first content byte says.
#[derive(Clone, Copy, Debug, PartialEq, Eq, Structural)]
pub enum PageType {
    IndexInterior,
    TableInterior,
    IndexLeaf,
    TableLeaf,
}

/// The byte that stands for each page type.
pub open spec fn page_type_byte(t: PageType) -> u8 {
    match t {
        PageType::IndexInterior => 2,
        PageType::TableInterior => 5,
        PageType::IndexLeaf => 10,
        PageType::TableLeaf => 13,
    }
}

/// The page type that a byte stands for, if any.
pub open spec fn page_type_of(b: u8) -> Option<PageType> {
    if b == 2 {
        Some(PageType::IndexInterior)
    } else if b == 5 {
        Some(PageType::TableInterior)
    } else if b == 10 {
        Some(PageType::IndexLeaf)
    } else if b == 13 {
        Some(PageType::TableLeaf)
    } else {
        None
    }
}

impl PageType {
    /// The byte that stands for this type on disk.
    pub fn to_u8(self) -> (b: u8)
        ensures
            b == page_type_byte(self),
            page_type_of(b) == Some(self),
    {
        match self {
            PageType::IndexInterior => 2,
            PageType::TableInterior => 5,
            PageType::IndexLeaf => 10,
            PageType::TableLeaf => 13,
        }
    }

    /// The type that a byte stands for; `None` for any byte but 2, 5, 10 and 13.
    pub fn from_u8(b: u8) -> (t: Option<PageType>)
        ensures
            t == page_type_of(b),
    {
        if b == 2 {
            Some(PageType::IndexInterior)
        } else if b == 5 {
            Some(PageType::TableInterior)
        } else if b == 10 {
            Some(PageType::IndexLeaf)
        } else if b == 13 {
            Some(PageType::TableLeaf)
        } else {
            None
        }
    }
}

/// A cell that did not fit into its page while the tree above is rebalanced.
pub struct OverflowCell {
    pub index: usize,
    pub payload: Vec<u8>,
}

/// The bytes of a page. `offset` is where the page's own content starts:
/// 100 on the first page, behind the database header, and 0 elsewhere.
pub struct PageContent {
    pub offset: usize,
    pub buffer: Vec<u8>,
    pub overflow_cells: Vec<OverflowCell>,
}

/// What a `PageContent` holds.
pub struct PageContentView {
    pub offset: usize,
    pub buffer: Seq<u8>,
    pub overflow_cells: Seq<(usize, Seq<u8>)>,
}

impl View for PageContent {
    type V = PageContentView;

    open spec fn view(&self) -> PageContentView {
        PageContentView {
            offset: self.offset,
            buffer: self.buffer@,
            overflow_cells: Seq::new(
                self.overflow_cells@.len(),
                |i: int| (self.overflow_cells@[i].index, self.overflow_cells@[i].payload@),
            ),
        }
    }
}

impl PageContent {
    /// Content that starts at `offset` in `buffer`, with no overflow cells.
    pub fn new(offset: usize, buffer: Vec<u8>) -> (c: Self)
        ensures
            c@ == (PageContentView { offset, buffer: buffer@, overflow_cells: Seq::empty() }),
    {
        let c = PageContent { offset, buffer, overflow_cells: Vec::new() };
        assert(c@.overflow_cells =~= Seq::empty());
        c
    }

    /// The whole buffer, the part before `offset` included.
    pub fn as_slice(&self) -> (s: &[u8])
        ensures
            s@ == self@.buffer,
    {
        self.buffer.as_slice()
    }

    /// The byte at `pos` of the content.
    pub fn read_u8(&self, pos: usize) -> (v: u8)
        requires
            self.offset + pos < self.buffer.len(),
        ensures
            v == self@.buffer[self.offset + pos],
    {
        read_u8(&self.buffer, self.offset + pos)
    }

    /// The big-endian `u16` at `pos` of the content.
    pub fn read_u16(&self, pos: usize) -> (v: u16)
        requires
            self.offset + pos + 2 <= self.buffer.len(),
        ensures
            v == spec_read_u16(self@.buffer, self.offset + pos),
    {
        read_u16(&self.buffer, self.offset + pos)
    }

    /// The big-endian `u32` at `pos` of the content.
    pub fn read_u32(&self, pos: usize) -> (v: u32)
        requires
            self.offset + pos + 4 <= self.buffer.len(),
        ensures
            v == spec_read_u32(self@.buffer, self.offset + pos),
    {
        read_u32(&self.buffer, self.offset + pos)
    }

    /// Sets the byte at `pos` of the content.
    pub fn write_u8(&mut self, pos: usize, v: u8)
        requires
            old(self).offset + pos < old(self).buffer.len(),
        ensures
            final(self)@ == (PageContentView {
                buffer: splice(old(self)@.buffer, old(self).offset + pos, seq![v]),
                ..old(self)@
            }),
    {
        write_u8(&mut self.buffer, self.offset + pos, v);
    }

    /// Sets the big-endian `u16` at `pos` of the content.
    pub fn write_u16(&mut self, pos: usize, v: u16)
        requires
            old(self).offset + pos + 2 <= old(self).buffer.len(),
        ensures
            final(self)@ == (PageContentView {
                buffer: splice(old(self)@.buffer, old(self).offset + pos, u16_be_bytes(v)),
                ..old(self)@
            }),
    {
        write_u16(&mut self.buffer, self.offset + pos, v);
    }

    /// Sets the big-endian `u32` at `pos` of the content.
    pub fn write_u32(&mut self, pos: usize, v: u32)
        requires
            old(self).offset + pos + 4 <= old(self).buffer.len(),
        ensures
            final(self)@ == (PageContentView {
                buffer: splice(old(self)@.buffer, old(self).offset + pos, u32_be_bytes(v)),
                ..old(self)@
            }),
    {
        write_u32(&mut self.buffer, self.offset + pos, v);
    }

    /// The page type that the first content byte names, if it names one.
    pub fn maybe_page_type(&self) -> (t: Option<PageType>)
        ensures
            t == content_page_type(self@),
    {
        if self.offset < self.buffer.len() {
            PageType::from_u8(self.read_u8(0))
        } else {
            None
        }
    }

    /// The page type that the first content byte names.
    pub fn page_type(&self) -> (t: PageType)
        requires
            content_page_type(self@) is Some,
        ensures
            Some(t) == content_page_type(self@),
    {
        match self.maybe_page_type() {
            Some(t) => t,
            None => vstd::pervasive::unreached(),
        }
    }
}

/// The page type that content names in its first byte, if that byte exists and names one.
pub open spec fn content_page_type(c: PageContentView) -> Option<PageType> {
    if c.offset < c.buffer.len() {
        page_type_of(c.buffer[c.offset as int])
    } else {
        None
    }
}

/// The fields of a page.
pub struct PageInner {
    pub flags: usize,
    pub contents: Option<PageContent>,
    pub id: usize,
    pub pin_count: usize,
}

/// A page of the database, as the cache holds it.
pub struct Page {
    pub inner: PageInner,
}

/// What a `Page` holds.
pub struct PageView {
    pub id: usize,
    pub flags: FlagSet,
    pub pin_count: usize,
    pub contents: Option<PageContentView>,
}

impl View for Page {
    type V = PageView;

    open spec fn view(&self) -> PageView {
        PageView {
            id: self.inner.id,
            flags: flag_set(self.inner.flags),
            pin_count: self.inner.pin_count,
            contents: match self.inner.contents {
                Some(c) => Some(c@),
                None => None,
            },
        }
    }
}

/// The rules that tie the flags of a page to each other and to its bytes:
/// a loaded page has bytes, and a dirty page is loaded.
pub open spec fn flags_consistent(p: PageView) -> bool {
    &&& p.flags.loaded ==> p.contents is Some
    &&& p.flags.dirty ==> p.flags.loaded
}

/// Whether the cache may drop the page: it is neither dirty nor pinned,
/// and no I/O is in flight on it.
pub open spec fn evictable(p: PageView) -> bool {
    !p.flags.dirty && !p.flags.locked && p.pin_count == 0
}

impl Page {
    /// A page with number `id`, no flag set, no pin and no bytes.
    pub fn new(id: usize) -> (p: Self)
        ensures
            p@ == (PageView {
                id,
                flags: FlagSet {
                    uptodate: false,
                    locked: false,
                    error: false,
                    dirty: false,
                    loaded: false,
                },
                pin_count: 0,
                contents: None,
            }),
    {
        proof {
            lemma_no_flags();
        }
        Page { inner: PageInner { flags: 0, contents: None, id, pin_count: 0 } }
    }

    /// The five flags of the page.
    pub fn flags(&self) -> (flags: FlagSet)
        ensures
            flags == self@.flags,
    {
        FlagSet {
            uptodate: self.is_uptodate(),
            locked: self.is_locked(),
            error: self.is_error(),
            dirty: self.is_dirty(),
            loaded: self.is_loaded(),
        }
    }

    /// The fields of the page.
    pub fn get(&self) -> (inner: &PageInner)
        ensures
            *inner == self.inner,
    {
        &self.inner
    }

    /// The bytes of the page.
    pub fn get_contents(&self) -> (c: &PageContent)
        requires
            self@.contents is Some,
        ensures
            Some(c@) == self@.contents,
    {
        match &self.inner.contents {
            Some(c) => c,
            None => vstd::pervasive::unreached(),
        }
    }

    /// Whether the page is up to date: its bytes are what the database holds.
    pub fn is_uptodate(&self) -> (b: bool)
        ensures
            b == self@.flags.uptodate,
    {
        self.inner.flags & PAGE_UPTODATE != 0
    }

    /// Marks the page as up to date. The other flags stay as they are.
    pub fn set_uptodate(&mut self)
        ensures
            final(self)@ == (PageView {
                flags: FlagSet { uptodate: true, ..old(self)@.flags },
                ..old(self)@
            }),
    {
        proof {
            lemma_set_flags(self.inner.flags);
        }
        self.inner.flags = self.inner.flags | PAGE_UPTODATE;
    }

    /// Marks the page as not up to date. The other flags stay as they are.
    pub fn clear_uptodate(&mut self)
        ensures
            final(self)@ == (PageView {
                flags: FlagSet { uptodate: false, ..old(self)@.flags },
                ..old(self)@
            }),
    {
        proof {
            lemma_clear_flags(self.inner.flags);
        }
        self.inner.flags = self.inner.flags & !PAGE_UPTODATE;
    }

    /// Whether the page is locked: I/O is in flight on it.
    pub fn is_locked(&self) -> (b: bool)
        ensures
            b == self@.flags.locked,
    {
        self.inner.flags & PAGE_LOCKED != 0
    }

    /// Marks the page as locked. The other flags stay as they are.
    pub fn set_locked(&mut self)
        ensures
            final(self)@ == (PageView {
                flags: FlagSet { locked: true, ..old(self)@.flags },
                ..old(self)@
            }),
    {
        proof {
            lemma_set_flags(self.inner.flags);
        }
        self.inner.flags = self.inner.flags | PAGE_LOCKED;
    }

    /// Marks the page as not locked. The other flags stay as they are.
    pub fn clear_locked(&mut self)
        ensures
            final(self)@ == (PageView {
                flags: FlagSet { locked: false, ..old(self)@.flags },
                ..old(self)@
            }),
    {
        proof {
            lemma_clear_flags(self.inner.flags);
        }
        self.inner.flags = self.inner.flags & !PAGE_LOCKED;
    }

    /// Whether the page is in error: its last I/O failed.
    pub fn is_error(&self) -> (b: bool)
        ensures
            b == self@.flags.error,
    {
        self.inner.flags & PAGE_ERROR != 0
    }

    /// Marks the page as in error. The other flags stay as they are.
    pub fn set_error(&mut self)
        ensures
            final(self)@ == (PageView {
                flags: FlagSet { error: true, ..old(self)@.flags },
                ..old(self)@
            }),
    {
        proof {
            lemma_set_flags(self.inner.flags);
        }
        self.inner.flags = self.inner.flags | PAGE_ERROR;
    }

    /// Marks the page as not in error. The other flags stay as they are.
    pub fn clear_error(&mut self)
        ensures
            final(self)@ == (PageView {
                flags: FlagSet { error: false, ..old(self)@.flags },
                ..old(self)@
            }),
    {
        proof {
            lemma_clear_flags(self.inner.flags);
        }
        self.inner.flags = self.inner.flags & !PAGE_ERROR;
    }

    /// Whether the page is dirty: its bytes have to be written to the log.
    pub fn is_dirty(&self) -> (b: bool)
        ensures
            b == self@.flags.dirty,
    {
        self.inner.flags & PAGE_DIRTY != 0
    }

    /// Marks the page as dirty. The other flags stay as they are.
    pub fn set_dirty(&mut self)
        ensures
            final(self)@ == (PageView {
                flags: FlagSet { dirty: true, ..old(self)@.flags },
                ..old(self)@
            }),
    {
        proof {
            lemma_set_flags(self.inner.flags);
        }
        self.inner.flags = self.inner.flags | PAGE_DIRTY;
    }

    /// Marks the page as not dirty. The other flags stay as they are.
    pub fn clear_dirty(&mut self)
        ensures
            final(self)@ == (PageView {
                flags: FlagSet { dirty: false, ..old(self)@.flags },
                ..old(self)@
            }),
    {
        proof {
            lemma_clear_flags(self.inner.flags);
        }
        self.inner.flags = self.inner.flags & !PAGE_DIRTY;
    }

    /// Whether the page is loaded: its bytes are in memory.
    pub fn is_loaded(&self) -> (b: bool)
        ensures
            b == self@.flags.loaded,
    {
        self.inner.flags & PAGE_LOADED != 0
    }

    /// Marks the page as loaded. The other flags stay as they are.
    pub fn set_loaded(&mut self)
        ensures
            final(self)@ == (PageView {
                flags: FlagSet { loaded: true, ..old(self)@.flags },
                ..old(self)@
            }),
    {
        proof {
            lemma_set_flags(self.inner.flags);
        }
        self.inner.flags = self.inner.flags | PAGE_LOADED;
    }

    /// Marks the page as not loaded. The other flags stay as they are.
    pub fn clear_loaded(&mut self)
        ensures
            final(self)@ == (PageView {
                flags: FlagSet { loaded: false, ..old(self)@.flags },
                ..old(self)@
            }),
    {
        proof {
            lemma_clear_flags(self.inner.flags);
        }
        self.inner.flags = self.inner.flags & !PAGE_LOADED;
    }

    /// Whether the page is a node of an index tree rather than of a table tree.
    pub fn is_index(&self) -> (b: bool)
        requires
            self@.contents is Some,
            content_page_type(self@.contents->0) is Some,
        ensures
            b == (content_page_type(self@.contents->0) == Some(PageType::IndexLeaf)
                || content_page_type(self@.contents->0) == Some(PageType::IndexInterior)),
    {
        match self.get_contents().page_type() {
            PageType::IndexLeaf | PageType::IndexInterior => true,
            PageType::TableLeaf | PageType::TableInterior => false,
        }
    }

    /// Pin the page to prevent it from being evicted from the page cache.
    pub fn pin(&mut self)
        requires
            old(self)@.pin_count < usize::MAX,
        ensures
            final(self)@ == (PageView {
                pin_count: (old(self)@.pin_count + 1) as usize,
                ..old(self)@
            }),
    {
        self.inner.pin_count = self.inner.pin_count + 1;
    }

    /// Unpin the page to allow it to be evicted from the page cache.
    pub fn unpin(&mut self)
        requires
            old(self)@.pin_count > 0,
        ensures
            final(self)@ == (PageView {
                pin_count: (old(self)@.pin_count - 1) as usize,
                ..old(self)@
            }),
    {
        let was_pinned = self.try_unpin();
        assert(was_pinned);
    }

    /// Try to unpin the page if it's pinned, otherwise do nothing.
    /// Returns true if the page was originally pinned.
    pub fn try_unpin(&mut self) -> (was_pinned: bool)
        ensures
            was_pinned == (old(self)@.pin_count > 0),
            was_pinned ==> final(self)@ == (PageView {
                pin_count: (old(self)@.pin_count - 1) as usize,
                ..old(self)@
            }),
            !was_pinned ==> final(self)@ == old(self)@,
    {
        if self.inner.pin_count == 0 {
            false
        } else {
            self.inner.pin_count = self.inner.pin_count - 1;
            true
        }
    }

    /// Whether the page has a pin, which keeps it in the cache.
    pub fn is_pinned(&self) -> (b: bool)
        ensures
            b == (self@.pin_count > 0),
    {
        self.inner.pin_count > 0
    }
}

/// A loaded page with number `page_id` whose content starts at `offset` in
/// `page_size` zero bytes.
pub fn allocate_page(page_id: usize, page_size: usize, offset: usize) -> (page: Page)
    ensures
        page@ == (PageView {
            id: page_id,
            flags: FlagSet {
                uptodate: false,
                locked: false,
                error: false,
                dirty: false,
                loaded: true,
            },
            pin_count: 0,
            contents: Some(
                PageContentView {
                    offset,
                    buffer: Seq::new(page_size as nat, |i: int| 0u8),
                    overflow_cells: Seq::empty(),
                },
            ),
        }),
{
    let mut page = Page::new(page_id);
    let buffer = crate::bytes::zeroed(page_size);
    page.set_loaded();
    page.inner.contents = Some(PageContent::new(offset, buffer));
    page
}

/// The size of the header that `btree_init_page` writes.
pub const BTREE_HEADER_SIZE: usize = 12;

/// The header of an empty B-tree page: its type, no free block, no cell,
/// the cell content area at the end of the usable space, no fragmented
/// byte, and no right-most child. A usable space of 65536 is written as 0.
pub open spec fn btree_header(page_type: PageType, usable_space: u16) -> Seq<u8> {
    seq![
        page_type_byte(page_type),
        0,
        0,
        0,
        0,
        (usable_space / 256) as u8,
        (usable_space % 256) as u8,
        0,
        0,
        0,
        0,
        0,
    ]
}

/// Content after `btree_init_page`.
pub open spec fn btree_initialized(
    c: PageContentView,
    page_type: PageType,
    offset: usize,
    usable_space: u16,
) -> PageContentView {
    PageContentView {
        offset,
        buffer: splice(c.buffer, offset as int, btree_header(page_type, usable_space)),
        ..c
    }
}

/// Makes the content an empty B-tree page of the given type, whose
/// header starts at `offset`.
pub fn btree_init_page(
    contents: &mut PageContent,
    page_type: PageType,
    offset: usize,
    usable_space: u16,
)
    requires
        offset + BTREE_HEADER_SIZE <= old(contents)@.buffer.len(),
    ensures
        final(contents)@ == btree_initialized(old(contents)@, page_type, offset, usable_space),
{
    contents.offset = offset;
    let header: [u8; 12] = [
        page_type.to_u8(),
        0,
        0,
        0,
        0,
        (usable_space / 256) as u8,
        (usable_space % 256) as u8,
        0,
        0,
        0,
        0,
        0,
    ];
    assert(header@ =~= btree_header(page_type, usable_space));
    crate::bytes::write_bytes(&mut contents.buffer, offset, header.as_slice());
}

} // verus!
