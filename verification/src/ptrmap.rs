//! The pointer map of an auto-vacuumed database.
//!
//! The pointer map is a lookup table that identifies the parent page for
//! each child page in the database file. Every group of pages begins with
//! one pointer-map page, which holds one entry of five bytes for each of the
//! data pages that follow it. The first pointer-map page is page 2.

use vstd::prelude::*;
use vstd::arithmetic::div_mod::{lemma_fundamental_div_mod, lemma_fundamental_div_mod_converse};
use crate::bytes::{spec_read_u32, splice, u32_be_bytes};
use crate::error::{InternalKind, PagerError};

verus! {

/// The size of one pointer-map entry in bytes.
pub const PTRMAP_ENTRY_SIZE: usize = 5;

/// Page 1 is the schema page which contains the database header.
/// Page 2 is the first pointer map page if the database has any pointer map pages.
pub const FIRST_PTRMAP_PAGE_NO: u32 = 2;

/// The smallest page size of the file format.
pub const MIN_PAGE_SIZE: usize = 512;

/// What kind of page an entry describes, and so what its parent number means.
#[derive(Debug, Clone, Copy, PartialEq, Eq, Structural)]
pub enum PtrmapType {
    /// A root page; the parent number is not used.
    RootPage,
    /// An unused page; the parent number is not used.
    FreePage,
    /// The first page of an overflow chain; the parent holds the cell that points to it.
    Overflow1,
    /// A later page of an overflow chain; the parent is the page before it.
    Overflow2,
    /// A B-tree page that is no root; the parent is its parent in the tree.
    BTreeNode,
}

/// The byte that stands for each entry type.
pub open spec fn ptrmap_type_byte(t: PtrmapType) -> u8 {
    match t {
        PtrmapType::RootPage => 1,
        PtrmapType::FreePage => 2,
        PtrmapType::Overflow1 => 3,
        PtrmapType::Overflow2 => 4,
        PtrmapType::BTreeNode => 5,
    }
}

/// The entry type that a byte stands for, if any.
pub open spec fn ptrmap_type_of(b: u8) -> Option<PtrmapType> {
    if b == 1 {
        Some(PtrmapType::RootPage)
    } else if b == 2 {
        Some(PtrmapType::FreePage)
    } else if b == 3 {
        Some(PtrmapType::Overflow1)
    } else if b == 4 {
        Some(PtrmapType::Overflow2)
    } else if b == 5 {
        Some(PtrmapType::BTreeNode)
    } else {
        None
    }
}

impl PtrmapType {
    /// The type that a byte stands for; `None` for any byte outside `1..=5`.
    pub fn from_u8(value: u8) -> (t: Option<Self>)
        ensures
            t == ptrmap_type_of(value),
    {
        match value {
            1 => Some(PtrmapType::RootPage),
            2 => Some(PtrmapType::FreePage),
            3 => Some(PtrmapType::Overflow1),
            4 => Some(PtrmapType::Overflow2),
            5 => Some(PtrmapType::BTreeNode),
            _ => None,
        }
    }

    /// The byte that stands for this type.
    pub fn to_u8(self) -> (b: u8)
        ensures
            b == ptrmap_type_byte(self),
    {
        match self {
            PtrmapType::RootPage => 1,
            PtrmapType::FreePage => 2,
            PtrmapType::Overflow1 => 3,
            PtrmapType::Overflow2 => 4,
            PtrmapType::BTreeNode => 5,
        }
    }
}

/// One entry of the pointer map.
#[derive(Debug, Clone, Copy, PartialEq, Eq, Structural)]
pub struct PtrmapEntry {
    pub entry_type: PtrmapType,
    pub parent_page_no: u32,
}

/// The five bytes of an entry: its type, then its parent, most significant byte first.
pub open spec fn entry_bytes(e: PtrmapEntry) -> Seq<u8> {
    seq![ptrmap_type_byte(e.entry_type)] + u32_be_bytes(e.parent_page_no)
}

/// The entry that the first five bytes of `s` hold, if `s` has five bytes
/// and the first of them names a type.
pub open spec fn parse_entry(s: Seq<u8>) -> Option<PtrmapEntry> {
    if s.len() < PTRMAP_ENTRY_SIZE {
        None
    } else {
        match ptrmap_type_of(s[0]) {
            Some(t) => Some(PtrmapEntry { entry_type: t, parent_page_no: spec_read_u32(s, 1) as u32 }),
            None => None,
        }
    }
}

impl PtrmapEntry {
    /// Writes the entry into the first five bytes of `buffer`. Fails, and
    /// leaves `buffer` alone, if it is shorter than that.
    pub fn serialize(&self, buffer: &mut [u8]) -> (r: Result<(), PagerError>)
        ensures
            old(buffer).len() < PTRMAP_ENTRY_SIZE ==> r == Err::<(), PagerError>(
                PagerError::InternalError(InternalKind::BufferTooSmall),
            ) && final(buffer)@ == old(buffer)@,
            old(buffer).len() >= PTRMAP_ENTRY_SIZE ==> r is Ok && final(buffer)@ == splice(
                old(buffer)@,
                0,
                entry_bytes(*self),
            ),
    {
        if buffer.len() < PTRMAP_ENTRY_SIZE {
            return Err(PagerError::InternalError(InternalKind::BufferTooSmall));
        }
        let v: u32 = self.parent_page_no;
        buffer[0] = self.entry_type.to_u8();
        buffer[1] = (v / 16777216) as u8;
        buffer[2] = ((v / 65536) % 256) as u8;
        buffer[3] = ((v / 256) % 256) as u8;
        buffer[4] = (v % 256) as u8;
        assert(buffer@ =~= splice(old(buffer)@, 0, entry_bytes(*self)));
        Ok(())
    }

    /// Reads an entry from the first five bytes of `buffer`.
    pub fn deserialize(buffer: &[u8]) -> (r: Option<Self>)
        ensures
            r == parse_entry(buffer@),
    {
        if buffer.len() < PTRMAP_ENTRY_SIZE {
            return None;
        }
        let b0: u32 = buffer[1] as u32;
        let b1: u32 = buffer[2] as u32;
        let b2: u32 = buffer[3] as u32;
        let b3: u32 = buffer[4] as u32;
        let parent_page_no: u32 = b0 * 16777216 + b1 * 65536 + b2 * 256 + b3;
        match PtrmapType::from_u8(buffer[0]) {
            Some(entry_type) => Some(PtrmapEntry { entry_type, parent_page_no }),
            None => None,
        }
    }
}

/// An entry that is written and read back is the entry that was written,
/// whatever the buffer held before and holds behind the entry.
pub proof fn lemma_entry_roundtrip(e: PtrmapEntry, buffer: Seq<u8>)
    requires
        buffer.len() >= PTRMAP_ENTRY_SIZE,
    ensures
        parse_entry(entry_bytes(e)) == Some(e),
        parse_entry(splice(buffer, 0, entry_bytes(e))) == Some(e),
{
}

/// How many data pages one pointer-map page maps.
pub open spec fn spec_entries_per_ptrmap_page(page_size: int) -> int {
    page_size / 5
}

/// The distance between one pointer-map page and the next.
pub open spec fn spec_ptrmap_page_cycle_length(page_size: int) -> int {
    page_size / 5 + 1
}

/// The pointer-map page of the group that page `q` lies in.
pub open spec fn spec_ptrmap_page_for(q: int, page_size: int) -> int {
    ((q - 2) / spec_ptrmap_page_cycle_length(page_size)) * spec_ptrmap_page_cycle_length(page_size)
        + 2
}

/// Whether page `q` is a pointer-map page: page 2 is, and every page a whole
/// number of cycles behind it.
pub open spec fn spec_is_ptrmap_page(q: int, page_size: int) -> bool {
    q >= 2 && (q - 2) % spec_ptrmap_page_cycle_length(page_size) == 0
}

/// Calculates how many database pages are mapped by a single pointer map page.
/// This is based on the total page size, as ptrmap pages are filled with entries.
pub fn entries_per_ptrmap_page(page_size: usize) -> (n: usize)
    requires
        page_size >= MIN_PAGE_SIZE,
    ensures
        n == spec_entries_per_ptrmap_page(page_size as int),
{
    page_size / PTRMAP_ENTRY_SIZE
}

/// Calculates the cycle length of pointer map pages
/// The cycle length is the number of database pages that are mapped by a single pointer map page.
pub fn ptrmap_page_cycle_length(page_size: usize) -> (n: usize)
    requires
        page_size >= MIN_PAGE_SIZE,
    ensures
        n == spec_ptrmap_page_cycle_length(page_size as int),
{
    (page_size / PTRMAP_ENTRY_SIZE) + 1
}

/// A pointer-map page is the pointer-map page of its own group, and no other page is.
pub proof fn lemma_ptrmap_page_fixed_point(q: int, page_size: int)
    requires
        q >= 2,
        page_size >= 0,
    ensures
        spec_is_ptrmap_page(q, page_size) <==> spec_ptrmap_page_for(q, page_size) == q,
        2 <= spec_ptrmap_page_for(q, page_size) <= q,
        q - spec_ptrmap_page_for(q, page_size) == (q - 2) % spec_ptrmap_page_cycle_length(
            page_size,
        ),
        q - spec_ptrmap_page_for(q, page_size) <= spec_entries_per_ptrmap_page(page_size),
{
    let g = spec_ptrmap_page_cycle_length(page_size);
    lemma_fundamental_div_mod(q - 2, g);
    assert(g * ((q - 2) / g) == ((q - 2) / g) * g) by (nonlinear_arith);
}

/// Determines if a given page number `db_page_no` (1-indexed) is a pointer map page in a database with autovacuum enabled
pub fn is_ptrmap_page(db_page_no: u32, page_size: usize) -> (b: bool)
    requires
        db_page_no >= 1,
        page_size >= MIN_PAGE_SIZE,
        page_size / 5 < u32::MAX,
    ensures
        b == spec_is_ptrmap_page(db_page_no as int, page_size as int),
        db_page_no == 1 ==> !b,
        db_page_no == 2 ==> b,
{
    //  The first page cannot be a ptrmap page because its for the schema
    if db_page_no == 1 {
        return false;
    }
    if db_page_no == FIRST_PTRMAP_PAGE_NO {
        return true;
    }
    proof {
        lemma_ptrmap_page_fixed_point(db_page_no as int, page_size as int);
    }
    get_ptrmap_page_no_for_db_page(db_page_no, page_size) == db_page_no
}

/// Calculates which pointer map page (1-indexed) contains the entry for `db_page_no_to_query` (1-indexed).
/// `db_page_no_to_query` is the page whose ptrmap entry we are interested in.
pub fn get_ptrmap_page_no_for_db_page(db_page_no_to_query: u32, page_size: usize) -> (p: u32)
    requires
        db_page_no_to_query >= 2,
        page_size >= MIN_PAGE_SIZE,
        page_size / 5 < u32::MAX,
    ensures
        p == spec_ptrmap_page_for(db_page_no_to_query as int, page_size as int),
        spec_is_ptrmap_page(p as int, page_size as int),
        2 <= p <= db_page_no_to_query,
        db_page_no_to_query - p <= spec_entries_per_ptrmap_page(page_size as int),
{
    let group_size: u32 = ptrmap_page_cycle_length(page_size) as u32;
    let effective_page_index: u32 = db_page_no_to_query - FIRST_PTRMAP_PAGE_NO;
    let group_idx: u32 = effective_page_index / group_size;
    proof {
        lemma_ptrmap_page_fixed_point(db_page_no_to_query as int, page_size as int);
        lemma_ptrmap_page_of_ptrmap_page(db_page_no_to_query as int, page_size as int);
        assert((effective_page_index as int / group_size as int) * group_size
            == spec_ptrmap_page_for(db_page_no_to_query as int, page_size as int) - 2);
    }
    (group_idx * group_size) + FIRST_PTRMAP_PAGE_NO
}

/// The page that holds the entry of a page is a pointer-map page.
pub proof fn lemma_ptrmap_page_of_ptrmap_page(q: int, page_size: int)
    requires
        q >= 2,
        page_size >= 0,
    ensures
        spec_is_ptrmap_page(spec_ptrmap_page_for(q, page_size), page_size),
{
    let g = spec_ptrmap_page_cycle_length(page_size);
    let k = (q - 2) / g;
    lemma_fundamental_div_mod(q - 2, g);
    assert(g * k == k * g) by (nonlinear_arith);
    assert(k >= 0) by (nonlinear_arith)
        requires
            q - 2 >= 0,
            g > 0,
            k == (q - 2) / g,
    ;
    lemma_fundamental_div_mod_converse(k * g, g, k, 0);
}

/// Page 1 is never a pointer-map page, and page 2 always is.
pub proof fn lemma_first_pages(page_size: int)
    requires
        page_size >= 0,
    ensures
        !spec_is_ptrmap_page(1, page_size),
        spec_is_ptrmap_page(2, page_size),
{
    let g = spec_ptrmap_page_cycle_length(page_size);
    lemma_fundamental_div_mod_converse(0, g, 0, 0);
}

/// The byte offset, in its pointer-map page, of the entry of page `q`.
pub open spec fn spec_ptrmap_offset(q: int, ptrmap_page_no: int) -> int {
    (q - ptrmap_page_no - 1) * 5
}

/// Calculates the byte offset of the entry for `db_page_no_to_query` (1-indexed)
/// within its pointer map page (`ptrmap_page_no`, 1-indexed).
///
/// Fails if the page is not one of the data pages that follow
/// `ptrmap_page_no` in its group, or is itself a pointer-map page.
pub fn get_ptrmap_offset_in_page(
    db_page_no_to_query: u32,
    ptrmap_page_no: u32,
    page_size: usize,
) -> (r: Result<usize, PagerError>)
    requires
        page_size >= MIN_PAGE_SIZE,
        page_size / 5 < u32::MAX,
    ensures
        !(ptrmap_page_no < db_page_no_to_query <= ptrmap_page_no + spec_entries_per_ptrmap_page(
            page_size as int,
        )) ==> r == Err::<usize, PagerError>(
            PagerError::InternalError(InternalKind::PtrmapNotMapped),
        ),
        ptrmap_page_no < db_page_no_to_query <= ptrmap_page_no + spec_entries_per_ptrmap_page(
            page_size as int,
        ) && spec_is_ptrmap_page(db_page_no_to_query as int, page_size as int) ==> r == Err::<
            usize,
            PagerError,
        >(PagerError::InternalError(InternalKind::PtrmapTarget)),
        ptrmap_page_no < db_page_no_to_query <= ptrmap_page_no + spec_entries_per_ptrmap_page(
            page_size as int,
        ) && !spec_is_ptrmap_page(db_page_no_to_query as int, page_size as int) ==> r == Ok::<
            usize,
            PagerError,
        >(spec_ptrmap_offset(db_page_no_to_query as int, ptrmap_page_no as int) as usize),
        r is Ok ==> r->Ok_0 + PTRMAP_ENTRY_SIZE <= page_size,
{
    // The data pages mapped by `ptrmap_page_no` are:
    // `ptrmap_page_no + 1`, `ptrmap_page_no + 2`, ..., up to `ptrmap_page_no + n_data_pages_per_group`.
    // `db_page_no_to_query` must be one of these.
    let n_data_pages_per_group: u64 = entries_per_ptrmap_page(page_size) as u64;
    let first_data_page_mapped: u64 = ptrmap_page_no as u64 + 1;
    let last_data_page_mapped: u64 = ptrmap_page_no as u64 + n_data_pages_per_group;

    if (db_page_no_to_query as u64) < first_data_page_mapped || (db_page_no_to_query as u64)
        > last_data_page_mapped {
        return Err(PagerError::InternalError(InternalKind::PtrmapNotMapped));
    }
    if is_ptrmap_page(db_page_no_to_query, page_size) {
        return Err(PagerError::InternalError(InternalKind::PtrmapTarget));
    }
    let entry_index_on_page: usize = (db_page_no_to_query as u64 - first_data_page_mapped) as usize;
    Ok(entry_index_on_page * PTRMAP_ENTRY_SIZE)
}

} // verus!
