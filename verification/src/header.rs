//! The database header: the first 100 bytes of page 1.
//!
//! The header is the single source of truth for the sizes of the file. The
//! pager reads and writes six of its fields; the others are written once,
//! when the first page is created.

use vstd::prelude::*;
use crate::bytes::{
    read_u16, read_u32, read_u8, spec_read_u16, spec_read_u32, splice, u32_be_bytes, write_bytes,
};
use crate::bytes::write_u32;
use crate::error::{CorruptKind, PagerError};

verus! {

/// The size of the database header in bytes.
pub const DATABASE_HEADER_SIZE: usize = 100;

/// Where the header holds the page size, in two bytes; 1 stands for 65536.
pub const HEADER_PAGE_SIZE: usize = 16;

/// Where the header holds the bytes reserved at the end of each page, in one byte.
pub const HEADER_RESERVED_SPACE: usize = 20;

/// Where the header holds the size of the database in pages.
pub const HEADER_DATABASE_SIZE: usize = 28;

/// Where the header holds the number of the first free-list trunk page, 0 for none.
pub const HEADER_FREELIST_TRUNK_PAGE: usize = 32;

/// Where the header holds the number of free pages.
pub const HEADER_FREELIST_PAGES: usize = 36;

/// Where the header holds the largest root page of an auto-vacuumed database.
pub const HEADER_LARGEST_ROOT_PAGE: usize = 52;

/// The page size of a database that was given none.
pub const DEFAULT_PAGE_SIZE: u32 = 4096;

/// The largest page size of the file format.
pub const MAX_PAGE_SIZE: u32 = 65536;

/// The smallest usable size of a page.
pub const MIN_USABLE_SPACE: u32 = 480;

/// A page size of the file format: a power of two from 512 to 65536.
pub open spec fn valid_page_size(page_size: int) -> bool {
    page_size == 512 || page_size == 1024 || page_size == 2048 || page_size == 4096 || page_size
        == 8192 || page_size == 16384 || page_size == 32768 || page_size == 65536
}

/// Whether `page_size` is a page size of the file format.
pub fn is_valid_page_size(page_size: u32) -> (b: bool)
    ensures
        b == valid_page_size(page_size as int),
{
    page_size == 512 || page_size == 1024 || page_size == 2048 || page_size == 4096 || page_size
        == 8192 || page_size == 16384 || page_size == 32768 || page_size == 65536
}

/// The page size that a header names, valid or not.
pub open spec fn spec_page_size(header: Seq<u8>) -> int {
    if spec_read_u16(header, HEADER_PAGE_SIZE as int) == 1 {
        65536
    } else {
        spec_read_u16(header, HEADER_PAGE_SIZE as int)
    }
}

/// The bytes of each page that a header leaves to its user: the page size
/// without the reserved space.
pub open spec fn spec_usable_space(header: Seq<u8>) -> int {
    spec_page_size(header) - header[HEADER_RESERVED_SPACE as int]
}

/// Whether a header names a page size of the file format and leaves at
/// least 480 bytes of each page usable.
pub open spec fn valid_sizes(header: Seq<u8>) -> bool {
    valid_page_size(spec_page_size(header)) && spec_usable_space(header) >= MIN_USABLE_SPACE
}

/// The page size that the header names.
pub fn header_page_size(header: &Vec<u8>) -> (r: Result<u32, PagerError>)
    requires
        header.len() >= DATABASE_HEADER_SIZE,
    ensures
        valid_sizes(header@) ==> r == Ok::<u32, PagerError>(spec_page_size(header@) as u32),
        !valid_sizes(header@) ==> r == Err::<u32, PagerError>(
            PagerError::Corrupt(CorruptKind::PageSize),
        ),
{
    let raw: u16 = read_u16(header, HEADER_PAGE_SIZE);
    let page_size: u32 = if raw == 1 {
        MAX_PAGE_SIZE
    } else {
        raw as u32
    };
    let reserved: u32 = read_u8(header, HEADER_RESERVED_SPACE) as u32;
    if is_valid_page_size(page_size) && page_size - reserved >= MIN_USABLE_SPACE {
        Ok(page_size)
    } else {
        Err(PagerError::Corrupt(CorruptKind::PageSize))
    }
}

/// The bytes reserved at the end of each page.
pub fn header_reserved_space(header: &Vec<u8>) -> (r: u8)
    requires
        header.len() >= DATABASE_HEADER_SIZE,
    ensures
        r == header@[HEADER_RESERVED_SPACE as int],
{
    read_u8(header, HEADER_RESERVED_SPACE)
}

/// One of the four-byte fields of the header.
pub fn header_field(header: &Vec<u8>, field: usize) -> (r: u32)
    requires
        header.len() >= DATABASE_HEADER_SIZE,
        field + 4 <= DATABASE_HEADER_SIZE,
    ensures
        r == spec_read_u32(header@, field as int),
{
    read_u32(header, field)
}

/// Sets one of the four-byte fields of the header.
pub fn set_header_field(header: &mut Vec<u8>, field: usize, value: u32)
    requires
        old(header).len() >= DATABASE_HEADER_SIZE,
        field + 4 <= DATABASE_HEADER_SIZE,
    ensures
        final(header)@ == splice(old(header)@, field as int, u32_be_bytes(value)),
{
    write_u32(header, field, value);
}

/// The two bytes that name `page_size` in a header.
pub open spec fn page_size_field(page_size: int) -> int {
    if page_size == 65536 {
        1
    } else {
        page_size
    }
}

/// The header of a new database of one page: the format's magic string,
/// the page size, write-ahead logging for reading and writing, no reserved
/// space, the fixed payload fractions 64, 32 and 32, change counter 1, one
/// page, no free pages, schema format 4, a suggested cache of 500 pages,
/// UTF-8 text, and library version 3.47.0.
pub open spec fn default_header(page_size: int) -> Seq<u8> {
    seq![
        0x53u8, 0x51, 0x4c, 0x69, 0x74, 0x65, 0x20, 0x66, 0x6f, 0x72, 0x6d, 0x61, 0x74, 0x20,
        0x33, 0x00,
        (page_size_field(page_size) / 256) as u8, (page_size_field(page_size) % 256) as u8,
        2, 2, 0, 64, 32, 32,
        0, 0, 0, 1,
        0, 0, 0, 1,
        0, 0, 0, 0,
        0, 0, 0, 0,
        0, 0, 0, 0,
        0, 0, 0, 4,
        0, 0, 0x01, 0xf4,
        0, 0, 0, 0,
        0, 0, 0, 1,
        0, 0, 0, 0,
        0, 0, 0, 0,
        0, 0, 0, 0,
        0, 0, 0, 0, 0, 0, 0, 0, 0, 0, 0, 0, 0, 0, 0, 0, 0, 0, 0, 0,
        0x00, 0x2e, 0x7e, 0x58,
        0x00, 0x2e, 0x7e, 0x58,
    ]
}

/// Writes the header of a new database of one page over the first 100 bytes of `buf`.
pub fn write_default_header(buf: &mut Vec<u8>, page_size: u32)
    requires
        old(buf).len() >= DATABASE_HEADER_SIZE,
        valid_page_size(page_size as int),
    ensures
        final(buf)@ == splice(old(buf)@, 0, default_header(page_size as int)),
{
    let field: u32 = if page_size == MAX_PAGE_SIZE {
        1
    } else {
        page_size
    };
    let header: [u8; 100] = [
        0x53, 0x51, 0x4c, 0x69, 0x74, 0x65, 0x20, 0x66, 0x6f, 0x72, 0x6d, 0x61, 0x74, 0x20,
        0x33, 0x00,
        (field / 256) as u8, (field % 256) as u8,
        2, 2, 0, 64, 32, 32,
        0, 0, 0, 1,
        0, 0, 0, 1,
        0, 0, 0, 0,
        0, 0, 0, 0,
        0, 0, 0, 0,
        0, 0, 0, 4,
        0, 0, 0x01, 0xf4,
        0, 0, 0, 0,
        0, 0, 0, 1,
        0, 0, 0, 0,
        0, 0, 0, 0,
        0, 0, 0, 0,
        0, 0, 0, 0, 0, 0, 0, 0, 0, 0, 0, 0, 0, 0, 0, 0, 0, 0, 0, 0,
        0x00, 0x2e, 0x7e, 0x58,
        0x00, 0x2e, 0x7e, 0x58,
    ];
    assert(header@ =~= default_header(page_size as int));
    write_bytes(buf, 0, header.as_slice());
}

/// A new header names its page size, reserves nothing, and counts one page
/// and no free page.
pub proof fn lemma_default_header(page_size: int)
    requires
        valid_page_size(page_size),
    ensures
        default_header(page_size).len() == DATABASE_HEADER_SIZE,
        spec_page_size(default_header(page_size)) == page_size,
        valid_sizes(default_header(page_size)),
        spec_read_u32(default_header(page_size), HEADER_DATABASE_SIZE as int) == 1,
        spec_read_u32(default_header(page_size), HEADER_FREELIST_TRUNK_PAGE as int) == 0,
        spec_read_u32(default_header(page_size), HEADER_FREELIST_PAGES as int) == 0,
        spec_read_u32(default_header(page_size), HEADER_LARGEST_ROOT_PAGE as int) == 0,
{
}

/// Where page `page_idx` begins in the database file: page 1 at byte 0,
/// and each page behind the one before it. `None` for page 0, which does
/// not exist.
pub fn page_file_offset(page_idx: usize, page_size: u32) -> (r: Option<u64>)
    requires
        page_idx <= u32::MAX,
    ensures
        page_idx == 0 ==> r is None,
        page_idx > 0 ==> r == Some(((page_idx - 1) * page_size) as u64),
{
    if page_idx == 0 {
        None
    } else {
        let index: u64 = (page_idx - 1) as u64;
        assert(index * page_size <= u64::MAX) by (nonlinear_arith)
            requires
                index <= 0xffff_ffff,
                page_size <= 0xffff_ffff,
        ;
        Some(index * page_size as u64)
    }
}

} // verus!
