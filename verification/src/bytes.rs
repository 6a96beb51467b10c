//! Big-endian integers inside byte buffers.

use vstd::prelude::*;

verus! {

/// The big-endian value of the two bytes of `s` that start at `at`.
pub open spec fn spec_read_u16(s: Seq<u8>, at: int) -> int {
    s[at] * 256 + s[at + 1]
}

/// The big-endian value of the four bytes of `s` that start at `at`.
pub open spec fn spec_read_u32(s: Seq<u8>, at: int) -> int {
    s[at] * 16777216 + s[at + 1] * 65536 + s[at + 2] * 256 + s[at + 3]
}

/// The two bytes that hold `v`, most significant first.
pub open spec fn u16_be_bytes(v: u16) -> Seq<u8> {
    seq![(v / 256) as u8, (v % 256) as u8]
}

/// The four bytes that hold `v`, most significant first.
pub open spec fn u32_be_bytes(v: u32) -> Seq<u8> {
    seq![
        (v / 16777216) as u8,
        ((v / 65536) % 256) as u8,
        ((v / 256) % 256) as u8,
        (v % 256) as u8,
    ]
}

/// `s` with the bytes from `at` on replaced by `data`.
pub open spec fn splice(s: Seq<u8>, at: int, data: Seq<u8>) -> Seq<u8> {
    Seq::new(
        s.len(),
        |i: int|
            if at <= i < at + data.len() {
                data[i - at]
            } else {
                s[i]
            },
    )
}

/// Reading back what was written gives the written value.
pub proof fn lemma_read_u32_of_splice(s: Seq<u8>, at: int, v: u32)
    requires
        0 <= at,
        at + 4 <= s.len(),
    ensures
        spec_read_u32(splice(s, at, u32_be_bytes(v)), at) == v,
{
}

/// A write leaves every four-byte field that it does not overlap as it was.
pub proof fn lemma_read_u32_apart(s: Seq<u8>, at: int, data: Seq<u8>, other: int)
    requires
        0 <= other,
        other + 4 <= s.len(),
        other + 4 <= at || at + data.len() <= other,
    ensures
        spec_read_u32(splice(s, at, data), other) == spec_read_u32(s, other),
{
}

/// Reads one byte.
pub fn read_u8(buf: &Vec<u8>, pos: usize) -> (v: u8)
    requires
        pos < buf.len(),
    ensures
        v == buf@[pos as int],
{
    buf[pos]
}

/// Reads a big-endian `u16`.
pub fn read_u16(buf: &Vec<u8>, pos: usize) -> (v: u16)
    requires
        pos + 2 <= buf.len(),
    ensures
        v == spec_read_u16(buf@, pos as int),
{
    let hi: u16 = buf[pos] as u16;
    let lo: u16 = buf[pos + 1] as u16;
    hi * 256 + lo
}

/// Reads a big-endian `u32`.
pub fn read_u32(buf: &Vec<u8>, pos: usize) -> (v: u32)
    requires
        pos + 4 <= buf.len(),
    ensures
        v == spec_read_u32(buf@, pos as int),
{
    let b0: u32 = buf[pos] as u32;
    let b1: u32 = buf[pos + 1] as u32;
    let b2: u32 = buf[pos + 2] as u32;
    let b3: u32 = buf[pos + 3] as u32;
    b0 * 16777216 + b1 * 65536 + b2 * 256 + b3
}

/// Writes one byte.
pub fn write_u8(buf: &mut Vec<u8>, pos: usize, v: u8)
    requires
        pos < old(buf).len(),
    ensures
        final(buf)@ == splice(old(buf)@, pos as int, seq![v]),
{
    buf.set(pos, v);
    assert(buf@ =~= splice(old(buf)@, pos as int, seq![v]));
}

/// Writes a big-endian `u16`.
pub fn write_u16(buf: &mut Vec<u8>, pos: usize, v: u16)
    requires
        pos + 2 <= old(buf).len(),
    ensures
        final(buf)@ == splice(old(buf)@, pos as int, u16_be_bytes(v)),
{
    buf.set(pos, (v / 256) as u8);
    buf.set(pos + 1, (v % 256) as u8);
    assert(buf@ =~= splice(old(buf)@, pos as int, u16_be_bytes(v)));
}

/// Writes a big-endian `u32`.
pub fn write_u32(buf: &mut Vec<u8>, pos: usize, v: u32)
    requires
        pos + 4 <= old(buf).len(),
    ensures
        final(buf)@ == splice(old(buf)@, pos as int, u32_be_bytes(v)),
{
    buf.set(pos, (v / 16777216) as u8);
    buf.set(pos + 1, ((v / 65536) % 256) as u8);
    buf.set(pos + 2, ((v / 256) % 256) as u8);
    buf.set(pos + 3, (v % 256) as u8);
    assert(buf@ =~= splice(old(buf)@, pos as int, u32_be_bytes(v)));
}

/// Copies `data` over the bytes of `buf` from `pos` on.
pub fn write_bytes(buf: &mut Vec<u8>, pos: usize, data: &[u8])
    requires
        pos + data.len() <= old(buf).len(),
    ensures
        final(buf)@ == splice(old(buf)@, pos as int, data@),
{
    let n: usize = data.len();
    let mut i: usize = 0;
    while i < n
        invariant
            i <= n,
            n == data.len(),
            pos + n <= buf.len(),
            buf.len() == old(buf).len(),
            buf@ == splice(old(buf)@, pos as int, data@.subrange(0, i as int)),
        decreases n - i,
    {
        buf.set(pos + i, data[i]);
        i = i + 1;
        assert(buf@ =~= splice(old(buf)@, pos as int, data@.subrange(0, i as int)));
    }
    assert(data@.subrange(0, n as int) =~= data@);
}

/// A buffer of `len` zero bytes.
pub fn zeroed(len: usize) -> (buf: Vec<u8>)
    ensures
        buf@ == Seq::new(len as nat, |i: int| 0u8),
{
    let mut buf: Vec<u8> = Vec::new();
    let mut i: usize = 0;
    while i < len
        invariant
            i <= len,
            buf@ == Seq::new(i as nat, |k: int| 0u8),
        decreases len - i,
    {
        buf.push(0u8);
        i = i + 1;
        assert(buf@ =~= Seq::new(i as nat, |k: int| 0u8));
    }
    buf
}

/// A copy of `src`.
pub fn copy_bytes(src: &Vec<u8>) -> (copy: Vec<u8>)
    ensures
        copy@ == src@,
{
    let n: usize = src.len();
    let mut copy: Vec<u8> = Vec::new();
    let mut i: usize = 0;
    while i < n
        invariant
            i <= n,
            n == src.len(),
            copy@ == src@.subrange(0, i as int),
        decreases n - i,
    {
        copy.push(src[i]);
        i = i + 1;
        assert(copy@ =~= src@.subrange(0, i as int));
    }
    assert(src@.subrange(0, n as int) =~= src@);
    copy
}

} // verus!
