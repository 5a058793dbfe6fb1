//! Little-endian reads from a byte buffer, each checked against its length.

use vstd::prelude::*;

verus! {

/// The 16-bit little-endian value whose first byte is `s[off]`.
pub open spec fn u16_at(s: Seq<u8>, off: int) -> int {
    s[off] as int + 0x100 * (s[off + 1] as int)
}

/// The 32-bit little-endian value whose first byte is `s[off]`.
pub open spec fn u32_at(s: Seq<u8>, off: int) -> int {
    u16_at(s, off) + 0x1_0000 * u16_at(s, off + 2)
}

/// The 64-bit little-endian value whose first byte is `s[off]`.
pub open spec fn u64_at(s: Seq<u8>, off: int) -> int {
    u32_at(s, off) + 0x1_0000_0000 * u32_at(s, off + 4)
}

/// Whether `n` bytes starting at `off` lie inside a buffer of `len` bytes.
pub open spec fn in_bounds(len: int, off: int, n: int) -> bool {
    0 <= off && 0 <= n && off + n <= len
}

/// The byte at `off`, or `None` past the end of `data`.
pub fn read_u8(data: &[u8], off: usize) -> (r: Option<u8>)
    ensures
        match r {
            Some(v) => in_bounds(data@.len() as int, off as int, 1) && v == data@[off as int],
            None => !in_bounds(data@.len() as int, off as int, 1),
        },
{
    if off < data.len() {
        Some(data[off])
    } else {
        None
    }
}

/// The little-endian `u16` at `off`, or `None` if it does not fit in `data`.
pub fn read_u16(data: &[u8], off: usize) -> (r: Option<u16>)
    ensures
        match r {
            Some(v) => in_bounds(data@.len() as int, off as int, 2) && v == u16_at(
                data@,
                off as int,
            ),
            None => !in_bounds(data@.len() as int, off as int, 2),
        },
{
    if data.len() < 2 || off > data.len() - 2 {
        return None;
    }
    let lo: u16 = data[off] as u16;
    let hi: u16 = data[off + 1] as u16;
    Some(lo + 0x100 * hi)
}

/// The little-endian `u32` at `off`, or `None` if it does not fit in `data`.
pub fn read_u32(data: &[u8], off: usize) -> (r: Option<u32>)
    ensures
        match r {
            Some(v) => in_bounds(data@.len() as int, off as int, 4) && v == u32_at(
                data@,
                off as int,
            ),
            None => !in_bounds(data@.len() as int, off as int, 4),
        },
{
    if data.len() < 4 || off > data.len() - 4 {
        return None;
    }
    let b0: u32 = data[off] as u32;
    let b1: u32 = data[off + 1] as u32;
    let b2: u32 = data[off + 2] as u32;
    let b3: u32 = data[off + 3] as u32;
    Some(b0 + 0x100 * b1 + 0x1_0000 * (b2 + 0x100 * b3))
}

/// The little-endian `u64` at `off`, or `None` if it does not fit in `data`.
pub fn read_u64(data: &[u8], off: usize) -> (r: Option<u64>)
    ensures
        match r {
            Some(v) => in_bounds(data@.len() as int, off as int, 8) && v == u64_at(
                data@,
                off as int,
            ),
            None => !in_bounds(data@.len() as int, off as int, 8),
        },
{
    if data.len() < 8 || off > data.len() - 8 {
        return None;
    }
    let lo = read_u32(data, off);
    let hi = read_u32(data, off + 4);
    match (lo, hi) {
        (Some(l), Some(h)) => Some(l as u64 + 0x1_0000_0000 * (h as u64)),
        _ => None,
    }
}

/// The little-endian `u16` at `off`, which the caller knows to fit.
pub(crate) fn u16_le(data: &[u8], off: usize) -> (r: u16)
    requires
        off + 2 <= data@.len(),
    ensures
        r as int == u16_at(data@, off as int),
{
    let lo: u16 = data[off] as u16;
    let hi: u16 = data[off + 1] as u16;
    lo + 0x100 * hi
}

/// The little-endian `u32` at `off`, which the caller knows to fit.
pub(crate) fn u32_le(data: &[u8], off: usize) -> (r: u32)
    requires
        off + 4 <= data@.len(),
    ensures
        r as int == u32_at(data@, off as int),
{
    assert(data.len() == data@.len());
    let lo: u32 = u16_le(data, off) as u32;
    let hi: u32 = u16_le(data, off + 2) as u32;
    lo + 0x1_0000 * hi
}

/// The little-endian `u64` at `off`, which the caller knows to fit.
pub(crate) fn u64_le(data: &[u8], off: usize) -> (r: u64)
    requires
        off + 8 <= data@.len(),
    ensures
        r as int == u64_at(data@, off as int),
{
    assert(data.len() == data@.len());
    let lo: u64 = u32_le(data, off) as u64;
    let hi: u64 = u32_le(data, off + 4) as u64;
    lo + 0x1_0000_0000 * hi
}

/// The index of the first zero byte at or after `off`, or the length of `s`
/// if there is none.
pub open spec fn nul_from(s: Seq<u8>, off: int) -> int
    decreases s.len() - off,
{
    if off < 0 || off >= s.len() || s[off] == 0 {
        off
    } else {
        nul_from(s, off + 1)
    }
}

/// The bytes of the zero-terminated string that starts at `off`, without the
/// zero. There is none where `off` is past the buffer or no zero follows.
pub open spec fn cstring_at(s: Seq<u8>, off: int) -> Option<Seq<u8>> {
    if 0 <= off < s.len() && nul_from(s, off) < s.len() {
        Some(s.subrange(off, nul_from(s, off)))
    } else {
        None
    }
}

/// Where the scan of [`nul_from`] stops, and what lies before.
pub proof fn lemma_nul_from(s: Seq<u8>, off: int)
    requires
        0 <= off <= s.len(),
    ensures
        off <= nul_from(s, off) <= s.len(),
        nul_from(s, off) < s.len() ==> s[nul_from(s, off)] == 0,
        forall|i: int| off <= i < nul_from(s, off) ==> s[i] != 0,
    decreases s.len() - off,
{
    if off < s.len() && s[off] != 0 {
        lemma_nul_from(s, off + 1);
    }
}

/// Reads the zero-terminated string at `off`.
pub fn read_cstring(data: &[u8], off: usize) -> (r: Option<Vec<u8>>)
    ensures
        match r {
            Some(v) => cstring_at(data@, off as int) == Some(v@),
            None => cstring_at(data@, off as int).is_none(),
        },
{
    let len: usize = data.len();
    if off >= len {
        return None;
    }
    let mut end: usize = off;
    while end < len && data[end] != 0
        invariant
            len == data@.len(),
            off <= end <= len,
            nul_from(data@, end as int) == nul_from(data@, off as int),
        decreases len - end,
    {
        end += 1;
    }
    if end >= len {
        return None;
    }
    Some(vstd::slice::slice_to_vec(vstd::slice::slice_subrange(data, off, end)))
}

} // verus!
