//! Little-endian integer fields of binary files.

use vstd::prelude::*;

verus! {

/// The 16-bit little-endian value at `at`, if the bytes reach that far.
pub open spec fn le16(b: Seq<u8>, at: int) -> Option<u16> {
    if 0 <= at && at + 2 <= b.len() {
        Some((b[at] + 256 * b[at + 1]) as u16)
    } else {
        None
    }
}

/// The 32-bit little-endian value at `at`, if the bytes reach that far.
pub open spec fn le32(b: Seq<u8>, at: int) -> Option<u32> {
    if 0 <= at && at + 4 <= b.len() {
        Some((b[at] + 256 * b[at + 1] + 65536 * b[at + 2] + 16777216 * b[at + 3]) as u32)
    } else {
        None
    }
}

/// The two bytes of a 16-bit value, least significant first.
pub open spec fn le16_bytes(v: u16) -> Seq<u8> {
    seq![(v % 256) as u8, (v / 256) as u8]
}

/// The four bytes of a 32-bit value, least significant first.
pub open spec fn le32_bytes(v: u32) -> Seq<u8> {
    seq![(v % 256) as u8, ((v / 256) % 256) as u8, ((v / 65536) % 256) as u8, (v / 16777216) as u8]
}

/// Reads the 16-bit little-endian value at offset `at`; `None` past the
/// end.
pub fn u16le(b: &[u8], at: u64) -> (r: Option<u16>)
    ensures
        r == le16(b@, at as int),
{
    let len = b.len() as u64;
    if at > len || len - at < 2 {
        return None;
    }
    let at = at as usize;
    let lo: u16 = b[at] as u16;
    let hi: u16 = b[at + 1] as u16;
    Some(lo + hi * 256)
}

/// Reads the 32-bit little-endian value at offset `at`; `None` past the
/// end.
pub fn u32le(b: &[u8], at: u64) -> (r: Option<u32>)
    ensures
        r == le32(b@, at as int),
{
    let len = b.len() as u64;
    if at > len || len - at < 4 {
        return None;
    }
    let at = at as usize;
    let b0: u32 = b[at] as u32;
    let b1: u32 = b[at + 1] as u32;
    let b2: u32 = b[at + 2] as u32;
    let b3: u32 = b[at + 3] as u32;
    Some(b0 + b1 * 256 + b2 * 65536 + b3 * 16777216)
}

/// Appends the little-endian bytes of a 16-bit value.
pub fn push_le16(out: &mut Vec<u8>, v: u16)
    ensures
        final(out)@ == old(out)@ + le16_bytes(v),
{
    out.push((v % 256) as u8);
    out.push((v / 256) as u8);
    assert(out@ =~= old(out)@ + le16_bytes(v));
}

/// Appends the little-endian bytes of a 32-bit value.
pub fn push_le32(out: &mut Vec<u8>, v: u32)
    ensures
        final(out)@ == old(out)@ + le32_bytes(v),
{
    out.push((v % 256) as u8);
    out.push(((v / 256) % 256) as u8);
    out.push(((v / 65536) % 256) as u8);
    out.push((v / 16777216) as u8);
    assert(out@ =~= old(out)@ + le32_bytes(v));
}

} // verus!
