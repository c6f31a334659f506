//! Fixed-width integers as they are laid out in the archive.

use vstd::prelude::*;

verus! {

/// The value of four bytes read as a big-endian unsigned integer.
pub open spec fn be_u32(s: Seq<u8>) -> int
    recommends
        s.len() == 4,
{
    s[0] as int * 0x100_0000 + s[1] as int * 0x1_0000 + s[2] as int * 0x100 + s[3] as int
}

/// The value of four bytes read as a little-endian unsigned integer.
pub open spec fn le_u32(s: Seq<u8>) -> int
    recommends
        s.len() == 4,
{
    s[3] as int * 0x100_0000 + s[2] as int * 0x1_0000 + s[1] as int * 0x100 + s[0] as int
}

/// The four bytes of `buf` that start at `at`.
pub open spec fn word_at(buf: Seq<u8>, at: int) -> Seq<u8> {
    buf.subrange(at, at + 4)
}

/// Reads the big-endian `u32` stored at `buf[at..at + 4]`; `None` where
/// these four bytes do not all lie in `buf`.
pub fn read_be_u32(buf: &[u8], at: usize) -> (word: Option<u32>)
    ensures
        word is Some <==> at + 4 <= buf@.len(),
        word matches Some(v) ==> v == be_u32(word_at(buf@, at as int)),
{
    if buf.len() < 4 || at > buf.len() - 4 {
        return None;
    }
    let b0: u32 = buf[at] as u32;
    let b1: u32 = buf[at + 1] as u32;
    let b2: u32 = buf[at + 2] as u32;
    let b3: u32 = buf[at + 3] as u32;
    Some(b0 * 0x100_0000 + b1 * 0x1_0000 + b2 * 0x100 + b3)
}

/// Reads the little-endian `u32` stored at `buf[at..at + 4]`; `None` where
/// these four bytes do not all lie in `buf`.
pub fn read_le_u32(buf: &[u8], at: usize) -> (word: Option<u32>)
    ensures
        word is Some <==> at + 4 <= buf@.len(),
        word matches Some(v) ==> v == le_u32(word_at(buf@, at as int)),
{
    if buf.len() < 4 || at > buf.len() - 4 {
        return None;
    }
    let b0: u32 = buf[at] as u32;
    let b1: u32 = buf[at + 1] as u32;
    let b2: u32 = buf[at + 2] as u32;
    let b3: u32 = buf[at + 3] as u32;
    Some(b3 * 0x100_0000 + b2 * 0x1_0000 + b1 * 0x100 + b0)
}

} // verus!
