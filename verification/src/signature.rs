//! Finding the archive: the eight bytes that its header starts with.

use vstd::prelude::*;

verus! {

/// The length of the signature.
pub const SIGNATURE_LEN: usize = 8;

/// The bytes that the header starts with: `MEI`, then `0C 0B 0A 0B 0E`.
pub const SIGNATURE: [u8; 8] = [0x4D, 0x45, 0x49, 0x0C, 0x0B, 0x0A, 0x0B, 0x0E];

/// The signature as a sequence.
pub open spec fn signature() -> Seq<u8> {
    seq![0x4Du8, 0x45u8, 0x49u8, 0x0Cu8, 0x0Bu8, 0x0Au8, 0x0Bu8, 0x0Eu8]
}

/// Whether the eight bytes of `buf` that start at `at` are the signature.
pub open spec fn signature_at(buf: Seq<u8>, at: int) -> bool {
    &&& 0 <= at
    &&& at + SIGNATURE_LEN <= buf.len()
    &&& buf.subrange(at, at + SIGNATURE_LEN) == signature()
}

/// Whether `at` is the first place in `buf` at which the signature stands.
pub open spec fn is_first_signature(buf: Seq<u8>, at: int) -> bool {
    &&& signature_at(buf, at)
    &&& forall|j: int| 0 <= j < at ==> !signature_at(buf, j)
}

/// Whether the signature stands anywhere in `buf`.
pub open spec fn has_signature(buf: Seq<u8>) -> bool {
    exists|at: int| signature_at(buf, at)
}

/// Whether the eight bytes at `buf[at..]` are the signature; `false` where
/// fewer than eight bytes are left there.
pub fn is_signature_at(buf: &[u8], at: usize) -> (yes: bool)
    ensures
        yes == signature_at(buf@, at as int),
{
    let n: usize = buf.len();
    if n < SIGNATURE_LEN || at > n - SIGNATURE_LEN {
        return false;
    }
    let mut k: usize = 0;
    while k < SIGNATURE_LEN
        invariant
            n == buf@.len(),
            k <= SIGNATURE_LEN,
            at + SIGNATURE_LEN <= n,
            forall|j: int| 0 <= j < k ==> buf@[at + j] == signature()[j],
        decreases SIGNATURE_LEN - k,
    {
        if buf[at + k] != SIGNATURE[k] {
            assert(buf@.subrange(at as int, at + SIGNATURE_LEN)[k as int] != signature()[k as int]);
            return false;
        }
        k += 1;
    }
    assert(buf@.subrange(at as int, at + SIGNATURE_LEN) =~= signature());
    true
}

/// Scans `buf` from its start for the signature and gives the first place
/// at which it stands; a later occurrence is never looked at.
pub fn find_signature(buf: &[u8]) -> (found: Option<usize>)
    ensures
        found is Some <==> has_signature(buf@),
        found matches Some(at) ==> is_first_signature(buf@, at as int),
{
    let n: usize = buf.len();
    if n < SIGNATURE_LEN {
        return None;
    }
    let last: usize = n - SIGNATURE_LEN;
    let mut at: usize = 0;
    while at <= last
        invariant
            n == buf@.len(),
            last == n - SIGNATURE_LEN,
            at <= last + 1,
            forall|j: int| 0 <= j < at ==> !signature_at(buf@, j),
        decreases last + 1 - at,
    {
        if is_signature_at(buf, at) {
            return Some(at);
        }
        at += 1;
    }
    None
}

} // verus!
