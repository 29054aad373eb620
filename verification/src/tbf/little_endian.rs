//! Little-endian integers in a byte sequence.

use vstd::prelude::*;

verus! {

/// The 16-bit integer stored at `at`, least significant byte first.
pub open spec fn le_u16(b: Seq<u8>, at: int) -> u16 {
    (b[at] as int + 0x100 * (b[at + 1] as int)) as u16
}

/// The 32-bit integer stored at `at`, least significant byte first.
pub open spec fn le_u32(b: Seq<u8>, at: int) -> u32 {
    (b[at] as int + 0x100 * (b[at + 1] as int) + 0x1_0000 * (b[at + 2] as int) + 0x100_0000 * (b[at
        + 3] as int)) as u32
}

/// The 64-bit integer stored at `at`, least significant byte first.
pub open spec fn le_u64(b: Seq<u8>, at: int) -> u64 {
    (le_u32(b, at) as int + 0x1_0000_0000 * (le_u32(b, at + 4) as int)) as u64
}

/// Whether `len` bytes starting at `at` lie inside a sequence of `total` bytes.
pub open spec fn in_bounds(total: int, at: int, len: int) -> bool {
    0 <= at && at + len <= total
}

/// Reads the 16-bit integer at `at`.
pub fn read_u16(b: &[u8], at: usize) -> (r: u16)
    requires
        at + 2 <= b@.len(),
    ensures
        r == le_u16(b@, at as int),
{
    let b0: u16 = b[at] as u16;
    let b1: u16 = b[at + 1] as u16;
    b0 + 0x100 * b1
}

/// Reads the 32-bit integer at `at`.
pub fn read_u32(b: &[u8], at: usize) -> (r: u32)
    requires
        at + 4 <= b@.len(),
    ensures
        r == le_u32(b@, at as int),
{
    let b0: u32 = b[at] as u32;
    let b1: u32 = b[at + 1] as u32;
    let b2: u32 = b[at + 2] as u32;
    let b3: u32 = b[at + 3] as u32;
    b0 + 0x100 * b1 + 0x1_0000 * b2 + 0x100_0000 * b3
}

/// Reads the 64-bit integer at `at`.
pub fn read_u64(b: &[u8], at: usize) -> (r: u64)
    requires
        at + 8 <= b@.len(),
    ensures
        r == le_u64(b@, at as int),
{
    assert(b@.len() == b.len());
    let low: u64 = read_u32(b, at) as u64;
    let high: u64 = read_u32(b, at + 4) as u64;
    low + 0x1_0000_0000 * high
}

/// Two words that differ in one byte differ.
pub proof fn lemma_le_u32_differs(a: Seq<u8>, b: Seq<u8>, at: int, i: int)
    requires
        0 <= at,
        at + 4 <= a.len(),
        a.len() == b.len(),
        at <= i < at + 4,
        a[i] != b[i],
        forall|j: int| at <= j < at + 4 && j != i ==> a[j] == b[j],
    ensures
        le_u32(a, at) != le_u32(b, at),
{
}

} // verus!
