//! Little-endian fields in byte buffers.
//!
//! Every structure that crosses the supervisor boundary (policy blocks, request
//! headers, hand-off data) is a fixed layout of little-endian integers. The
//! reads and writes of one field go through zerocopy's byte-order types; what
//! they compute is stated here over plain byte sequences.

use vstd::prelude::*;
use zerocopy::FromBytes;

verus! {

/// The 16-bit little-endian value at `at`.
pub open spec fn le16(s: Seq<u8>, at: int) -> int {
    s[at] + s[at + 1] * 0x100
}

/// The 32-bit little-endian value at `at`.
pub open spec fn le32(s: Seq<u8>, at: int) -> int {
    s[at] + s[at + 1] * 0x100 + s[at + 2] * 0x1_0000 + s[at + 3] * 0x100_0000
}

/// The 64-bit little-endian value at `at`.
pub open spec fn le64(s: Seq<u8>, at: int) -> int {
    le32(s, at) + le32(s, at + 4) * 0x1_0000_0000
}

/// zerocopy's `FromBytes::read_from_bytes` for `little_endian::U16`: on a slice of
/// two bytes it succeeds with the value those bytes hold, least significant first.
#[verifier::external_body]
pub(crate) fn read_u16(bytes: &[u8], at: usize) -> (r: u16)
    requires
        at + 2 <= bytes@.len(),
    ensures
        r == le16(bytes@, at as int),
{
    zerocopy::little_endian::U16::read_from_bytes(&bytes[at..at + 2]).unwrap().get()
}

/// zerocopy's `FromBytes::read_from_bytes` for `little_endian::U32`: on a slice of
/// four bytes it succeeds with the value those bytes hold, least significant first.
#[verifier::external_body]
pub(crate) fn read_u32(bytes: &[u8], at: usize) -> (r: u32)
    requires
        at + 4 <= bytes@.len(),
    ensures
        r == le32(bytes@, at as int),
{
    zerocopy::little_endian::U32::read_from_bytes(&bytes[at..at + 4]).unwrap().get()
}

/// zerocopy's `FromBytes::read_from_bytes` for `little_endian::U64`: on a slice of
/// eight bytes it succeeds with the value those bytes hold, least significant first.
#[verifier::external_body]
pub(crate) fn read_u64(bytes: &[u8], at: usize) -> (r: u64)
    requires
        at + 8 <= bytes@.len(),
    ensures
        r == le64(bytes@, at as int),
{
    zerocopy::little_endian::U64::read_from_bytes(&bytes[at..at + 8]).unwrap().get()
}

/// zerocopy's `little_endian::U32::new` and `to_bytes`: the four bytes of a value, least
/// significant first.
#[verifier::external_body]
pub(crate) fn u32_bytes(value: u32) -> (r: [u8; 4])
    ensures
        le32(r@, 0) == value,
{
    zerocopy::little_endian::U32::new(value).to_bytes()
}

/// zerocopy's `little_endian::U64::new` and `to_bytes`: the eight bytes of a value, least
/// significant first.
#[verifier::external_body]
pub(crate) fn u64_bytes(value: u64) -> (r: [u8; 8])
    ensures
        le64(r@, 0) == value,
{
    zerocopy::little_endian::U64::new(value).to_bytes()
}

/// `b` is `a` but for `n` bytes at `at`.
pub open spec fn same_but(a: Seq<u8>, b: Seq<u8>, at: int, n: int) -> bool {
    &&& a.len() == b.len()
    &&& forall|i: int| 0 <= i < a.len() && !(at <= i < at + n) ==> #[trigger] b[i] == a[i]
}

/// Writes a 32-bit value at byte `at`.
pub fn write_u32(buffer: &mut Vec<u8>, at: usize, value: u32)
    requires
        at + 4 <= old(buffer).len(),
    ensures
        le32(final(buffer)@, at as int) == value,
        same_but(old(buffer)@, final(buffer)@, at as int, 4),
{
    let bytes = u32_bytes(value);
    buffer.set(at, bytes[0]);
    buffer.set(at + 1, bytes[1]);
    buffer.set(at + 2, bytes[2]);
    buffer.set(at + 3, bytes[3]);
}

/// Writes a 64-bit value at byte `at`.
pub fn write_u64(buffer: &mut Vec<u8>, at: usize, value: u64)
    requires
        at + 8 <= old(buffer).len(),
    ensures
        le64(final(buffer)@, at as int) == value,
        same_but(old(buffer)@, final(buffer)@, at as int, 8),
{
    let bytes = u64_bytes(value);
    buffer.set(at, bytes[0]);
    buffer.set(at + 1, bytes[1]);
    buffer.set(at + 2, bytes[2]);
    buffer.set(at + 3, bytes[3]);
    buffer.set(at + 4, bytes[4]);
    buffer.set(at + 5, bytes[5]);
    buffer.set(at + 6, bytes[6]);
    buffer.set(at + 7, bytes[7]);
}

/// Writing `n` bytes at `at` leaves the length and every byte in front of them and behind them as
/// they were.
pub proof fn law_other_bytes_stay(before: Seq<u8>, after: Seq<u8>, at: int, n: int, i: int)
    requires
        same_but(before, after, at, n),
        0 <= i < before.len(),
        i < at || at + n <= i,
    ensures
        after.len() == before.len(),
        after[i] == before[i],
{
}

} // verus!
