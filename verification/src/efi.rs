//! The UEFI values that the library speaks of: identifiers and status codes.

use crate::bytes::{le32, le64, read_u32, read_u64};
use vstd::prelude::*;

verus! {

/// A globally unique identifier as a 128-bit integer: its 16 bytes, the first one least
/// significant.
pub type Guid = u128;

/// Size in bytes of a GUID.
pub const GUID_SIZE: usize = 16;

/// The GUID at byte `at` of `s`.
pub open spec fn guid_at(s: Seq<u8>, at: int) -> Guid {
    (le64(s, at) + le64(s, at + 8) * 0x1_0000_0000_0000_0000) as u128
}

/// Reads the GUID at byte `at`.
pub fn read_guid(bytes: &[u8], at: usize) -> (r: Guid)
    requires
        at + GUID_SIZE <= bytes.len(),
    ensures
        r == guid_at(bytes@, at as int),
{
    let low: u128 = read_u64(bytes, at) as u128;
    let high: u128 = read_u64(bytes, at + 8) as u128;
    low + high * 0x1_0000_0000_0000_0000
}

/// A memory descriptor, as `EFI_MEMORY_DESCRIPTOR` lays it out.
#[derive(Debug, Clone, Copy, PartialEq, Eq, Structural)]
pub struct MemoryDescriptor {
    /// Type of the memory.
    pub memory_type: u32,
    /// Physical address of the first byte.
    pub physical_start: u64,
    /// Virtual address of the first byte.
    pub virtual_start: u64,
    /// Number of pages.
    pub number_of_pages: u64,
    /// Attributes of the memory.
    pub attribute: u64,
}

/// The memory descriptor at byte `at` of `s`.
pub open spec fn memory_descriptor_at(s: Seq<u8>, at: int) -> MemoryDescriptor {
    MemoryDescriptor {
        memory_type: le32(s, at) as u32,
        physical_start: le64(s, at + 8) as u64,
        virtual_start: le64(s, at + 16) as u64,
        number_of_pages: le64(s, at + 24) as u64,
        attribute: le64(s, at + 32) as u64,
    }
}

/// Reads the memory descriptor at byte `at`.
pub fn read_memory_descriptor(bytes: &[u8], at: usize) -> (r: MemoryDescriptor)
    requires
        at + 40 <= bytes.len(),
    ensures
        r == memory_descriptor_at(bytes@, at as int),
{
    MemoryDescriptor {
        memory_type: read_u32(bytes, at),
        physical_start: read_u64(bytes, at + 8),
        virtual_start: read_u64(bytes, at + 16),
        number_of_pages: read_u64(bytes, at + 24),
        attribute: read_u64(bytes, at + 32),
    }
}

/// A status code. Error codes have the most significant bit set.
pub type Status = u64;

/// The operation succeeded.
pub const EFI_SUCCESS: Status = 0;

/// The bit that every status of an error has set.
pub const EFI_ERROR_BIT: Status = 0x8000_0000_0000_0000;

/// A parameter was incorrect.
pub const EFI_INVALID_PARAMETER: Status = 0x8000_0000_0000_0002;

/// The operation is not supported.
pub const EFI_UNSUPPORTED: Status = 0x8000_0000_0000_0003;

/// The buffer was not the proper size for the request.
pub const EFI_BAD_BUFFER_SIZE: Status = 0x8000_0000_0000_0004;

/// The buffer is too small to hold the result.
pub const EFI_BUFFER_TOO_SMALL: Status = 0x8000_0000_0000_0005;

/// The service is not ready.
pub const EFI_NOT_READY: Status = 0x8000_0000_0000_0006;

/// The device reported an error.
pub const EFI_DEVICE_ERROR: Status = 0x8000_0000_0000_0007;

/// A resource has run out.
pub const EFI_OUT_OF_RESOURCES: Status = 0x8000_0000_0000_0009;

/// The item was not found.
pub const EFI_NOT_FOUND: Status = 0x8000_0000_0000_000E;

/// Access was denied.
pub const EFI_ACCESS_DENIED: Status = 0x8000_0000_0000_000F;

/// The time is up.
pub const EFI_TIMEOUT: Status = 0x8000_0000_0000_0012;

/// The service has already been started.
pub const EFI_ALREADY_STARTED: Status = 0x8000_0000_0000_0014;

/// The operation was aborted.
pub const EFI_ABORTED: Status = 0x8000_0000_0000_0015;

/// A security violation.
pub const EFI_SECURITY_VIOLATION: Status = 0x8000_0000_0000_001A;

/// Two GUIDs are the same if and only if all their bytes are.
pub proof fn law_guid_bytes(s: Seq<u8>, i: int, t: Seq<u8>, j: int)
    ensures
        guid_at(s, i) == guid_at(t, j) <==> forall|k: int|
            0 <= k < 16 ==> #[trigger] s[i + k] == #[trigger] t[j + k],
{
    lemma_le64(s, i, t, j);
    lemma_le64(s, i + 8, t, j + 8);
    lemma_parts(
        le64(s, i),
        le64(s, i + 8),
        le64(t, j),
        le64(t, j + 8),
        0x1_0000_0000_0000_0000,
    );
    if guid_at(s, i) == guid_at(t, j) {
        assert(le64(s, i) == le64(t, j));
        assert(le64(s, i + 8) == le64(t, j + 8));
        assert forall|k: int| 0 <= k < 16 implies #[trigger] s[i + k] == #[trigger] t[j + k] by {
            if k >= 8 {
                assert(s[i + 8 + (k - 8)] == t[j + 8 + (k - 8)]);
            }
        }
    }
    if forall|k: int| 0 <= k < 16 ==> #[trigger] s[i + k] == #[trigger] t[j + k] {
        assert forall|k: int| 0 <= k < 8 implies #[trigger] s[i + 8 + k] == #[trigger] t[j + 8
            + k] by {
            assert(s[i + (8 + k)] == t[j + (8 + k)]);
        }
    }
}

/// Two 64-bit values are the same if and only if all their bytes are.
proof fn lemma_le64(s: Seq<u8>, i: int, t: Seq<u8>, j: int)
    ensures
        0 <= le64(s, i) < 0x1_0000_0000_0000_0000,
        0 <= le64(t, j) < 0x1_0000_0000_0000_0000,
        le64(s, i) == le64(t, j) <==> forall|k: int|
            0 <= k < 8 ==> #[trigger] s[i + k] == #[trigger] t[j + k],
{
    lemma_le32(s, i, t, j);
    lemma_le32(s, i + 4, t, j + 4);
    lemma_parts(le32(s, i), le32(s, i + 4), le32(t, j), le32(t, j + 4), 0x1_0000_0000);
    if le64(s, i) == le64(t, j) {
        assert forall|k: int| 0 <= k < 8 implies #[trigger] s[i + k] == #[trigger] t[j + k] by {
            if k >= 4 {
                assert(s[i + 4 + (k - 4)] == t[j + 4 + (k - 4)]);
            }
        }
    }
    if forall|k: int| 0 <= k < 8 ==> #[trigger] s[i + k] == #[trigger] t[j + k] {
        assert forall|k: int| 0 <= k < 4 implies #[trigger] s[i + 4 + k] == #[trigger] t[j + 4
            + k] by {
            assert(s[i + (4 + k)] == t[j + (4 + k)]);
        }
    }
}

/// Two 32-bit values are the same if and only if all their bytes are.
proof fn lemma_le32(s: Seq<u8>, i: int, t: Seq<u8>, j: int)
    ensures
        0 <= le32(s, i) < 0x1_0000_0000,
        0 <= le32(t, j) < 0x1_0000_0000,
        le32(s, i) == le32(t, j) <==> forall|k: int|
            0 <= k < 4 ==> #[trigger] s[i + k] == #[trigger] t[j + k],
{
    let low_s = s[i] + s[i + 1] * 0x100;
    let high_s = s[i + 2] + s[i + 3] * 0x100;
    let low_t = t[j] + t[j + 1] * 0x100;
    let high_t = t[j + 2] + t[j + 3] * 0x100;
    assert(le32(s, i) == low_s + high_s * 0x1_0000);
    assert(le32(t, j) == low_t + high_t * 0x1_0000);
    if le32(s, i) == le32(t, j) {
        lemma_parts(low_s, high_s, low_t, high_t, 0x1_0000);
        lemma_parts(s[i] as int, s[i + 1] as int, t[j] as int, t[j + 1] as int, 0x100);
        lemma_parts(s[i + 2] as int, s[i + 3] as int, t[j + 2] as int, t[j + 3] as int, 0x100);
        assert forall|k: int| 0 <= k < 4 implies #[trigger] s[i + k] == #[trigger] t[j + k] by {
            assert(k == 0 || k == 1 || k == 2 || k == 3);
        }
    }
    if forall|k: int| 0 <= k < 4 ==> #[trigger] s[i + k] == #[trigger] t[j + k] {
        assert(s[i + 0] == t[j + 0]);
        assert(s[i + 1] == t[j + 1]);
        assert(s[i + 2] == t[j + 2]);
        assert(s[i + 3] == t[j + 3]);
    }
}

/// A value below `base` and a multiple of it are found again from their sum.
proof fn lemma_parts(a: int, b: int, c: int, d: int, base: int)
    by (nonlinear_arith)
    requires
        0 <= a < base,
        0 <= c < base,
    ensures
        a + b * base == c + d * base <==> a == c && b == d,
{
    if b < d {
        assert(b * base + base <= d * base);
    } else if d < b {
        assert(d * base + base <= b * base);
    }
}

/// A memory descriptor has a type of 32 bits, and then, behind four bytes of padding, four fields
/// of 64 bits in a row.
pub proof fn law_memory_descriptor_layout(s: Seq<u8>, at: int)
    ensures
        ({
            let d = memory_descriptor_at(s, at);
            &&& d.memory_type == le32(s, at) as u32
            &&& d.physical_start == le64(s, at + 8) as u64
            &&& d.virtual_start == le64(s, at + 8 + 8) as u64
            &&& d.number_of_pages == le64(s, at + 8 + 2 * 8) as u64
            &&& d.attribute == le64(s, at + 8 + 3 * 8) as u64
        }),
{
}

/// The status codes: success is zero, and an error is its number with the most significant bit.
pub proof fn law_status_codes()
    ensures
        EFI_SUCCESS == 0,
        EFI_ERROR_BIT == 0x8000_0000_0000_0000,
        EFI_INVALID_PARAMETER == EFI_ERROR_BIT + 2,
        EFI_UNSUPPORTED == EFI_ERROR_BIT + 3,
        EFI_BAD_BUFFER_SIZE == EFI_ERROR_BIT + 4,
        EFI_BUFFER_TOO_SMALL == EFI_ERROR_BIT + 5,
        EFI_NOT_READY == EFI_ERROR_BIT + 6,
        EFI_DEVICE_ERROR == EFI_ERROR_BIT + 7,
        EFI_OUT_OF_RESOURCES == EFI_ERROR_BIT + 9,
        EFI_NOT_FOUND == EFI_ERROR_BIT + 14,
        EFI_ACCESS_DENIED == EFI_ERROR_BIT + 15,
        EFI_TIMEOUT == EFI_ERROR_BIT + 18,
        EFI_ALREADY_STARTED == EFI_ERROR_BIT + 20,
        EFI_ABORTED == EFI_ERROR_BIT + 21,
        EFI_SECURITY_VIOLATION == EFI_ERROR_BIT + 26,
{
}

} // verus!
