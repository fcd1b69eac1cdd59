//! Call gate and TSS descriptors.
//!
//! A demoted routine returns from Ring 3 to Ring 0 by a far call to the call gate, whose
//! descriptor holds the address to go on at. The TSS names the stack of Ring 0.

use crate::supervisor::privilege_mgmt::{
    CALL_GATE_OFFSET, LONG_CS_R0, TSS_DESC_OFFSET, TSS_SEL_OFFSET,
};
use vstd::prelude::*;

verus! {

/// 64-bit call gate descriptor.
#[derive(Debug, Clone, Copy, Default, PartialEq, Eq, Structural)]
pub struct CallGateDescriptor {
    /// Offset bits 15:0.
    pub offset_low: u16,
    /// Target code segment selector.
    pub selector: u16,
    /// Reserved (must be 0) and IST (bits 2:0).
    pub ist: u8,
    /// Type (0xC = 64-bit call gate), DPL and present bit.
    pub type_attr: u8,
    /// Offset bits 31:16.
    pub offset_mid: u16,
    /// Offset bits 63:32.
    pub offset_high: u32,
    /// Reserved (must be 0).
    pub reserved: u32,
}

impl CallGateDescriptor {
    /// The target offset.
    pub open spec fn offset(self) -> int {
        self.offset_low + self.offset_mid * 0x1_0000 + self.offset_high * 0x1_0000_0000
    }

    /// The descriptor is a present 64-bit call gate that code of ring `dpl` may call.
    pub open spec fn is_gate_for(self, dpl: int) -> bool {
        self.type_attr == 0x8C + (dpl % 4) * 0x20
    }

    /// Creates a present 64-bit call gate to `offset` in `selector`, for callers of ring
    /// `dpl` and below.
    pub fn new(offset: u64, selector: u16, dpl: u8) -> (r: Self)
        ensures
            r.offset() == offset,
            r.selector == selector,
            r.ist == 0,
            r.is_gate_for(dpl as int),
            r.reserved == 0,
    {
        let mut desc = CallGateDescriptor {
            offset_low: 0,
            selector,
            ist: 0,
            type_attr: 0x8C + (dpl % 4) * 0x20,
            offset_mid: 0,
            offset_high: 0,
            reserved: 0,
        };
        desc.set_offset(offset);
        desc
    }

    /// Sets the target offset in the descriptor.
    pub fn set_offset(&mut self, offset: u64)
        ensures
            final(self).offset() == offset,
            final(self).selector == old(self).selector,
            final(self).ist == old(self).ist,
            final(self).type_attr == old(self).type_attr,
            final(self).reserved == old(self).reserved,
    {
        proof {
            lemma_split(offset);
        }
        self.offset_low = (offset & 0xFFFF) as u16;
        self.offset_mid = ((offset >> 16) & 0xFFFF) as u16;
        self.offset_high = ((offset >> 32) & 0xFFFFFFFF) as u32;
    }

    /// Gets the target offset.
    pub fn get_offset(&self) -> (r: u64)
        ensures
            r == self.offset(),
    {
        self.offset_low as u64 + self.offset_mid as u64 * 0x1_0000 + self.offset_high as u64
            * 0x1_0000_0000
    }
}

/// 64-bit TSS descriptor.
#[derive(Debug, Clone, Copy, Default, PartialEq, Eq, Structural)]
pub struct TssDescriptor {
    /// Limit bits 15:0.
    pub limit_low: u16,
    /// Base bits 15:0.
    pub base_low: u16,
    /// Base bits 23:16.
    pub base_mid_low: u8,
    /// Type and attributes.
    pub type_attr: u8,
    /// Limit bits 19:16 and flags.
    pub limit_flags: u8,
    /// Base bits 31:24.
    pub base_mid_high: u8,
    /// Base bits 63:32.
    pub base_high: u32,
    /// Reserved.
    pub reserved: u32,
}

impl TssDescriptor {
    /// The base address.
    pub open spec fn base(self) -> int {
        self.base_low + self.base_mid_low * 0x1_0000 + self.base_mid_high * 0x100_0000
            + self.base_high * 0x1_0000_0000
    }

    /// The limit.
    pub open spec fn limit(self) -> int {
        self.limit_low + (self.limit_flags as int % 0x10) * 0x1_0000
    }

    /// Creates a descriptor of a present, available 64-bit TSS at `base`, with the low 20
    /// bits of `limit`.
    pub fn new(base: u64, limit: u32) -> (r: Self)
        ensures
            r.base() == base,
            r.limit() == limit as int % 0x10_0000,
            r.limit_flags as int == limit as int / 0x1_0000 % 0x10,
            r.type_attr == 0x89,
            r.reserved == 0,
    {
        let mut desc = TssDescriptor {
            limit_low: (limit % 0x1_0000) as u16,
            base_low: 0,
            base_mid_low: 0,
            type_attr: 0x89,
            limit_flags: (limit / 0x1_0000 % 0x10) as u8,
            base_mid_high: 0,
            base_high: 0,
            reserved: 0,
        };
        desc.set_base(base);
        desc
    }

    /// Sets the base address in the descriptor.
    pub fn set_base(&mut self, base: u64)
        ensures
            final(self).base() == base,
            final(self).limit_low == old(self).limit_low,
            final(self).type_attr == old(self).type_attr,
            final(self).limit_flags == old(self).limit_flags,
            final(self).reserved == old(self).reserved,
    {
        proof {
            lemma_split(base);
        }
        self.base_low = (base & 0xFFFF) as u16;
        self.base_mid_low = ((base >> 16) & 0xFF) as u8;
        self.base_mid_high = ((base >> 24) & 0xFF) as u8;
        self.base_high = ((base >> 32) & 0xFFFFFFFF) as u32;
    }

    /// Gets the base address.
    pub fn get_base(&self) -> (r: u64)
        ensures
            r == self.base(),
    {
        self.base_low as u64 + self.base_mid_low as u64 * 0x1_0000 + self.base_mid_high as u64
            * 0x100_0000 + self.base_high as u64 * 0x1_0000_0000
    }
}

/// The parts of a 64-bit value, taken out by shifts, add up to it.
proof fn lemma_split(x: u64)
    ensures
        (x & 0xFFFF) <= 0xFFFF,
        ((x >> 16) & 0xFFFF) <= 0xFFFF,
        ((x >> 16) & 0xFF) <= 0xFF,
        ((x >> 24) & 0xFF) <= 0xFF,
        ((x >> 32) & 0xFFFFFFFF) <= 0xFFFFFFFF,
        (x & 0xFFFF) + ((x >> 16) & 0xFFFF) * 0x1_0000 + ((x >> 32) & 0xFFFFFFFF) * 0x1_0000_0000
            == x,
        (x & 0xFFFF) + ((x >> 16) & 0xFF) * 0x1_0000 + ((x >> 24) & 0xFF) * 0x100_0000 + ((x >> 32)
            & 0xFFFFFFFF) * 0x1_0000_0000 == x,
{
    assert((x & 0xFFFF) <= 0xFFFF) by (bit_vector);
    assert(((x >> 16) & 0xFFFF) <= 0xFFFF) by (bit_vector);
    assert(((x >> 16) & 0xFF) <= 0xFF) by (bit_vector);
    assert(((x >> 24) & 0xFF) <= 0xFF) by (bit_vector);
    assert(((x >> 32) & 0xFFFFFFFF) <= 0xFFFFFFFF) by (bit_vector);
    assert((x & 0xFFFF) + ((x >> 16) & 0xFFFF) * 0x1_0000 + ((x >> 32) & 0xFFFFFFFF)
        * 0x1_0000_0000 == x) by (bit_vector);
    assert((x & 0xFFFF) + ((x >> 16) & 0xFF) * 0x1_0000 + ((x >> 24) & 0xFF) * 0x100_0000 + ((x
        >> 32) & 0xFFFFFFFF) * 0x1_0000_0000 == x) by (bit_vector);
}

/// GDTR (GDT register) structure.
#[derive(Debug, Clone, Copy, Default, PartialEq, Eq, Structural)]
pub struct GdtRegister {
    /// Size of the GDT minus 1.
    pub limit: u16,
    /// Linear address of the GDT.
    pub base: u64,
}

/// What has to be written for the return from a demoted routine.
#[derive(Debug, Clone, Copy, PartialEq, Eq, Structural)]
pub struct CallGateSetup {
    /// Where the call gate descriptor stands.
    pub call_gate_addr: u64,
    /// The call gate descriptor.
    pub call_gate: CallGateDescriptor,
    /// Where the TSS descriptor stands.
    pub tss_desc_addr: u64,
    /// The TSS descriptor.
    pub tss_desc: TssDescriptor,
    /// Where the TSS stands.
    pub tss_addr: u64,
    /// The Ring 0 stack pointer of the TSS.
    pub rsp0: u64,
    /// CR4 while the descriptors are written.
    pub cr4: u64,
}

/// Sets up the call gate for returning from a demoted routine.
///
/// The call gate, which Ring 3 may call, leads to `return_pointer` in the Ring 0 code
/// segment. The TSS descriptor points to the TSS behind it in the GDT, and the TSS to the
/// Ring 0 stack. While they are written, bit 7 of CR4 is clear.
pub fn setup_call_gate(
    gdt_base: u64,
    call_gate: CallGateDescriptor,
    tss_desc: TssDescriptor,
    return_pointer: u64,
    cpl0_stack_ptr: u64,
    cr4: u64,
) -> (r: CallGateSetup)
    requires
        gdt_base + TSS_DESC_OFFSET <= u64::MAX,
    ensures
        r.call_gate_addr == gdt_base + CALL_GATE_OFFSET,
        r.call_gate.offset() == return_pointer,
        r.call_gate.selector == LONG_CS_R0,
        r.call_gate.type_attr == 0xEC,
        r.call_gate.is_gate_for(3),
        r.call_gate.ist == call_gate.ist,
        r.call_gate.reserved == call_gate.reserved,
        r.tss_desc_addr == gdt_base + TSS_SEL_OFFSET,
        r.tss_desc.base() == gdt_base + TSS_DESC_OFFSET,
        r.tss_desc.limit_low == tss_desc.limit_low,
        r.tss_desc.type_attr == tss_desc.type_attr,
        r.tss_desc.limit_flags == tss_desc.limit_flags,
        r.tss_desc.reserved == tss_desc.reserved,
        r.tss_addr == gdt_base + TSS_DESC_OFFSET,
        r.rsp0 == cpl0_stack_ptr,
        r.cr4 == cr4 & !0x80,
{
    let tss_addr: u64 = gdt_base + TSS_DESC_OFFSET as u64;
    let mut gate = call_gate;
    gate.set_offset(return_pointer);
    gate.selector = LONG_CS_R0;
    gate.type_attr = 0xEC;
    let mut tss = tss_desc;
    tss.set_base(tss_addr);
    CallGateSetup {
        call_gate_addr: gdt_base + CALL_GATE_OFFSET as u64,
        call_gate: gate,
        tss_desc_addr: gdt_base + TSS_SEL_OFFSET as u64,
        tss_desc: tss,
        tss_addr,
        rsp0: cpl0_stack_ptr,
        cr4: cr4 & !0x80,
    }
}

/// A call gate is determined by its offset and its other fields: two gates that agree in
/// them are the same.
pub proof fn law_call_gate_offset_determines(a: CallGateDescriptor, b: CallGateDescriptor)
    requires
        a.offset() == b.offset(),
        a.selector == b.selector,
        a.ist == b.ist,
        a.type_attr == b.type_attr,
        a.reserved == b.reserved,
    ensures
        a == b,
{
}

/// A call gate is present, of the type of a 64-bit call gate, and open to the privilege level that
/// it was made for and to those below.
pub proof fn law_gate_attributes(gate: CallGateDescriptor, dpl: int)
    requires
        0 <= dpl,
        gate.is_gate_for(dpl),
    ensures
        gate.type_attr as int / 0x80 == 1,
        gate.type_attr as int / 0x20 % 4 == dpl % 4,
        gate.type_attr as int % 0x20 == 0xC,
{
}

/// The parts of a number are found again by dividing: its low part, what is above it and below the
/// high part, and the high part.
proof fn lemma_parts(low: int, mid: int, high: int, l: int, m: int)
    requires
        0 < l,
        0 < m,
        0 <= low < l,
        0 <= mid < m,
        0 <= high,
    ensures
        (low + l * (mid + m * high)) % l == low,
        (low + l * (mid + m * high)) / l == mid + m * high,
        (mid + m * high) % m == mid,
        (mid + m * high) / m == high,
{
    let upper = mid + m * high;
    assert(0 <= m * high) by (nonlinear_arith)
        requires
            0 < m,
            0 <= high,
    ;
    vstd::arithmetic::div_mod::lemma_fundamental_div_mod_converse(
        low + l * upper,
        l,
        upper,
        low,
    );
    vstd::arithmetic::div_mod::lemma_fundamental_div_mod_converse(upper, m, high, mid);
}

/// The parts of the offset of a call gate are its bits in their order: the lowest 16, the next 16,
/// and the upper half.
pub proof fn law_gate_offset_parts(gate: CallGateDescriptor)
    ensures
        gate.offset() % 0x1_0000 == gate.offset_low,
        gate.offset() / 0x1_0000 % 0x1_0000 == gate.offset_mid,
        gate.offset() / 0x1_0000 / 0x1_0000 == gate.offset_high,
{
    lemma_parts(
        gate.offset_low as int,
        gate.offset_mid as int,
        gate.offset_high as int,
        0x1_0000,
        0x1_0000,
    );
}

/// The parts of the base of a task state segment are its bits in their order: the lowest 16, the
/// next 8, the next 8, and the upper half; and so are those of its limit, of 16 bits and 4.
pub proof fn law_tss_parts(tss: TssDescriptor)
    ensures
        tss.base() % 0x1_0000 == tss.base_low,
        tss.base() / 0x1_0000 % 0x100 == tss.base_mid_low,
        tss.base() / 0x1_0000 / 0x100 % 0x100 == tss.base_mid_high,
        tss.base() / 0x1_0000 / 0x100 / 0x100 == tss.base_high,
        tss.limit() % 0x1_0000 == tss.limit_low,
        tss.limit() / 0x1_0000 == tss.limit_flags as int % 0x10,
{
    let upper = tss.base_mid_high + 0x100 * tss.base_high;
    lemma_parts(tss.base_low as int, tss.base_mid_low as int, upper, 0x1_0000, 0x100);
    lemma_parts(tss.base_mid_low as int, tss.base_mid_high as int, tss.base_high as int, 0x100, 0x100);
    lemma_parts(tss.limit_low as int, tss.limit_flags as int % 0x10, 0, 0x1_0000, 0x10);
}

} // verus!
