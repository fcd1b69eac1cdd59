//! CPU management.
//!
//! Registration of the processors and the state of the application processors (APs).

use vstd::prelude::*;

verus! {

/// CPU-related configuration, which the platform provides.
pub trait CpuInfo {
    /// Returns the timeout in microseconds for AP mailbox polling, 1 ms unless the platform
    /// says otherwise.
    fn ap_poll_timeout_us() -> (r: u64)
        default_ensures
            r == 1000,
    {
        1000
    }
}

/// The state of an Application Processor (AP).
#[derive(Debug, Clone, Copy, PartialEq, Eq, Structural)]
pub enum ApState {
    /// The AP has not been registered yet.
    NotPresent,
    /// The AP is in the holding pen, waiting for work.
    InHoldingPen,
    /// The AP is currently executing a task.
    Busy,
    /// The AP has been halted.
    Halted,
}

impl ApState {
    /// The number of the state.
    pub open spec fn number(self) -> u8 {
        match self {
            ApState::NotPresent => 0,
            ApState::InHoldingPen => 1,
            ApState::Busy => 2,
            ApState::Halted => 3,
        }
    }

    /// Converts to the number of the state.
    pub fn as_u8(self) -> (r: u8)
        ensures
            r == self.number(),
    {
        match self {
            ApState::NotPresent => 0,
            ApState::InHoldingPen => 1,
            ApState::Busy => 2,
            ApState::Halted => 3,
        }
    }

    /// The state with a number; a number without a state stands for [`ApState::NotPresent`].
    pub open spec fn of_number(value: u8) -> ApState {
        if value == 1 {
            ApState::InHoldingPen
        } else if value == 2 {
            ApState::Busy
        } else if value == 3 {
            ApState::Halted
        } else {
            ApState::NotPresent
        }
    }
}

impl vstd::std_specs::convert::FromSpecImpl<u8> for ApState {
    open spec fn obeys_from_spec() -> bool {
        true
    }

    open spec fn from_spec(value: u8) -> ApState {
        ApState::of_number(value)
    }
}

impl From<u8> for ApState {
    fn from(value: u8) -> (r: ApState) {
        match value {
            0 => ApState::NotPresent,
            1 => ApState::InHoldingPen,
            2 => ApState::Busy,
            3 => ApState::Halted,
            _ => ApState::NotPresent,
        }
    }
}

/// A state is found again by its number.
pub proof fn law_ap_state_round_trip(state: ApState)
    ensures
        ApState::of_number(state.number()) == state,
{
}

/// A slot for one CPU.
#[derive(Debug, Clone, Copy, PartialEq, Eq, Structural)]
pub struct CpuSlot {
    /// The CPU's APIC ID. `u32::MAX` means that the slot is unused.
    pub cpu_id: u32,
    /// Whether this CPU is the BSP.
    pub is_bsp: bool,
    /// Current state (for APs only).
    pub state: ApState,
}

impl CpuSlot {
    /// The slot is in use.
    pub open spec fn used(self) -> bool {
        self.cpu_id != u32::MAX
    }

    /// The slot is that of CPU `cpu_id`.
    pub open spec fn is_of(self, cpu_id: u32) -> bool {
        self.used() && self.cpu_id == cpu_id
    }

    /// The slot is that of an AP.
    pub open spec fn is_ap(self) -> bool {
        self.used() && !self.is_bsp
    }

    /// A slot that is not in use.
    pub open spec fn unused() -> Self {
        CpuSlot { cpu_id: u32::MAX, is_bsp: false, state: ApState::NotPresent }
    }

    /// Creates a new empty CPU slot.
    pub fn new() -> (r: Self)
        ensures
            r == Self::unused(),
    {
        CpuSlot { cpu_id: u32::MAX, is_bsp: false, state: ApState::NotPresent }
    }

    /// Checks if this slot is in use.
    pub fn is_used(&self) -> (r: bool)
        ensures
            r == self.used(),
    {
        self.cpu_id != u32::MAX
    }

    /// Gets the CPU ID if the slot is used.
    pub fn get_cpu_id(&self) -> (r: Option<u32>)
        ensures
            r == if self.used() {
                Some(self.cpu_id)
            } else {
                None
            },
    {
        if self.cpu_id == u32::MAX {
            None
        } else {
            Some(self.cpu_id)
        }
    }
}

/// The index of the first slot, from `from` on, that is that of CPU `cpu_id`.
pub open spec fn slot_of(slots: Seq<CpuSlot>, cpu_id: u32, from: int) -> Option<int>
    decreases slots.len() - from,
{
    if from >= slots.len() {
        None
    } else if slots[from].is_of(cpu_id) {
        Some(from)
    } else {
        slot_of(slots, cpu_id, from + 1)
    }
}

/// The index of the first unused slot from `from` on.
pub open spec fn unused_slot(slots: Seq<CpuSlot>, from: int) -> Option<int>
    decreases slots.len() - from,
{
    if from >= slots.len() {
        None
    } else if !slots[from].used() {
        Some(from)
    } else {
        unused_slot(slots, from + 1)
    }
}

/// The number of slots in use among the first `n`.
pub open spec fn used_in(slots: Seq<CpuSlot>, n: int) -> int
    decreases n,
{
    if n <= 0 {
        0
    } else {
        used_in(slots, n - 1) + if slots[n - 1].used() {
            1int
        } else {
            0
        }
    }
}

/// The number of APs in a state among the first `n` slots.
pub open spec fn aps_in(slots: Seq<CpuSlot>, state: ApState, n: int) -> int
    decreases n,
{
    if n <= 0 {
        0
    } else {
        aps_in(slots, state, n - 1) + if slots[n - 1].is_ap() && slots[n - 1].state == state {
            1int
        } else {
            0
        }
    }
}

/// The IDs of the APs among the first `n` slots, in the order of the slots.
pub open spec fn ap_ids(slots: Seq<CpuSlot>, n: int) -> Seq<u32>
    decreases n,
{
    if n <= 0 {
        Seq::empty()
    } else if slots[n - 1].is_ap() {
        ap_ids(slots, n - 1).push(slots[n - 1].cpu_id)
    } else {
        ap_ids(slots, n - 1)
    }
}

/// The slot of a CPU that has just been registered: a BSP is busy, an AP waits for work.
pub open spec fn registered_slot(cpu_id: u32, is_bsp: bool) -> CpuSlot {
    CpuSlot {
        cpu_id,
        is_bsp,
        state: if is_bsp {
            ApState::Busy
        } else {
            ApState::InHoldingPen
        },
    }
}

/// Manager for CPU-related operations, with room for `MAX_CPUS` CPUs.
pub struct CpuManager<const MAX_CPUS: usize> {
    /// CPU slots.
    slots: Vec<CpuSlot>,
    /// Number of CPUs currently registered.
    registered_count: u32,
    /// The APIC ID of the BSP, or `u32::MAX`.
    bsp_id: u32,
}

impl<const MAX_CPUS: usize> CpuManager<MAX_CPUS> {
    /// The slots.
    pub closed spec fn slot_list(&self) -> Seq<CpuSlot> {
        self.slots@
    }

    /// The number of registrations.
    pub closed spec fn registered(&self) -> u32 {
        self.registered_count
    }

    /// The BSP, if one has been registered.
    pub closed spec fn bsp(&self) -> Option<u32> {
        if self.bsp_id == u32::MAX {
            None
        } else {
            Some(self.bsp_id)
        }
    }

    /// There is a slot for each CPU.
    pub open spec fn wf(&self) -> bool {
        self.slot_list().len() == MAX_CPUS
    }

    /// No CPU has two slots, as many slots are in use as CPUs have been registered, and those
    /// come first.
    pub open spec fn consistent(&self) -> bool {
        &&& forall|i: int, j: int|
            0 <= i < j < self.slot_list().len() && (#[trigger] self.slot_list()[i]).used()
                ==> self.slot_list()[i].cpu_id != (#[trigger] self.slot_list()[j]).cpu_id
        &&& self.registered() == used_in(self.slot_list(), self.slot_list().len() as int)
        &&& forall|i: int|
            0 <= i < self.slot_list().len() ==> (#[trigger] self.slot_list()[i]).used() == (i
                < self.registered())
    }

    /// No CPU has been registered.
    pub open spec fn fresh(&self) -> bool {
        &&& self.slot_list() == Seq::new(MAX_CPUS as nat, |i: int| CpuSlot::unused())
        &&& self.registered() == 0
        &&& self.bsp() is None
    }

    /// Creates a new CPU manager.
    pub fn new() -> (r: Self)
        ensures
            r.wf(),
            r.consistent(),
            r.fresh(),
    {
        let mut slots: Vec<CpuSlot> = Vec::new();
        let mut i: usize = 0;
        while i < MAX_CPUS
            invariant
                i <= MAX_CPUS,
                slots@.len() == i,
                forall|j: int| 0 <= j < i ==> #[trigger] slots@[j] == CpuSlot::unused(),
                used_in(slots@, i as int) == 0,
            decreases MAX_CPUS - i,
        {
            let ghost before = slots@;
            slots.push(CpuSlot::new());
            proof {
                lemma_used_in_prefix(before, slots@, i as int);
            }
            i = i + 1;
        }
        assert(slots@ =~= Seq::new(MAX_CPUS as nat, |i: int| CpuSlot::unused()));
        CpuManager { slots, registered_count: 0, bsp_id: u32::MAX }
    }

    /// Registers a CPU with the manager.
    ///
    /// Returns the index of the registered CPU, or `None` if the most CPUs have been reached
    /// or the CPU has already been registered.
    pub fn register_cpu(&mut self, cpu_id: u32, is_bsp: bool) -> (r: Option<usize>)
        requires
            old(self).wf(),
        ensures
            final(self).wf(),
            old(self).consistent() && cpu_id != u32::MAX && MAX_CPUS <= u32::MAX
                ==> final(self).consistent(),
            old(self).consistent() ==> (r matches Some(i) ==> i == old(self).registered()),
            match (slot_of(old(self).slot_list(), cpu_id, 0), unused_slot(
                old(self).slot_list(),
                0,
            )) {
                (None, Some(i)) => {
                    &&& 0 <= i < MAX_CPUS
                    &&& r == Some(i as usize)
                    &&& final(self).slot_list() == old(self).slot_list().update(
                        i,
                        registered_slot(cpu_id, is_bsp),
                    )
                    &&& final(self).registered() == if old(self).registered() == u32::MAX {
                        0
                    } else {
                        old(self).registered() + 1
                    }
                    &&& final(self).bsp() == if is_bsp {
                        if cpu_id == u32::MAX {
                            None
                        } else {
                            Some(cpu_id)
                        }
                    } else {
                        old(self).bsp()
                    }
                },
                _ => r is None && *final(self) == *old(self),
            },
    {
        match self.find_slot(cpu_id) {
            Some(_) => {
                return None;
            },
            None => {},
        }
        let mut index: usize = 0;
        while index < self.slots.len()
            invariant
                index <= self.slots@.len(),
                *self == *old(self),
                self.wf(),
                slot_of(self.slots@, cpu_id, 0) is None,
                unused_slot(self.slots@, 0) == unused_slot(self.slots@, index as int),
            decreases self.slots@.len() - index,
        {
            if !self.slots[index].is_used() {
                let state = if is_bsp {
                    ApState::Busy
                } else {
                    ApState::InHoldingPen
                };
                self.slots.set(index, CpuSlot { cpu_id, is_bsp, state });
                self.registered_count = self.registered_count.wrapping_add(1);
                if is_bsp {
                    self.bsp_id = cpu_id;
                }
                proof {
                    lemma_unused_slot(old(self).slots@, 0);
                    if old(self).consistent() {
                        assert(!old(self).slot_list()[index as int].used());
                        if index > 0 {
                            assert(old(self).slot_list()[index - 1].used());
                        }
                    }
                    if old(self).consistent() && cpu_id != u32::MAX && MAX_CPUS <= u32::MAX {
                        lemma_slot_of(old(self).slots@, cpu_id, 0);
                        lemma_used_in_bound(old(self).slots@, index as int);
                        lemma_used_in_update(
                            old(self).slots@,
                            self.slots@,
                            index as int,
                            self.slots@.len() as int,
                        );
                    }
                }
                return Some(index);
            }
            index = index + 1;
        }
        None
    }

    /// Gets the number of registered CPUs.
    pub fn registered_count(&self) -> (r: usize)
        ensures
            r == self.registered(),
    {
        self.registered_count as usize
    }

    /// Gets the maximum number of CPUs supported.
    pub fn max_cpus(&self) -> (r: usize)
        ensures
            r == MAX_CPUS,
    {
        MAX_CPUS
    }

    /// Gets the APIC ID of the BSP.
    pub fn bsp_id(&self) -> (r: Option<u32>)
        ensures
            r == self.bsp(),
    {
        if self.bsp_id == u32::MAX {
            None
        } else {
            Some(self.bsp_id)
        }
    }

    /// Checks if the given CPU ID is the BSP.
    pub fn is_bsp(&self, cpu_id: u32) -> (r: bool)
        ensures
            r == (self.bsp() == Some(cpu_id)),
    {
        match self.bsp_id() {
            Some(id) => id == cpu_id,
            None => false,
        }
    }

    /// Finds the slot index for a given CPU ID.
    pub fn find_slot(&self, cpu_id: u32) -> (r: Option<usize>)
        ensures
            match r {
                Some(i) => slot_of(self.slot_list(), cpu_id, 0) == Some(i as int) && i
                    < self.slot_list().len() && self.slot_list()[i as int].is_of(cpu_id),
                None => slot_of(self.slot_list(), cpu_id, 0) is None,
            },
    {
        let mut index: usize = 0;
        while index < self.slots.len()
            invariant
                index <= self.slots@.len(),
                slot_of(self.slots@, cpu_id, 0) == slot_of(self.slots@, cpu_id, index as int),
            decreases self.slots@.len() - index,
        {
            match self.slots[index].get_cpu_id() {
                Some(id) => {
                    if id == cpu_id {
                        return Some(index);
                    }
                },
                None => {},
            }
            index = index + 1;
        }
        None
    }

    /// Gets the CPU ID in a slot.
    pub fn get_cpu_id_by_index(&self, index: usize) -> (r: Option<u32>)
        ensures
            r == if index < self.slot_list().len() && self.slot_list()[index as int].used() {
                Some(self.slot_list()[index as int].cpu_id)
            } else {
                None
            },
    {
        if index < self.slots.len() {
            self.slots[index].get_cpu_id()
        } else {
            None
        }
    }

    /// Gets the state of an AP.
    pub fn get_ap_state(&self, cpu_id: u32) -> (r: Option<ApState>)
        ensures
            r == match slot_of(self.slot_list(), cpu_id, 0) {
                Some(i) => Some(self.slot_list()[i].state),
                None => None,
            },
    {
        match self.find_slot(cpu_id) {
            Some(index) => Some(self.slots[index].state),
            None => None,
        }
    }

    /// Sets the state of an AP. The state of the BSP cannot be changed.
    pub fn set_ap_state(&mut self, cpu_id: u32, state: ApState) -> (r: bool)
        requires
            old(self).wf(),
        ensures
            final(self).wf(),
            final(self).registered() == old(self).registered(),
            final(self).bsp() == old(self).bsp(),
            old(self).consistent() ==> final(self).consistent(),
            match slot_of(old(self).slot_list(), cpu_id, 0) {
                Some(i) => if old(self).slot_list()[i].is_bsp {
                    !r && final(self).slot_list() == old(self).slot_list()
                } else {
                    r && final(self).slot_list() == old(self).slot_list().update(
                        i,
                        CpuSlot { state, ..old(self).slot_list()[i] },
                    )
                },
                None => !r && final(self).slot_list() == old(self).slot_list(),
            },
    {
        let index: usize = match self.find_slot(cpu_id) {
            Some(idx) => idx,
            None => {
                return false;
            },
        };
        let slot = self.slots[index];
        if slot.is_bsp {
            return false;
        }
        self.slots.set(index, CpuSlot { state, ..slot });
        proof {
            lemma_used_in_same(old(self).slots@, self.slots@, self.slots@.len() as int);
        }
        true
    }

    /// Returns the IDs of all registered APs, for the caller to go through.
    pub fn for_each_ap(&self) -> (r: Vec<u32>)
        ensures
            r@ == ap_ids(self.slot_list(), self.slot_list().len() as int),
    {
        let mut ids: Vec<u32> = Vec::new();
        let mut index: usize = 0;
        while index < self.slots.len()
            invariant
                index <= self.slots@.len(),
                ids@ == ap_ids(self.slots@, index as int),
            decreases self.slots@.len() - index,
        {
            match self.slots[index].get_cpu_id() {
                Some(cpu_id) => {
                    if !self.slots[index].is_bsp {
                        ids.push(cpu_id);
                    }
                },
                None => {},
            }
            index = index + 1;
        }
        ids
    }

    /// Counts APs in a specific state.
    pub fn count_aps_in_state(&self, state: ApState) -> (r: usize)
        ensures
            r == aps_in(self.slot_list(), state, self.slot_list().len() as int),
    {
        let mut count: usize = 0;
        let mut index: usize = 0;
        while index < self.slots.len()
            invariant
                index <= self.slots@.len(),
                count <= index,
                count == aps_in(self.slots@, state, index as int),
            decreases self.slots@.len() - index,
        {
            let slot = self.slots[index];
            if slot.is_used() && !slot.is_bsp && slot.state == state {
                count = count + 1;
            }
            index = index + 1;
        }
        count
    }
}

impl<const MAX_CPUS: usize> Default for CpuManager<MAX_CPUS> {
    fn default() -> (r: Self)
        ensures
            r.wf(),
            r.consistent(),
            r.fresh(),
    {
        Self::new()
    }
}

/// The APIC ID of a CPU, from the EBX that CPUID function 1 gives on it: its top 8 bits.
pub fn get_current_cpu_id(cpuid_ebx: u32) -> (r: u32)
    ensures
        r == cpuid_ebx as int / 0x100_0000,
{
    assert((cpuid_ebx >> 24) & 0xff == cpuid_ebx / 0x100_0000) by (bit_vector);
    (cpuid_ebx >> 24) & 0xff
}

proof fn lemma_used_in_prefix(a: Seq<CpuSlot>, b: Seq<CpuSlot>, n: int)
    requires
        0 <= n <= a.len(),
        n <= b.len(),
        forall|i: int| 0 <= i < n ==> a[i] == b[i],
    ensures
        used_in(a, n) == used_in(b, n),
    decreases n,
{
    if n > 0 {
        lemma_used_in_prefix(a, b, n - 1);
    }
}

proof fn lemma_used_in_same(a: Seq<CpuSlot>, b: Seq<CpuSlot>, n: int)
    requires
        0 <= n <= a.len(),
        a.len() == b.len(),
        forall|i: int| 0 <= i < n ==> (#[trigger] a[i]).used() == b[i].used(),
    ensures
        used_in(a, n) == used_in(b, n),
    decreases n,
{
    if n > 0 {
        lemma_used_in_same(a, b, n - 1);
        assert(a[n - 1].used() == b[n - 1].used());
    }
}

proof fn lemma_used_in_update(a: Seq<CpuSlot>, b: Seq<CpuSlot>, i: int, n: int)
    requires
        0 <= i < n <= a.len(),
        !a[i].used(),
        b[i].used(),
        b == a.update(i, b[i]),
    ensures
        used_in(b, n) == used_in(a, n) + 1,
    decreases n,
{
    if n == i + 1 {
        lemma_used_in_prefix(a, b, i);
    } else {
        lemma_used_in_update(a, b, i, n - 1);
    }
}

/// With an unused slot, fewer slots are in use than there are.
proof fn lemma_used_in_bound(slots: Seq<CpuSlot>, i: int)
    requires
        0 <= i < slots.len(),
        !slots[i].used(),
    ensures
        used_in(slots, slots.len() as int) < slots.len(),
{
    lemma_used_in_upto(slots, i, slots.len() as int);
}

proof fn lemma_used_in_upto(slots: Seq<CpuSlot>, i: int, n: int)
    requires
        0 <= i < slots.len(),
        !slots[i].used(),
        0 <= n <= slots.len(),
    ensures
        used_in(slots, n) <= if n > i {
            n - 1
        } else {
            n
        },
    decreases n,
{
    if n > 0 {
        lemma_used_in_upto(slots, i, n - 1);
    }
}

/// The slot that is found is that of the CPU, and where none is found there is none.
pub proof fn lemma_slot_of(slots: Seq<CpuSlot>, cpu_id: u32, from: int)
    requires
        0 <= from,
    ensures
        match slot_of(slots, cpu_id, from) {
            Some(i) => from <= i < slots.len() && slots[i].is_of(cpu_id),
            None => forall|i: int|
                from <= i < slots.len() ==> !(#[trigger] slots[i]).is_of(cpu_id),
        },
    decreases slots.len() - from,
{
    if from < slots.len() && !slots[from].is_of(cpu_id) {
        lemma_slot_of(slots, cpu_id, from + 1);
    }
}

/// The unused slot that is found is the first one.
pub proof fn lemma_unused_slot(slots: Seq<CpuSlot>, from: int)
    requires
        0 <= from,
    ensures
        match unused_slot(slots, from) {
            Some(i) => {
                &&& from <= i < slots.len()
                &&& !slots[i].used()
                &&& forall|j: int| from <= j < i ==> (#[trigger] slots[j]).used()
            },
            None => forall|j: int| from <= j < slots.len() ==> (#[trigger] slots[j]).used(),
        },
    decreases slots.len() - from,
{
    if from < slots.len() && slots[from].used() {
        lemma_unused_slot(slots, from + 1);
    }
}

/// In a consistent manager, a CPU is found in the slot that is its own: what a registration
/// returns is where the CPU is found afterwards.
pub proof fn law_registered_cpu_found(slots: Seq<CpuSlot>, cpu_id: u32, i: int, from: int)
    requires
        0 <= from <= i < slots.len(),
        slots[i].is_of(cpu_id),
        forall|a: int, b: int|
            0 <= a < b < slots.len() && (#[trigger] slots[a]).used() ==> slots[a].cpu_id != (
            #[trigger] slots[b]).cpu_id,
    ensures
        slot_of(slots, cpu_id, from) == Some(i),
    decreases i - from,
{
    if from < i {
        if slots[from].used() {
            assert(slots[from].cpu_id != slots[i].cpu_id);
        }
        law_registered_cpu_found(slots, cpu_id, i, from + 1);
    }
}

/// A number of an AP state is that of its state; every other number counts as not present.
pub proof fn law_ap_state_numbers(value: u8)
    ensures
        ApState::of_number(value).number() == value || value > 3 && ApState::of_number(value)
            == ApState::NotPresent,
        ApState::of_number(0) == ApState::NotPresent,
        ApState::of_number(1) == ApState::InHoldingPen,
        ApState::of_number(2) == ApState::Busy,
        ApState::of_number(3) == ApState::Halted,
{
}

proof fn lemma_slot_of_first(slots: Seq<CpuSlot>, cpu_id: u32, from: int)
    requires
        0 <= from,
    ensures
        slot_of(slots, cpu_id, from) matches Some(i) ==> from <= i < slots.len() && slots[i].is_of(
            cpu_id,
        ) && forall|j: int| from <= j < i ==> !(#[trigger] slots[j]).is_of(cpu_id),
    decreases slots.len() - from,
{
    if from < slots.len() && !slots[from].is_of(cpu_id) {
        lemma_slot_of_first(slots, cpu_id, from + 1);
    }
}

/// The slot of a CPU is the first that has its ID, unless the ID is that of unused slots; the slot
/// for a new CPU is the first unused one. Neither is found only if there is none.
pub proof fn law_slot_lookup(slots: Seq<CpuSlot>, cpu_id: u32)
    ensures
        match slot_of(slots, cpu_id, 0) {
            Some(i) => 0 <= i < slots.len() && slots[i].cpu_id == cpu_id && cpu_id != u32::MAX
                && forall|j: int| 0 <= j < i ==> (#[trigger] slots[j]).cpu_id != cpu_id,
            None => cpu_id == u32::MAX || forall|j: int|
                0 <= j < slots.len() ==> (#[trigger] slots[j]).cpu_id != cpu_id,
        },
        match unused_slot(slots, 0) {
            Some(i) => 0 <= i < slots.len() && slots[i].cpu_id == u32::MAX && forall|j: int|
                0 <= j < i ==> (#[trigger] slots[j]).cpu_id != u32::MAX,
            None => forall|j: int| 0 <= j < slots.len() ==> (#[trigger] slots[j]).cpu_id != u32::MAX,
        },
{
    lemma_slot_of(slots, cpu_id, 0);
    lemma_slot_of_first(slots, cpu_id, 0);
    lemma_unused_slot(slots, 0);
    match slot_of(slots, cpu_id, 0) {
        Some(i) => {
            assert forall|j: int| 0 <= j < i implies (#[trigger] slots[j]).cpu_id != cpu_id by {
                assert(!slots[j].is_of(cpu_id));
            }
        },
        None => {
            if cpu_id != u32::MAX {
                assert forall|j: int| 0 <= j < slots.len() implies (
                #[trigger] slots[j]).cpu_id != cpu_id by {
                    assert(!slots[j].is_of(cpu_id));
                }
            }
        },
    }
}

/// Registering a CPU makes it found, in the state in which it starts: the BSP is busy, an AP waits
/// in the holding pen. What is found of every other CPU stays as it was.
pub proof fn law_register_changes_one_lookup(
    before: Seq<CpuSlot>,
    after: Seq<CpuSlot>,
    cpu_id: u32,
    is_bsp: bool,
    i: int,
    other: u32,
)
    requires
        cpu_id != u32::MAX,
        slot_of(before, cpu_id, 0) is None,
        unused_slot(before, 0) == Some(i),
        after == before.update(i, registered_slot(cpu_id, is_bsp)),
    ensures
        slot_of(after, cpu_id, 0) == Some(i),
        after[i].cpu_id == cpu_id,
        after[i].is_bsp == is_bsp,
        is_bsp ==> after[i].state == ApState::Busy,
        !is_bsp ==> after[i].state == ApState::InHoldingPen,
        other != cpu_id ==> slot_of(after, other, 0) == slot_of(before, other, 0),
        other != cpu_id ==> (slot_of(before, other, 0) matches Some(k) ==> after[k] == before[k]),
{
    lemma_unused_slot(before, 0);
    lemma_slot_of(before, cpu_id, 0);
    lemma_slot_of(after, cpu_id, 0);
    assert(after[i].is_of(cpu_id));
    if slot_of(after, cpu_id, 0) is Some {
        let k = slot_of(after, cpu_id, 0)->0;
        if k != i {
            assert(after[k] == before[k]);
            assert(!before[k].is_of(cpu_id));
        }
    }
    if other != cpu_id {
        assert forall|k: int| 0 <= k < before.len() implies (#[trigger] after[k]).is_of(other)
            == before[k].is_of(other) by {}
        lemma_slot_of_same(before, after, other, 0);
        lemma_slot_of(before, other, 0);
    }
}

proof fn lemma_slot_of_same(a: Seq<CpuSlot>, b: Seq<CpuSlot>, cpu_id: u32, from: int)
    requires
        0 <= from,
        a.len() == b.len(),
        forall|k: int| 0 <= k < a.len() ==> (#[trigger] b[k]).is_of(cpu_id) == a[k].is_of(cpu_id),
    ensures
        slot_of(b, cpu_id, from) == slot_of(a, cpu_id, from),
    decreases a.len() - from,
{
    if from < a.len() {
        assert(b[from].is_of(cpu_id) == a[from].is_of(cpu_id));
        lemma_slot_of_same(a, b, cpu_id, from + 1);
    }
}

/// The CPUs that are counted and listed: as many as there are slots in use; as many APs as there
/// are in a state; and the IDs of all CPUs in use but the BSP, in their order.
pub proof fn law_cpu_counts(slots: Seq<CpuSlot>, state: ApState, n: int)
    requires
        0 <= n <= slots.len(),
    ensures
        used_in(slots, n) == slots.take(n).filter(|s: CpuSlot| s.cpu_id != u32::MAX).len(),
        aps_in(slots, state, n) == slots.take(n).filter(
            |s: CpuSlot| s.cpu_id != u32::MAX && !s.is_bsp && s.state == state,
        ).len(),
        ap_ids(slots, n) == slots.take(n).filter(
            |s: CpuSlot| s.cpu_id != u32::MAX && !s.is_bsp,
        ).map_values(|s: CpuSlot| s.cpu_id),
    decreases n,
{
    reveal(Seq::filter);
    let some = slots.take(n);
    let f = |s: CpuSlot| s.cpu_id != u32::MAX && !s.is_bsp;
    let g = |s: CpuSlot| s.cpu_id;
    if n > 0 {
        law_cpu_counts(slots, state, n - 1);
        assert(some.drop_last() =~= slots.take(n - 1));
        let before = slots.take(n - 1).filter(f);
        assert(before.push(slots[n - 1]).map_values(g) =~= before.map_values(g).push(
            slots[n - 1].cpu_id,
        ));
    }
    assert(ap_ids(slots, n) =~= some.filter(f).map_values(g));
}

/// A new manager has a slot for each CPU, none of them in use, and no BSP.
pub proof fn law_new_manager<const MAX_CPUS: usize>(m: &CpuManager<MAX_CPUS>, i: int)
    requires
        m.fresh(),
    ensures
        m.registered() == 0,
        m.bsp() is None,
        m.slot_list().len() == MAX_CPUS,
        0 <= i < MAX_CPUS ==> m.slot_list()[i].cpu_id == u32::MAX && !m.slot_list()[i].is_bsp
            && m.slot_list()[i].state == ApState::NotPresent,
{
}

/// A CPU that has just been registered is busy if it is the BSP, and else waits in the holding pen.
pub proof fn law_registered_state(cpu_id: u32, is_bsp: bool)
    ensures
        ({
            let slot = registered_slot(cpu_id, is_bsp);
            &&& slot.cpu_id == cpu_id
            &&& slot.is_bsp == is_bsp
            &&& is_bsp ==> slot.state == ApState::Busy
            &&& !is_bsp ==> slot.state == ApState::InHoldingPen
        }),
{
}

/// No two CPUs have the same ID; as many are counted as have a slot; and they have the first slots.
pub proof fn law_cpus_are_consistent<const MAX_CPUS: usize>(
    m: &CpuManager<MAX_CPUS>,
    i: int,
    j: int,
)
    requires
        m.consistent(),
        0 <= i < j < m.slot_list().len(),
    ensures
        m.slot_list()[i].cpu_id == m.slot_list()[j].cpu_id ==> m.slot_list()[i].cpu_id == u32::MAX,
        m.registered() == m.slot_list().filter(|s: CpuSlot| s.cpu_id != u32::MAX).len(),
        m.slot_list()[i].cpu_id != u32::MAX <==> i < m.registered(),
        m.slot_list()[j].cpu_id != u32::MAX <==> j < m.registered(),
{
    let slots = m.slot_list();
    law_cpu_counts(slots, ApState::Busy, slots.len() as int);
    assert(slots.take(slots.len() as int) =~= slots);
    assert(slots[i].used() ==> slots[i].cpu_id != slots[j].cpu_id);
}

} // verus!
