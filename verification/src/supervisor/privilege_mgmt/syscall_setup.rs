//! Syscall interface setup.
//!
//! The values of the MSRs for syscall and sysret, and what is kept of each CPU: the values
//! that the MSRs had before, and the cache that the syscall entry finds through GS.

use crate::bytes::{le64, write_u64};
use crate::supervisor::privilege_mgmt::{
    PrivilegeError, EFER_SCE, MSR_IA32_EFER, MSR_IA32_GS_BASE, MSR_IA32_KERNEL_GS_BASE,
    MSR_IA32_LSTAR, MSR_IA32_STAR,
};
use vstd::prelude::*;

verus! {

/// Errors specific to syscall setup operations.
#[derive(Debug, Clone, Copy, PartialEq, Eq, Structural)]
pub enum SyscallSetupError {
    /// The syscall interface has not been initialized.
    NotInitialized,
    /// Already initialized.
    AlreadyInitialized,
    /// Invalid CPU index (exceeds the configured CPU count).
    InvalidCpuIndex,
    /// Out of resources.
    OutOfResources,
    /// MSR stores are not ready.
    NotReady,
}

impl vstd::std_specs::convert::FromSpecImpl<SyscallSetupError> for PrivilegeError {
    open spec fn obeys_from_spec() -> bool {
        true
    }

    open spec fn from_spec(e: SyscallSetupError) -> PrivilegeError {
        match e {
            SyscallSetupError::NotInitialized => PrivilegeError::NotInitialized,
            SyscallSetupError::AlreadyInitialized => PrivilegeError::AlreadyInitialized,
            SyscallSetupError::InvalidCpuIndex => PrivilegeError::InvalidCpuIndex,
            SyscallSetupError::OutOfResources => PrivilegeError::OutOfResources,
            SyscallSetupError::NotReady => PrivilegeError::NotReady,
        }
    }
}

impl From<SyscallSetupError> for PrivilegeError {
    fn from(e: SyscallSetupError) -> (r: PrivilegeError) {
        match e {
            SyscallSetupError::NotInitialized => PrivilegeError::NotInitialized,
            SyscallSetupError::AlreadyInitialized => PrivilegeError::AlreadyInitialized,
            SyscallSetupError::InvalidCpuIndex => PrivilegeError::InvalidCpuIndex,
            SyscallSetupError::OutOfResources => PrivilegeError::OutOfResources,
            SyscallSetupError::NotReady => PrivilegeError::NotReady,
        }
    }
}

/// Per-CPU syscall cache, to which the kernel GS base points during a syscall.
#[derive(Debug, Clone, Copy, Default, PartialEq, Eq, Structural)]
pub struct SyscallCache {
    /// Ring 0 stack pointer to use on syscall entry.
    pub mm_supv_rsp: u64,
    /// Saved Ring 3 stack pointer from syscall.
    pub saved_user_rsp: u64,
    /// Original OS GS base pointer.
    pub os_gs_base_ptr: u64,
    /// Original OS kernel GS base pointer.
    pub os_gs_swap_base_ptr: u64,
}

impl SyscallCache {
    /// Where the syscall entry finds the Ring 0 stack pointer.
    pub const MM_SUPV_RSP: usize = 0x00;

    /// Where the syscall entry saves the Ring 3 stack pointer.
    pub const SAVED_USER_RSP: usize = 0x08;

    /// Where the original GS base stands.
    pub const OS_GS_BASE_PTR: usize = 0x10;

    /// Where the original kernel GS base stands.
    pub const OS_GS_SWAP_BASE_PTR: usize = 0x18;

    /// Size of the cache in bytes.
    pub const SIZE: usize = 0x20;

    /// The cache as the syscall entry reads it.
    pub fn to_bytes(&self) -> (r: Vec<u8>)
        ensures
            r@.len() == 0x20,
            le64(r@, 0x00) == self.mm_supv_rsp,
            le64(r@, 0x08) == self.saved_user_rsp,
            le64(r@, 0x10) == self.os_gs_base_ptr,
            le64(r@, 0x18) == self.os_gs_swap_base_ptr,
    {
        let mut bytes: Vec<u8> = Vec::new();
        while bytes.len() < 0x20
            invariant
                bytes.len() <= 0x20,
            decreases 0x20 - bytes.len(),
        {
            bytes.push(0);
        }
        write_u64(&mut bytes, 0x00, self.mm_supv_rsp);
        write_u64(&mut bytes, 0x08, self.saved_user_rsp);
        write_u64(&mut bytes, 0x10, self.os_gs_base_ptr);
        write_u64(&mut bytes, 0x18, self.os_gs_swap_base_ptr);
        bytes
    }
}

/// The MSRs that the setup changes.
#[derive(Debug, Clone, Copy, PartialEq, Eq, Structural)]
pub struct SyscallMsrs {
    /// `MSR_IA32_STAR`.
    pub star: u64,
    /// `MSR_IA32_LSTAR`.
    pub lstar: u64,
    /// `MSR_IA32_EFER`.
    pub efer: u64,
    /// `MSR_IA32_GS_BASE`.
    pub gs_base: u64,
    /// `MSR_IA32_KERNEL_GS_BASE`.
    pub kernel_gs_base: u64,
}

/// A write to an MSR.
#[derive(Debug, Clone, Copy, PartialEq, Eq, Structural)]
pub struct MsrWrite {
    /// The MSR.
    pub msr: u32,
    /// The value to write.
    pub value: u64,
}

/// What is kept of one CPU.
#[derive(Debug, Clone, Copy, Default, PartialEq, Eq, Structural)]
pub struct CpuMsrStorage {
    /// Saved `MSR_IA32_STAR` value.
    pub msr_star: u64,
    /// Saved `MSR_IA32_LSTAR` value.
    pub msr_lstar: u64,
    /// Saved `MSR_IA32_EFER` value.
    pub msr_efer: u64,
    /// Syscall cache for this CPU.
    pub syscall_cache: SyscallCache,
    /// Whether this CPU's MSRs have been configured.
    pub configured: bool,
}

impl CpuMsrStorage {
    /// What is kept of a CPU that has not been configured.
    pub open spec fn none() -> Self {
        CpuMsrStorage {
            msr_star: 0,
            msr_lstar: 0,
            msr_efer: 0,
            syscall_cache: SyscallCache {
                mm_supv_rsp: 0,
                saved_user_rsp: 0,
                os_gs_base_ptr: 0,
                os_gs_swap_base_ptr: 0,
            },
            configured: false,
        }
    }
}

/// The MSRs after one write.
pub open spec fn msrs_after_write(msrs: SyscallMsrs, w: MsrWrite) -> SyscallMsrs {
    if w.msr == MSR_IA32_STAR {
        SyscallMsrs { star: w.value, ..msrs }
    } else if w.msr == MSR_IA32_LSTAR {
        SyscallMsrs { lstar: w.value, ..msrs }
    } else if w.msr == MSR_IA32_EFER {
        SyscallMsrs { efer: w.value, ..msrs }
    } else if w.msr == MSR_IA32_GS_BASE {
        SyscallMsrs { gs_base: w.value, ..msrs }
    } else if w.msr == MSR_IA32_KERNEL_GS_BASE {
        SyscallMsrs { kernel_gs_base: w.value, ..msrs }
    } else {
        msrs
    }
}

/// The MSRs, as they are after `writes`, if they were `msrs` before.
pub open spec fn msrs_after(msrs: SyscallMsrs, writes: Seq<MsrWrite>) -> SyscallMsrs
    decreases writes.len(),
{
    if writes.len() == 0 {
        msrs
    } else {
        msrs_after_write(msrs_after(msrs, writes.drop_last()), writes.last())
    }
}

/// STAR for the syscall interface: the Ring 3 selector base in bits 63:48, the Ring 0 one in
/// bits 47:32, and the lower half kept.
pub open spec fn star_value(star: u64) -> int {
    0x4B_0038_0000_0000 + star as int % 0x1_0000_0000
}

/// The writes that set up the MSRs of a CPU.
pub open spec fn setup_writes(current: SyscallMsrs, entry: u64, cache_ptr: u64) -> Seq<MsrWrite> {
    seq![
        MsrWrite { msr: MSR_IA32_STAR, value: star_value(current.star) as u64 },
        MsrWrite { msr: MSR_IA32_LSTAR, value: entry },
        MsrWrite { msr: MSR_IA32_EFER, value: current.efer | EFER_SCE },
        MsrWrite { msr: MSR_IA32_GS_BASE, value: 0 },
        MsrWrite { msr: MSR_IA32_KERNEL_GS_BASE, value: cache_ptr },
    ]
}

/// What is kept of a CPU whose MSRs have been set up.
pub open spec fn setup_storage(before: CpuMsrStorage, current: SyscallMsrs) -> CpuMsrStorage {
    CpuMsrStorage {
        msr_star: current.star,
        msr_lstar: current.lstar,
        msr_efer: current.efer,
        syscall_cache: SyscallCache {
            os_gs_base_ptr: current.gs_base,
            os_gs_swap_base_ptr: current.kernel_gs_base,
            ..before.syscall_cache
        },
        configured: true,
    }
}

/// The writes that restore the MSRs of a CPU.
pub open spec fn restore_writes(storage: CpuMsrStorage) -> Seq<MsrWrite> {
    seq![
        MsrWrite { msr: MSR_IA32_LSTAR, value: storage.msr_lstar },
        MsrWrite { msr: MSR_IA32_STAR, value: storage.msr_star },
        MsrWrite { msr: MSR_IA32_EFER, value: storage.msr_efer },
        MsrWrite { msr: MSR_IA32_GS_BASE, value: storage.syscall_cache.os_gs_base_ptr },
        MsrWrite {
            msr: MSR_IA32_KERNEL_GS_BASE,
            value: storage.syscall_cache.os_gs_swap_base_ptr,
        },
    ]
}

/// State of the syscall interface for up to `MAX_CPUS` CPUs.
pub struct SyscallInterfaceState<const MAX_CPUS: usize> {
    /// What is kept of each CPU.
    pub cpu_storage: Vec<CpuMsrStorage>,
    /// Number of CPUs configured.
    pub num_cpus: usize,
    /// Syscall entry point address.
    pub syscall_entry_point: u64,
    /// CPL3 stack array base address.
    pub cpl3_stack_base: u64,
    /// Per-CPU stack size.
    pub stack_size: usize,
}

impl<const MAX_CPUS: usize> SyscallInterfaceState<MAX_CPUS> {
    /// Creates a state in which nothing is configured.
    pub fn new() -> (r: Self)
        ensures
            r.cpu_storage@ == Seq::new(MAX_CPUS as nat, |i: int| CpuMsrStorage::none()),
            r.num_cpus == 0,
            r.syscall_entry_point == 0,
            r.cpl3_stack_base == 0,
            r.stack_size == 0,
    {
        let mut cpu_storage: Vec<CpuMsrStorage> = Vec::new();
        let mut i: usize = 0;
        while i < MAX_CPUS
            invariant
                i <= MAX_CPUS,
                cpu_storage@.len() == i,
                forall|j: int| 0 <= j < i ==> #[trigger] cpu_storage@[j] == CpuMsrStorage::none(),
            decreases MAX_CPUS - i,
        {
            cpu_storage.push(
                CpuMsrStorage {
                    msr_star: 0,
                    msr_lstar: 0,
                    msr_efer: 0,
                    syscall_cache: SyscallCache {
                        mm_supv_rsp: 0,
                        saved_user_rsp: 0,
                        os_gs_base_ptr: 0,
                        os_gs_swap_base_ptr: 0,
                    },
                    configured: false,
                },
            );
            i = i + 1;
        }
        assert(cpu_storage@ =~= Seq::new(MAX_CPUS as nat, |i: int| CpuMsrStorage::none()));
        SyscallInterfaceState {
            cpu_storage,
            num_cpus: 0,
            syscall_entry_point: 0,
            cpl3_stack_base: 0,
            stack_size: 0,
        }
    }
}

/// `x` in 64 bits.
pub open spec fn wrap64(x: int) -> int {
    x % 0x1_0000_0000_0000_0000
}

/// Syscall interface manager for up to `MAX_CPUS` CPUs.
pub struct SyscallInterface<const MAX_CPUS: usize> {
    /// Whether the interface has been initialized.
    initialized: bool,
    /// The state.
    state: SyscallInterfaceState<MAX_CPUS>,
}

impl<const MAX_CPUS: usize> SyscallInterface<MAX_CPUS> {
    /// The interface has been initialized.
    pub closed spec fn ready(&self) -> bool {
        self.initialized
    }

    /// How many CPUs are configured.
    pub closed spec fn cpus(&self) -> int {
        self.state.num_cpus as int
    }

    /// Where a syscall enters.
    pub closed spec fn entry_point(&self) -> u64 {
        self.state.syscall_entry_point
    }

    /// Where the CPL3 stacks start.
    pub closed spec fn stack_base(&self) -> int {
        self.state.cpl3_stack_base as int
    }

    /// How large a CPL3 stack is.
    pub closed spec fn stack_bytes(&self) -> int {
        self.state.stack_size as int
    }

    /// What is kept of each CPU.
    pub closed spec fn storage(&self) -> Seq<CpuMsrStorage> {
        self.state.cpu_storage@
    }

    /// Something is kept of each CPU that can be configured.
    pub closed spec fn wf(&self) -> bool {
        self.state.cpu_storage@.len() == MAX_CPUS && self.state.num_cpus <= MAX_CPUS
    }

    /// Nothing but what is kept of the CPUs has changed.
    pub open spec fn same_setup(&self, other: &Self) -> bool {
        &&& self.ready() == other.ready()
        &&& self.cpus() == other.cpus()
        &&& self.entry_point() == other.entry_point()
        &&& self.stack_base() == other.stack_base()
        &&& self.stack_bytes() == other.stack_bytes()
    }

    /// The error of a request for a CPU, if there is one.
    pub open spec fn cpu_fault(&self, cpu_index: usize) -> Option<SyscallSetupError> {
        if !self.ready() {
            Some(SyscallSetupError::NotInitialized)
        } else if cpu_index >= self.cpus() {
            Some(SyscallSetupError::InvalidCpuIndex)
        } else {
            None
        }
    }

    /// The top of the CPL3 stack of a CPU: the last place for a pointer in it.
    pub open spec fn stack_top(&self, cpu_index: int) -> int {
        wrap64(self.stack_base() + self.stack_bytes() * (cpu_index + 1) - 8)
    }

    /// Nothing has been configured.
    pub open spec fn fresh(&self) -> bool {
        &&& !self.ready()
        &&& self.cpus() == 0
        &&& self.entry_point() == 0
        &&& self.stack_base() == 0
        &&& self.stack_bytes() == 0
        &&& self.storage() == Seq::new(MAX_CPUS as nat, |i: int| CpuMsrStorage::none())
    }

    /// Creates a new syscall interface.
    pub fn new() -> (r: Self)
        ensures
            r.wf(),
            r.fresh(),
    {
        SyscallInterface { initialized: false, state: SyscallInterfaceState::new() }
    }

    /// Returns the maximum number of CPUs this interface supports.
    pub fn max_cpus(&self) -> (r: usize)
        ensures
            r == MAX_CPUS,
    {
        MAX_CPUS
    }

    /// Initializes the syscall interface.
    pub fn init(
        &mut self,
        num_cpus: usize,
        syscall_entry_point: u64,
        cpl3_stack_base: u64,
        stack_size: usize,
    ) -> (r: Result<(), SyscallSetupError>)
        requires
            old(self).wf(),
        ensures
            final(self).wf(),
            r == if old(self).ready() {
                Err::<(), SyscallSetupError>(SyscallSetupError::AlreadyInitialized)
            } else if num_cpus == 0 || num_cpus > MAX_CPUS {
                Err(SyscallSetupError::InvalidCpuIndex)
            } else {
                Ok(())
            },
            r is Err ==> *final(self) == *old(self),
            r is Ok ==> {
                &&& final(self).ready()
                &&& final(self).cpus() == num_cpus
                &&& final(self).entry_point() == syscall_entry_point
                &&& final(self).stack_base() == cpl3_stack_base
                &&& final(self).stack_bytes() == stack_size
                &&& final(self).storage() == old(self).storage()
            },
    {
        if self.initialized {
            return Err(SyscallSetupError::AlreadyInitialized);
        }
        if num_cpus == 0 || num_cpus > MAX_CPUS {
            return Err(SyscallSetupError::InvalidCpuIndex);
        }
        self.initialized = true;
        self.state.num_cpus = num_cpus;
        self.state.syscall_entry_point = syscall_entry_point;
        self.state.cpl3_stack_base = cpl3_stack_base;
        self.state.stack_size = stack_size;
        Ok(())
    }

    /// Checks if the syscall interface is initialized.
    pub fn is_initialized(&self) -> (r: bool)
        ensures
            r == self.ready(),
    {
        self.initialized
    }

    /// Checks a CPU index.
    fn check_cpu(&self, cpu_index: usize) -> (r: Option<SyscallSetupError>)
        ensures
            r == self.cpu_fault(cpu_index),
    {
        if !self.initialized {
            return Some(SyscallSetupError::NotInitialized);
        }
        if cpu_index >= self.state.num_cpus {
            return Some(SyscallSetupError::InvalidCpuIndex);
        }
        None
    }

    /// Gets the CPL3 stack pointer for a specific CPU:
    /// `cpl3_stack_base + stack_size * (cpu_index + 1) - 8`.
    pub fn get_cpl3_stack(&self, cpu_index: usize) -> (r: Result<u64, SyscallSetupError>)
        requires
            self.wf(),
        ensures
            match r {
                Ok(stack) => self.cpu_fault(cpu_index) is None && stack == self.stack_top(
                    cpu_index as int,
                ),
                Err(e) => self.cpu_fault(cpu_index) == Some(e),
            },
    {
        match self.check_cpu(cpu_index) {
            Some(e) => {
                return Err(e);
            },
            None => {},
        }
        let size: u128 = self.state.stack_size as u128;
        let count: u128 = cpu_index as u128 + 1;
        assert(size * count <= 0xffff_ffff_ffff_ffff * 0x1_0000_0000_0000_0000) by (nonlinear_arith)
            requires
                size <= 0xffff_ffff_ffff_ffff,
                count <= 0x1_0000_0000_0000_0000,
        ;
        let above: u128 = size * count;
        let offset: u64 = (above % 0x1_0000_0000_0000_0000) as u64;
        let stack_top: u64 = self.state.cpl3_stack_base.wrapping_add(offset).wrapping_sub(8);
        Ok(stack_top)
    }

    /// Sets up the syscall MSRs for a specific CPU, whose MSRs are `current`, and whose
    /// syscall cache is at `cache_ptr`. Returns what is to be written on that CPU.
    ///
    /// - STAR gets the segment selectors,
    /// - LSTAR the syscall entry point,
    /// - EFER the SCE bit,
    /// - GS base 0,
    /// - and kernel GS base the address of the syscall cache.
    pub fn setup_cpl0_msr_star(
        &mut self,
        cpu_index: usize,
        current: SyscallMsrs,
        cache_ptr: u64,
    ) -> (r: Result<Vec<MsrWrite>, SyscallSetupError>)
        requires
            old(self).wf(),
        ensures
            final(self).wf(),
            final(self).same_setup(old(self)),
            match r {
                Ok(writes) => {
                    &&& old(self).cpu_fault(cpu_index) is None
                    &&& writes@ == setup_writes(current, old(self).entry_point(), cache_ptr)
                    &&& final(self).storage() == old(self).storage().update(
                        cpu_index as int,
                        setup_storage(old(self).storage()[cpu_index as int], current),
                    )
                },
                Err(e) => old(self).cpu_fault(cpu_index) == Some(e) && final(self).storage() == old(
                    self,
                ).storage(),
            },
    {
        match self.check_cpu(cpu_index) {
            Some(e) => {
                return Err(e);
            },
            None => {},
        }
        let star: u64 = current.star;
        let star_low: u64 = star & 0xFFFF_FFFF;
        let star_high: u64 = (0x4Bu64 << 16) | 0x38u64;
        let new_star: u64 = (star_high << 32) | star_low;
        assert(((((0x4Bu64 << 16) | 0x38u64) << 32) | (star & 0xFFFF_FFFF)) == 0x4B_0038_0000_0000
            + star % 0x1_0000_0000) by (bit_vector);
        let mut writes: Vec<MsrWrite> = Vec::new();
        writes.push(MsrWrite { msr: MSR_IA32_STAR, value: new_star });
        writes.push(MsrWrite { msr: MSR_IA32_LSTAR, value: self.state.syscall_entry_point });
        writes.push(MsrWrite { msr: MSR_IA32_EFER, value: current.efer | EFER_SCE });
        writes.push(MsrWrite { msr: MSR_IA32_GS_BASE, value: 0 });
        writes.push(MsrWrite { msr: MSR_IA32_KERNEL_GS_BASE, value: cache_ptr });
        let before = self.state.cpu_storage[cpu_index];
        let storage = CpuMsrStorage {
            msr_star: current.star,
            msr_lstar: current.lstar,
            msr_efer: current.efer,
            syscall_cache: SyscallCache {
                os_gs_base_ptr: current.gs_base,
                os_gs_swap_base_ptr: current.kernel_gs_base,
                ..before.syscall_cache
            },
            configured: true,
        };
        self.state.cpu_storage.set(cpu_index, storage);
        assert(writes@ =~= setup_writes(current, old(self).entry_point(), cache_ptr));
        Ok(writes)
    }

    /// Restores the original MSR values for a specific CPU: what is to be written on it.
    pub fn restore_cpl0_msr_star(&self, cpu_index: usize) -> (r: Result<
        Vec<MsrWrite>,
        SyscallSetupError,
    >)
        requires
            self.wf(),
        ensures
            match r {
                Ok(writes) => {
                    &&& self.cpu_fault(cpu_index) is None
                    &&& self.storage()[cpu_index as int].configured
                    &&& writes@ == restore_writes(self.storage()[cpu_index as int])
                },
                Err(e) => match self.cpu_fault(cpu_index) {
                    Some(fault) => e == fault,
                    None => !self.storage()[cpu_index as int].configured && e
                        == SyscallSetupError::NotReady,
                },
            },
    {
        match self.check_cpu(cpu_index) {
            Some(e) => {
                return Err(e);
            },
            None => {},
        }
        let storage = self.state.cpu_storage[cpu_index];
        if !storage.configured {
            return Err(SyscallSetupError::NotReady);
        }
        let mut writes: Vec<MsrWrite> = Vec::new();
        writes.push(MsrWrite { msr: MSR_IA32_LSTAR, value: storage.msr_lstar });
        writes.push(MsrWrite { msr: MSR_IA32_STAR, value: storage.msr_star });
        writes.push(MsrWrite { msr: MSR_IA32_EFER, value: storage.msr_efer });
        writes.push(
            MsrWrite { msr: MSR_IA32_GS_BASE, value: storage.syscall_cache.os_gs_base_ptr },
        );
        writes.push(
            MsrWrite {
                msr: MSR_IA32_KERNEL_GS_BASE,
                value: storage.syscall_cache.os_gs_swap_base_ptr,
            },
        );
        assert(writes@ =~= restore_writes(storage));
        Ok(writes)
    }

    /// Updates the Ring 0 stack pointer in the syscall cache for a CPU.
    pub fn update_cpl0_stack_ptr(&mut self, cpu_index: usize, cpl0_stack_ptr: u64) -> (r: Result<
        (),
        SyscallSetupError,
    >)
        requires
            old(self).wf(),
        ensures
            final(self).wf(),
            final(self).same_setup(old(self)),
            r == if !old(self).ready() {
                Err::<(), SyscallSetupError>(SyscallSetupError::NotInitialized)
            } else if cpl0_stack_ptr == 0 {
                Err(SyscallSetupError::NotReady)
            } else if cpu_index >= old(self).cpus() {
                Err(SyscallSetupError::InvalidCpuIndex)
            } else {
                Ok(())
            },
            final(self).storage() == if r is Ok {
                let s = old(self).storage()[cpu_index as int];
                old(self).storage().update(
                    cpu_index as int,
                    CpuMsrStorage {
                        syscall_cache: SyscallCache {
                            mm_supv_rsp: cpl0_stack_ptr,
                            ..s.syscall_cache
                        },
                        ..s
                    },
                )
            } else {
                old(self).storage()
            },
    {
        if !self.initialized {
            return Err(SyscallSetupError::NotInitialized);
        }
        if cpl0_stack_ptr == 0 {
            return Err(SyscallSetupError::NotReady);
        }
        if cpu_index >= self.state.num_cpus {
            return Err(SyscallSetupError::InvalidCpuIndex);
        }
        let before = self.state.cpu_storage[cpu_index];
        self.state.cpu_storage.set(
            cpu_index,
            CpuMsrStorage {
                syscall_cache: SyscallCache {
                    mm_supv_rsp: cpl0_stack_ptr,
                    ..before.syscall_cache
                },
                ..before
            },
        );
        Ok(())
    }

    /// Gets the syscall cache for a specific CPU.
    pub fn get_syscall_cache(&self, cpu_index: usize) -> (r: Result<
        SyscallCache,
        SyscallSetupError,
    >)
        requires
            self.wf(),
        ensures
            match r {
                Ok(cache) => self.cpu_fault(cpu_index) is None && cache
                    == self.storage()[cpu_index as int].syscall_cache,
                Err(e) => self.cpu_fault(cpu_index) == Some(e),
            },
    {
        match self.check_cpu(cpu_index) {
            Some(e) => {
                return Err(e);
            },
            None => {},
        }
        Ok(self.state.cpu_storage[cpu_index].syscall_cache)
    }

    /// Initializes syscall MSRs for a specific CPU. Before the interface has been
    /// initialized there is nothing to write.
    pub fn init_for_cpu(&mut self, cpu_index: usize, current: SyscallMsrs, cache_ptr: u64) -> (r:
        Result<Vec<MsrWrite>, SyscallSetupError>)
        requires
            old(self).wf(),
        ensures
            final(self).wf(),
            final(self).same_setup(old(self)),
            if !old(self).ready() {
                r matches Ok(writes) && writes@.len() == 0 && *final(self) == *old(self)
            } else {
                match r {
                    Ok(writes) => {
                        &&& old(self).cpu_fault(cpu_index) is None
                        &&& writes@ == setup_writes(current, old(self).entry_point(), cache_ptr)
                        &&& final(self).storage() == old(self).storage().update(
                            cpu_index as int,
                            setup_storage(old(self).storage()[cpu_index as int], current),
                        )
                    },
                    Err(e) => old(self).cpu_fault(cpu_index) == Some(e) && final(self).storage()
                        == old(self).storage(),
                }
            },
    {
        if !self.initialized {
            return Ok(Vec::new());
        }
        self.setup_cpl0_msr_star(cpu_index, current, cache_ptr)
    }
}

impl<const MAX_CPUS: usize> Default for SyscallInterface<MAX_CPUS> {
    fn default() -> (r: Self)
        ensures
            r.wf(),
            r.fresh(),
    {
        Self::new()
    }
}

/// Restoring the MSRs undoes their setup: each of them has the value that it had before.
pub proof fn law_restore_undoes_setup(
    before: CpuMsrStorage,
    current: SyscallMsrs,
    entry: u64,
    cache_ptr: u64,
)
    ensures
        msrs_after(
            msrs_after(current, setup_writes(current, entry, cache_ptr)),
            restore_writes(setup_storage(before, current)),
        ) == current,
        msrs_after(current, setup_writes(current, entry, cache_ptr)) == (SyscallMsrs {
            star: star_value(current.star) as u64,
            lstar: entry,
            efer: current.efer | EFER_SCE,
            gs_base: 0,
            kernel_gs_base: cache_ptr,
        }),
{
    let setup = setup_writes(current, entry, cache_ptr);
    lemma_five_writes(current, setup);
    let middle = msrs_after(current, setup);
    let restore = restore_writes(setup_storage(before, current));
    lemma_five_writes(middle, restore);
}

/// Five writes, one after the other.
proof fn lemma_five_writes(msrs: SyscallMsrs, w: Seq<MsrWrite>)
    requires
        w.len() == 5,
    ensures
        msrs_after(msrs, w) == msrs_after_write(
            msrs_after_write(
                msrs_after_write(
                    msrs_after_write(msrs_after_write(msrs, w[0]), w[1]),
                    w[2],
                ),
                w[3],
            ),
            w[4],
        ),
{
    let w4 = w.drop_last();
    let w3 = w4.drop_last();
    let w2 = w3.drop_last();
    let w1 = w2.drop_last();
    let w0 = w1.drop_last();
    assert(msrs_after(msrs, w0) == msrs);
    assert(msrs_after(msrs, w1) == msrs_after_write(msrs, w[0]));
    assert(msrs_after(msrs, w2) == msrs_after_write(msrs_after(msrs, w1), w[1]));
    assert(msrs_after(msrs, w3) == msrs_after_write(msrs_after(msrs, w2), w[2]));
    assert(msrs_after(msrs, w4) == msrs_after_write(msrs_after(msrs, w3), w[3]));
}

/// The CPL3 stacks of different CPUs do not overlap: each ends where the next one starts.
/// The stacks have to lie within the address space.
pub proof fn law_cpl3_stacks_apart<const MAX_CPUS: usize>(
    s: &SyscallInterface<MAX_CPUS>,
    i: int,
    j: int,
)
    requires
        0 <= i < j < s.cpus(),
        s.stack_bytes() >= 8,
        0 <= s.stack_base(),
        s.stack_base() + s.stack_bytes() * s.cpus() < 0x1_0000_0000_0000_0000,
    ensures
        s.stack_top(i) + 8 + s.stack_bytes() <= s.stack_top(j) + 8,
        s.stack_top(i) + 8 == s.stack_base() + s.stack_bytes() * (i + 1),
{
    let b = s.stack_bytes();
    let n = s.cpus();
    assert(b * (i + 1) + b <= b * (j + 1)) by (nonlinear_arith)
        requires
            i < j,
            b >= 8,
    ;
    assert(b * (j + 1) <= b * n) by (nonlinear_arith)
        requires
            j < n,
            b >= 8,
    ;
    assert(b * (i + 1) >= 8) by (nonlinear_arith)
        requires
            i >= 0,
            b >= 8,
    ;
}

/// The selectors for syscalls stand in the upper half of STAR: that of the supervisor in its low
/// part, that of the user in its high part; the lower half of the register stays as it was.
pub proof fn law_star_selectors(star: u64)
    ensures
        0 <= star_value(star) <= u64::MAX,
        star_value(star) / 0x1_0000_0000_0000 == crate::supervisor::privilege_mgmt::LONG_CS_R3_PH,
        star_value(star) / 0x1_0000_0000 % 0x1_0000
            == crate::supervisor::privilege_mgmt::LONG_CS_R0,
        star_value(star) % 0x1_0000_0000 == star as int % 0x1_0000_0000,
{
}

/// A CPU can be set up, and has a stack, if the interface is ready and the CPU is one of its own.
pub proof fn law_cpu_decision<const MAX_CPUS: usize>(
    s: &SyscallInterface<MAX_CPUS>,
    cpu_index: usize,
)
    ensures
        !s.ready() ==> s.cpu_fault(cpu_index) == Some(SyscallSetupError::NotInitialized),
        s.ready() && cpu_index >= s.cpus() ==> s.cpu_fault(cpu_index) == Some(
            SyscallSetupError::InvalidCpuIndex,
        ),
        s.ready() && cpu_index < s.cpus() ==> s.cpu_fault(cpu_index) is None,
{
}

/// Setting a CPU up keeps every register that it changes, and leaves the stacks that are noted for
/// the CPU as they are.
pub proof fn law_setup_keeps_registers(before: CpuMsrStorage, current: SyscallMsrs)
    ensures
        ({
            let after = setup_storage(before, current);
            &&& after.configured
            &&& after.msr_star == current.star
            &&& after.msr_lstar == current.lstar
            &&& after.msr_efer == current.efer
            &&& after.syscall_cache.os_gs_base_ptr == current.gs_base
            &&& after.syscall_cache.os_gs_swap_base_ptr == current.kernel_gs_base
            &&& after.syscall_cache.mm_supv_rsp == before.syscall_cache.mm_supv_rsp
            &&& after.syscall_cache.saved_user_rsp == before.syscall_cache.saved_user_rsp
        }),
{
}

/// What is said to change only what is kept of the CPUs leaves the rest as it was: whether the
/// interface is ready and for how many CPUs, where a syscall enters, and where the stacks are.
pub proof fn law_setup_stays<const MAX_CPUS: usize>(
    before: &SyscallInterface<MAX_CPUS>,
    after: &SyscallInterface<MAX_CPUS>,
)
    requires
        after.same_setup(before),
    ensures
        after.ready() == before.ready(),
        after.cpus() == before.cpus(),
        after.entry_point() == before.entry_point(),
        after.stack_base() == before.stack_base(),
        after.stack_bytes() == before.stack_bytes(),
{
}

/// A new interface serves no CPU, and nothing is kept of any.
pub proof fn law_new_interface<const MAX_CPUS: usize>(s: &SyscallInterface<MAX_CPUS>, i: int)
    requires
        s.fresh(),
    ensures
        !s.ready(),
        s.cpus() == 0,
        s.entry_point() == 0 && s.stack_base() == 0 && s.stack_bytes() == 0,
        s.storage().len() == MAX_CPUS,
        0 <= i < MAX_CPUS ==> {
            let kept = s.storage()[i];
            &&& !kept.configured
            &&& kept.msr_star == 0 && kept.msr_lstar == 0 && kept.msr_efer == 0
            &&& kept.syscall_cache.mm_supv_rsp == 0 && kept.syscall_cache.saved_user_rsp == 0
            &&& kept.syscall_cache.os_gs_base_ptr == 0 && kept.syscall_cache.os_gs_swap_base_ptr
                == 0
        },
{
}

} // verus!
