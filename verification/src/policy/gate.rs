//! Policy gate: runtime access validation.
//!
//! [`PolicyGate`] wraps a policy buffer and decides whether an operation (I/O, MSR,
//! instruction, save state read) is allowed. A policy root is either an allow list or a
//! deny list: an access that one of its descriptors matches is granted by the first and
//! rejected by the second, and an access that none matches the other way round.

use crate::policy::types::{
    first_root, header_at, instruction_descriptors, io_descriptors, msr_descriptors, policy_roots,
    root_of_type, save_state_descriptors, valid_policy_buffer, AccessType, Instruction,
    InstructionDescriptorV1_0, IoDescriptorV1_0, IoWidth, MsrDescriptorV1_0, PolicyRootV1,
    SaveStateCondition, SaveStateDescriptorV1_0, SaveStateField, SecurePolicyDataV1_0,
    ACCESS_ATTR_ALLOW, ACCESS_ATTR_DENY, INSTRUCTION_COUNT, POLICY_HEADER_SIZE,
    RESOURCE_ATTR_COND_READ, RESOURCE_ATTR_EXECUTE, RESOURCE_ATTR_READ, RESOURCE_ATTR_STRICT_WIDTH,
    RESOURCE_ATTR_WRITE, SVST_UNCONDITIONAL, TYPE_INSTRUCTION, TYPE_IO, TYPE_MSR, TYPE_SAVE_STATE,
};
use vstd::prelude::*;

verus! {

/// Errors that can occur during policy gate operations.
#[derive(Debug, Clone, Copy, PartialEq, Eq, Structural)]
pub enum PolicyError {
    /// There is no policy.
    NullPointer,
    /// Invalid policy version.
    InvalidVersion,
    /// Invalid access mask specified.
    InvalidAccessMask,
    /// Invalid I/O width specified.
    InvalidIoWidth,
    /// Invalid I/O address (out of 16-bit range).
    InvalidIoAddress,
    /// Invalid I/O address range (overflow).
    InvalidIoRange,
    /// Invalid instruction index.
    InvalidInstructionIndex,
    /// Invalid save state map field.
    InvalidSaveStateField,
    /// Policy root not found for the requested type.
    PolicyRootNotFound,
    /// Access denied by policy.
    AccessDenied,
    /// Internal error during policy evaluation.
    InternalError,
}

// ============================================================================
// What a policy allows
// ============================================================================

/// Whether a list with access attribute `access_attr` rejects an access, given whether one
/// of its descriptors matches it.
pub open spec fn rejects(access_attr: u8, matched: bool) -> bool {
    if matched {
        access_attr == ACCESS_ATTR_DENY
    } else {
        access_attr == ACCESS_ATTR_ALLOW
    }
}

/// The answer of a list with access attribute `access_attr`.
pub open spec fn list_verdict(access_attr: u8, matched: bool) -> Result<(), PolicyError> {
    if rejects(access_attr, matched) {
        Err(PolicyError::AccessDenied)
    } else {
        Ok(())
    }
}

/// An I/O descriptor matches an access of `size` bytes at port `address`: exactly, where
/// the descriptor is of strict width, and else by covering its range; and it names the
/// kind of access.
pub open spec fn io_matches(d: IoDescriptorV1_0, address: u32, size: u32, mask: u32) -> bool {
    &&& if d.attributes as u32 & RESOURCE_ATTR_STRICT_WIDTH != 0 {
        address == d.io_address && size == d.length_or_width
    } else {
        d.io_address <= address && address + size <= d.io_address + d.length_or_width
    }
    &&& d.attributes as u32 & mask != 0
}

/// Some descriptor of the list matches the I/O access.
pub open spec fn io_listed(
    list: Seq<IoDescriptorV1_0>,
    address: u32,
    size: u32,
    mask: u32,
) -> bool {
    exists|i: int| 0 <= i < list.len() && #[trigger] io_matches(list[i], address, size, mask)
}

/// Whether the policy block `s` allows an I/O access.
pub open spec fn io_verdict(
    s: Seq<u8>,
    address: u32,
    width: IoWidth,
    access: AccessType,
) -> Result<(), PolicyError> {
    if access == AccessType::Execute {
        Err(PolicyError::InvalidAccessMask)
    } else if address > 0xffff {
        Err(PolicyError::InvalidIoAddress)
    } else if address + width.bytes() > 0x1_0000 {
        Err(PolicyError::InvalidIoRange)
    } else {
        match root_of_type(s, TYPE_IO) {
            None => Err(PolicyError::PolicyRootNotFound),
            Some(root) => list_verdict(
                root.access_attr,
                io_listed(io_descriptors(s, root), address, width.bytes(), access.attr_mask()),
            ),
        }
    }
}

/// An MSR descriptor matches an access: the register is in its range and it names the kind
/// of access. The range ends at the last 32-bit register number, which it leaves out.
pub open spec fn msr_matches(d: MsrDescriptorV1_0, address: u32, mask: u32) -> bool {
    &&& d.msr_address <= address < d.msr_address + d.length
    &&& address < u32::MAX
    &&& d.attributes as u32 & mask != 0
}

/// Some descriptor of the list matches the MSR access.
pub open spec fn msr_listed(list: Seq<MsrDescriptorV1_0>, address: u32, mask: u32) -> bool {
    exists|i: int| 0 <= i < list.len() && #[trigger] msr_matches(list[i], address, mask)
}

/// Whether the policy block `s` allows an MSR access.
pub open spec fn msr_verdict(s: Seq<u8>, address: u32, access: AccessType) -> Result<
    (),
    PolicyError,
> {
    if access == AccessType::Execute {
        Err(PolicyError::InvalidAccessMask)
    } else {
        match root_of_type(s, TYPE_MSR) {
            None => Err(PolicyError::PolicyRootNotFound),
            Some(root) => list_verdict(
                root.access_attr,
                msr_listed(msr_descriptors(s, root), address, access.attr_mask()),
            ),
        }
    }
}

/// An instruction descriptor matches the execution of an instruction.
pub open spec fn instruction_matches(d: InstructionDescriptorV1_0, index: u16) -> bool {
    d.instruction_index == index && d.attributes as u32 & RESOURCE_ATTR_EXECUTE != 0
}

/// Some descriptor of the list matches the execution of the instruction.
pub open spec fn instruction_listed(list: Seq<InstructionDescriptorV1_0>, index: u16) -> bool {
    exists|i: int| 0 <= i < list.len() && #[trigger] instruction_matches(list[i], index)
}

/// Whether the policy block `s` allows an instruction.
pub open spec fn instruction_verdict(s: Seq<u8>, instruction: Instruction) -> Result<
    (),
    PolicyError,
> {
    match root_of_type(s, TYPE_INSTRUCTION) {
        None => Err(PolicyError::PolicyRootNotFound),
        Some(root) => list_verdict(
            root.access_attr,
            instruction_listed(instruction_descriptors(s, root), instruction.index()),
        ),
    }
}

/// A save state descriptor matches a read of `field` under `condition`. A conditional
/// descriptor matches under its own condition, another one only if it is unconditional.
pub open spec fn save_state_matches(
    d: SaveStateDescriptorV1_0,
    field: SaveStateField,
    condition: Option<SaveStateCondition>,
) -> bool {
    &&& d.map_field == field.index()
    &&& if d.attributes & RESOURCE_ATTR_COND_READ != 0 {
        condition matches Some(c) && d.access_condition == c.index()
    } else {
        d.attributes & RESOURCE_ATTR_READ != 0 && d.access_condition == SVST_UNCONDITIONAL
    }
}

/// Some descriptor of the list matches the save state read.
pub open spec fn save_state_listed(
    list: Seq<SaveStateDescriptorV1_0>,
    field: SaveStateField,
    condition: Option<SaveStateCondition>,
) -> bool {
    exists|i: int| 0 <= i < list.len() && #[trigger] save_state_matches(list[i], field, condition)
}

/// Whether the policy block `s` allows a save state read. A block without a save state
/// root allows every read.
pub open spec fn save_state_verdict(
    s: Seq<u8>,
    field: SaveStateField,
    condition: Option<SaveStateCondition>,
) -> Result<(), PolicyError> {
    match root_of_type(s, TYPE_SAVE_STATE) {
        None => Ok(()),
        Some(root) => list_verdict(
            root.access_attr,
            save_state_listed(save_state_descriptors(s, root), field, condition),
        ),
    }
}

// ============================================================================
// Policy gate
// ============================================================================

/// Policy gate for runtime access validation over one policy buffer.
pub struct PolicyGate<'a> {
    /// The policy data.
    policy: &'a [u8],
}

impl<'a> PolicyGate<'a> {
    /// The policy block that accesses are checked against.
    pub closed spec fn block(&self) -> Seq<u8> {
        self.policy@
    }

    /// The block is a valid policy buffer of version 1.0.
    #[verifier::type_invariant]
    closed spec fn wf(&self) -> bool {
        valid_policy_buffer(self.policy@) && header_at(self.policy@).version_1_0()
    }

    /// Creates a new policy gate over a policy buffer.
    ///
    /// A buffer of version 1.0 has to be a valid policy buffer, which
    /// [`is_policy_buffer`](crate::policy::types::is_policy_buffer) checks; of any other the
    /// header alone is read.
    pub fn new(policy_ptr: Option<&'a [u8]>) -> (r: Result<Self, PolicyError>)
        requires
            policy_ptr matches Some(p) ==> {
                &&& POLICY_HEADER_SIZE <= p@.len()
                &&& header_at(p@).version_1_0() ==> valid_policy_buffer(p@)
            },
        ensures
            match policy_ptr {
                None => r == Err::<Self, PolicyError>(PolicyError::NullPointer),
                Some(p) => if header_at(p@).version_1_0() {
                    r matches Ok(gate) && gate.block() == p@
                } else {
                    r == Err::<Self, PolicyError>(PolicyError::InvalidVersion)
                },
            },
    {
        match policy_ptr {
            None => Err(PolicyError::NullPointer),
            Some(policy) => {
                let header = SecurePolicyDataV1_0::from_bytes(policy);
                if !header.is_valid_version() {
                    return Err(PolicyError::InvalidVersion);
                }
                Ok(PolicyGate { policy })
            },
        }
    }

    /// Gets the policy header.
    fn policy(&self) -> (r: SecurePolicyDataV1_0)
        ensures
            r == header_at(self.block()),
    {
        proof {
            use_type_invariant(self);
        }
        SecurePolicyDataV1_0::from_bytes(self.policy)
    }

    /// Finds a policy root by type.
    fn find_policy_root(&self, policy_type: u32) -> (r: Option<PolicyRootV1>)
        ensures
            r == root_of_type(self.block(), policy_type),
    {
        proof {
            use_type_invariant(self);
        }
        let roots = self.policy().get_policy_roots(self.policy);
        find_root(&roots, policy_type)
    }

    /// Checks if I/O access is allowed.
    ///
    /// The port address must fit in 16 bits, and the access must end within the port space.
    pub fn is_io_allowed(
        &self,
        io_address: u32,
        width: IoWidth,
        access_type: AccessType,
    ) -> (r: Result<(), PolicyError>)
        ensures
            r == io_verdict(self.block(), io_address, width, access_type),
    {
        proof {
            use_type_invariant(self);
            lemma_root_in_bounds(self.block(), TYPE_IO);
        }
        if access_type == AccessType::Execute {
            return Err(PolicyError::InvalidAccessMask);
        }
        let io_size: u32 = width.size();
        if io_address > 0xffff {
            return Err(PolicyError::InvalidIoAddress);
        }
        // The end of the port space, one past the last port, is a valid end address.
        if io_address + io_size > 0x1_0000 {
            return Err(PolicyError::InvalidIoRange);
        }
        let policy_root = match self.find_policy_root(TYPE_IO) {
            Some(root) => root,
            None => {
                return Err(PolicyError::PolicyRootNotFound);
            },
        };
        let descriptors = policy_root.get_io_descriptors(self.policy);
        let access_mask: u32 = access_type.as_attr_mask();
        let ghost list = io_descriptors(self.block(), policy_root);
        let mut found_match = false;
        let mut i: usize = 0;
        while i < descriptors.len() && !found_match
            invariant
                i <= descriptors.len(),
                descriptors@ == list,
                io_address <= 0xffff,
                io_size <= 4,
                !found_match ==> forall|j: int|
                    0 <= j < i ==> !#[trigger] io_matches(
                        list[j],
                        io_address,
                        io_size,
                        access_mask,
                    ),
                found_match ==> io_listed(list, io_address, io_size, access_mask),
            decreases descriptors.len() - i,
        {
            let desc = descriptors[i];
            let desc_start: u32 = desc.io_address as u32;
            let desc_size: u32 = desc.length_or_width as u32;
            let is_strict_width = (desc.attributes as u32 & RESOURCE_ATTR_STRICT_WIDTH) != 0;
            let covers = if is_strict_width {
                io_address == desc_start && io_size == desc_size
            } else {
                io_address >= desc_start && io_address + io_size <= desc_start + desc_size
            };
            if covers && (desc.attributes as u32 & access_mask) != 0 {
                assert(io_matches(list[i as int], io_address, io_size, access_mask));
                found_match = true;
            }
            i = i + 1;
        }
        evaluate(policy_root.access_attr, found_match)
    }

    /// Checks if MSR access is allowed.
    pub fn is_msr_allowed(&self, msr_address: u32, access_type: AccessType) -> (r: Result<
        (),
        PolicyError,
    >)
        ensures
            r == msr_verdict(self.block(), msr_address, access_type),
    {
        proof {
            use_type_invariant(self);
            lemma_root_in_bounds(self.block(), TYPE_MSR);
        }
        if access_type == AccessType::Execute {
            return Err(PolicyError::InvalidAccessMask);
        }
        let policy_root = match self.find_policy_root(TYPE_MSR) {
            Some(root) => root,
            None => {
                return Err(PolicyError::PolicyRootNotFound);
            },
        };
        let descriptors = policy_root.get_msr_descriptors(self.policy);
        let access_mask: u32 = access_type.as_attr_mask();
        let ghost list = msr_descriptors(self.block(), policy_root);
        let mut found_match = false;
        let mut i: usize = 0;
        while i < descriptors.len() && !found_match
            invariant
                i <= descriptors.len(),
                descriptors@ == list,
                !found_match ==> forall|j: int|
                    0 <= j < i ==> !#[trigger] msr_matches(list[j], msr_address, access_mask),
                found_match ==> msr_listed(list, msr_address, access_mask),
            decreases descriptors.len() - i,
        {
            let desc = descriptors[i];
            let desc_start: u32 = desc.msr_address;
            let desc_end: u32 = desc_start.saturating_add(desc.length as u32);
            if msr_address >= desc_start && msr_address < desc_end && (desc.attributes as u32
                & access_mask) != 0 {
                assert(msr_matches(list[i as int], msr_address, access_mask));
                found_match = true;
            }
            i = i + 1;
        }
        evaluate(policy_root.access_attr, found_match)
    }

    /// Checks if instruction execution is allowed.
    pub fn is_instruction_allowed(&self, instruction: Instruction) -> (r: Result<(), PolicyError>)
        ensures
            r == instruction_verdict(self.block(), instruction),
    {
        proof {
            use_type_invariant(self);
            lemma_root_in_bounds(self.block(), TYPE_INSTRUCTION);
        }
        let instruction_index: u16 = instruction.as_index();
        if instruction_index >= INSTRUCTION_COUNT {
            return Err(PolicyError::InvalidInstructionIndex);
        }
        let policy_root = match self.find_policy_root(TYPE_INSTRUCTION) {
            Some(root) => root,
            None => {
                return Err(PolicyError::PolicyRootNotFound);
            },
        };
        let descriptors = policy_root.get_instruction_descriptors(self.policy);
        let ghost list = instruction_descriptors(self.block(), policy_root);
        let mut found_match = false;
        let mut i: usize = 0;
        while i < descriptors.len() && !found_match
            invariant
                i <= descriptors.len(),
                descriptors@ == list,
                !found_match ==> forall|j: int|
                    0 <= j < i ==> !#[trigger] instruction_matches(list[j], instruction_index),
                found_match ==> instruction_listed(list, instruction_index),
            decreases descriptors.len() - i,
        {
            let desc = descriptors[i];
            if instruction_index == desc.instruction_index && (desc.attributes as u32
                & RESOURCE_ATTR_EXECUTE) != 0 {
                assert(instruction_matches(list[i as int], instruction_index));
                found_match = true;
            }
            i = i + 1;
        }
        evaluate(policy_root.access_attr, found_match)
    }

    /// Checks if save state read access is allowed.
    ///
    /// The width of the read does not enter the decision.
    pub fn is_save_state_read_allowed(
        &self,
        field: SaveStateField,
        width: usize,
        current_condition: Option<SaveStateCondition>,
    ) -> (r: Result<(), PolicyError>)
        ensures
            r == save_state_verdict(self.block(), field, current_condition),
    {
        proof {
            use_type_invariant(self);
            lemma_root_in_bounds(self.block(), TYPE_SAVE_STATE);
        }
        let policy_root = match self.find_policy_root(TYPE_SAVE_STATE) {
            Some(root) => root,
            None => {
                return Ok(());
            },
        };
        let descriptors = policy_root.get_save_state_descriptors(self.policy);
        let ghost list = save_state_descriptors(self.block(), policy_root);
        let mut found_match = false;
        let mut i: usize = 0;
        while i < descriptors.len() && !found_match
            invariant
                i <= descriptors.len(),
                descriptors@ == list,
                !found_match ==> forall|j: int|
                    0 <= j < i ==> !#[trigger] save_state_matches(
                        list[j],
                        field,
                        current_condition,
                    ),
                found_match ==> save_state_listed(list, field, current_condition),
            decreases descriptors.len() - i,
        {
            let desc = descriptors[i];
            if desc.map_field == field.as_index() {
                let is_read = (desc.attributes & RESOURCE_ATTR_READ) != 0;
                let is_cond_read = (desc.attributes & RESOURCE_ATTR_COND_READ) != 0;
                let matches_now = if is_cond_read {
                    match current_condition {
                        Some(current) => desc.access_condition == current.as_index(),
                        None => false,
                    }
                } else {
                    is_read && desc.access_condition == SVST_UNCONDITIONAL
                };
                if matches_now {
                    assert(save_state_matches(list[i as int], field, current_condition));
                    found_match = true;
                }
            }
            i = i + 1;
        }
        evaluate(policy_root.access_attr, found_match)
    }

    /// Gets the policy block, a valid policy buffer of version 1.0.
    pub fn as_ptr(&self) -> (r: &'a [u8])
        ensures
            r@ == self.block(),
            valid_policy_buffer(r@),
            header_at(r@).version_1_0(),
    {
        proof {
            use_type_invariant(self);
        }
        self.policy
    }
}

/// Finds the first policy root of a type.
pub fn find_root(roots: &Vec<PolicyRootV1>, policy_type: u32) -> (r: Option<PolicyRootV1>)
    ensures
        r == first_root(roots@, policy_type, 0),
{
    let mut i: usize = 0;
    while i < roots.len()
        invariant
            i <= roots.len(),
            first_root(roots@, policy_type, 0) == first_root(roots@, policy_type, i as int),
        decreases roots.len() - i,
    {
        if roots[i].policy_type == policy_type {
            return Some(roots[i]);
        }
        i = i + 1;
    }
    None
}

/// Evaluates whether an access is allowed by allow and deny list semantics.
fn evaluate(access_attr: u8, found_match: bool) -> (r: Result<(), PolicyError>)
    ensures
        r == list_verdict(access_attr, found_match),
{
    if (found_match && access_attr == ACCESS_ATTR_DENY) || (!found_match && access_attr
        == ACCESS_ATTR_ALLOW) {
        return Err(PolicyError::AccessDenied);
    }
    Ok(())
}

/// The descriptors of the root that a valid policy block has for a type lie within it.
pub proof fn lemma_root_in_bounds(s: Seq<u8>, policy_type: u32)
    requires
        valid_policy_buffer(s),
    ensures
        root_of_type(s, policy_type) matches Some(root) ==> root.policy_type == policy_type
            && crate::policy::types::descriptors_in_bounds(s, root),
{
    crate::policy::types::lemma_first_root(policy_roots(s), policy_type, 0);
}

/// Without a policy root for it, no I/O, MSR or instruction access is ever allowed, and
/// every save state read is.
pub proof fn law_missing_root(
    s: Seq<u8>,
    address: u32,
    width: IoWidth,
    access: AccessType,
    instruction: Instruction,
    field: SaveStateField,
    condition: Option<SaveStateCondition>,
)
    ensures
        root_of_type(s, TYPE_IO) is None ==> io_verdict(s, address, width, access) is Err,
        root_of_type(s, TYPE_MSR) is None ==> msr_verdict(s, address, access) is Err,
        root_of_type(s, TYPE_INSTRUCTION) is None ==> instruction_verdict(s, instruction) is Err,
        root_of_type(s, TYPE_SAVE_STATE) is None ==> save_state_verdict(s, field, condition) is Ok,
{
}

/// An allow list and a deny list with the same descriptors answer every access the opposite
/// way.
pub proof fn law_allow_deny_opposite(matched: bool)
    ensures
        list_verdict(ACCESS_ATTR_ALLOW, matched) is Ok <==> list_verdict(
            ACCESS_ATTR_DENY,
            matched,
        ) is Err,
{
}

/// No access of execute type to an I/O port or an MSR is allowed, whatever the policy.
pub proof fn law_execute_never_allowed(s: Seq<u8>, address: u32, width: IoWidth)
    ensures
        io_verdict(s, address, width, AccessType::Execute) is Err,
        msr_verdict(s, address, AccessType::Execute) is Err,
{
}

/// An I/O access that is allowed lies within the 16-bit port space.
pub proof fn law_io_within_port_space(s: Seq<u8>, address: u32, width: IoWidth, access: AccessType)
    requires
        io_verdict(s, address, width, access) is Ok,
    ensures
        address + width.bytes() <= 0x1_0000,
{
}

/// The decision on an MSR access. Under an allow list the access is allowed if and only if some
/// descriptor has the register between its first one and the end of its range and names the kind
/// of access; under a deny list if and only if none does. So a register below the start of every
/// descriptor, or past the end of every one, is never allowed by an allow list and never rejected
/// by a deny list.
pub proof fn law_msr_decision(s: Seq<u8>, root: PolicyRootV1, address: u32, access: AccessType)
    requires
        root_of_type(s, TYPE_MSR) == Some(root),
        access != AccessType::Execute,
    ensures
        ({
            let list = msr_descriptors(s, root);
            let bit: u32 = if access == AccessType::Read {
                RESOURCE_ATTR_READ
            } else {
                RESOURCE_ATTR_WRITE
            };
            let named = exists|i: int|
                0 <= i < list.len() && (#[trigger] list[i]).msr_address <= address && address
                    < list[i].msr_address + list[i].length && address < u32::MAX
                    && list[i].attributes as u32 & bit != 0;
            let r = msr_verdict(s, address, access);
            &&& root.access_attr == ACCESS_ATTR_ALLOW ==> (r is Ok <==> named)
            &&& root.access_attr == ACCESS_ATTR_DENY ==> (r is Ok <==> !named)
            &&& root.access_attr != ACCESS_ATTR_ALLOW && root.access_attr != ACCESS_ATTR_DENY
                ==> r is Ok
            &&& r matches Err(e) ==> e == PolicyError::AccessDenied
        }),
{
    let list = msr_descriptors(s, root);
    assert forall|i: int| 0 <= i < list.len() implies #[trigger] msr_matches(
        list[i],
        address,
        access.attr_mask(),
    ) == (list[i].msr_address <= address && address < list[i].msr_address + list[i].length
        && address < u32::MAX && list[i].attributes as u32 & (if access == AccessType::Read {
        RESOURCE_ATTR_READ
    } else {
        RESOURCE_ATTR_WRITE
    }) != 0) by {}
    if msr_listed(list, address, access.attr_mask()) {
        let i = choose|i: int|
            0 <= i < list.len() && #[trigger] msr_matches(list[i], address, access.attr_mask());
        assert(list[i].msr_address <= address);
    }
    assert forall|i: int|
        0 <= i < list.len() && (#[trigger] list[i]).msr_address <= address && address
            < list[i].msr_address + list[i].length && address < u32::MAX
            && list[i].attributes as u32 & access.attr_mask() != 0 implies msr_listed(
        list,
        address,
        access.attr_mask(),
    ) by {
        assert(msr_matches(list[i], address, access.attr_mask()));
    }
}

/// Two MSR accesses that no descriptor tells apart are decided alike: a register that lies in the
/// range of no descriptor is decided as every other such register is, whatever the lists say of
/// the registers in their ranges.
pub proof fn law_unlisted_msrs_alike(
    s: Seq<u8>,
    root: PolicyRootV1,
    address1: u32,
    address2: u32,
    access1: AccessType,
    access2: AccessType,
)
    requires
        root_of_type(s, TYPE_MSR) == Some(root),
        access1 != AccessType::Execute,
        access2 != AccessType::Execute,
        forall|i: int|
            0 <= i < msr_descriptors(s, root).len() ==> {
                let d = #[trigger] msr_descriptors(s, root)[i];
                &&& address1 < d.msr_address || d.msr_address + d.length <= address1
                &&& address2 < d.msr_address || d.msr_address + d.length <= address2
            },
    ensures
        msr_verdict(s, address1, access1) == msr_verdict(s, address2, access2),
        root.access_attr == ACCESS_ATTR_ALLOW ==> msr_verdict(s, address1, access1) is Err,
        root.access_attr == ACCESS_ATTR_DENY ==> msr_verdict(s, address1, access1) is Ok,
{
    law_msr_decision(s, root, address1, access1);
    law_msr_decision(s, root, address2, access2);
}

/// The decision on an I/O access within the port space. A descriptor names the access if it has
/// the attribute of the kind of access, and holds every port of the access; one of strict width
/// only if it has the very port and width of the access. Under an allow list the access is allowed
/// if and only if some descriptor names it, under a deny list if and only if none does.
pub proof fn law_io_decision(
    s: Seq<u8>,
    root: PolicyRootV1,
    address: u32,
    width: IoWidth,
    access: AccessType,
)
    requires
        root_of_type(s, TYPE_IO) == Some(root),
        access != AccessType::Execute,
        address + width.bytes() <= 0x1_0000,
    ensures
        ({
            let list = io_descriptors(s, root);
            let bit: u32 = if access == AccessType::Read {
                RESOURCE_ATTR_READ
            } else {
                RESOURCE_ATTR_WRITE
            };
            let size: int = match width {
                IoWidth::Byte => 1,
                IoWidth::Word => 2,
                IoWidth::Dword => 4,
            };
            let named = exists|i: int|
                0 <= i < list.len() && (#[trigger] list[i]).attributes as u32 & bit != 0
                    && list[i].io_address <= address && address + size <= list[i].io_address
                    + list[i].length_or_width && (list[i].attributes as u32
                    & RESOURCE_ATTR_STRICT_WIDTH != 0 ==> address == list[i].io_address && size
                    == list[i].length_or_width);
            let r = io_verdict(s, address, width, access);
            &&& root.access_attr == ACCESS_ATTR_ALLOW ==> (r is Ok <==> named)
            &&& root.access_attr == ACCESS_ATTR_DENY ==> (r is Ok <==> !named)
            &&& root.access_attr != ACCESS_ATTR_ALLOW && root.access_attr != ACCESS_ATTR_DENY
                ==> r is Ok
            &&& r matches Err(e) ==> e == PolicyError::AccessDenied
        }),
{
    let list = io_descriptors(s, root);
    let mask = access.attr_mask();
    let size = width.bytes();
    if io_listed(list, address, size, mask) {
        let i = choose|i: int|
            0 <= i < list.len() && #[trigger] io_matches(list[i], address, size, mask);
        assert(list[i].attributes as u32 & mask != 0);
    }
    assert forall|i: int|
        0 <= i < list.len() && (#[trigger] list[i]).attributes as u32 & mask != 0
            && list[i].io_address <= address && address + size <= list[i].io_address
            + list[i].length_or_width && (list[i].attributes as u32 & RESOURCE_ATTR_STRICT_WIDTH
            != 0 ==> address == list[i].io_address && size == list[i].length_or_width) implies
        io_listed(list, address, size, mask) by {
        assert(io_matches(list[i], address, size, mask));
    }
}

/// An I/O access that starts or ends outside the 16-bit port space is refused before any
/// descriptor is asked: one that starts outside with another error than one that ends outside.
pub proof fn law_io_outside_port_space(
    s: Seq<u8>,
    address: u32,
    width: IoWidth,
    access: AccessType,
)
    requires
        access != AccessType::Execute,
    ensures
        address >= 0x1_0000 ==> io_verdict(s, address, width, access) == Err::<(), PolicyError>(
            PolicyError::InvalidIoAddress,
        ),
        address < 0x1_0000 < address + width.bytes() ==> io_verdict(s, address, width, access)
            == Err::<(), PolicyError>(PolicyError::InvalidIoRange),
        address + width.bytes() <= 0x1_0000 && root_of_type(s, TYPE_IO) is None ==> io_verdict(
            s,
            address,
            width,
            access,
        ) == Err::<(), PolicyError>(PolicyError::PolicyRootNotFound),
{
}

/// The decision on an instruction. Under an allow list it is allowed if and only if some
/// descriptor has its index and the execute attribute, under a deny list if and only if none does.
pub proof fn law_instruction_decision(s: Seq<u8>, root: PolicyRootV1, instruction: Instruction)
    requires
        root_of_type(s, TYPE_INSTRUCTION) == Some(root),
    ensures
        ({
            let list = instruction_descriptors(s, root);
            let index: int = match instruction {
                Instruction::Cli => 0,
                Instruction::Wbinvd => 1,
                Instruction::Hlt => 2,
            };
            let named = exists|i: int|
                0 <= i < list.len() && (#[trigger] list[i]).instruction_index == index
                    && list[i].attributes as u32 & RESOURCE_ATTR_EXECUTE != 0;
            let r = instruction_verdict(s, instruction);
            &&& root.access_attr == ACCESS_ATTR_ALLOW ==> (r is Ok <==> named)
            &&& root.access_attr == ACCESS_ATTR_DENY ==> (r is Ok <==> !named)
            &&& root.access_attr != ACCESS_ATTR_ALLOW && root.access_attr != ACCESS_ATTR_DENY
                ==> r is Ok
            &&& r matches Err(e) ==> e == PolicyError::AccessDenied
        }),
{
    let list = instruction_descriptors(s, root);
    let index = instruction.index();
    if instruction_listed(list, index) {
        let i = choose|i: int|
            0 <= i < list.len() && #[trigger] instruction_matches(list[i], index);
        assert(list[i].instruction_index == index);
    }
    assert forall|i: int|
        0 <= i < list.len() && (#[trigger] list[i]).instruction_index == index
            && list[i].attributes as u32 & RESOURCE_ATTR_EXECUTE != 0 implies instruction_listed(
        list,
        index,
    ) by {
        assert(instruction_matches(list[i], index));
    }
}

/// The decision on a save state read. A descriptor of the field names the read if it is one of
/// conditional reads and its condition is the one that holds, or if it is one of unconditional
/// reads. Under an allow list the read is allowed if and only if some descriptor names it, under a
/// deny list if and only if none does.
pub proof fn law_save_state_decision(
    s: Seq<u8>,
    root: PolicyRootV1,
    field: SaveStateField,
    condition: Option<SaveStateCondition>,
)
    requires
        root_of_type(s, TYPE_SAVE_STATE) == Some(root),
    ensures
        ({
            let list = save_state_descriptors(s, root);
            let index: int = match field {
                SaveStateField::Rax => 0,
                SaveStateField::IoTrap => 1,
            };
            let holds: int = match condition {
                None => -1,
                Some(SaveStateCondition::Unconditional) => 0,
                Some(SaveStateCondition::IoRead) => 1,
                Some(SaveStateCondition::IoWrite) => 2,
            };
            let named = exists|i: int|
                0 <= i < list.len() && (#[trigger] list[i]).map_field == index && ((
                list[i].attributes & RESOURCE_ATTR_COND_READ != 0 && list[i].access_condition
                    == holds) || (list[i].attributes & RESOURCE_ATTR_COND_READ == 0
                    && list[i].attributes & RESOURCE_ATTR_READ != 0 && list[i].access_condition
                    == 0));
            let r = save_state_verdict(s, field, condition);
            &&& root.access_attr == ACCESS_ATTR_ALLOW ==> (r is Ok <==> named)
            &&& root.access_attr == ACCESS_ATTR_DENY ==> (r is Ok <==> !named)
            &&& root.access_attr != ACCESS_ATTR_ALLOW && root.access_attr != ACCESS_ATTR_DENY
                ==> r is Ok
            &&& r matches Err(e) ==> e == PolicyError::AccessDenied
        }),
{
    let list = save_state_descriptors(s, root);
    if save_state_listed(list, field, condition) {
        let i = choose|i: int|
            0 <= i < list.len() && #[trigger] save_state_matches(list[i], field, condition);
        assert(list[i].map_field == field.index());
    }
    assert forall|i: int|
        0 <= i < list.len() && (#[trigger] list[i]).map_field == field.index() && ((
        list[i].attributes & RESOURCE_ATTR_COND_READ != 0 && condition is Some
            && list[i].access_condition == condition->0.index()) || (list[i].attributes
            & RESOURCE_ATTR_COND_READ == 0 && list[i].attributes & RESOURCE_ATTR_READ != 0
            && list[i].access_condition == 0)) implies save_state_listed(list, field, condition) by {
        assert(save_state_matches(list[i], field, condition));
    }
}

/// The root that decides on a kind of access is the first of its type in the root array, and there
/// is none only where no root is of the type.
pub proof fn law_first_root_decides(s: Seq<u8>, policy_type: u32)
    ensures
        match root_of_type(s, policy_type) {
            Some(root) => exists|i: int|
                #![trigger policy_roots(s)[i]]
                0 <= i < policy_roots(s).len() && policy_roots(s)[i] == root && root.policy_type
                    == policy_type && forall|j: int|
                    0 <= j < i ==> (#[trigger] policy_roots(s)[j]).policy_type != policy_type,
            None => forall|i: int|
                0 <= i < policy_roots(s).len() ==> (#[trigger] policy_roots(s)[i]).policy_type
                    != policy_type,
        },
{
    crate::policy::types::lemma_first_root(policy_roots(s), policy_type, 0);
}

} // verus!
