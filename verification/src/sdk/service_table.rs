//! Typed protocol services on top of the raw services of a table.
//!
//! An interface is handed to the firmware as a pointer, and comes back as one. A marker
//! protocol, whose type has no size, has a null interface. The service calls themselves are
//! the table's; what goes into them, and what comes of their results, is here.

use crate::efi::{Guid, Status, EFI_INVALID_PARAMETER};
use vstd::prelude::*;

verus! {

/// The type of a protocol interface.
#[derive(Debug, Clone, Copy, PartialEq, Eq, Structural)]
pub struct ProtocolType {
    /// The GUID of the protocol.
    pub guid: Guid,
    /// Size in bytes of the interface, 0 for a marker protocol.
    pub size: usize,
}

/// By which the owner of an interface recovers it.
#[derive(Debug, Clone, Copy, PartialEq, Eq, Structural)]
pub struct PtrMetadata {
    /// The address of the interface.
    pub ptr_value: u64,
}

/// What is handed to the firmware for an interface at `ptr`: its address, or null for a marker
/// protocol.
pub open spec fn interface_pointer(protocol: ProtocolType, ptr: u64) -> u64 {
    if protocol.size == 0 {
        0
    } else {
        ptr
    }
}

/// The arguments of a service call that installs or uninstalls an interface.
#[derive(Debug, Clone, Copy, PartialEq, Eq, Structural)]
pub struct InterfaceArguments {
    /// The GUID of the protocol.
    pub protocol: Guid,
    /// The interface.
    pub interface: u64,
}

/// What the service is called with to install or uninstall an interface.
pub fn interface_arguments(protocol: ProtocolType, key: PtrMetadata) -> (r: InterfaceArguments)
    ensures
        r == (InterfaceArguments {
            protocol: protocol.guid,
            interface: interface_pointer(protocol, key.ptr_value),
        }),
{
    let interface: u64 = if protocol.size == 0 {
        0
    } else {
        key.ptr_value
    };
    InterfaceArguments { protocol: protocol.guid, interface }
}

/// The result of an installation: the handle, and the key by which the interface is recovered.
/// An interface whose installation failed is the caller's again.
pub fn install_protocol_interface(installed: Result<u64, Status>, key: PtrMetadata) -> (r: Result<
    (u64, PtrMetadata),
    Status,
>)
    ensures
        r == match installed {
            Ok(handle) => Ok::<(u64, PtrMetadata), Status>((handle, key)),
            Err(status) => Err(status),
        },
{
    match installed {
        Ok(handle) => Ok((handle, key)),
        Err(status) => Err(status),
    }
}

/// The result of an uninstallation: the address of the interface, which is the caller's again.
/// `recoverable` is whether the key still gives the interface back.
pub fn uninstall_protocol_interface(
    uninstalled: Result<(), Status>,
    key: PtrMetadata,
    recoverable: bool,
) -> (r: Result<u64, Status>)
    ensures
        r == match uninstalled {
            Ok(()) => if recoverable {
                Ok::<u64, Status>(key.ptr_value)
            } else {
                Err(EFI_INVALID_PARAMETER)
            },
            Err(status) => Err(status),
        },
{
    match uninstalled {
        Ok(()) => if recoverable {
            Ok(key.ptr_value)
        } else {
            Err(EFI_INVALID_PARAMETER)
        },
        Err(status) => Err(status),
    }
}

/// The interface that a query gave, with null for none.
pub fn protocol_ref_maybe_empty(query: Result<u64, Status>) -> (r: Result<Option<u64>, Status>)
    ensures
        r == match query {
            Ok(interface) => Ok::<Option<u64>, Status>(
                if interface == 0 {
                    None
                } else {
                    Some(interface)
                },
            ),
            Err(status) => Err(status),
        },
{
    match query {
        Ok(interface) => if interface == 0 {
            Ok(None)
        } else {
            Ok(Some(interface))
        },
        Err(status) => Err(status),
    }
}

/// A reference to a protocol interface.
#[derive(Debug, Clone, Copy, PartialEq, Eq, Structural)]
pub enum ProtocolRef {
    /// The interface at this address.
    Interface(u64),
    /// A marker, which has no interface.
    Marker,
}

/// The reference that a query gives: an interface must not be null unless it has no size, and
/// must be null if it has none.
pub open spec fn typed_ref(protocol: ProtocolType, query: Result<u64, Status>) -> Result<
    ProtocolRef,
    Status,
> {
    match query {
        Err(status) => Err(status),
        Ok(interface) => if (interface == 0) != (protocol.size == 0) {
            Err(EFI_INVALID_PARAMETER)
        } else if interface == 0 {
            Ok(ProtocolRef::Marker)
        } else {
            Ok(ProtocolRef::Interface(interface))
        },
    }
}

/// Reconciles the interface that a query gave with the size of its type.
pub fn protocol_ref(protocol: ProtocolType, query: Result<u64, Status>) -> (r: Result<
    ProtocolRef,
    Status,
>)
    ensures
        r == typed_ref(protocol, query),
{
    match protocol_ref_maybe_empty(query) {
        Err(status) => Err(status),
        Ok(interface) => match interface {
            Some(address) => if protocol.size == 0 {
                Err(EFI_INVALID_PARAMETER)
            } else {
                Ok(ProtocolRef::Interface(address))
            },
            None => if protocol.size > 0 {
                Err(EFI_INVALID_PARAMETER)
            } else {
                Ok(ProtocolRef::Marker)
            },
        },
    }
}

/// What is installed for a type is what a query for it gives a reference to: a marker for a
/// marker protocol, and else the interface, as long as it is not null.
pub proof fn law_installed_interface_is_referenced(protocol: ProtocolType, ptr: u64)
    requires
        ptr != 0,
    ensures
        typed_ref(protocol, Ok(interface_pointer(protocol, ptr))) == Ok::<ProtocolRef, Status>(
            if protocol.size == 0 {
                ProtocolRef::Marker
            } else {
                ProtocolRef::Interface(ptr)
            },
        ),
{
}

/// What is told of an interface: an error if the service reported one; a marker of a protocol
/// without data, which has no interface; the interface of any other, which has one; and an invalid
/// parameter if the protocol and the interface do not go together.
pub proof fn law_reference_decision(protocol: ProtocolType, interface: u64, status: Status)
    ensures
        typed_ref(protocol, Err(status)) == Err::<ProtocolRef, Status>(status),
        protocol.size == 0 && interface == 0 ==> typed_ref(protocol, Ok(interface)) == Ok::<
            ProtocolRef,
            Status,
        >(ProtocolRef::Marker),
        protocol.size > 0 && interface != 0 ==> typed_ref(protocol, Ok(interface)) == Ok::<
            ProtocolRef,
            Status,
        >(ProtocolRef::Interface(interface)),
        protocol.size == 0 && interface != 0 || protocol.size > 0 && interface == 0 ==> typed_ref(
            protocol,
            Ok(interface),
        ) == Err::<ProtocolRef, Status>(EFI_INVALID_PARAMETER),
{
}

} // verus!
