//! Protocol database: which protocols are installed.
//!
//! A flat list of GUIDs, for dependency expressions: a protocol is in it as often as it has
//! been installed.

use crate::efi::{Guid, Status, EFI_NOT_FOUND};
use vstd::prelude::*;

verus! {

/// The index of the first occurrence of a GUID from `from` on.
pub open spec fn first_guid(list: Seq<Guid>, guid: Guid, from: int) -> Option<int>
    decreases list.len() - from,
{
    if from >= list.len() {
        None
    } else if list[from] == guid {
        Some(from)
    } else {
        first_guid(list, guid, from + 1)
    }
}

/// Finds the first occurrence of a GUID.
pub fn find_guid(list: &Vec<Guid>, guid: Guid) -> (r: Option<usize>)
    ensures
        match r {
            Some(i) => i < list@.len() && list@[i as int] == guid && first_guid(list@, guid, 0)
                == Some(i as int),
            None => first_guid(list@, guid, 0) is None && !list@.contains(guid),
        },
{
    let mut i: usize = 0;
    while i < list.len()
        invariant
            i <= list@.len(),
            first_guid(list@, guid, 0) == first_guid(list@, guid, i as int),
            forall|j: int| 0 <= j < i ==> list@[j] != guid,
        decreases list@.len() - i,
    {
        if list[i] == guid {
            return Some(i);
        }
        i = i + 1;
    }
    None
}

/// A simplified protocol database for the MM User Core.
pub struct ProtocolDatabase {
    /// The installed protocol GUIDs.
    protocols: Vec<Guid>,
}

impl ProtocolDatabase {
    /// The installed GUIDs, in the order of their installation.
    pub closed spec fn list(&self) -> Seq<Guid> {
        self.protocols@
    }

    /// Creates a new empty `ProtocolDatabase`.
    pub fn new() -> (r: Self)
        ensures
            r.list() == Seq::<Guid>::empty(),
    {
        ProtocolDatabase { protocols: Vec::new() }
    }

    /// Installs a protocol interface: registers the GUID as available. A GUID can be installed
    /// more than once.
    pub fn install_protocol(&mut self, protocol_guid: Guid) -> (r: Result<(), Status>)
        ensures
            r is Ok,
            final(self).list() == old(self).list().push(protocol_guid),
    {
        self.protocols.push(protocol_guid);
        Ok(())
    }

    /// Uninstalls a protocol interface: removes the first occurrence of the GUID.
    pub fn uninstall_protocol(&mut self, protocol_guid: Guid) -> (r: Result<(), Status>)
        ensures
            match first_guid(old(self).list(), protocol_guid, 0) {
                Some(i) => r is Ok && final(self).list() == old(self).list().remove(i),
                None => r == Err::<(), Status>(EFI_NOT_FOUND) && final(self).list() == old(
                    self,
                ).list(),
            },
    {
        match find_guid(&self.protocols, protocol_guid) {
            Some(i) => {
                let _ = self.protocols.remove(i);
                Ok(())
            },
            None => Err(EFI_NOT_FOUND),
        }
    }

    /// Checks if a protocol is installed.
    pub fn is_protocol_installed(&self, protocol_guid: Guid) -> (r: bool)
        ensures
            r == self.list().contains(protocol_guid),
    {
        match find_guid(&self.protocols, protocol_guid) {
            Some(_) => true,
            None => false,
        }
    }

    /// Gets the list of all installed protocol GUIDs.
    pub fn registered_protocols(&self) -> (r: Vec<Guid>)
        ensures
            r@ == self.list(),
    {
        let mut list: Vec<Guid> = Vec::new();
        let mut i: usize = 0;
        while i < self.protocols.len()
            invariant
                i <= self.protocols@.len(),
                list@ == self.protocols@.take(i as int),
            decreases self.protocols@.len() - i,
        {
            list.push(self.protocols[i]);
            i = i + 1;
            assert(list@ =~= self.protocols@.take(i as int));
        }
        assert(self.protocols@.take(i as int) =~= self.protocols@);
        list
    }
}

/// What has been installed is installed; and where it was not before, uninstalling it brings
/// back the list from before.
pub proof fn law_install_then_uninstall(list: Seq<Guid>, guid: Guid)
    ensures
        list.push(guid).contains(guid),
        !list.contains(guid) ==> first_guid(list.push(guid), guid, 0) == Some(list.len() as int)
            && list.push(guid).remove(list.len() as int) == list,
{
    assert(list.push(guid)[list.len() as int] == guid);
    if !list.contains(guid) {
        lemma_first_guid_last(list, guid, 0);
        assert(list.push(guid).remove(list.len() as int) =~= list);
    }
}

/// Uninstalling takes away one occurrence, and no other protocol.
pub proof fn law_uninstall_takes_one(list: Seq<Guid>, guid: Guid, i: int, other: Guid)
    requires
        first_guid(list, guid, 0) == Some(i),
        other != guid,
    ensures
        list.remove(i).len() == list.len() - 1,
        list.remove(i).contains(other) == list.contains(other),
{
    lemma_first_guid(list, guid, 0);
    let after = list.remove(i);
    if list.contains(other) {
        let k = choose|k: int| 0 <= k < list.len() && list[k] == other;
        if k < i {
            assert(after[k] == other);
        } else {
            assert(after[k - 1] == other);
        }
    }
    if after.contains(other) {
        let k = choose|k: int| 0 <= k < after.len() && after[k] == other;
        if k < i {
            assert(list[k] == other);
        } else {
            assert(list[k + 1] == other);
        }
    }
}

proof fn lemma_first_guid(list: Seq<Guid>, guid: Guid, from: int)
    requires
        0 <= from,
    ensures
        first_guid(list, guid, from) matches Some(i) ==> from <= i < list.len() && list[i] == guid,
    decreases list.len() - from,
{
    if from < list.len() && list[from] != guid {
        lemma_first_guid(list, guid, from + 1);
    }
}

proof fn lemma_first_guid_last(list: Seq<Guid>, guid: Guid, from: int)
    requires
        !list.contains(guid),
        0 <= from <= list.len(),
    ensures
        first_guid(list.push(guid), guid, from) == Some(list.len() as int),
    decreases list.len() - from,
{
    if from < list.len() {
        assert(list.push(guid)[from] == list[from]);
        assert(list.contains(list[from]));
        lemma_first_guid_last(list, guid, from + 1);
    }
}

} // verus!
