//! The services of the MM system table: the protocol database, and the decisions of the
//! service functions.
//!
//! Handles, interfaces, and functions are addresses, and 0 is the null pointer.

use crate::efi::{
    Guid, Status, EFI_BUFFER_TOO_SMALL, EFI_INVALID_PARAMETER, EFI_NOT_FOUND, EFI_OUT_OF_RESOURCES,
    EFI_SUCCESS, EFI_UNSUPPORTED,
};
use crate::user_core::mmi::{
    entries_with, entries_without, entry_with, handler_at, marked, roots_with, MmiDatabase,
};
use vstd::prelude::*;

verus! {

/// An interface that is installed on a handle.
#[derive(Debug, Clone, Copy, PartialEq, Eq, Structural)]
pub struct InstalledProtocol {
    /// The GUID of the protocol.
    pub guid: Guid,
    /// The interface.
    pub interface: u64,
}

/// A handle, and the interfaces that are installed on it.
#[derive(Debug)]
pub struct MmHandle {
    /// The handle.
    pub id: u64,
    /// The interfaces.
    pub protocols: Vec<InstalledProtocol>,
}

/// A handle and its interfaces, as mathematical values.
pub struct HandleView {
    /// The handle.
    pub id: u64,
    /// The interfaces.
    pub protocols: Seq<InstalledProtocol>,
}

/// The view of a handle.
pub open spec fn handle_view(h: MmHandle) -> HandleView {
    HandleView { id: h.id, protocols: h.protocols@ }
}

/// A registered protocol notification.
#[derive(Debug, Clone, Copy, PartialEq, Eq, Structural)]
pub struct ProtocolNotifyEntry {
    /// The protocol.
    pub guid: Guid,
    /// The function to call when the protocol is installed.
    pub function: u64,
    /// Unique token of the registration.
    pub token: u64,
}

/// A notification that is to be fired.
#[derive(Debug, Clone, Copy, PartialEq, Eq, Structural)]
pub struct PendingNotify {
    /// The function to call.
    pub function: u64,
    /// The protocol that was installed.
    pub guid: Guid,
    /// Its interface.
    pub interface: u64,
    /// The handle it was installed on.
    pub handle: u64,
}

/// The index of a handle from `from` on.
pub open spec fn handle_index(handles: Seq<HandleView>, id: u64, from: int) -> Option<int>
    decreases handles.len() - from,
{
    if from >= handles.len() {
        None
    } else if handles[from].id == id {
        Some(from)
    } else {
        handle_index(handles, id, from + 1)
    }
}

/// The index of the first interface for a GUID from `from` on.
pub open spec fn protocol_index(
    protocols: Seq<InstalledProtocol>,
    guid: Guid,
    from: int,
) -> Option<int>
    decreases protocols.len() - from,
{
    if from >= protocols.len() {
        None
    } else if protocols[from].guid == guid {
        Some(from)
    } else {
        protocol_index(protocols, guid, from + 1)
    }
}

/// The index of the first occurrence of an interface for a GUID from `from` on.
pub open spec fn interface_index(
    protocols: Seq<InstalledProtocol>,
    guid: Guid,
    interface: u64,
    from: int,
) -> Option<int>
    decreases protocols.len() - from,
{
    if from >= protocols.len() {
        None
    } else if protocols[from].guid == guid && protocols[from].interface == interface {
        Some(from)
    } else {
        interface_index(protocols, guid, interface, from + 1)
    }
}

/// The handle supports a protocol.
pub open spec fn supports(h: HandleView, guid: Guid) -> bool {
    protocol_index(h.protocols, guid, 0) is Some
}

/// The index of the first handle, from `from` on, that supports a protocol.
pub open spec fn supporting(handles: Seq<HandleView>, guid: Guid, from: int) -> Option<int>
    decreases handles.len() - from,
{
    if from >= handles.len() {
        None
    } else if supports(handles[from], guid) {
        Some(from)
    } else {
        supporting(handles, guid, from + 1)
    }
}

/// The handles among the first `n`.
pub open spec fn handle_ids(handles: Seq<HandleView>, n: int) -> Seq<u64>
    decreases n,
{
    if n <= 0 {
        Seq::empty()
    } else {
        handle_ids(handles, n - 1).push(handles[n - 1].id)
    }
}

/// The handles among the first `n` that support a protocol.
pub open spec fn supporting_ids(handles: Seq<HandleView>, guid: Guid, n: int) -> Seq<u64>
    decreases n,
{
    if n <= 0 {
        Seq::empty()
    } else if supports(handles[n - 1], guid) {
        supporting_ids(handles, guid, n - 1).push(handles[n - 1].id)
    } else {
        supporting_ids(handles, guid, n - 1)
    }
}

/// The notifications, among the first `n` registrations, that an installation fires.
pub open spec fn fired(
    notifications: Seq<ProtocolNotifyEntry>,
    installed: InstalledProtocol,
    handle: u64,
    n: int,
) -> Seq<PendingNotify>
    decreases n,
{
    if n <= 0 {
        Seq::empty()
    } else if notifications[n - 1].guid == installed.guid {
        fired(notifications, installed, handle, n - 1).push(
            PendingNotify {
                function: notifications[n - 1].function,
                guid: installed.guid,
                interface: installed.interface,
                handle,
            },
        )
    } else {
        fired(notifications, installed, handle, n - 1)
    }
}

/// `guids`, and behind them those of the first `n` interfaces that are new.
pub open spec fn with_guids(
    guids: Seq<Guid>,
    protocols: Seq<InstalledProtocol>,
    n: int,
) -> Seq<Guid>
    decreases n,
{
    if n <= 0 {
        guids
    } else {
        let before = with_guids(guids, protocols, n - 1);
        if before.contains(protocols[n - 1].guid) {
            before
        } else {
            before.push(protocols[n - 1].guid)
        }
    }
}

/// The GUIDs on the first `n` handles, each once, in the order in which they are first met.
pub open spec fn guids_on(handles: Seq<HandleView>, n: int) -> Seq<Guid>
    decreases n,
{
    if n <= 0 {
        Seq::empty()
    } else {
        with_guids(
            guids_on(handles, n - 1),
            handles[n - 1].protocols,
            handles[n - 1].protocols.len() as int,
        )
    }
}

/// The index of the registration of a function for a GUID from `from` on.
pub open spec fn notify_index(
    notifications: Seq<ProtocolNotifyEntry>,
    guid: Guid,
    function: u64,
    from: int,
) -> Option<int>
    decreases notifications.len() - from,
{
    if from >= notifications.len() {
        None
    } else if notifications[from].guid == guid && notifications[from].function == function {
        Some(from)
    } else {
        notify_index(notifications, guid, function, from + 1)
    }
}

/// The index of the registration with a token for a GUID from `from` on.
pub open spec fn token_index(
    notifications: Seq<ProtocolNotifyEntry>,
    guid: Guid,
    token: u64,
    from: int,
) -> Option<int>
    decreases notifications.len() - from,
{
    if from >= notifications.len() {
        None
    } else if notifications[from].guid == guid && notifications[from].token == token {
        Some(from)
    } else {
        token_index(notifications, guid, token, from + 1)
    }
}

/// Finds the first interface for a GUID.
fn find_protocol(protocols: &Vec<InstalledProtocol>, guid: Guid) -> (r: Option<usize>)
    ensures
        match r {
            Some(i) => i < protocols@.len() && protocol_index(protocols@, guid, 0) == Some(
                i as int,
            ),
            None => protocol_index(protocols@, guid, 0) is None,
        },
{
    let mut i: usize = 0;
    while i < protocols.len()
        invariant
            i <= protocols@.len(),
            protocol_index(protocols@, guid, 0) == protocol_index(protocols@, guid, i as int),
        decreases protocols@.len() - i,
    {
        if protocols[i].guid == guid {
            return Some(i);
        }
        i = i + 1;
    }
    None
}

/// Finds the first occurrence of an interface for a GUID.
fn find_interface(protocols: &Vec<InstalledProtocol>, guid: Guid, interface: u64) -> (r: Option<
    usize,
>)
    ensures
        match r {
            Some(i) => i < protocols@.len() && interface_index(protocols@, guid, interface, 0)
                == Some(i as int),
            None => interface_index(protocols@, guid, interface, 0) is None,
        },
{
    let mut i: usize = 0;
    while i < protocols.len()
        invariant
            i <= protocols@.len(),
            interface_index(protocols@, guid, interface, 0) == interface_index(
                protocols@,
                guid,
                interface,
                i as int,
            ),
        decreases protocols@.len() - i,
    {
        if protocols[i].guid == guid && protocols[i].interface == interface {
            return Some(i);
        }
        i = i + 1;
    }
    None
}

/// No two of the handles are the same, and each has at least one interface.
pub open spec fn handles_ok(handles: Seq<HandleView>) -> bool {
    &&& forall|i: int, j: int|
        0 <= i < j < handles.len() ==> (#[trigger] handles[i]).id != (#[trigger] handles[j]).id
    &&& forall|i: int| 0 <= i < handles.len() ==> (#[trigger] handles[i]).protocols.len() > 0
}

/// Handle-aware protocol database with notification support.
pub struct MmProtocolDatabase {
    /// All handles.
    handles: Vec<MmHandle>,
    /// Registered protocol notifications.
    notifications: Vec<ProtocolNotifyEntry>,
    /// Next handle (starts at 1 to avoid null).
    next_handle_id: u64,
    /// Next registration token (starts at 1 to avoid null).
    next_registration_id: u64,
}

impl MmProtocolDatabase {
    /// The handles.
    pub closed spec fn handle_list(&self) -> Seq<HandleView> {
        self.handles@.map_values(|h: MmHandle| handle_view(h))
    }

    /// The registrations.
    pub closed spec fn registrations(&self) -> Seq<ProtocolNotifyEntry> {
        self.notifications@
    }

    /// The next handle.
    pub closed spec fn next_handle(&self) -> u64 {
        self.next_handle_id
    }

    /// The next token.
    pub closed spec fn next_token(&self) -> u64 {
        self.next_registration_id
    }

    /// No two handles are the same, none is null, none is yet to be given out, and each has an
    /// interface; and so for the tokens of registrations.
    pub open spec fn wf(&self) -> bool {
        &&& handles_ok(self.handle_list())
        &&& forall|i: int|
            0 <= i < self.handle_list().len() ==> 0 < (#[trigger] self.handle_list()[i]).id
                < self.next_handle()
        &&& 0 < self.next_handle()
        &&& forall|i: int, j: int|
            0 <= i < j < self.registrations().len() ==> (#[trigger] self.registrations()[i]).token
                != (#[trigger] self.registrations()[j]).token
        &&& forall|i: int|
            0 <= i < self.registrations().len() ==> 0 < (#[trigger] self.registrations()[i]).token
                < self.next_token()
        &&& 0 < self.next_token()
    }

    /// Creates a new empty database.
    pub fn new() -> (r: Self)
        ensures
            r.wf(),
            r.handle_list() == Seq::<HandleView>::empty(),
            r.registrations() == Seq::<ProtocolNotifyEntry>::empty(),
            r.next_handle() == 1,
            r.next_token() == 1,
    {
        let r = MmProtocolDatabase {
            handles: Vec::new(),
            notifications: Vec::new(),
            next_handle_id: 1,
            next_registration_id: 1,
        };
        assert(r.handle_list() =~= Seq::<HandleView>::empty());
        r
    }

    /// Finds a handle.
    fn find_handle(&self, id: u64) -> (r: Option<usize>)
        ensures
            match r {
                Some(i) => i < self.handles@.len() && self.handles@[i as int].id == id
                    && handle_index(self.handle_list(), id, 0) == Some(i as int),
                None => handle_index(self.handle_list(), id, 0) is None,
            },
    {
        let mut i: usize = 0;
        while i < self.handles.len()
            invariant
                i <= self.handles@.len(),
                handle_index(self.handle_list(), id, 0) == handle_index(
                    self.handle_list(),
                    id,
                    i as int,
                ),
            decreases self.handles@.len() - i,
        {
            if self.handles[i].id == id {
                return Some(i);
            }
            i = i + 1;
        }
        None
    }

    /// The handle that an installation on `handle` is made on, or why there is none: a null
    /// handle asks for a new one, and a protocol can be on a handle only once.
    pub open spec fn install_target(&self, handle: u64, guid: Guid) -> Result<u64, Status> {
        if handle == 0 {
            Ok(self.next_handle())
        } else {
            match handle_index(self.handle_list(), handle, 0) {
                None => Err(EFI_INVALID_PARAMETER),
                Some(i) => if supports(self.handle_list()[i], guid) {
                    Err(EFI_INVALID_PARAMETER)
                } else {
                    Ok(handle)
                },
            }
        }
    }

    /// The handles after an installation.
    pub open spec fn installed(&self, handle: u64, p: InstalledProtocol) -> Seq<HandleView> {
        if handle == 0 {
            self.handle_list().push(HandleView { id: self.next_handle(), protocols: seq![p] })
        } else {
            let i = handle_index(self.handle_list(), handle, 0)->0;
            let h = self.handle_list()[i];
            self.handle_list().update(i, HandleView { id: h.id, protocols: h.protocols.push(p) })
        }
    }

    /// Installs a protocol interface onto a handle.
    ///
    /// If `handle` is null a new handle is allocated. Returns the (possibly new) handle and the
    /// notifications that the caller is to fire.
    pub fn install_protocol(&mut self, handle: u64, guid: Guid, interface: u64) -> (r: Result<
        (u64, Vec<PendingNotify>),
        Status,
    >)
        requires
            old(self).wf(),
            handle == 0 ==> old(self).next_handle() < u64::MAX,
        ensures
            final(self).wf(),
            final(self).registrations() == old(self).registrations(),
            final(self).next_token() == old(self).next_token(),
            match r {
                Ok((id, notifies)) => {
                    let p = InstalledProtocol { guid, interface };
                    &&& old(self).install_target(handle, guid) == Ok::<u64, Status>(id)
                    &&& final(self).handle_list() == old(self).installed(handle, p)
                    &&& final(self).next_handle() == if handle == 0 {
                        old(self).next_handle() + 1
                    } else {
                        old(self).next_handle() as int
                    }
                    &&& notifies@ == fired(
                        old(self).registrations(),
                        p,
                        id,
                        old(self).registrations().len() as int,
                    )
                },
                Err(status) => {
                    &&& old(self).install_target(handle, guid) == Err::<u64, Status>(status)
                    &&& final(self).handle_list() == old(self).handle_list()
                    &&& final(self).next_handle() == old(self).next_handle()
                },
            },
    {
        let p = InstalledProtocol { guid, interface };
        let id: u64;
        if handle == 0 {
            id = self.next_handle_id;
            self.next_handle_id = self.next_handle_id + 1;
            let mut protocols: Vec<InstalledProtocol> = Vec::new();
            protocols.push(p);
            assert(protocols@ =~= seq![p]);
            self.handles.push(MmHandle { id, protocols });
            assert(self.handle_list() =~= old(self).installed(handle, p));
        } else {
            id = handle;
            let i: usize = match self.find_handle(handle) {
                Some(i) => i,
                None => {
                    return Err(EFI_INVALID_PARAMETER);
                },
            };
            assert(self.handle_list()[i as int] == handle_view(self.handles@[i as int]));
            match find_protocol(&self.handles[i].protocols, guid) {
                Some(_) => {
                    return Err(EFI_INVALID_PARAMETER);
                },
                None => {},
            }
            let mut mm_handle = self.handles.remove(i);
            mm_handle.protocols.push(p);
            self.handles.insert(i, mm_handle);
            assert(self.handle_list() =~= old(self).installed(handle, p));
        }
        proof {
            let before = old(self).handle_list();
            let after = self.handle_list();
            assert forall|i: int| 0 <= i < after.len() implies (#[trigger] after[i]).protocols.len()
                > 0 && 0 < after[i].id < self.next_handle() by {
                if i < before.len() {
                    assert(before[i].protocols.len() > 0 && 0 < before[i].id
                        < old(self).next_handle());
                }
            }
            assert forall|i: int, j: int| 0 <= i < j < after.len() implies (#[trigger] after[i]).id
                != (#[trigger] after[j]).id by {
                assert(before[i].id < old(self).next_handle());
                if j < before.len() {
                    assert(before[i].id != before[j].id);
                }
            }
            assert(self.registrations() == old(self).registrations());
        }
        let notifies = self.collect_notifies(p, id);
        Ok((id, notifies))
    }

    /// Collects the notifications that an installation fires.
    fn collect_notifies(&self, p: InstalledProtocol, handle: u64) -> (r: Vec<PendingNotify>)
        ensures
            r@ == fired(self.registrations(), p, handle, self.registrations().len() as int),
    {
        let mut notifies: Vec<PendingNotify> = Vec::new();
        let mut i: usize = 0;
        while i < self.notifications.len()
            invariant
                i <= self.notifications@.len(),
                notifies@ == fired(self.notifications@, p, handle, i as int),
            decreases self.notifications@.len() - i,
        {
            let entry = self.notifications[i];
            if entry.guid == p.guid {
                notifies.push(
                    PendingNotify {
                        function: entry.function,
                        guid: p.guid,
                        interface: p.interface,
                        handle,
                    },
                );
            }
            i = i + 1;
        }
        notifies
    }

    /// The handles after an interface has been uninstalled, or why it cannot be: a handle
    /// without interfaces is removed.
    pub open spec fn uninstalled(&self, handle: u64, guid: Guid, interface: u64) -> Result<
        Seq<HandleView>,
        Status,
    > {
        match handle_index(self.handle_list(), handle, 0) {
            None => Err(EFI_INVALID_PARAMETER),
            Some(i) => {
                let h = self.handle_list()[i];
                match interface_index(h.protocols, guid, interface, 0) {
                    None => Err(EFI_NOT_FOUND),
                    Some(k) => if h.protocols.len() == 1 {
                        Ok(self.handle_list().remove(i))
                    } else {
                        Ok(
                            self.handle_list().update(
                                i,
                                HandleView { id: h.id, protocols: h.protocols.remove(k) },
                            ),
                        )
                    },
                }
            },
        }
    }

    /// Uninstalls a protocol interface from a handle.
    ///
    /// If the handle has no remaining protocols it is removed from the database.
    pub fn uninstall_protocol(&mut self, handle: u64, guid: Guid, interface: u64) -> (r: Result<
        (),
        Status,
    >)
        requires
            old(self).wf(),
        ensures
            final(self).wf(),
            final(self).registrations() == old(self).registrations(),
            final(self).next_handle() == old(self).next_handle(),
            final(self).next_token() == old(self).next_token(),
            match old(self).uninstalled(handle, guid, interface) {
                Ok(handles) => r is Ok && final(self).handle_list() == handles,
                Err(status) => r == Err::<(), Status>(status) && final(self).handle_list() == old(
                    self,
                ).handle_list(),
            },
    {
        let i: usize = match self.find_handle(handle) {
            Some(i) => i,
            None => {
                return Err(EFI_INVALID_PARAMETER);
            },
        };
        assert(self.handle_list()[i as int] == handle_view(self.handles@[i as int]));
        let k: usize = match find_interface(&self.handles[i].protocols, guid, interface) {
            Some(k) => k,
            None => {
                return Err(EFI_NOT_FOUND);
            },
        };
        let ghost before = self.handle_list();
        let mut mm_handle = self.handles.remove(i);
        let _ = mm_handle.protocols.remove(k);
        if mm_handle.protocols.len() > 0 {
            self.handles.insert(i, mm_handle);
            assert(self.handle_list() =~= before.update(
                i as int,
                HandleView {
                    id: before[i as int].id,
                    protocols: before[i as int].protocols.remove(k as int),
                },
            ));
        } else {
            assert(self.handle_list() =~= before.remove(i as int));
        }
        proof {
            let after = self.handle_list();
            let shift = |a: int|
                if after.len() == before.len() || a < i {
                    a
                } else {
                    a + 1
                };
            assert forall|a: int| 0 <= a < after.len() implies (#[trigger] after[a]).protocols.len()
                > 0 && 0 < after[a].id < self.next_handle() by {
                assert(before[shift(a)].protocols.len() > 0 && 0 < before[shift(a)].id
                    < self.next_handle());
            }
            assert forall|a: int, b: int| 0 <= a < b < after.len() implies (#[trigger] after[a]).id
                != (#[trigger] after[b]).id by {
                assert(before[shift(a)].id != before[shift(b)].id);
            }
            assert(self.registrations() == old(self).registrations());
        }
        Ok(())
    }

    /// The interface for a protocol on a handle.
    pub open spec fn interface_on(&self, handle: u64, guid: Guid) -> Option<u64> {
        match handle_index(self.handle_list(), handle, 0) {
            None => None,
            Some(i) => {
                let protocols = self.handle_list()[i].protocols;
                match protocol_index(protocols, guid, 0) {
                    Some(k) => Some(protocols[k].interface),
                    None => None,
                }
            },
        }
    }

    /// Looks up a specific protocol on a specific handle.
    pub fn handle_protocol(&self, handle: u64, guid: Guid) -> (r: Option<u64>)
        ensures
            r == self.interface_on(handle, guid),
    {
        match self.find_handle(handle) {
            None => None,
            Some(i) => {
                assert(self.handle_list()[i as int] == handle_view(self.handles@[i as int]));
                match find_protocol(&self.handles[i].protocols, guid) {
                    Some(k) => Some(self.handles[i].protocols[k].interface),
                    None => None,
                }
            },
        }
    }

    /// The first interface for a protocol, over all handles.
    pub open spec fn first_interface(&self, guid: Guid) -> Option<u64> {
        match supporting(self.handle_list(), guid, 0) {
            None => None,
            Some(i) => {
                let protocols = self.handle_list()[i].protocols;
                Some(protocols[protocol_index(protocols, guid, 0)->0].interface)
            },
        }
    }

    /// Locates the first installed interface for a GUID across all handles.
    pub fn locate_protocol(&self, guid: Guid) -> (r: Option<u64>)
        ensures
            r == self.first_interface(guid),
    {
        let mut i: usize = 0;
        while i < self.handles.len()
            invariant
                i <= self.handles@.len(),
                supporting(self.handle_list(), guid, 0) == supporting(
                    self.handle_list(),
                    guid,
                    i as int,
                ),
            decreases self.handles@.len() - i,
        {
            assert(self.handle_list()[i as int] == handle_view(self.handles@[i as int]));
            match find_protocol(&self.handles[i].protocols, guid) {
                Some(k) => {
                    return Some(self.handles[i].protocols[k].interface);
                },
                None => {},
            }
            i = i + 1;
        }
        None
    }

    /// Returns all handles that support a given protocol.
    pub fn locate_handle_by_protocol(&self, guid: Guid) -> (r: Vec<u64>)
        ensures
            r@ == supporting_ids(self.handle_list(), guid, self.handle_list().len() as int),
    {
        let mut ids: Vec<u64> = Vec::new();
        let mut i: usize = 0;
        while i < self.handles.len()
            invariant
                i <= self.handles@.len(),
                ids@ == supporting_ids(self.handle_list(), guid, i as int),
            decreases self.handles@.len() - i,
        {
            assert(self.handle_list()[i as int] == handle_view(self.handles@[i as int]));
            match find_protocol(&self.handles[i].protocols, guid) {
                Some(_) => {
                    ids.push(self.handles[i].id);
                },
                None => {},
            }
            i = i + 1;
        }
        ids
    }

    /// Returns all handles in the database.
    pub fn all_handles(&self) -> (r: Vec<u64>)
        ensures
            r@ == handle_ids(self.handle_list(), self.handle_list().len() as int),
    {
        let mut ids: Vec<u64> = Vec::new();
        let mut i: usize = 0;
        while i < self.handles.len()
            invariant
                i <= self.handles@.len(),
                ids@ == handle_ids(self.handle_list(), i as int),
            decreases self.handles@.len() - i,
        {
            assert(self.handle_list()[i as int] == handle_view(self.handles@[i as int]));
            ids.push(self.handles[i].id);
            i = i + 1;
        }
        ids
    }

    /// Registers a notification callback for a protocol GUID.
    ///
    /// If an identical pair of GUID and function is already registered the existing token is
    /// returned.
    pub fn register_protocol_notify(&mut self, guid: Guid, function: u64) -> (r: u64)
        requires
            old(self).wf(),
            old(self).next_token() < u64::MAX,
        ensures
            final(self).wf(),
            final(self).handle_list() == old(self).handle_list(),
            final(self).next_handle() == old(self).next_handle(),
            match notify_index(old(self).registrations(), guid, function, 0) {
                Some(i) => {
                    &&& r == old(self).registrations()[i].token
                    &&& final(self).registrations() == old(self).registrations()
                    &&& final(self).next_token() == old(self).next_token()
                },
                None => {
                    &&& r == old(self).next_token()
                    &&& final(self).registrations() == old(self).registrations().push(
                        ProtocolNotifyEntry { guid, function, token: r },
                    )
                    &&& final(self).next_token() == old(self).next_token() + 1
                },
            },
    {
        let mut i: usize = 0;
        while i < self.notifications.len()
            invariant
                i <= self.notifications@.len(),
                *self == *old(self),
                self.wf(),
                self.next_token() < u64::MAX,
                notify_index(self.notifications@, guid, function, 0) == notify_index(
                    self.notifications@,
                    guid,
                    function,
                    i as int,
                ),
            decreases self.notifications@.len() - i,
        {
            let entry = self.notifications[i];
            if entry.guid == guid && entry.function == function {
                return entry.token;
            }
            i = i + 1;
        }
        let token: u64 = self.next_registration_id;
        self.next_registration_id = self.next_registration_id + 1;
        self.notifications.push(ProtocolNotifyEntry { guid, function, token });
        assert(self.handle_list() == old(self).handle_list());
        token
    }

    /// Unregisters a notification by its registration token.
    pub fn unregister_protocol_notify(&mut self, guid: Guid, registration: u64) -> (r: Result<
        (),
        Status,
    >)
        requires
            old(self).wf(),
        ensures
            final(self).wf(),
            final(self).handle_list() == old(self).handle_list(),
            final(self).next_handle() == old(self).next_handle(),
            final(self).next_token() == old(self).next_token(),
            match token_index(old(self).registrations(), guid, registration, 0) {
                Some(i) => r is Ok && final(self).registrations() == old(
                    self,
                ).registrations().remove(i),
                None => r == Err::<(), Status>(EFI_NOT_FOUND) && final(self).registrations() == old(
                    self,
                ).registrations(),
            },
    {
        let mut i: usize = 0;
        while i < self.notifications.len()
            invariant
                i <= self.notifications@.len(),
                *self == *old(self),
                self.wf(),
                token_index(self.notifications@, guid, registration, 0) == token_index(
                    self.notifications@,
                    guid,
                    registration,
                    i as int,
                ),
            decreases self.notifications@.len() - i,
        {
            let entry = self.notifications[i];
            if entry.guid == guid && entry.token == registration {
                let ghost before = self.notifications@;
                let _ = self.notifications.remove(i);
                assert(self.wf()) by {
                    assert(self.handle_list() == old(self).handle_list());
                    let after = self.notifications@;
                    assert forall|a: int| 0 <= a < after.len() implies 0 < (
                    #[trigger] after[a]).token < self.next_registration_id by {
                        let x = if a < i {
                            a
                        } else {
                            a + 1
                        };
                        assert(0 < old(self).registrations()[x].token < self.next_registration_id);
                    }
                    assert forall|a: int, b: int| 0 <= a < b < after.len() implies (
                    #[trigger] after[a]).token != (#[trigger] after[b]).token by {
                        let x = if a < i {
                            a
                        } else {
                            a + 1
                        };
                        let y = if b < i {
                            b
                        } else {
                            b + 1
                        };
                        assert(old(self).registrations()[x].token
                            != old(self).registrations()[y].token);
                    }
                }
                return Ok(());
            }
            i = i + 1;
        }
        Err(EFI_NOT_FOUND)
    }

    /// Checks if a protocol GUID is installed on any handle.
    pub fn is_protocol_installed(&self, guid: Guid) -> (r: bool)
        ensures
            r == (supporting(self.handle_list(), guid, 0) is Some),
    {
        match self.locate_protocol(guid) {
            Some(_) => true,
            None => false,
        }
    }

    /// Returns all unique installed protocol GUIDs.
    pub fn registered_protocols(&self) -> (r: Vec<Guid>)
        ensures
            r@ == guids_on(self.handle_list(), self.handle_list().len() as int),
    {
        let mut guids: Vec<Guid> = Vec::new();
        let mut i: usize = 0;
        while i < self.handles.len()
            invariant
                i <= self.handles@.len(),
                guids@ == guids_on(self.handle_list(), i as int),
            decreases self.handles@.len() - i,
        {
            assert(self.handle_list()[i as int] == handle_view(self.handles@[i as int]));
            let ghost start = guids@;
            let mut k: usize = 0;
            while k < self.handles[i as usize].protocols.len()
                invariant
                    i < self.handles@.len(),
                    k <= self.handles@[i as int].protocols@.len(),
                    guids@ == with_guids(start, self.handles@[i as int].protocols@, k as int),
                decreases self.handles@[i as int].protocols@.len() - k,
            {
                let guid = self.handles[i].protocols[k].guid;
                match crate::user_core::protocol_db::find_guid(&guids, guid) {
                    Some(at) => {
                        assert(guids@[at as int] == guid);
                    },
                    None => {
                        guids.push(guid);
                    },
                }
                k = k + 1;
            }
            i = i + 1;
        }
        guids
    }
}

// ============================================================================
// Service functions
// ============================================================================

/// All handles.
pub const ALL_HANDLES: u32 = 0;

/// The handles that support a protocol.
pub const BY_PROTOCOL: u32 = 2;

/// Size in bytes of a handle.
pub const HANDLE_SIZE: u64 = 8;

/// The answer of the service that locates handles.
#[derive(Debug)]
pub struct LocateHandleReply {
    /// The status.
    pub status: Status,
    /// The size that is to be written to the caller's size, if it is to be.
    pub required_size: Option<u64>,
    /// The handles that are to be written to the caller's buffer.
    pub handles: Vec<u64>,
}

/// The handles that a search finds, or why it cannot be made.
pub open spec fn search_result(
    db: &MmProtocolDatabase,
    search_type: u32,
    protocol: Option<Guid>,
) -> Result<Seq<u64>, Status> {
    if search_type == ALL_HANDLES {
        Ok(handle_ids(db.handle_list(), db.handle_list().len() as int))
    } else if search_type == BY_PROTOCOL {
        match protocol {
            None => Err(EFI_INVALID_PARAMETER),
            Some(guid) => Ok(
                supporting_ids(db.handle_list(), guid, db.handle_list().len() as int),
            ),
        }
    } else {
        Err(EFI_UNSUPPORTED)
    }
}

/// `MmLocateHandle`: `buffer_size` is the size of the caller's buffer, if there is a place for
/// it, and `has_buffer` whether there is a buffer. The caller learns the size that is needed
/// whenever handles are found.
pub fn mm_locate_handle_impl(
    db: &MmProtocolDatabase,
    search_type: u32,
    protocol: Option<Guid>,
    buffer_size: Option<u64>,
    has_buffer: bool,
) -> (r: LocateHandleReply)
    requires
        db.handle_list().len() * HANDLE_SIZE <= u64::MAX,
    ensures
        match (buffer_size, search_result(db, search_type, protocol)) {
            (None, _) => {
                r.status == EFI_INVALID_PARAMETER && r.required_size is None && r.handles@.len()
                    == 0
            },
            (_, Err(status)) => {
                r.status == status && r.required_size is None && r.handles@.len() == 0
            },
            (Some(size), Ok(found)) => {
                let required = found.len() * HANDLE_SIZE;
                if found.len() == 0 {
                    r.status == EFI_NOT_FOUND && r.required_size is None && r.handles@.len() == 0
                } else {
                    &&& r.required_size == Some(required as u64)
                    &&& if size < required {
                        r.status == EFI_BUFFER_TOO_SMALL && r.handles@.len() == 0
                    } else if !has_buffer {
                        r.status == EFI_INVALID_PARAMETER && r.handles@.len() == 0
                    } else {
                        r.status == EFI_SUCCESS && r.handles@ == found
                    }
                }
            },
        },
{
    let caller_size: u64 = match buffer_size {
        Some(size) => size,
        None => {
            return LocateHandleReply {
                status: EFI_INVALID_PARAMETER,
                required_size: None,
                handles: Vec::new(),
            };
        },
    };
    let handles: Vec<u64> = if search_type == ALL_HANDLES {
        db.all_handles()
    } else if search_type == BY_PROTOCOL {
        match protocol {
            Some(guid) => db.locate_handle_by_protocol(guid),
            None => {
                return LocateHandleReply {
                    status: EFI_INVALID_PARAMETER,
                    required_size: None,
                    handles: Vec::new(),
                };
            },
        }
    } else {
        return LocateHandleReply {
            status: EFI_UNSUPPORTED,
            required_size: None,
            handles: Vec::new(),
        };
    };
    if handles.len() == 0 {
        return LocateHandleReply {
            status: EFI_NOT_FOUND,
            required_size: None,
            handles: Vec::new(),
        };
    }
    proof {
        lemma_ids_len(db.handle_list(), db.handle_list().len() as int);
        if protocol is Some {
            lemma_supporting_len(db.handle_list(), protocol->0, db.handle_list().len() as int);
        }
    }
    let required: u64 = handles.len() as u64 * HANDLE_SIZE;
    if caller_size < required {
        return LocateHandleReply {
            status: EFI_BUFFER_TOO_SMALL,
            required_size: Some(required),
            handles: Vec::new(),
        };
    }
    if !has_buffer {
        return LocateHandleReply {
            status: EFI_INVALID_PARAMETER,
            required_size: Some(required),
            handles: Vec::new(),
        };
    }
    LocateHandleReply { status: EFI_SUCCESS, required_size: Some(required), handles }
}

proof fn lemma_ids_len(handles: Seq<HandleView>, n: int)
    requires
        0 <= n,
    ensures
        handle_ids(handles, n).len() == n,
    decreases n,
{
    if n > 0 {
        lemma_ids_len(handles, n - 1);
    }
}

proof fn lemma_supporting_len(handles: Seq<HandleView>, guid: Guid, n: int)
    requires
        0 <= n,
    ensures
        supporting_ids(handles, guid, n).len() <= n,
    decreases n,
{
    if n > 0 {
        lemma_supporting_len(handles, guid, n - 1);
    }
}

/// The answer of a service that gives an interface.
#[derive(Debug, Clone, Copy, PartialEq, Eq, Structural)]
pub struct InterfaceReply {
    /// The status.
    pub status: Status,
    /// The interface that is to be written for the caller, if one is to be.
    pub interface: Option<u64>,
}

/// `MmHandleProtocol`: the interface is null unless the protocol is found.
pub fn mm_handle_protocol_impl(
    db: &MmProtocolDatabase,
    handle: u64,
    protocol: Option<Guid>,
    has_interface: bool,
) -> (r: InterfaceReply)
    ensures
        r == match (protocol, has_interface) {
            (Some(guid), true) => if handle == 0 {
                InterfaceReply { status: EFI_INVALID_PARAMETER, interface: Some(0) }
            } else {
                match db.interface_on(handle, guid) {
                    Some(interface) => InterfaceReply {
                        status: EFI_SUCCESS,
                        interface: Some(interface),
                    },
                    None => InterfaceReply { status: EFI_UNSUPPORTED, interface: Some(0) },
                }
            },
            _ => InterfaceReply { status: EFI_INVALID_PARAMETER, interface: None },
        },
{
    let guid: Guid = match protocol {
        Some(guid) => guid,
        None => {
            return InterfaceReply { status: EFI_INVALID_PARAMETER, interface: None };
        },
    };
    if !has_interface {
        return InterfaceReply { status: EFI_INVALID_PARAMETER, interface: None };
    }
    if handle == 0 {
        return InterfaceReply { status: EFI_INVALID_PARAMETER, interface: Some(0) };
    }
    match db.handle_protocol(handle, guid) {
        Some(interface) => InterfaceReply { status: EFI_SUCCESS, interface: Some(interface) },
        None => InterfaceReply { status: EFI_UNSUPPORTED, interface: Some(0) },
    }
}

/// `MmLocateProtocol`: the interface is written only if the protocol is found.
pub fn mm_locate_protocol_impl(
    db: &MmProtocolDatabase,
    protocol: Option<Guid>,
    has_interface: bool,
) -> (r: InterfaceReply)
    ensures
        r == match (protocol, has_interface) {
            (Some(guid), true) => match db.first_interface(guid) {
                Some(interface) => InterfaceReply {
                    status: EFI_SUCCESS,
                    interface: Some(interface),
                },
                None => InterfaceReply { status: EFI_NOT_FOUND, interface: None },
            },
            _ => InterfaceReply { status: EFI_INVALID_PARAMETER, interface: None },
        },
{
    let guid: Guid = match protocol {
        Some(guid) => guid,
        None => {
            return InterfaceReply { status: EFI_INVALID_PARAMETER, interface: None };
        },
    };
    if !has_interface {
        return InterfaceReply { status: EFI_INVALID_PARAMETER, interface: None };
    }
    match db.locate_protocol(guid) {
        Some(interface) => InterfaceReply { status: EFI_SUCCESS, interface: Some(interface) },
        None => InterfaceReply { status: EFI_NOT_FOUND, interface: None },
    }
}

/// The answer of the service that installs a protocol.
#[derive(Debug)]
pub struct InstallReply {
    /// The status.
    pub status: Status,
    /// The handle that is to be written for the caller, if one is to be.
    pub handle: Option<u64>,
    /// The notifications that are to be fired.
    pub notifies: Vec<PendingNotify>,
}

/// `MmInstallProtocolInterface`: `handle` is the caller's handle, if there is a place for it.
pub fn mm_install_protocol_interface_impl(
    db: &mut MmProtocolDatabase,
    handle: Option<u64>,
    protocol: Option<Guid>,
    interface: u64,
) -> (r: InstallReply)
    requires
        old(db).wf(),
        handle == Some(0u64) && protocol is Some ==> old(db).next_handle() < u64::MAX,
    ensures
        final(db).wf(),
        final(db).registrations() == old(db).registrations(),
        final(db).next_token() == old(db).next_token(),
        final(db).next_handle() == if handle == Some(0u64) && protocol is Some {
            old(db).next_handle() + 1
        } else {
            old(db).next_handle() as int
        },
        match (handle, protocol) {
            (Some(handle), Some(guid)) => {
                let p = InstalledProtocol { guid, interface };
                match old(db).install_target(handle, guid) {
                    Ok(id) => {
                        &&& r.status == EFI_SUCCESS
                        &&& r.handle == Some(id)
                        &&& r.notifies@ == fired(
                            old(db).registrations(),
                            p,
                            id,
                            old(db).registrations().len() as int,
                        )
                        &&& final(db).handle_list() == old(db).installed(handle, p)
                    },
                    Err(status) => {
                        &&& r.status == status
                        &&& r.handle is None
                        &&& r.notifies@.len() == 0
                        &&& final(db).handle_list() == old(db).handle_list()
                    },
                }
            },
            _ => {
                &&& r.status == EFI_INVALID_PARAMETER
                &&& r.handle is None
                &&& r.notifies@.len() == 0
                &&& final(db).handle_list() == old(db).handle_list()
            },
        },
{
    let caller_handle: u64 = match handle {
        Some(handle) => handle,
        None => {
            return InstallReply {
                status: EFI_INVALID_PARAMETER,
                handle: None,
                notifies: Vec::new(),
            };
        },
    };
    let guid: Guid = match protocol {
        Some(guid) => guid,
        None => {
            return InstallReply {
                status: EFI_INVALID_PARAMETER,
                handle: None,
                notifies: Vec::new(),
            };
        },
    };
    match db.install_protocol(caller_handle, guid, interface) {
        Ok(installed) => InstallReply {
            status: EFI_SUCCESS,
            handle: Some(installed.0),
            notifies: installed.1,
        },
        Err(status) => InstallReply { status, handle: None, notifies: Vec::new() },
    }
}

/// `MmUninstallProtocolInterface`.
pub fn mm_uninstall_protocol_interface_impl(
    db: &mut MmProtocolDatabase,
    handle: u64,
    protocol: Option<Guid>,
    interface: u64,
) -> (r: Status)
    requires
        old(db).wf(),
    ensures
        final(db).wf(),
        final(db).registrations() == old(db).registrations(),
        final(db).next_token() == old(db).next_token(),
        final(db).next_handle() == old(db).next_handle(),
        match protocol {
            Some(guid) => if handle == 0 {
                r == EFI_INVALID_PARAMETER && final(db).handle_list() == old(db).handle_list()
            } else {
                match old(db).uninstalled(handle, guid, interface) {
                    Ok(handles) => r == EFI_SUCCESS && final(db).handle_list() == handles,
                    Err(status) => r == status && final(db).handle_list() == old(
                        db,
                    ).handle_list(),
                }
            },
            None => r == EFI_INVALID_PARAMETER && final(db).handle_list() == old(db).handle_list(),
        },
{
    if handle == 0 {
        return EFI_INVALID_PARAMETER;
    }
    let guid: Guid = match protocol {
        Some(guid) => guid,
        None => {
            return EFI_INVALID_PARAMETER;
        },
    };
    match db.uninstall_protocol(handle, guid, interface) {
        Ok(()) => EFI_SUCCESS,
        Err(status) => status,
    }
}

/// The answer of the service that registers a notification.
#[derive(Debug, Clone, Copy, PartialEq, Eq, Structural)]
pub struct NotifyReply {
    /// The status.
    pub status: Status,
    /// The registration that is to be written for the caller, if one is to be.
    pub registration: Option<u64>,
}

/// `MmRegisterProtocolNotify`: a null function unregisters the caller's registration.
/// `registration` is that registration, if there is a place for one.
pub fn mm_register_protocol_notify_impl(
    db: &mut MmProtocolDatabase,
    protocol: Option<Guid>,
    function: u64,
    registration: Option<u64>,
) -> (r: NotifyReply)
    requires
        old(db).wf(),
        old(db).next_token() < u64::MAX,
    ensures
        final(db).wf(),
        final(db).handle_list() == old(db).handle_list(),
        final(db).next_handle() == old(db).next_handle(),
        final(db).next_token() == if function != 0 && registration is Some && (
        protocol matches Some(guid) && notify_index(
            old(db).registrations(),
            guid,
            function,
            0,
        ) is None) {
            old(db).next_token() + 1
        } else {
            old(db).next_token() as int
        },
        match (protocol, registration) {
            (Some(guid), Some(token)) => if function == 0 {
                match token_index(old(db).registrations(), guid, token, 0) {
                    Some(i) => {
                        &&& r == (NotifyReply { status: EFI_SUCCESS, registration: None })
                        &&& final(db).registrations() == old(db).registrations().remove(i)
                    },
                    None => {
                        &&& r == (NotifyReply { status: EFI_NOT_FOUND, registration: None })
                        &&& final(db).registrations() == old(db).registrations()
                    },
                }
            } else {
                match notify_index(old(db).registrations(), guid, function, 0) {
                    Some(i) => {
                        &&& r == (NotifyReply {
                            status: EFI_SUCCESS,
                            registration: Some(old(db).registrations()[i].token),
                        })
                        &&& final(db).registrations() == old(db).registrations()
                    },
                    None => {
                        &&& r == (NotifyReply {
                            status: EFI_SUCCESS,
                            registration: Some(old(db).next_token()),
                        })
                        &&& final(db).registrations() == old(db).registrations().push(
                            ProtocolNotifyEntry { guid, function, token: old(db).next_token() },
                        )
                    },
                }
            },
            _ => {
                &&& r == (NotifyReply { status: EFI_INVALID_PARAMETER, registration: None })
                &&& final(db).registrations() == old(db).registrations()
            },
        },
{
    let guid: Guid = match protocol {
        Some(guid) => guid,
        None => {
            return NotifyReply { status: EFI_INVALID_PARAMETER, registration: None };
        },
    };
    let token: u64 = match registration {
        Some(token) => token,
        None => {
            return NotifyReply { status: EFI_INVALID_PARAMETER, registration: None };
        },
    };
    if function == 0 {
        match db.unregister_protocol_notify(guid, token) {
            Ok(()) => NotifyReply { status: EFI_SUCCESS, registration: None },
            Err(status) => NotifyReply { status, registration: None },
        }
    } else {
        let new_token: u64 = db.register_protocol_notify(guid, function);
        NotifyReply { status: EFI_SUCCESS, registration: Some(new_token) }
    }
}

/// `MmiHandlerRegister`: `has_handle` is whether there is a place for the dispatch handle.
pub fn mmi_handler_register_impl(
    db: &mut MmiDatabase,
    handler: u64,
    handler_type: Option<Guid>,
    has_handle: bool,
) -> (r: Result<u64, Status>)
    ensures
        final(db).depth() == old(db).depth(),
        if has_handle {
            &&& r == Ok::<u64, Status>(handler)
            &&& final(db).roots() == roots_with(old(db).roots(), handler, handler_type)
            &&& final(db).entry_list() == entries_with(old(db).entry_list(), handler, handler_type)
        } else {
            &&& r == Err::<u64, Status>(EFI_INVALID_PARAMETER)
            &&& final(db).roots() == old(db).roots()
            &&& final(db).entry_list() == old(db).entry_list()
        },
{
    if !has_handle {
        return Err(EFI_INVALID_PARAMETER);
    }
    db.mmi_handler_register(handler, handler_type)
}

/// `MmiHandlerUnRegister`.
pub fn mmi_handler_unregister_impl(db: &mut MmiDatabase, dispatch_handle: u64) -> (r: Status)
    ensures
        final(db).depth() == old(db).depth(),
        final(db).roots() == marked(old(db).roots(), dispatch_handle),
        final(db).entry_list() == entries_without(
            old(db).roots(),
            old(db).entry_list(),
            dispatch_handle,
        ),
        r == if handler_at(old(db).roots(), dispatch_handle, 0) is Some || entry_with(
            old(db).entry_list(),
            dispatch_handle,
            0,
        ) is Some {
            EFI_SUCCESS
        } else {
            EFI_NOT_FOUND
        },
{
    match db.mmi_handler_unregister(dispatch_handle) {
        Ok(()) => EFI_SUCCESS,
        Err(status) => status,
    }
}

/// `MmAllocatePool`, before the allocation: the alignment of a pool allocation is 8, and its
/// size, rounded up to that, fits a signed size.
pub fn mm_allocate_pool_impl(has_buffer: bool, size: u64) -> (r: Result<u64, Status>)
    ensures
        r == if !has_buffer || size == 0 || size > 0x7fff_ffff_ffff_fff8 {
            Err::<u64, Status>(EFI_INVALID_PARAMETER)
        } else {
            Ok(size)
        },
{
    if !has_buffer || size == 0 {
        return Err(EFI_INVALID_PARAMETER);
    }
    if size > 0x7fff_ffff_ffff_fff8 {
        return Err(EFI_INVALID_PARAMETER);
    }
    Ok(size)
}

/// `MmAllocatePool` or `MmAllocatePages`, after the allocation: the memory, if there was some.
pub fn allocation_status(memory: Option<u64>) -> (r: Status)
    ensures
        r == match memory {
            Some(_) => EFI_SUCCESS,
            None => EFI_OUT_OF_RESOURCES,
        },
{
    match memory {
        Some(_) => EFI_SUCCESS,
        None => EFI_OUT_OF_RESOURCES,
    }
}

/// `MmFreePool`: the status if the buffer cannot be freed.
pub fn mm_free_pool_impl(buffer: u64) -> (r: Option<Status>)
    ensures
        r == if buffer == 0 {
            Some(EFI_INVALID_PARAMETER)
        } else {
            None
        },
{
    if buffer == 0 {
        Some(EFI_INVALID_PARAMETER)
    } else {
        None
    }
}

/// `MmAllocatePages`, before the allocation: the status if it cannot be made.
pub fn mm_allocate_pages_impl(has_memory: bool, pages: usize) -> (r: Option<Status>)
    ensures
        r == if !has_memory || pages == 0 {
            Some(EFI_INVALID_PARAMETER)
        } else {
            None
        },
{
    if !has_memory || pages == 0 {
        Some(EFI_INVALID_PARAMETER)
    } else {
        None
    }
}

/// `MmFreePages`: the status, given whether the pages, if there were any, could be freed.
pub fn mm_free_pages_impl(memory: u64, pages: usize, freed: bool) -> (r: Status)
    ensures
        r == if memory != 0 && pages != 0 && freed {
            EFI_SUCCESS
        } else {
            EFI_INVALID_PARAMETER
        },
{
    if memory == 0 || pages == 0 {
        return EFI_INVALID_PARAMETER;
    }
    if freed {
        EFI_SUCCESS
    } else {
        EFI_INVALID_PARAMETER
    }
}

// ============================================================================
// Laws
// ============================================================================

/// What has been installed on a handle is found on it.
pub proof fn law_installed_is_found(
    before: &MmProtocolDatabase,
    after: &MmProtocolDatabase,
    handle: u64,
    p: InstalledProtocol,
    id: u64,
)
    requires
        before.wf(),
        before.install_target(handle, p.guid) == Ok::<u64, Status>(id),
        after.handle_list() == before.installed(handle, p),
    ensures
        after.interface_on(id, p.guid) == Some(p.interface),
        supporting(after.handle_list(), p.guid, 0) is Some,
{
    let list = before.handle_list();
    let now = after.handle_list();
    lemma_handle_index(list, handle, 0);
    if handle == 0 {
        let k = list.len() as int;
        assert(now[k].id == id);
        lemma_handle_unique(now, id, k, 0);
        assert(now[k].protocols == seq![p]);
        lemma_supporting(now, p.guid, k, 0);
    } else {
        let i = handle_index(list, handle, 0)->0;
        lemma_handle_unique(now, id, i, 0);
        lemma_protocol_last(list[i].protocols, p, 0);
        lemma_supporting(now, p.guid, i, 0);
    }
}

/// Uninstalling what has just been installed on a handle brings the handles back as they were.
pub proof fn law_install_then_uninstall_handle(
    before: &MmProtocolDatabase,
    after: &MmProtocolDatabase,
    handle: u64,
    p: InstalledProtocol,
    id: u64,
)
    requires
        before.wf(),
        before.install_target(handle, p.guid) == Ok::<u64, Status>(id),
        after.handle_list() == before.installed(handle, p),
    ensures
        after.uninstalled(id, p.guid, p.interface) == Ok::<Seq<HandleView>, Status>(
            before.handle_list(),
        ),
{
    let list = before.handle_list();
    let now = after.handle_list();
    lemma_handle_index(list, handle, 0);
    if handle == 0 {
        let k = list.len() as int;
        lemma_handle_unique(now, id, k, 0);
        assert(now[k].protocols == seq![p]);
        assert(now.remove(k) =~= list);
    } else {
        let i = handle_index(list, handle, 0)->0;
        let protocols = list[i].protocols;
        lemma_handle_unique(now, id, i, 0);
        lemma_interface_last(protocols, p, 0);
        assert(list[i].protocols.len() > 0);
        assert(protocols.push(p).remove(protocols.len() as int) =~= protocols);
        assert(now.update(i, HandleView { id: list[i].id, protocols }) =~= list);
    }
}

/// A registered function is called when the protocol is installed.
pub proof fn law_registered_function_is_notified(
    notifications: Seq<ProtocolNotifyEntry>,
    k: int,
    installed: InstalledProtocol,
    handle: u64,
    n: int,
)
    requires
        0 <= k < n <= notifications.len(),
        notifications[k].guid == installed.guid,
    ensures
        fired(notifications, installed, handle, n).contains(
            PendingNotify {
                function: notifications[k].function,
                guid: installed.guid,
                interface: installed.interface,
                handle,
            },
        ),
    decreases n,
{
    let notify = PendingNotify {
        function: notifications[k].function,
        guid: installed.guid,
        interface: installed.interface,
        handle,
    };
    let all = fired(notifications, installed, handle, n);
    if k == n - 1 {
        assert(all[all.len() - 1] == notify);
    } else {
        law_registered_function_is_notified(notifications, k, installed, handle, n - 1);
        let before = fired(notifications, installed, handle, n - 1);
        let at = choose|at: int| 0 <= at < before.len() && before[at] == notify;
        assert(all[at] == notify);
    }
}

/// The list of installed GUIDs has each GUID that is on one of the handles once, and no others.
pub proof fn law_registered_protocols_unique(handles: Seq<HandleView>, n: int)
    requires
        0 <= n <= handles.len(),
    ensures
        guids_on(handles, n).no_duplicates(),
        forall|guid: Guid| #[trigger]
            guids_on(handles, n).contains(guid) <==> exists|k: int|
                0 <= k < n && #[trigger] supports(handles[k], guid),
    decreases n,
{
    if n > 0 {
        law_registered_protocols_unique(handles, n - 1);
        let before = guids_on(handles, n - 1);
        let protocols = handles[n - 1].protocols;
        let count = protocols.len() as int;
        lemma_with_guids_unique(before, protocols, count);
        assert forall|guid: Guid| #[trigger]
            guids_on(handles, n).contains(guid) <==> exists|k: int|
                0 <= k < n && #[trigger] supports(handles[k], guid) by {
            lemma_with_guids_contains(before, protocols, count, guid);
            lemma_protocol_index_some(protocols, guid, 0);
            if before.contains(guid) {
                let k = choose|k: int|
                    0 <= k < n - 1 && #[trigger] supports(handles[k], guid);
                assert(supports(handles[k], guid));
            }
            if exists|k: int| 0 <= k < count && (#[trigger] protocols[k]).guid == guid {
                assert(supports(handles[n - 1], guid));
            }
        }
    }
}

proof fn lemma_with_guids_contains(
    guids: Seq<Guid>,
    protocols: Seq<InstalledProtocol>,
    n: int,
    guid: Guid,
)
    requires
        0 <= n <= protocols.len(),
    ensures
        with_guids(guids, protocols, n).contains(guid) <==> guids.contains(guid) || exists|k: int|
            0 <= k < n && (#[trigger] protocols[k]).guid == guid,
    decreases n,
{
    if n > 0 {
        lemma_with_guids_contains(guids, protocols, n - 1, guid);
        let before = with_guids(guids, protocols, n - 1);
        let last = protocols[n - 1].guid;
        if !before.contains(last) {
            let after = before.push(last);
            if before.contains(guid) {
                let at = choose|at: int| 0 <= at < before.len() && before[at] == guid;
                assert(after[at] == guid);
            }
            if guid == last {
                assert(after[before.len() as int] == guid);
            }
            if after.contains(guid) && guid != last {
                let at = choose|at: int| 0 <= at < after.len() && after[at] == guid;
                assert(before[at] == guid);
            }
        }
        if guid == last {
            assert(protocols[n - 1].guid == guid);
        }
    }
}

/// An interface for a GUID is found exactly if there is one.
proof fn lemma_protocol_index_some(protocols: Seq<InstalledProtocol>, guid: Guid, from: int)
    requires
        0 <= from,
    ensures
        protocol_index(protocols, guid, from) is Some <==> exists|k: int|
            from <= k < protocols.len() && (#[trigger] protocols[k]).guid == guid,
    decreases protocols.len() - from,
{
    if from < protocols.len() {
        if protocols[from].guid != guid {
            lemma_protocol_index_some(protocols, guid, from + 1);
        }
    }
}

proof fn lemma_with_guids_unique(guids: Seq<Guid>, protocols: Seq<InstalledProtocol>, n: int)
    requires
        0 <= n <= protocols.len(),
        guids.no_duplicates(),
    ensures
        with_guids(guids, protocols, n).no_duplicates(),
    decreases n,
{
    if n > 0 {
        lemma_with_guids_unique(guids, protocols, n - 1);
    }
}

proof fn lemma_handle_index(handles: Seq<HandleView>, id: u64, from: int)
    requires
        0 <= from,
    ensures
        handle_index(handles, id, from) matches Some(i) ==> from <= i < handles.len()
            && handles[i].id == id,
    decreases handles.len() - from,
{
    if from < handles.len() && handles[from].id != id {
        lemma_handle_index(handles, id, from + 1);
    }
}

proof fn lemma_handle_unique(handles: Seq<HandleView>, id: u64, k: int, from: int)
    requires
        0 <= from <= k < handles.len(),
        handles[k].id == id,
        forall|i: int| 0 <= i < handles.len() && i != k ==> (#[trigger] handles[i]).id != id,
    ensures
        handle_index(handles, id, from) == Some(k),
    decreases k - from,
{
    if from < k {
        lemma_handle_unique(handles, id, k, from + 1);
    }
}

proof fn lemma_protocol_last(protocols: Seq<InstalledProtocol>, p: InstalledProtocol, from: int)
    requires
        0 <= from <= protocols.len(),
        protocol_index(protocols, p.guid, from) is None,
    ensures
        protocol_index(protocols.push(p), p.guid, from) == Some(protocols.len() as int),
    decreases protocols.len() - from,
{
    if from < protocols.len() {
        lemma_protocol_last(protocols, p, from + 1);
    }
}

proof fn lemma_interface_last(protocols: Seq<InstalledProtocol>, p: InstalledProtocol, from: int)
    requires
        0 <= from <= protocols.len(),
        protocol_index(protocols, p.guid, from) is None,
    ensures
        interface_index(protocols.push(p), p.guid, p.interface, from) == Some(
            protocols.len() as int,
        ),
    decreases protocols.len() - from,
{
    if from < protocols.len() {
        lemma_interface_last(protocols, p, from + 1);
    }
}

proof fn lemma_supporting(handles: Seq<HandleView>, guid: Guid, k: int, from: int)
    requires
        0 <= from <= k < handles.len(),
        supports(handles[k], guid),
    ensures
        supporting(handles, guid, from) is Some,
    decreases k - from,
{
    if from < k {
        lemma_supporting(handles, guid, k, from + 1);
    }
}

proof fn lemma_protocol_index_first(protocols: Seq<InstalledProtocol>, guid: Guid, from: int)
    requires
        0 <= from,
    ensures
        match protocol_index(protocols, guid, from) {
            Some(k) => from <= k < protocols.len() && protocols[k].guid == guid && forall|j: int|
                from <= j < k ==> (#[trigger] protocols[j]).guid != guid,
            None => forall|j: int|
                from <= j < protocols.len() ==> (#[trigger] protocols[j]).guid != guid,
        },
    decreases protocols.len() - from,
{
    if from < protocols.len() && protocols[from].guid != guid {
        lemma_protocol_index_first(protocols, guid, from + 1);
    }
}

proof fn lemma_interface_index_first(
    protocols: Seq<InstalledProtocol>,
    guid: Guid,
    interface: u64,
    from: int,
)
    requires
        0 <= from,
    ensures
        match interface_index(protocols, guid, interface, from) {
            Some(k) => from <= k < protocols.len() && protocols[k].guid == guid
                && protocols[k].interface == interface,
            None => forall|j: int|
                from <= j < protocols.len() ==> (#[trigger] protocols[j]).guid != guid
                    || protocols[j].interface != interface,
        },
    decreases protocols.len() - from,
{
    if from < protocols.len() && !(protocols[from].guid == guid && protocols[from].interface
        == interface) {
        lemma_interface_index_first(protocols, guid, interface, from + 1);
    }
}

proof fn lemma_handle_index_first(handles: Seq<HandleView>, id: u64, from: int)
    requires
        0 <= from,
    ensures
        match handle_index(handles, id, from) {
            Some(i) => from <= i < handles.len() && handles[i].id == id && forall|j: int|
                from <= j < i ==> (#[trigger] handles[j]).id != id,
            None => forall|j: int|
                from <= j < handles.len() ==> (#[trigger] handles[j]).id != id,
        },
    decreases handles.len() - from,
{
    if from < handles.len() && handles[from].id != id {
        lemma_handle_index_first(handles, id, from + 1);
    }
}

/// The interface of a protocol on a handle is the one of the first entry for the protocol on that
/// handle; there is none if the handle has no such entry, or is not known.
pub proof fn law_interface_lookup(
    db: &MmProtocolDatabase,
    handle: u64,
    guid: Guid,
    i: int,
    k: int,
)
    requires
        db.wf(),
    ensures
        ({
            let handles = db.handle_list();
            let known = 0 <= i < handles.len() && handles[i].id == handle;
            &&& known && 0 <= k < handles[i].protocols.len() && handles[i].protocols[k].guid == guid
                && (forall|j: int|
                0 <= j < k ==> (#[trigger] handles[i].protocols[j]).guid != guid)
                ==> db.interface_on(handle, guid) == Some(handles[i].protocols[k].interface)
            &&& known && (forall|j: int|
                0 <= j < handles[i].protocols.len() ==> (
                #[trigger] handles[i].protocols[j]).guid != guid) ==> db.interface_on(
                handle,
                guid,
            ) is None
            &&& (forall|j: int| 0 <= j < handles.len() ==> (#[trigger] handles[j]).id != handle)
                ==> db.interface_on(handle, guid) is None
        }),
{
    let handles = db.handle_list();
    lemma_handle_index_first(handles, handle, 0);
    match handle_index(handles, handle, 0) {
        Some(l) => {
            if 0 <= i < handles.len() && handles[i].id == handle {
                if l < i {
                    assert(handles[l].id != handles[i].id);
                }
                assert(l == i);
                lemma_protocol_index_first(handles[i].protocols, guid, 0);
            }
            assert(handles[l].id == handle);
        },
        None => {},
    }
}

/// Where a protocol is installed: on a new handle if none is given; on the given handle if it is
/// known and does not have the protocol yet; and else not at all.
pub proof fn law_install_decision(db: &MmProtocolDatabase, handle: u64, guid: Guid)
    requires
        db.wf(),
    ensures
        handle == 0 ==> db.install_target(handle, guid) == Ok::<u64, Status>(db.next_handle())
            && forall|i: int|
            0 <= i < db.handle_list().len() ==> (#[trigger] db.handle_list()[i]).id
                != db.next_handle(),
        handle != 0 && (forall|i: int|
            0 <= i < db.handle_list().len() ==> (#[trigger] db.handle_list()[i]).id != handle)
            ==> db.install_target(handle, guid) == Err::<u64, Status>(EFI_INVALID_PARAMETER),
        handle != 0 && db.interface_on(handle, guid) is Some ==> db.install_target(handle, guid)
            == Err::<u64, Status>(EFI_INVALID_PARAMETER),
        handle != 0 && (exists|i: int|
            0 <= i < db.handle_list().len() && (#[trigger] db.handle_list()[i]).id == handle)
            && db.interface_on(handle, guid) is None ==> db.install_target(handle, guid) == Ok::<
            u64,
            Status,
        >(handle),
{
    let handles = db.handle_list();
    lemma_handle_index_first(handles, handle, 0);
    match handle_index(handles, handle, 0) {
        Some(i) => {
            assert(handles[i].id == handle);
            lemma_protocol_index_first(handles[i].protocols, guid, 0);
        },
        None => {},
    }
}

/// Installing a protocol on a handle gives that handle the interface for that protocol, and changes
/// no other lookup: not of another protocol on the handle, nor of any protocol on another handle.
pub proof fn law_install_changes_one_lookup(
    before: &MmProtocolDatabase,
    after: &MmProtocolDatabase,
    handle: u64,
    p: InstalledProtocol,
    id: u64,
    other: u64,
    guid: Guid,
)
    requires
        before.wf(),
        before.install_target(handle, p.guid) == Ok::<u64, Status>(id),
        after.handle_list() == before.installed(handle, p),
    ensures
        after.interface_on(other, guid) == (if other == id && guid == p.guid {
            Some(p.interface)
        } else {
            before.interface_on(other, guid)
        }),
{
    let a = before.handle_list();
    let b = after.handle_list();
    lemma_handle_index_first(a, other, 0);
    lemma_handle_index_first(b, other, 0);
    if handle == 0 {
        let added = b[a.len() as int];
        assert(added.protocols[0] == p);
        match handle_index(a, other, 0) {
            Some(i) => {
                assert(b[i] == a[i]);
                assert(a[i].id != id);
                let l = handle_index(b, other, 0)->0;
                if l < i {
                    assert(b[l] == a[l]);
                }
                assert(l == i);
            },
            None => {
                if other == id {
                    let l = handle_index(b, other, 0)->0;
                    assert(added.id == id);
                    if l < a.len() {
                        assert(b[l] == a[l]);
                    }
                    assert(l == a.len());
                    lemma_protocol_index_first(added.protocols, guid, 0);
                } else if handle_index(b, other, 0) is Some {
                    let l = handle_index(b, other, 0)->0;
                    if l < a.len() {
                        assert(b[l] == a[l]);
                    }
                    assert(false);
                }
            },
        }
    } else {
        lemma_handle_index_first(a, handle, 0);
        let i = handle_index(a, handle, 0)->0;
        assert(forall|j: int| 0 <= j < a.len() ==> (#[trigger] b[j]).id == a[j].id);
        match handle_index(a, other, 0) {
            Some(l) => {
                assert(b[l].id == other);
                let m = handle_index(b, other, 0)->0;
                assert(b[m].id == a[m].id);
                if m < l {
                    assert(a[m].id != other);
                }
                assert(m == l);
                if l == i {
                    lemma_protocol_index_first(a[i].protocols, guid, 0);
                    lemma_protocol_index_first(b[i].protocols, guid, 0);
                    let x = a[i].protocols;
                    let y = b[i].protocols;
                    assert(y == x.push(p));
                    match protocol_index(x, guid, 0) {
                        Some(k) => {
                            assert(y[k] == x[k]);
                            let q = protocol_index(y, guid, 0)->0;
                            if q < k {
                                assert(y[q] == x[q]);
                            }
                            assert(q == k);
                            if guid == p.guid {
                                assert(supports(a[i], guid));
                            }
                        },
                        None => {
                            if guid == p.guid {
                                let q = protocol_index(y, guid, 0)->0;
                                assert(y[x.len() as int] == p);
                                if q < x.len() {
                                    assert(y[q] == x[q]);
                                }
                            } else if protocol_index(y, guid, 0) is Some {
                                let q = protocol_index(y, guid, 0)->0;
                                if q < x.len() {
                                    assert(y[q] == x[q]);
                                }
                            }
                        },
                    }
                } else {
                    assert(b[l] == a[l]);
                }
            },
            None => {
                if handle_index(b, other, 0) is Some {
                    let m = handle_index(b, other, 0)->0;
                    assert(a[m].id == b[m].id);
                    assert(false);
                }
            },
        }
    }
}

/// When a protocol is uninstalled: if the handle is known and has that protocol with that
/// interface. An unknown handle and an interface that is not there are told apart.
pub proof fn law_uninstall_decision(
    db: &MmProtocolDatabase,
    handle: u64,
    guid: Guid,
    interface: u64,
    i: int,
)
    requires
        db.wf(),
    ensures
        ({
            let handles = db.handle_list();
            let known = 0 <= i < handles.len() && handles[i].id == handle;
            let r = db.uninstalled(handle, guid, interface);
            &&& known ==> (r is Ok <==> exists|k: int|
                0 <= k < handles[i].protocols.len() && (#[trigger] handles[i].protocols[k]).guid
                    == guid && handles[i].protocols[k].interface == interface)
            &&& known ==> (r matches Err(status) ==> status == EFI_NOT_FOUND)
            &&& (forall|j: int| 0 <= j < handles.len() ==> (#[trigger] handles[j]).id != handle)
                ==> r == Err::<Seq<HandleView>, Status>(EFI_INVALID_PARAMETER)
        }),
{
    let handles = db.handle_list();
    lemma_handle_index_first(handles, handle, 0);
    match handle_index(handles, handle, 0) {
        Some(l) => {
            assert(handles[l].id == handle);
            if 0 <= i < handles.len() && handles[i].id == handle {
                if l < i {
                    assert(handles[l].id != handles[i].id);
                }
                assert(l == i);
                let protocols = handles[i].protocols;
                lemma_interface_index_first(protocols, guid, interface, 0);
                if interface_index(protocols, guid, interface, 0) is Some {
                    let k = interface_index(protocols, guid, interface, 0)->0;
                    assert(protocols[k].guid == guid);
                }
            }
        },
        None => {},
    }
}

/// No protocol is on the handle twice.
pub open spec fn protocols_apart(protocols: Seq<InstalledProtocol>) -> bool {
    forall|i: int, j: int|
        0 <= i < j < protocols.len() ==> (#[trigger] protocols[i]).guid != (
        #[trigger] protocols[j]).guid
}

/// No handle has a protocol twice, whatever is installed and uninstalled.
pub proof fn law_protocols_stay_apart(
    db: &MmProtocolDatabase,
    handle: u64,
    p: InstalledProtocol,
    i: int,
)
    requires
        db.wf(),
        forall|j: int|
            0 <= j < db.handle_list().len() ==> protocols_apart(
                (#[trigger] db.handle_list()[j]).protocols,
            ),
    ensures
        db.install_target(handle, p.guid) is Ok && 0 <= i < db.installed(handle, p).len()
            ==> protocols_apart(db.installed(handle, p)[i].protocols),
        db.uninstalled(handle, p.guid, p.interface) matches Ok(handles) ==> (0 <= i < handles.len()
            ==> protocols_apart(handles[i].protocols)),
{
    let a = db.handle_list();
    lemma_handle_index_first(a, handle, 0);
    if handle_index(a, handle, 0) is Some {
        let l = handle_index(a, handle, 0)->0;
        assert(protocols_apart(a[l].protocols));
        lemma_protocol_index_first(a[l].protocols, p.guid, 0);
        lemma_interface_index_first(a[l].protocols, p.guid, p.interface, 0);
        if db.install_target(handle, p.guid) is Ok && handle != 0 {
            let x = a[l].protocols;
            assert forall|m: int, n: int| 0 <= m < n < x.push(p).len() implies (
            #[trigger] x.push(p)[m]).guid != (#[trigger] x.push(p)[n]).guid by {
                assert(x.push(p)[m] == x[m]);
                if n < x.len() {
                    assert(x.push(p)[n] == x[n]);
                }
            }
        }
        if db.uninstalled(handle, p.guid, p.interface) is Ok {
            let handles = db.uninstalled(handle, p.guid, p.interface)->Ok_0;
            if a[l].protocols.len() == 1 {
                if 0 <= i < handles.len() {
                    assert(handles[i] == if i < l {
                        a[i]
                    } else {
                        a[i + 1]
                    });
                }
            } else if 0 <= i < handles.len() && i != l {
                assert(handles[i] == a[i]);
            } else if i == l {
                let x = a[l].protocols;
                let k = interface_index(x, p.guid, p.interface, 0)->0;
                let y = x.remove(k);
                assert forall|m: int, n: int| 0 <= m < n < y.len() implies (
                #[trigger] y[m]).guid != (#[trigger] y[n]).guid by {
                    let m2 = if m < k {
                        m
                    } else {
                        m + 1
                    };
                    let n2 = if n < k {
                        n
                    } else {
                        n + 1
                    };
                    assert(x[m2].guid != x[n2].guid);
                }
            }
        }
    }
    if 0 <= i < a.len() {
        assert(protocols_apart(a[i].protocols));
    }
}

/// Uninstalling a protocol takes its lookup on the handle away, and changes no other.
pub proof fn law_uninstall_changes_one_lookup(
    before: &MmProtocolDatabase,
    after: &MmProtocolDatabase,
    handle: u64,
    p: InstalledProtocol,
    other: u64,
    guid: Guid,
)
    requires
        before.wf(),
        forall|j: int|
            0 <= j < before.handle_list().len() ==> protocols_apart(
                (#[trigger] before.handle_list()[j]).protocols,
            ),
        before.uninstalled(handle, p.guid, p.interface) == Ok::<Seq<HandleView>, Status>(
            after.handle_list(),
        ),
    ensures
        before.interface_on(handle, p.guid) == Some(p.interface),
        after.interface_on(other, guid) == (if other == handle && guid == p.guid {
            None
        } else {
            before.interface_on(other, guid)
        }),
{
    let a = before.handle_list();
    let b = after.handle_list();
    lemma_handle_index_first(a, handle, 0);
    let i = handle_index(a, handle, 0)->0;
    let x = a[i].protocols;
    assert(protocols_apart(x));
    lemma_interface_index_first(x, p.guid, p.interface, 0);
    let k = interface_index(x, p.guid, p.interface, 0)->0;
    lemma_protocol_index_first(x, p.guid, 0);
    let q = protocol_index(x, p.guid, 0)->0;
    if q < k {
        assert(x[q].guid != x[k].guid);
    }
    assert(q == k);
    lemma_handle_index_first(a, other, 0);
    lemma_handle_index_first(b, other, 0);
    if x.len() == 1 {
        assert(b == a.remove(i));
        if other == handle {
            if handle_index(b, other, 0) is Some {
                let l = handle_index(b, other, 0)->0;
                if l < i {
                    assert(b[l] == a[l]);
                    assert(a[l].id != a[i].id);
                } else {
                    assert(b[l] == a[l + 1]);
                    assert(a[i].id != a[l + 1].id);
                }
                assert(false);
            }
            if guid != p.guid {
                lemma_protocol_index_first(x, guid, 0);
                if protocol_index(x, guid, 0) is Some {
                    assert(protocol_index(x, guid, 0)->0 == k);
                }
            }
        } else {
            match handle_index(a, other, 0) {
                Some(l) => {
                    let m = if l < i {
                        l
                    } else {
                        l - 1
                    };
                    assert(b[m] == a[l]);
                    let n = handle_index(b, other, 0)->0;
                    if n < m {
                        assert(b[n] == if n < i {
                            a[n]
                        } else {
                            a[n + 1]
                        });
                        assert(false);
                    }
                    assert(n == m);
                },
                None => {
                    if handle_index(b, other, 0) is Some {
                        let n = handle_index(b, other, 0)->0;
                        assert(b[n] == if n < i {
                            a[n]
                        } else {
                            a[n + 1]
                        });
                        assert(false);
                    }
                },
            }
        }
    } else {
        let y = x.remove(k);
        assert(b[i].protocols == y);
        assert(forall|j: int| 0 <= j < a.len() ==> (#[trigger] b[j]).id == a[j].id);
        match handle_index(a, other, 0) {
            Some(l) => {
                assert(b[l].id == other);
                let m = handle_index(b, other, 0)->0;
                assert(b[m].id == a[m].id);
                if m < l {
                    assert(a[m].id != other);
                }
                assert(m == l);
                if l == i {
                    lemma_protocol_index_first(x, guid, 0);
                    lemma_protocol_index_first(y, guid, 0);
                    if guid == p.guid {
                        if protocol_index(y, guid, 0) is Some {
                            let n = protocol_index(y, guid, 0)->0;
                            let n2 = if n < k {
                                n
                            } else {
                                n + 1
                            };
                            assert(y[n] == x[n2]);
                            if n2 < k {
                                assert(x[n2].guid != x[k].guid);
                            } else {
                                assert(x[k].guid != x[n2].guid);
                            }
                            assert(false);
                        }
                    } else {
                        match protocol_index(x, guid, 0) {
                            Some(s) => {
                                let t = if s < k {
                                    s
                                } else {
                                    s - 1
                                };
                                assert(y[t] == x[s]);
                                let n = protocol_index(y, guid, 0)->0;
                                if n < t {
                                    assert(y[n] == if n < k {
                                        x[n]
                                    } else {
                                        x[n + 1]
                                    });
                                    assert(false);
                                }
                                assert(n == t);
                            },
                            None => {
                                if protocol_index(y, guid, 0) is Some {
                                    let n = protocol_index(y, guid, 0)->0;
                                    assert(y[n] == if n < k {
                                        x[n]
                                    } else {
                                        x[n + 1]
                                    });
                                    assert(false);
                                }
                            },
                        }
                    }
                } else {
                    assert(b[l] == a[l]);
                }
            },
            None => {
                if handle_index(b, other, 0) is Some {
                    let m = handle_index(b, other, 0)->0;
                    assert(a[m].id == b[m].id);
                    assert(false);
                }
            },
        }
    }
}

/// A handle has a protocol if and only if some entry of it is for the protocol.
pub proof fn law_supports(h: HandleView, guid: Guid)
    ensures
        supports(h, guid) <==> exists|k: int|
            0 <= k < h.protocols.len() && (#[trigger] h.protocols[k]).guid == guid,
{
    lemma_protocol_index_some(h.protocols, guid, 0);
}

/// The interface that is located for a protocol is that of the first handle that has it; and one
/// is located if any handle has it.
pub proof fn law_located_protocol(db: &MmProtocolDatabase, guid: Guid, i: int)
    requires
        db.wf(),
        0 <= i < db.handle_list().len(),
    ensures
        (forall|j: int| 0 <= j < i ==> !supports(#[trigger] db.handle_list()[j], guid)) && supports(
            db.handle_list()[i],
            guid,
        ) ==> db.first_interface(guid) is Some && db.first_interface(guid) == db.interface_on(
            db.handle_list()[i].id,
            guid,
        ),
        (forall|j: int|
            0 <= j < db.handle_list().len() ==> !supports(#[trigger] db.handle_list()[j], guid))
            ==> db.first_interface(guid) is None,
{
    let handles = db.handle_list();
    lemma_supporting_first(handles, guid, 0);
    lemma_handle_index_first(handles, handles[i].id, 0);
    let l = handle_index(handles, handles[i].id, 0)->0;
    if l < i {
        assert(handles[l].id != handles[i].id);
    }
    assert(l == i);
    match supporting(handles, guid, 0) {
        Some(k) => {
            assert(supports(handles[k], guid));
        },
        None => {},
    }
}

proof fn lemma_supporting_first(handles: Seq<HandleView>, guid: Guid, from: int)
    requires
        0 <= from,
    ensures
        match supporting(handles, guid, from) {
            Some(i) => from <= i < handles.len() && supports(handles[i], guid) && forall|j: int|
                from <= j < i ==> !supports(#[trigger] handles[j], guid),
            None => forall|j: int|
                from <= j < handles.len() ==> !supports(#[trigger] handles[j], guid),
        },
    decreases handles.len() - from,
{
    if from < handles.len() && !supports(handles[from], guid) {
        lemma_supporting_first(handles, guid, from + 1);
    }
}

/// The handles that are located are all of them, or all that have the protocol, in their order; and
/// the functions that an installation notifies are all that are registered for the protocol, in
/// their order, with the interface and the handle of the installation.
pub proof fn law_located_and_notified(
    handles: Seq<HandleView>,
    notifications: Seq<ProtocolNotifyEntry>,
    p: InstalledProtocol,
    handle: u64,
)
    ensures
        handle_ids(handles, handles.len() as int) == handles.map_values(|h: HandleView| h.id),
        supporting_ids(handles, p.guid, handles.len() as int) == handles.filter(
            |h: HandleView| supports(h, p.guid),
        ).map_values(|h: HandleView| h.id),
        fired(notifications, p, handle, notifications.len() as int) == notifications.filter(
            |e: ProtocolNotifyEntry| e.guid == p.guid,
        ).map_values(
            |e: ProtocolNotifyEntry|
                PendingNotify {
                    function: e.function,
                    guid: p.guid,
                    interface: p.interface,
                    handle,
                },
        ),
{
    lemma_handle_ids(handles, handles.len() as int);
    lemma_supporting_ids(handles, p.guid, handles.len() as int);
    lemma_fired(notifications, p, handle, notifications.len() as int);
    assert(handles.take(handles.len() as int) =~= handles);
    assert(notifications.take(notifications.len() as int) =~= notifications);
}

proof fn lemma_handle_ids(handles: Seq<HandleView>, n: int)
    requires
        0 <= n <= handles.len(),
    ensures
        handle_ids(handles, n) == handles.take(n).map_values(|h: HandleView| h.id),
    decreases n,
{
    if n > 0 {
        lemma_handle_ids(handles, n - 1);
    }
    assert(handle_ids(handles, n) =~= handles.take(n).map_values(|h: HandleView| h.id));
}

proof fn lemma_supporting_ids(handles: Seq<HandleView>, guid: Guid, n: int)
    requires
        0 <= n <= handles.len(),
    ensures
        supporting_ids(handles, guid, n) == handles.take(n).filter(
            |h: HandleView| supports(h, guid),
        ).map_values(|h: HandleView| h.id),
    decreases n,
{
    reveal(Seq::filter);
    let f = |h: HandleView| supports(h, guid);
    let g = |h: HandleView| h.id;
    let some = handles.take(n);
    if n > 0 {
        lemma_supporting_ids(handles, guid, n - 1);
        assert(some.drop_last() =~= handles.take(n - 1));
        let before = handles.take(n - 1).filter(f);
        assert(before.push(handles[n - 1]).map_values(g) =~= before.map_values(g).push(
            handles[n - 1].id,
        ));
    }
    assert(supporting_ids(handles, guid, n) =~= some.filter(f).map_values(g));
}

proof fn lemma_fired(
    notifications: Seq<ProtocolNotifyEntry>,
    p: InstalledProtocol,
    handle: u64,
    n: int,
)
    requires
        0 <= n <= notifications.len(),
    ensures
        fired(notifications, p, handle, n) == notifications.take(n).filter(
            |e: ProtocolNotifyEntry| e.guid == p.guid,
        ).map_values(
            |e: ProtocolNotifyEntry|
                PendingNotify {
                    function: e.function,
                    guid: p.guid,
                    interface: p.interface,
                    handle,
                },
        ),
    decreases n,
{
    reveal(Seq::filter);
    let f = |e: ProtocolNotifyEntry| e.guid == p.guid;
    let g = |e: ProtocolNotifyEntry|
        PendingNotify { function: e.function, guid: p.guid, interface: p.interface, handle };
    let some = notifications.take(n);
    if n > 0 {
        lemma_fired(notifications, p, handle, n - 1);
        assert(some.drop_last() =~= notifications.take(n - 1));
        let before = notifications.take(n - 1).filter(f);
        assert(before.push(notifications[n - 1]).map_values(g) =~= before.map_values(g).push(
            g(notifications[n - 1]),
        ));
    }
    assert(fired(notifications, p, handle, n) =~= some.filter(f).map_values(g));
}

/// A registration is found by its protocol and function, or by its protocol and token: the first
/// one that has both, and none only if none has.
pub proof fn law_registration_lookup(
    notifications: Seq<ProtocolNotifyEntry>,
    guid: Guid,
    function: u64,
    token: u64,
    from: int,
)
    requires
        0 <= from,
    ensures
        match notify_index(notifications, guid, function, from) {
            Some(i) => from <= i < notifications.len() && notifications[i].guid == guid
                && notifications[i].function == function && forall|j: int|
                from <= j < i ==> (#[trigger] notifications[j]).guid != guid
                    || notifications[j].function != function,
            None => forall|j: int|
                from <= j < notifications.len() ==> (#[trigger] notifications[j]).guid != guid
                    || notifications[j].function != function,
        },
        match token_index(notifications, guid, token, from) {
            Some(i) => from <= i < notifications.len() && notifications[i].guid == guid
                && notifications[i].token == token && forall|j: int|
                from <= j < i ==> (#[trigger] notifications[j]).guid != guid
                    || notifications[j].token != token,
            None => forall|j: int|
                from <= j < notifications.len() ==> (#[trigger] notifications[j]).guid != guid
                    || notifications[j].token != token,
        },
    decreases notifications.len() - from,
{
    if from < notifications.len() {
        law_registration_lookup(notifications, guid, function, token, from + 1);
    }
}

/// What a search for handles gives: all handles, or those of a protocol, which has to be given;
/// there is no other search.
pub proof fn law_search_decision(
    db: &MmProtocolDatabase,
    search_type: u32,
    protocol: Option<Guid>,
)
    ensures
        search_type == 0 ==> search_result(db, search_type, protocol) == Ok::<Seq<u64>, Status>(
            handle_ids(db.handle_list(), db.handle_list().len() as int),
        ),
        search_type == 2 && protocol is None ==> search_result(db, search_type, protocol) == Err::<
            Seq<u64>,
            Status,
        >(EFI_INVALID_PARAMETER),
        search_type == 2 && protocol is Some ==> search_result(db, search_type, protocol) == Ok::<
            Seq<u64>,
            Status,
        >(supporting_ids(db.handle_list(), protocol->0, db.handle_list().len() as int)),
        search_type != 0 && search_type != 2 ==> search_result(db, search_type, protocol) == Err::<
            Seq<u64>,
            Status,
        >(EFI_UNSUPPORTED),
{
}

} // verus!
