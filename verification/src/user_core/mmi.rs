//! MMI (Management Mode Interrupt) handler database.
//!
//! - Root handlers are called on every MMI, whatever is in the communication buffer.
//! - Handlers for a GUID are called only when an MMI communication targets that GUID.
//!
//! A dispatch goes over the handlers one by one: the database says which handler is next, the
//! caller calls it, and its status says whether and how the dispatch goes on.

use crate::efi::{Guid, Status, EFI_NOT_FOUND, EFI_SUCCESS};
use vstd::prelude::*;

verus! {

/// An interrupt source was quiesced.
pub const WARN_INTERRUPT_SOURCE_QUIESCED: Status = 3;

/// An interrupt is still pending.
pub const INTERRUPT_PENDING: Status = 0x8000_0004;

/// A registered MMI handler.
#[derive(Debug, Clone, Copy, PartialEq, Eq, Structural)]
pub struct MmiHandler {
    /// Address of the handler function, which is also its handle.
    pub handler: u64,
    /// Whether this handler is marked for removal.
    pub to_remove: bool,
}

/// The handlers registered for a GUID.
#[derive(Debug)]
pub struct MmiEntry {
    /// The GUID.
    pub handler_type: Guid,
    /// The handlers.
    pub handlers: Vec<MmiHandler>,
}

/// The handlers registered for a GUID, as mathematical values.
pub struct EntryView {
    /// The GUID.
    pub handler_type: Guid,
    /// The handlers.
    pub handlers: Seq<MmiHandler>,
}

/// The view of an entry.
pub open spec fn entry_view(e: MmiEntry) -> EntryView {
    EntryView { handler_type: e.handler_type, handlers: e.handlers@ }
}

/// A handler that has just been registered.
pub open spec fn fresh(handler: u64) -> MmiHandler {
    MmiHandler { handler, to_remove: false }
}

/// The index of the first handler with an address, from `from` on.
pub open spec fn handler_at(handlers: Seq<MmiHandler>, handler: u64, from: int) -> Option<int>
    decreases handlers.len() - from,
{
    if from >= handlers.len() {
        None
    } else if handlers[from].handler == handler {
        Some(from)
    } else {
        handler_at(handlers, handler, from + 1)
    }
}

/// The index of the first entry for a GUID, from `from` on.
pub open spec fn entry_for(entries: Seq<EntryView>, guid: Guid, from: int) -> Option<int>
    decreases entries.len() - from,
{
    if from >= entries.len() {
        None
    } else if entries[from].handler_type == guid {
        Some(from)
    } else {
        entry_for(entries, guid, from + 1)
    }
}

/// The index of the first entry that has a handler with an address, from `from` on.
pub open spec fn entry_with(entries: Seq<EntryView>, handler: u64, from: int) -> Option<int>
    decreases entries.len() - from,
{
    if from >= entries.len() {
        None
    } else if handler_at(entries[from].handlers, handler, 0) is Some {
        Some(from)
    } else {
        entry_with(entries, handler, from + 1)
    }
}

/// The handlers with the first one that has an address marked for removal.
pub open spec fn marked(handlers: Seq<MmiHandler>, handler: u64) -> Seq<MmiHandler> {
    match handler_at(handlers, handler, 0) {
        Some(i) => handlers.update(i, MmiHandler { handler, to_remove: true }),
        None => handlers,
    }
}

/// The root handlers when a handler has been registered, behind the others if it is for no
/// GUID.
pub open spec fn roots_with(
    roots: Seq<MmiHandler>,
    handler: u64,
    handler_type: Option<Guid>,
) -> Seq<MmiHandler> {
    if handler_type is None {
        roots.push(fresh(handler))
    } else {
        roots
    }
}

/// The entries when a handler has been registered: behind the others for its GUID, or in a new
/// entry, if it is for a GUID.
pub open spec fn entries_with(
    entries: Seq<EntryView>,
    handler: u64,
    handler_type: Option<Guid>,
) -> Seq<EntryView> {
    match handler_type {
        None => entries,
        Some(guid) => match entry_for(entries, guid, 0) {
            Some(i) => entries.update(
                i,
                EntryView {
                    handler_type: entries[i].handler_type,
                    handlers: entries[i].handlers.push(fresh(handler)),
                },
            ),
            None => entries.push(
                EntryView { handler_type: guid, handlers: seq![fresh(handler)] },
            ),
        },
    }
}

/// The entries when a handler has been unregistered: it is marked in the first entry that has
/// it, unless it is a root handler.
pub open spec fn entries_without(
    roots: Seq<MmiHandler>,
    entries: Seq<EntryView>,
    handler: u64,
) -> Seq<EntryView> {
    if handler_at(roots, handler, 0) is Some {
        entries
    } else {
        match entry_with(entries, handler, 0) {
            Some(i) => entries.update(
                i,
                EntryView {
                    handler_type: entries[i].handler_type,
                    handlers: marked(entries[i].handlers, handler),
                },
            ),
            None => entries,
        }
    }
}

/// The handlers among the first `n` that are not marked for removal.
pub open spec fn kept(handlers: Seq<MmiHandler>, n: int) -> Seq<MmiHandler>
    decreases n,
{
    if n <= 0 {
        Seq::empty()
    } else if handlers[n - 1].to_remove {
        kept(handlers, n - 1)
    } else {
        kept(handlers, n - 1).push(handlers[n - 1])
    }
}

/// The entries among the first `n` without the handlers that are marked for removal, and
/// without those that have no others.
pub open spec fn kept_entries(entries: Seq<EntryView>, n: int) -> Seq<EntryView>
    decreases n,
{
    if n <= 0 {
        Seq::empty()
    } else {
        let e = entries[n - 1];
        let handlers = kept(e.handlers, e.handlers.len() as int);
        if handlers.len() == 0 {
            kept_entries(entries, n - 1)
        } else {
            kept_entries(entries, n - 1).push(EntryView { handler_type: e.handler_type, handlers })
        }
    }
}

/// The addresses of the handlers among the first `n` that are not marked for removal.
pub open spec fn live(handlers: Seq<MmiHandler>, n: int) -> Seq<u64>
    decreases n,
{
    if n <= 0 {
        Seq::empty()
    } else if handlers[n - 1].to_remove {
        live(handlers, n - 1)
    } else {
        live(handlers, n - 1).push(handlers[n - 1].handler)
    }
}

/// Collects the handlers that are not marked for removal.
fn live_handlers(handlers: &Vec<MmiHandler>) -> (r: Vec<u64>)
    ensures
        r@ == live(handlers@, handlers@.len() as int),
{
    let mut list: Vec<u64> = Vec::new();
    let mut i: usize = 0;
    while i < handlers.len()
        invariant
            i <= handlers@.len(),
            list@ == live(handlers@, i as int),
        decreases handlers@.len() - i,
    {
        if !handlers[i].to_remove {
            list.push(handlers[i].handler);
        }
        i = i + 1;
    }
    list
}

/// Removes the handlers that are marked for removal.
fn keep_handlers(handlers: &Vec<MmiHandler>) -> (r: Vec<MmiHandler>)
    ensures
        r@ == kept(handlers@, handlers@.len() as int),
{
    let mut list: Vec<MmiHandler> = Vec::new();
    let mut i: usize = 0;
    while i < handlers.len()
        invariant
            i <= handlers@.len(),
            list@ == kept(handlers@, i as int),
        decreases handlers@.len() - i,
    {
        if !handlers[i].to_remove {
            list.push(handlers[i]);
        }
        i = i + 1;
    }
    list
}

/// Finds the first handler with an address.
fn find_handler(handlers: &Vec<MmiHandler>, handler: u64) -> (r: Option<usize>)
    ensures
        match r {
            Some(i) => i < handlers@.len() && handler_at(handlers@, handler, 0) == Some(i as int),
            None => handler_at(handlers@, handler, 0) is None,
        },
{
    let mut i: usize = 0;
    while i < handlers.len()
        invariant
            i <= handlers@.len(),
            handler_at(handlers@, handler, 0) == handler_at(handlers@, handler, i as int),
        decreases handlers@.len() - i,
    {
        if handlers[i].handler == handler {
            return Some(i);
        }
        i = i + 1;
    }
    None
}

// ============================================================================
// Dispatch
// ============================================================================

/// The status of a dispatch after a handler has returned `returned`: a success counts, whether
/// the source was quiesced or not; a pending interrupt counts where nothing has succeeded; and
/// other statuses are ignored.
pub open spec fn status_after(status: Status, returned: Status, short_circuit: bool) -> Status {
    if returned == EFI_SUCCESS || returned == WARN_INTERRUPT_SOURCE_QUIESCED {
        EFI_SUCCESS
    } else if returned == INTERRUPT_PENDING && (short_circuit || status != EFI_SUCCESS) {
        INTERRUPT_PENDING
    } else {
        status
    }
}

/// The dispatch ends with a handler that has returned `returned`.
pub open spec fn ends_dispatch(returned: Status, short_circuit: bool) -> bool {
    short_circuit && (returned == EFI_SUCCESS || returned == INTERRUPT_PENDING)
}

/// The status of a dispatch whose handlers, from `from` on, return `returned`.
pub open spec fn dispatch_status(
    status: Status,
    returned: Seq<Status>,
    short_circuit: bool,
    from: int,
) -> Status
    decreases returned.len() - from,
{
    if from >= returned.len() {
        status
    } else if ends_dispatch(returned[from], short_circuit) {
        status_after(status, returned[from], short_circuit)
    } else {
        dispatch_status(
            status_after(status, returned[from], short_circuit),
            returned,
            short_circuit,
            from + 1,
        )
    }
}

/// A dispatch that is under way.
#[derive(Debug)]
pub struct MmiDispatch {
    /// The handlers to call.
    handlers: Vec<u64>,
    /// The index of the next one.
    next: usize,
    /// The status so far.
    status: Status,
    /// Whether a success or a pending interrupt ends the dispatch.
    short_circuit: bool,
}

impl MmiDispatch {
    /// The handlers that are still to be called.
    pub closed spec fn remaining(&self) -> Seq<u64> {
        self.handlers@.skip(self.next as int)
    }

    /// The status so far.
    pub closed spec fn so_far(&self) -> Status {
        self.status
    }

    /// Whether a success or a pending interrupt ends the dispatch.
    pub closed spec fn short(&self) -> bool {
        self.short_circuit
    }

    /// The next handler is one of the handlers, or the end has been reached.
    pub closed spec fn wf(&self) -> bool {
        self.next <= self.handlers@.len()
    }

    /// The dispatch of `handlers` begins.
    pub open spec fn begins(&self, handlers: Seq<u64>, short_circuit: bool) -> bool {
        &&& self.wf()
        &&& self.remaining() == handlers
        &&& self.so_far() == EFI_NOT_FOUND
        &&& self.short() == short_circuit
    }

    /// Gets the handler that is to be called next, or `None` at the end.
    pub fn next_handler(&self) -> (r: Option<u64>)
        requires
            self.wf(),
        ensures
            r == if self.remaining().len() == 0 {
                None
            } else {
                Some(self.remaining()[0])
            },
    {
        if self.next < self.handlers.len() {
            Some(self.handlers[self.next])
        } else {
            None
        }
    }

    /// Goes on with the dispatch when the next handler has returned a status.
    pub fn dispatch_handlers(&mut self, returned: Status)
        requires
            old(self).wf(),
            old(self).remaining().len() > 0,
        ensures
            final(self).wf(),
            final(self).short() == old(self).short(),
            final(self).so_far() == status_after(old(self).so_far(), returned, old(self).short()),
            final(self).remaining() == if ends_dispatch(returned, old(self).short()) {
                Seq::empty()
            } else {
                old(self).remaining().skip(1)
            },
    {
        let ghost before = self.handlers@.skip(self.next as int);
        let count: usize = self.handlers.len();
        assert(before.len() == count - self.next);
        self.next = self.next + 1;
        if returned == EFI_SUCCESS {
            self.status = EFI_SUCCESS;
            if self.short_circuit {
                self.next = count;
            }
        } else if returned == INTERRUPT_PENDING {
            if self.short_circuit {
                self.status = INTERRUPT_PENDING;
                self.next = count;
            } else if self.status != EFI_SUCCESS {
                self.status = returned;
            }
        } else if returned == WARN_INTERRUPT_SOURCE_QUIESCED {
            self.status = EFI_SUCCESS;
        }
        assert(self.handlers@.skip(self.next as int) =~= if ends_dispatch(
            returned,
            self.short_circuit,
        ) {
            Seq::empty()
        } else {
            before.skip(1)
        });
    }
}

// ============================================================================
// Database
// ============================================================================

/// The MMI handler database: root handlers, and handlers for GUIDs.
pub struct MmiDatabase {
    /// Root MMI handlers (called for every MMI).
    root_handlers: Vec<MmiHandler>,
    /// Entries for GUIDs.
    entries: Vec<MmiEntry>,
    /// How many dispatches are under way, one within the other.
    manage_calling_depth: usize,
}

impl MmiDatabase {
    /// The root handlers.
    pub closed spec fn roots(&self) -> Seq<MmiHandler> {
        self.root_handlers@
    }

    /// The entries.
    pub closed spec fn entry_list(&self) -> Seq<EntryView> {
        self.entries@.map_values(|e: MmiEntry| entry_view(e))
    }

    /// How many dispatches are under way.
    pub closed spec fn depth(&self) -> nat {
        self.manage_calling_depth as nat
    }

    /// Creates a new empty `MmiDatabase`.
    pub fn new() -> (r: Self)
        ensures
            r.roots() == Seq::<MmiHandler>::empty(),
            r.entry_list() == Seq::<EntryView>::empty(),
            r.depth() == 0,
    {
        let r = MmiDatabase {
            root_handlers: Vec::new(),
            entries: Vec::new(),
            manage_calling_depth: 0,
        };
        assert(r.entry_list() =~= Seq::<EntryView>::empty());
        r
    }

    /// Finds the first entry for a GUID.
    fn find_entry(&self, guid: Guid) -> (r: Option<usize>)
        ensures
            match r {
                Some(i) => i < self.entries@.len() && entry_for(self.entry_list(), guid, 0) == Some(
                    i as int,
                ),
                None => entry_for(self.entry_list(), guid, 0) is None,
            },
    {
        let mut i: usize = 0;
        while i < self.entries.len()
            invariant
                i <= self.entries@.len(),
                entry_for(self.entry_list(), guid, 0) == entry_for(
                    self.entry_list(),
                    guid,
                    i as int,
                ),
            decreases self.entries@.len() - i,
        {
            if self.entries[i].handler_type == guid {
                return Some(i);
            }
            i = i + 1;
        }
        None
    }

    /// Registers an MMI handler, for a GUID or as a root handler. Returns a handle by which the
    /// handler can be unregistered: its address.
    pub fn mmi_handler_register(&mut self, handler: u64, handler_type: Option<Guid>) -> (r: Result<
        u64,
        Status,
    >)
        ensures
            r == Ok::<u64, Status>(handler),
            final(self).depth() == old(self).depth(),
            final(self).roots() == roots_with(old(self).roots(), handler, handler_type),
            final(self).entry_list() == entries_with(
                old(self).entry_list(),
                handler,
                handler_type,
            ),
    {
        let new_handler = MmiHandler { handler, to_remove: false };
        match handler_type {
            None => {
                self.root_handlers.push(new_handler);
            },
            Some(guid) => {
                match self.find_entry(guid) {
                    Some(i) => {
                        let mut entry = self.entries.remove(i);
                        entry.handlers.push(new_handler);
                        self.entries.insert(i, entry);
                        assert(self.entry_list() =~= old(self).entry_list().update(
                            i as int,
                            EntryView {
                                handler_type: old(self).entry_list()[i as int].handler_type,
                                handlers: old(self).entry_list()[i as int].handlers.push(
                                    fresh(handler),
                                ),
                            },
                        ));
                    },
                    None => {
                        let mut handlers: Vec<MmiHandler> = Vec::new();
                        handlers.push(new_handler);
                        assert(handlers@ =~= seq![fresh(handler)]);
                        self.entries.push(MmiEntry { handler_type: guid, handlers });
                        assert(self.entry_list() =~= old(self).entry_list().push(
                            EntryView { handler_type: guid, handlers: seq![fresh(handler)] },
                        ));
                    },
                }
            },
        }
        Ok(handler)
    }

    /// Unregisters an MMI handler: marks the first one with this handle for removal, which
    /// happens when no dispatch is under way. A dispatch that begins later leaves it out.
    pub fn mmi_handler_unregister(&mut self, dispatch_handle: u64) -> (r: Result<(), Status>)
        ensures
            final(self).depth() == old(self).depth(),
            final(self).roots() == marked(old(self).roots(), dispatch_handle),
            final(self).entry_list() == entries_without(
                old(self).roots(),
                old(self).entry_list(),
                dispatch_handle,
            ),
            r == if handler_at(old(self).roots(), dispatch_handle, 0) is Some || entry_with(
                old(self).entry_list(),
                dispatch_handle,
                0,
            ) is Some {
                Ok::<(), Status>(())
            } else {
                Err(EFI_NOT_FOUND)
            },
    {
        let removed = MmiHandler { handler: dispatch_handle, to_remove: true };
        match find_handler(&self.root_handlers, dispatch_handle) {
            Some(at) => {
                self.root_handlers.set(at, removed);
                return Ok(());
            },
            None => {},
        }
        let mut i: usize = 0;
        while i < self.entries.len()
            invariant
                i <= self.entries@.len(),
                *self == *old(self),
                removed == (MmiHandler { handler: dispatch_handle, to_remove: true }),
                handler_at(self.roots(), dispatch_handle, 0) is None,
                entry_with(self.entry_list(), dispatch_handle, 0) == entry_with(
                    self.entry_list(),
                    dispatch_handle,
                    i as int,
                ),
            decreases self.entries@.len() - i,
        {
            match find_handler(&self.entries[i].handlers, dispatch_handle) {
                Some(at) => {
                    let mut entry = self.entries.remove(i);
                    entry.handlers.set(at, removed);
                    self.entries.insert(i, entry);
                    assert(self.entry_list() =~= old(self).entry_list().update(
                        i as int,
                        EntryView {
                            handler_type: old(self).entry_list()[i as int].handler_type,
                            handlers: marked(
                                old(self).entry_list()[i as int].handlers,
                                dispatch_handle,
                            ),
                        },
                    ));
                    return Ok(());
                },
                None => {},
            }
            i = i + 1;
        }
        Err(EFI_NOT_FOUND)
    }

    /// The handlers that an MMI is dispatched to.
    pub open spec fn targets(&self, handler_type: Option<Guid>) -> Seq<u64> {
        match handler_type {
            None => live(self.roots(), self.roots().len() as int),
            Some(guid) => match entry_for(self.entry_list(), guid, 0) {
                Some(i) => live(
                    self.entry_list()[i].handlers,
                    self.entry_list()[i].handlers.len() as int,
                ),
                None => Seq::empty(),
            },
        }
    }

    /// Begins to manage (dispatch) an MMI: to the root handlers, or to those for a GUID, of
    /// which the first that succeeds or has an interrupt pending ends the dispatch. The
    /// dispatch is to be ended by [`MmiDatabase::end_manage`].
    pub fn mmi_manage(&mut self, handler_type: Option<Guid>) -> (r: MmiDispatch)
        requires
            old(self).depth() < usize::MAX,
        ensures
            final(self).depth() == old(self).depth() + 1,
            final(self).roots() == old(self).roots(),
            final(self).entry_list() == old(self).entry_list(),
            r.begins(old(self).targets(handler_type), handler_type is Some),
    {
        self.manage_calling_depth = self.manage_calling_depth + 1;
        let handlers: Vec<u64> = match handler_type {
            None => live_handlers(&self.root_handlers),
            Some(guid) => match self.find_entry(guid) {
                Some(i) => live_handlers(&self.entries[i].handlers),
                None => Vec::new(),
            },
        };
        assert(handlers@.skip(0) =~= handlers@);
        assert(handlers@ =~= old(self).targets(handler_type));
        MmiDispatch {
            handlers,
            next: 0,
            status: EFI_NOT_FOUND,
            short_circuit: handler_type.is_some(),
        }
    }

    /// Ends a dispatch, and returns its status. With the outermost dispatch the handlers that
    /// are marked for removal are removed.
    pub fn end_manage(&mut self, dispatch: &MmiDispatch) -> (r: Status)
        requires
            old(self).depth() > 0,
        ensures
            r == dispatch.so_far(),
            final(self).depth() == old(self).depth() - 1,
            if old(self).depth() == 1 {
                &&& final(self).roots() == kept(old(self).roots(), old(self).roots().len() as int)
                &&& final(self).entry_list() == kept_entries(
                    old(self).entry_list(),
                    old(self).entry_list().len() as int,
                )
            } else {
                &&& final(self).roots() == old(self).roots()
                &&& final(self).entry_list() == old(self).entry_list()
            },
    {
        self.manage_calling_depth = self.manage_calling_depth - 1;
        if self.manage_calling_depth == 0 {
            self.cleanup_removed_handlers();
        }
        dispatch.status
    }

    /// Removes the handlers that are marked for removal, and the entries that are left empty.
    fn cleanup_removed_handlers(&mut self)
        ensures
            final(self).depth() == old(self).depth(),
            final(self).roots() == kept(old(self).roots(), old(self).roots().len() as int),
            final(self).entry_list() == kept_entries(
                old(self).entry_list(),
                old(self).entry_list().len() as int,
            ),
    {
        self.root_handlers = keep_handlers(&self.root_handlers);
        let ghost all = self.entry_list();
        let mut entries: Vec<MmiEntry> = Vec::new();
        let mut i: usize = 0;
        assert(entries@.map_values(|e: MmiEntry| entry_view(e)) =~= kept_entries(all, 0));
        while i < self.entries.len()
            invariant
                i <= self.entries@.len(),
                all == self.entry_list(),
                self.entries@ == old(self).entries@,
                self.root_handlers@ == kept(old(self).roots(), old(self).roots().len() as int),
                self.manage_calling_depth == old(self).manage_calling_depth,
                entries@.map_values(|e: MmiEntry| entry_view(e)) == kept_entries(all, i as int),
            decreases self.entries@.len() - i,
        {
            let handlers = keep_handlers(&self.entries[i].handlers);
            let handler_type = self.entries[i].handler_type;
            let ghost before = entries@.map_values(|e: MmiEntry| entry_view(e));
            assert(all[i as int] == entry_view(self.entries@[i as int]));
            if handlers.len() > 0 {
                let ghost kept_view = EntryView { handler_type, handlers: handlers@ };
                entries.push(MmiEntry { handler_type, handlers });
                assert(entries@.map_values(|e: MmiEntry| entry_view(e)) =~= before.push(kept_view));
            }
            i = i + 1;
        }
        self.entries = entries;
    }
}

// ============================================================================
// Laws
// ============================================================================

/// Without short circuit, as for root handlers, a dispatch succeeds if and only if some handler
/// returned success or quiesced its source; it is pending if none did and some interrupt is;
/// and else nothing was found.
pub proof fn law_root_dispatch_status(returned: Seq<Status>)
    ensures
        dispatch_status(EFI_NOT_FOUND, returned, false, 0) == if returned.contains(EFI_SUCCESS)
            || returned.contains(WARN_INTERRUPT_SOURCE_QUIESCED) {
            EFI_SUCCESS
        } else if returned.contains(INTERRUPT_PENDING) {
            INTERRUPT_PENDING
        } else {
            EFI_NOT_FOUND
        },
{
    lemma_root_dispatch(EFI_NOT_FOUND, returned, 0);
}

/// Some status from `from` on is `s`.
spec fn occurs(returned: Seq<Status>, s: Status, from: int) -> bool {
    exists|i: int| from <= i < returned.len() && returned[i] == s
}

proof fn lemma_root_dispatch(status: Status, returned: Seq<Status>, from: int)
    requires
        0 <= from,
    ensures
        dispatch_status(status, returned, false, from) == if status == EFI_SUCCESS || occurs(
            returned,
            EFI_SUCCESS,
            from,
        ) || occurs(returned, WARN_INTERRUPT_SOURCE_QUIESCED, from) {
            EFI_SUCCESS
        } else if occurs(returned, INTERRUPT_PENDING, from) {
            INTERRUPT_PENDING
        } else {
            status
        },
        occurs(returned, EFI_SUCCESS, 0) == returned.contains(EFI_SUCCESS),
        occurs(returned, WARN_INTERRUPT_SOURCE_QUIESCED, 0) == returned.contains(
            WARN_INTERRUPT_SOURCE_QUIESCED,
        ),
        occurs(returned, INTERRUPT_PENDING, 0) == returned.contains(INTERRUPT_PENDING),
    decreases returned.len() - from,
{
    if from < returned.len() {
        lemma_root_dispatch(status_after(status, returned[from], false), returned, from + 1);
        lemma_occurs_step(returned, EFI_SUCCESS, from);
        lemma_occurs_step(returned, WARN_INTERRUPT_SOURCE_QUIESCED, from);
        lemma_occurs_step(returned, INTERRUPT_PENDING, from);
    }
}

proof fn lemma_occurs_step(returned: Seq<Status>, s: Status, from: int)
    requires
        0 <= from < returned.len(),
    ensures
        occurs(returned, s, from) == (returned[from] == s || occurs(returned, s, from + 1)),
{
    if occurs(returned, s, from) {
        let i = choose|i: int| from <= i < returned.len() && returned[i] == s;
        if i > from {
            assert(returned[i] == s && from + 1 <= i);
        }
    }
    if occurs(returned, s, from + 1) {
        let i = choose|i: int| from + 1 <= i < returned.len() && returned[i] == s;
        assert(returned[i] == s && from <= i);
    }
}

/// For a GUID the first handler that succeeds ends the dispatch with success, whatever the
/// handlers behind it would return.
pub proof fn law_guid_dispatch_stops_at_success(
    returned: Seq<Status>,
    n: int,
    status: Status,
    from: int,
)
    requires
        0 <= from <= n < returned.len(),
        returned[n] == EFI_SUCCESS,
        forall|i: int| from <= i < n ==> returned[i] != INTERRUPT_PENDING,
    ensures
        dispatch_status(status, returned, true, from) == EFI_SUCCESS,
    decreases n - from,
{
    if from < n && returned[from] != EFI_SUCCESS {
        law_guid_dispatch_stops_at_success(
            returned,
            n,
            status_after(status, returned[from], true),
            from + 1,
        );
    }
}

/// A handler that has just been registered as a root handler is called, after those that were
/// there.
pub proof fn law_registered_root_is_called(roots: Seq<MmiHandler>, handler: u64)
    ensures
        live(roots.push(fresh(handler)), roots.len() as int + 1) == live(
            roots,
            roots.len() as int,
        ).push(handler),
{
    lemma_live_prefix(roots, roots.push(fresh(handler)), roots.len() as int);
}

proof fn lemma_live_prefix(a: Seq<MmiHandler>, b: Seq<MmiHandler>, n: int)
    requires
        0 <= n <= a.len(),
        n <= b.len(),
        forall|i: int| 0 <= i < n ==> a[i] == b[i],
    ensures
        live(a, n) == live(b, n),
    decreases n,
{
    if n > 0 {
        lemma_live_prefix(a, b, n - 1);
    }
}

/// The clean-up at the end of a dispatch changes nothing about which handlers are called, and
/// leaves none that is marked.
pub proof fn law_cleanup_keeps_live_handlers(handlers: Seq<MmiHandler>, n: int)
    requires
        0 <= n <= handlers.len(),
    ensures
        live(kept(handlers, n), kept(handlers, n).len() as int) == live(handlers, n),
        forall|i: int| 0 <= i < kept(handlers, n).len() ==> !(#[trigger] kept(
            handlers,
            n,
        )[i]).to_remove,
    decreases n,
{
    if n > 0 {
        law_cleanup_keeps_live_handlers(handlers, n - 1);
        if !handlers[n - 1].to_remove {
            let before = kept(handlers, n - 1);
            lemma_live_prefix(before, before.push(handlers[n - 1]), before.len() as int);
        }
    }
}

/// The addresses of the handlers that are not marked for removal, in their order.
pub open spec fn unmarked(handlers: Seq<MmiHandler>) -> Seq<u64> {
    handlers.filter(|h: MmiHandler| !h.to_remove).map_values(|h: MmiHandler| h.handler)
}

proof fn lemma_live_is_unmarked(handlers: Seq<MmiHandler>, n: int)
    requires
        0 <= n <= handlers.len(),
    ensures
        live(handlers, n) == unmarked(handlers.take(n)),
    decreases n,
{
    reveal(Seq::filter);
    let f = |h: MmiHandler| !h.to_remove;
    let g = |h: MmiHandler| h.handler;
    if n > 0 {
        lemma_live_is_unmarked(handlers, n - 1);
        let some = handlers.take(n);
        assert(some.drop_last() =~= handlers.take(n - 1));
        assert(some.last() == handlers[n - 1]);
        let before = handlers.take(n - 1).filter(f);
        if f(handlers[n - 1]) {
            assert(some.filter(f) == before.push(handlers[n - 1]));
            assert(before.push(handlers[n - 1]).map_values(g) =~= before.map_values(g).push(
                handlers[n - 1].handler,
            ));
        }
        assert(live(handlers, n) =~= unmarked(some));
    } else {
        assert(live(handlers, n) =~= unmarked(handlers.take(n)));
    }
}

proof fn lemma_entry_for_first(entries: Seq<EntryView>, guid: Guid, from: int)
    requires
        0 <= from,
    ensures
        match entry_for(entries, guid, from) {
            Some(i) => from <= i < entries.len() && entries[i].handler_type == guid && forall|j: int|
                from <= j < i ==> (#[trigger] entries[j]).handler_type != guid,
            None => forall|j: int|
                from <= j < entries.len() ==> (#[trigger] entries[j]).handler_type != guid,
        },
    decreases entries.len() - from,
{
    if from < entries.len() && entries[from].handler_type != guid {
        lemma_entry_for_first(entries, guid, from + 1);
    }
}

/// An MMI is dispatched to every handler of its list that is not marked for removal, in the order
/// in which they stand: to the root handlers without a GUID, and else to those of the first entry
/// for the GUID. Without an entry for it there is none.
pub proof fn law_dispatch_targets(db: &MmiDatabase, guid: Guid, i: int)
    ensures
        db.targets(None) == unmarked(db.roots()),
        0 <= i < db.entry_list().len() && db.entry_list()[i].handler_type == guid && (forall|j: int|
            0 <= j < i ==> (#[trigger] db.entry_list()[j]).handler_type != guid) ==> db.targets(
            Some(guid),
        ) == unmarked(db.entry_list()[i].handlers),
        (forall|j: int|
            0 <= j < db.entry_list().len() ==> (#[trigger] db.entry_list()[j]).handler_type != guid)
            ==> db.targets(Some(guid)).len() == 0,
{
    let roots = db.roots();
    lemma_live_is_unmarked(roots, roots.len() as int);
    assert(roots.take(roots.len() as int) =~= roots);
    let entries = db.entry_list();
    lemma_entry_for_first(entries, guid, 0);
    match entry_for(entries, guid, 0) {
        Some(k) => {
            let handlers = entries[k].handlers;
            lemma_live_is_unmarked(handlers, handlers.len() as int);
            assert(handlers.take(handlers.len() as int) =~= handlers);
            if 0 <= i < entries.len() && entries[i].handler_type == guid && (forall|j: int|
                0 <= j < i ==> (#[trigger] entries[j]).handler_type != guid) {
                assert(entries[k].handler_type == guid);
                assert(i == k);
            }
        },
        None => {},
    }
}

/// Registering a handler puts it behind the handlers that an MMI for its GUID is dispatched to, or
/// behind the root handlers if it is for no GUID; and it leaves the handlers for every other GUID,
/// and the root handlers if it is for a GUID, as they were.
pub proof fn law_register_adds_one_target(
    before: &MmiDatabase,
    after: &MmiDatabase,
    handler: u64,
    handler_type: Option<Guid>,
    other: Option<Guid>,
)
    requires
        after.roots() == roots_with(before.roots(), handler, handler_type),
        after.entry_list() == entries_with(before.entry_list(), handler, handler_type),
    ensures
        other == handler_type ==> after.targets(other) == before.targets(other).push(handler),
        other != handler_type ==> after.targets(other) == before.targets(other),
{
    let a = before.entry_list();
    let b = after.entry_list();
    match handler_type {
        None => {
            law_registered_root_is_called(before.roots(), handler);
        },
        Some(guid) => {
            lemma_entry_for_first(a, guid, 0);
            match other {
                None => {},
                Some(o) => {
                    lemma_entry_for_first(a, o, 0);
                    lemma_entry_for_first(b, o, 0);
                    match entry_for(a, guid, 0) {
                        Some(i) => {
                            assert(forall|j: int|
                                0 <= j < a.len() ==> (#[trigger] b[j]).handler_type
                                    == a[j].handler_type);
                            assert(entry_for(b, o, 0) == entry_for(a, o, 0)) by {
                                lemma_entry_for_same(a, b, o, 0);
                            }
                            if o == guid {
                                law_registered_root_is_called(a[i].handlers, handler);
                            }
                        },
                        None => {
                            let added = b[a.len() as int];
                            assert(added.handler_type == guid);
                            match entry_for(a, o, 0) {
                                Some(k) => {
                                    assert(b[k] == a[k]);
                                    let l = entry_for(b, o, 0)->0;
                                    if l < k {
                                        assert(b[l] == a[l]);
                                    }
                                },
                                None => {
                                    if o == guid {
                                        let l = entry_for(b, o, 0)->0;
                                        if l < a.len() {
                                            assert(b[l] == a[l]);
                                        }
                                        let none = Seq::<MmiHandler>::empty();
                                        law_registered_root_is_called(none, handler);
                                        assert(none.push(fresh(handler)) =~= added.handlers);
                                        assert(live(none, 0) =~= before.targets(other));
                                    } else if entry_for(b, o, 0) is Some {
                                        let l = entry_for(b, o, 0)->0;
                                        if l < a.len() {
                                            assert(b[l] == a[l]);
                                        }
                                    }
                                },
                            }
                        },
                    }
                },
            }
        },
    }
}

proof fn lemma_entry_for_same(a: Seq<EntryView>, b: Seq<EntryView>, guid: Guid, from: int)
    requires
        0 <= from,
        a.len() == b.len(),
        forall|j: int| 0 <= j < a.len() ==> (#[trigger] b[j]).handler_type == a[j].handler_type,
    ensures
        entry_for(b, guid, from) == entry_for(a, guid, from),
    decreases a.len() - from,
{
    if from < a.len() {
        assert(b[from].handler_type == a[from].handler_type);
        lemma_entry_for_same(a, b, guid, from + 1);
    }
}

/// The handler at index `i` is the first with an address.
pub open spec fn is_first(handlers: Seq<MmiHandler>, handler: u64, i: int) -> bool {
    &&& 0 <= i < handlers.len()
    &&& handlers[i].handler == handler
    &&& forall|j: int| 0 <= j < i ==> (#[trigger] handlers[j]).handler != handler
}

/// No handler has an address.
pub open spec fn is_absent(handlers: Seq<MmiHandler>, handler: u64) -> bool {
    forall|j: int| 0 <= j < handlers.len() ==> (#[trigger] handlers[j]).handler != handler
}

proof fn lemma_handler_at_first(handlers: Seq<MmiHandler>, handler: u64, from: int)
    requires
        0 <= from,
    ensures
        match handler_at(handlers, handler, from) {
            Some(i) => from <= i < handlers.len() && handlers[i].handler == handler && forall|j: int|
                from <= j < i ==> (#[trigger] handlers[j]).handler != handler,
            None => forall|j: int|
                from <= j < handlers.len() ==> (#[trigger] handlers[j]).handler != handler,
        },
    decreases handlers.len() - from,
{
    if from < handlers.len() && handlers[from].handler != handler {
        lemma_handler_at_first(handlers, handler, from + 1);
    }
}

proof fn lemma_entry_with_first(entries: Seq<EntryView>, handler: u64, from: int)
    requires
        0 <= from,
    ensures
        match entry_with(entries, handler, from) {
            Some(i) => from <= i < entries.len() && !is_absent(entries[i].handlers, handler)
                && forall|j: int|
                from <= j < i ==> is_absent((#[trigger] entries[j]).handlers, handler),
            None => forall|j: int|
                from <= j < entries.len() ==> is_absent((#[trigger] entries[j]).handlers, handler),
        },
    decreases entries.len() - from,
{
    if from < entries.len() {
        let handlers = entries[from].handlers;
        lemma_handler_at_first(handlers, handler, 0);
        if handler_at(handlers, handler, 0) is Some {
            let i = handler_at(handlers, handler, 0)->0;
            assert(handlers[i].handler == handler);
        } else {
            lemma_entry_with_first(entries, handler, from + 1);
        }
    }
}

/// Unregistering marks one handler, and changes nothing else: the first root handler with the
/// handle; or, if there is none, the first with it in the first entry that has one. If none has it,
/// nothing changes.
pub proof fn law_unregister_marks_one(
    roots: Seq<MmiHandler>,
    entries: Seq<EntryView>,
    handle: u64,
    e: int,
    i: int,
)
    ensures
        is_first(roots, handle, i) ==> marked(roots, handle) == roots.update(
            i,
            MmiHandler { handler: handle, to_remove: true },
        ) && entries_without(roots, entries, handle) == entries,
        is_absent(roots, handle) ==> marked(roots, handle) == roots,
        is_absent(roots, handle) && 0 <= e < entries.len() && is_first(
            entries[e].handlers,
            handle,
            i,
        ) && (forall|j: int| 0 <= j < e ==> is_absent((#[trigger] entries[j]).handlers, handle))
            ==> entries_without(roots, entries, handle) == entries.update(
            e,
            EntryView {
                handler_type: entries[e].handler_type,
                handlers: entries[e].handlers.update(
                    i,
                    MmiHandler { handler: handle, to_remove: true },
                ),
            },
        ),
        is_absent(roots, handle) && (forall|j: int|
            0 <= j < entries.len() ==> is_absent((#[trigger] entries[j]).handlers, handle))
            ==> entries_without(roots, entries, handle) == entries,
{
    lemma_handler_at_first(roots, handle, 0);
    lemma_entry_with_first(entries, handle, 0);
    if is_first(roots, handle, i) {
        assert(roots[i].handler == handle);
        assert(handler_at(roots, handle, 0) == Some(i));
    } else if is_absent(roots, handle) {
        assert(handler_at(roots, handle, 0) is None) by {
            if handler_at(roots, handle, 0) is Some {
                assert(roots[handler_at(roots, handle, 0)->0].handler == handle);
            }
        }
        if 0 <= e < entries.len() && is_first(entries[e].handlers, handle, i) && (forall|j: int|
            0 <= j < e ==> is_absent((#[trigger] entries[j]).handlers, handle)) {
            let handlers = entries[e].handlers;
            lemma_handler_at_first(handlers, handle, 0);
            assert(handlers[i].handler == handle);
            assert(!is_absent(handlers, handle));
            assert(entry_with(entries, handle, 0) == Some(e)) by {
                match entry_with(entries, handle, 0) {
                    Some(k) => {
                        assert(!is_absent(entries[k].handlers, handle));
                    },
                    None => {
                        assert(is_absent(entries[e].handlers, handle));
                    },
                }
            }
            assert(handler_at(handlers, handle, 0) == Some(i));
        }
    }
}

/// A handler that has been unregistered is not called any more: where no two handlers of a list
/// have the same handle, the handlers that are called are those that were, without it.
pub proof fn law_unregistered_is_not_called(handlers: Seq<MmiHandler>, handle: u64)
    requires
        forall|i: int, j: int|
            0 <= i < j < handlers.len() ==> (#[trigger] handlers[i]).handler != (
            #[trigger] handlers[j]).handler,
    ensures
        ({
            let before = live(handlers, handlers.len() as int);
            let after = live(marked(handlers, handle), handlers.len() as int);
            &&& !after.contains(handle)
            &&& after == before.filter(|h: u64| h != handle)
        }),
{
    lemma_handler_at_first(handlers, handle, 0);
    lemma_live_marked(handlers, handle, handlers.len() as int);
    let before = live(handlers, handlers.len() as int);
    let f = |h: u64| h != handle;
    assert forall|k: int| 0 <= k < before.filter(f).len() implies before.filter(f)[k] != handle by {
        before.lemma_filter_pred(f, k);
    }
}

proof fn lemma_live_marked(handlers: Seq<MmiHandler>, handle: u64, n: int)
    requires
        0 <= n <= handlers.len(),
        forall|i: int, j: int|
            0 <= i < j < handlers.len() ==> (#[trigger] handlers[i]).handler != (
            #[trigger] handlers[j]).handler,
    ensures
        live(marked(handlers, handle), n) == live(handlers, n).filter(|h: u64| h != handle),
    decreases n,
{
    reveal(Seq::filter);
    let f = |h: u64| h != handle;
    lemma_handler_at_first(handlers, handle, 0);
    if n > 0 {
        lemma_live_marked(handlers, handle, n - 1);
        let h = handlers[n - 1];
        let m = marked(handlers, handle)[n - 1];
        if h.handler == handle {
            assert(handler_at(handlers, handle, 0) == Some(n - 1)) by {
                let i = handler_at(handlers, handle, 0)->0;
                assert(handlers[i].handler == handle);
            }
            assert(m.to_remove);
        } else {
            assert(m == h);
        }
        if !h.to_remove {
            let before = live(handlers, n - 1);
            assert(before.push(h.handler).drop_last() =~= before);
            assert(before.push(h.handler).last() == h.handler);
        }
    } else {
        assert(live(handlers, n).filter(f) =~= live(handlers, n));
    }
}

/// No two entries are for the same GUID.
pub open spec fn entries_apart(entries: Seq<EntryView>) -> bool {
    forall|i: int, j: int|
        0 <= i < j < entries.len() ==> (#[trigger] entries[i]).handler_type != (
        #[trigger] entries[j]).handler_type
}

/// There is one entry for a GUID at most, whatever is registered, unregistered and cleaned up.
pub proof fn law_entries_stay_apart(
    roots: Seq<MmiHandler>,
    entries: Seq<EntryView>,
    handler: u64,
    handler_type: Option<Guid>,
)
    requires
        entries_apart(entries),
    ensures
        entries_apart(entries_with(entries, handler, handler_type)),
        entries_apart(entries_without(roots, entries, handler)),
        entries_apart(kept_entries(entries, entries.len() as int)),
{
    lemma_entry_with_first(entries, handler, 0);
    if handler_type is Some {
        lemma_entry_for_first(entries, handler_type->0, 0);
    }
    lemma_kept_apart(entries, entries.len() as int);
}

proof fn lemma_kept_apart(entries: Seq<EntryView>, n: int)
    requires
        entries_apart(entries),
        0 <= n <= entries.len(),
    ensures
        entries_apart(kept_entries(entries, n)),
        forall|k: int|
            0 <= k < kept_entries(entries, n).len() ==> exists|i: int|
                0 <= i < n && (#[trigger] kept_entries(entries, n)[k]).handler_type == (
                #[trigger] entries[i]).handler_type,
    decreases n,
{
    if n > 0 {
        lemma_kept_apart(entries, n - 1);
        let before = kept_entries(entries, n - 1);
        let after = kept_entries(entries, n);
        if after.len() > before.len() {
            assert forall|k: int| 0 <= k < after.len() implies exists|i: int|
                0 <= i < n && (#[trigger] after[k]).handler_type == (
                #[trigger] entries[i]).handler_type by {
                if k < before.len() {
                    assert(after[k] == before[k]);
                    let i = choose|i: int|
                        0 <= i < n - 1 && before[k].handler_type == (
                        #[trigger] entries[i]).handler_type;
                    assert(after[k].handler_type == entries[i].handler_type);
                } else {
                    assert(after[k].handler_type == entries[n - 1].handler_type);
                }
            }
            assert forall|i: int, j: int| 0 <= i < j < after.len() implies (
            #[trigger] after[i]).handler_type != (#[trigger] after[j]).handler_type by {
                assert(after[i] == before[i]);
                if j < before.len() {
                    assert(after[j] == before[j]);
                } else {
                    let l = choose|l: int|
                        0 <= l < n - 1 && before[i].handler_type == (
                        #[trigger] entries[l]).handler_type;
                    assert(entries[l].handler_type != entries[n - 1].handler_type);
                }
            }
        } else {
            assert(after == before);
            assert forall|k: int| 0 <= k < after.len() implies exists|i: int|
                0 <= i < n && (#[trigger] after[k]).handler_type == (
                #[trigger] entries[i]).handler_type by {
                let i = choose|i: int|
                    0 <= i < n - 1 && before[k].handler_type == (
                    #[trigger] entries[i]).handler_type;
                assert(after[k].handler_type == entries[i].handler_type);
            }
        }
    }
}

/// The clean-up at the end of the outermost dispatch changes nothing about which handlers an MMI is
/// dispatched to, with a GUID or without.
pub proof fn law_cleanup_keeps_targets(
    before: &MmiDatabase,
    after: &MmiDatabase,
    handler_type: Option<Guid>,
)
    requires
        entries_apart(before.entry_list()),
        after.roots() == kept(before.roots(), before.roots().len() as int),
        after.entry_list() == kept_entries(
            before.entry_list(),
            before.entry_list().len() as int,
        ),
    ensures
        after.targets(handler_type) == before.targets(handler_type),
{
    match handler_type {
        None => {
            law_cleanup_keeps_live_handlers(before.roots(), before.roots().len() as int);
        },
        Some(guid) => {
            let a = before.entry_list();
            lemma_targets_kept(a, guid, a.len() as int);
            let b = after.entry_list();
            lemma_kept_apart(a, a.len() as int);
            lemma_called(a, guid, a.len() as int);
            lemma_called(b, guid, b.len() as int);
            lemma_entry_for_first(a, guid, 0);
            lemma_entry_for_first(b, guid, 0);
            assert(before.targets(handler_type) =~= called(a, guid, a.len() as int));
            assert(after.targets(handler_type) =~= called(b, guid, b.len() as int));
        },
    }
}

/// The handlers that are called for a GUID, as the last entry for it among the first `n` has them.
spec fn called(entries: Seq<EntryView>, guid: Guid, n: int) -> Seq<u64>
    decreases n,
{
    if n <= 0 {
        Seq::empty()
    } else if entries[n - 1].handler_type == guid {
        live(entries[n - 1].handlers, entries[n - 1].handlers.len() as int)
    } else {
        called(entries, guid, n - 1)
    }
}

/// Among entries that are apart the last one for a GUID is the first.
proof fn lemma_called(entries: Seq<EntryView>, guid: Guid, n: int)
    requires
        entries_apart(entries),
        0 <= n <= entries.len(),
    ensures
        called(entries, guid, n) == match entry_for(entries, guid, 0) {
            Some(i) => if i < n {
                live(entries[i].handlers, entries[i].handlers.len() as int)
            } else {
                Seq::empty()
            },
            None => Seq::empty(),
        },
    decreases n,
{
    lemma_entry_for_first(entries, guid, 0);
    if n > 0 {
        lemma_called(entries, guid, n - 1);
        if entries[n - 1].handler_type == guid {
            let i = entry_for(entries, guid, 0)->0;
            assert(entries[i].handler_type == guid);
            if i < n - 1 {
                assert(entries[i].handler_type != entries[n - 1].handler_type);
            }
        }
    }
}

proof fn lemma_called_prefix(a: Seq<EntryView>, b: Seq<EntryView>, guid: Guid, n: int)
    requires
        0 <= n <= a.len(),
        n <= b.len(),
        forall|i: int| 0 <= i < n ==> a[i] == b[i],
    ensures
        called(a, guid, n) == called(b, guid, n),
    decreases n,
{
    if n > 0 {
        lemma_called_prefix(a, b, guid, n - 1);
    }
}

proof fn lemma_called_absent(entries: Seq<EntryView>, guid: Guid, n: int)
    requires
        0 <= n <= entries.len(),
        forall|i: int| 0 <= i < n ==> (#[trigger] entries[i]).handler_type != guid,
    ensures
        called(entries, guid, n).len() == 0,
    decreases n,
{
    if n > 0 {
        lemma_called_absent(entries, guid, n - 1);
    }
}

proof fn lemma_targets_kept(entries: Seq<EntryView>, guid: Guid, n: int)
    requires
        entries_apart(entries),
        0 <= n <= entries.len(),
    ensures
        called(kept_entries(entries, n), guid, kept_entries(entries, n).len() as int) == called(
            entries,
            guid,
            n,
        ),
    decreases n,
{
    if n > 0 {
        lemma_targets_kept(entries, guid, n - 1);
        let e = entries[n - 1];
        let before = kept_entries(entries, n - 1);
        let after = kept_entries(entries, n);
        law_cleanup_keeps_live_handlers(e.handlers, e.handlers.len() as int);
        let handlers = kept(e.handlers, e.handlers.len() as int);
        if handlers.len() == 0 {
            if e.handler_type == guid {
                assert forall|i: int| 0 <= i < n - 1 implies (
                #[trigger] entries[i]).handler_type != guid by {
                    assert(entries[i].handler_type != entries[n - 1].handler_type);
                }
                lemma_called_absent(entries, guid, n - 1);
                assert(called(after, guid, after.len() as int) =~= called(entries, guid, n));
            }
        } else {
            lemma_called_prefix(before, after, guid, before.len() as int);
        }
    }
}

/// For a GUID a dispatch ends with the first handler that succeeds or has an interrupt pending, and
/// with its status. If there is none, it succeeds if some handler quiesced its source, and else
/// nothing was found.
pub proof fn law_guid_dispatch_status(returned: Seq<Status>, n: int)
    requires
        0 <= n <= returned.len(),
        forall|i: int|
            0 <= i < n ==> (#[trigger] returned[i]) != EFI_SUCCESS && returned[i]
                != INTERRUPT_PENDING,
        n < returned.len() ==> returned[n] == EFI_SUCCESS || returned[n] == INTERRUPT_PENDING,
    ensures
        n < returned.len() ==> dispatch_status(EFI_NOT_FOUND, returned, true, 0) == returned[n],
        n == returned.len() ==> dispatch_status(EFI_NOT_FOUND, returned, true, 0) == (
        if returned.contains(WARN_INTERRUPT_SOURCE_QUIESCED) {
            EFI_SUCCESS
        } else {
            EFI_NOT_FOUND
        }),
{
    lemma_guid_dispatch(EFI_NOT_FOUND, returned, n, 0);
}

proof fn lemma_guid_dispatch(status: Status, returned: Seq<Status>, n: int, from: int)
    requires
        0 <= from <= n <= returned.len(),
        forall|i: int|
            from <= i < n ==> (#[trigger] returned[i]) != EFI_SUCCESS && returned[i]
                != INTERRUPT_PENDING,
        n < returned.len() ==> returned[n] == EFI_SUCCESS || returned[n] == INTERRUPT_PENDING,
    ensures
        n < returned.len() ==> dispatch_status(status, returned, true, from) == returned[n],
        n == returned.len() ==> dispatch_status(status, returned, true, from) == (if occurs(
            returned,
            WARN_INTERRUPT_SOURCE_QUIESCED,
            from,
        ) {
            EFI_SUCCESS
        } else {
            status
        }),
        occurs(returned, WARN_INTERRUPT_SOURCE_QUIESCED, 0) == returned.contains(
            WARN_INTERRUPT_SOURCE_QUIESCED,
        ),
    decreases n - from,
{
    if from < n {
        assert(returned[from] != EFI_SUCCESS);
        lemma_guid_dispatch(status_after(status, returned[from], true), returned, n, from + 1);
        lemma_occurs_step(returned, WARN_INTERRUPT_SOURCE_QUIESCED, from);
    }
}

/// A dispatch begins with all its handlers to be called, and with nothing found. To root handlers
/// it goes on to the last one, whatever they return; for a GUID it ends early only when a handler
/// succeeds or has an interrupt pending. A status other than success, a quiesced source and a
/// pending interrupt is ignored; and a pending interrupt does not undo a success of root handlers.
pub proof fn law_dispatch_steps(
    d: &MmiDispatch,
    handlers: Seq<u64>,
    short_circuit: bool,
    status: Status,
    returned: Status,
)
    ensures
        d.begins(handlers, short_circuit) ==> d.remaining() == handlers && d.so_far()
            == EFI_NOT_FOUND && d.short() == short_circuit,
        !ends_dispatch(returned, false),
        ends_dispatch(returned, true) <==> returned == EFI_SUCCESS || returned == INTERRUPT_PENDING,
        returned == EFI_SUCCESS || returned == WARN_INTERRUPT_SOURCE_QUIESCED ==> status_after(
            status,
            returned,
            short_circuit,
        ) == EFI_SUCCESS,
        status_after(EFI_SUCCESS, INTERRUPT_PENDING, false) == EFI_SUCCESS,
        short_circuit || status != EFI_SUCCESS ==> status_after(
            status,
            INTERRUPT_PENDING,
            short_circuit,
        ) == INTERRUPT_PENDING,
        returned != EFI_SUCCESS && returned != WARN_INTERRUPT_SOURCE_QUIESCED && returned
            != INTERRUPT_PENDING ==> status_after(status, returned, short_circuit) == status,
{
}

/// The statuses of handlers that are not those of the firmware.
pub proof fn law_handler_statuses()
    ensures
        WARN_INTERRUPT_SOURCE_QUIESCED == 3,
        INTERRUPT_PENDING == 0x8000_0004,
{
}

} // verus!
