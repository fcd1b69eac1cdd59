//! Request handlers.
//!
//! Handlers are registered for the GUIDs of the requests that they process. The dispatcher
//! says which of them a request goes to, one after the other, until one has handled it.

use crate::efi::{Guid, Status, EFI_NOT_FOUND, EFI_NOT_READY, EFI_SUCCESS};
use vstd::prelude::*;

verus! {

/// The result of a request handler invocation.
#[derive(Debug, Clone, Copy, PartialEq, Eq, Structural)]
pub enum RequestResult {
    /// The request was handled successfully.
    Success,
    /// The handler does not handle this type of request.
    NotHandled,
    /// The request was handled but resulted in an error.
    Error(Status),
    /// The request requires deferred processing.
    Deferred,
}

impl RequestResult {
    /// The status that stands for the result.
    pub open spec fn status(self) -> Status {
        match self {
            RequestResult::Success => EFI_SUCCESS,
            RequestResult::NotHandled => EFI_NOT_FOUND,
            RequestResult::Error(status) => status,
            RequestResult::Deferred => EFI_NOT_READY,
        }
    }
}

impl vstd::std_specs::convert::FromSpecImpl<RequestResult> for u64 {
    open spec fn obeys_from_spec() -> bool {
        true
    }

    open spec fn from_spec(result: RequestResult) -> u64 {
        result.status()
    }
}

impl From<RequestResult> for u64 {
    fn from(result: RequestResult) -> (r: u64) {
        match result {
            RequestResult::Success => EFI_SUCCESS,
            RequestResult::NotHandled => EFI_NOT_FOUND,
            RequestResult::Error(status) => status,
            RequestResult::Deferred => EFI_NOT_READY,
        }
    }
}

/// What a request handler is told.
pub struct RequestContext {
    /// The GUID identifying the type of request.
    pub handler_guid: Guid,
    /// The communication buffer data.
    pub buffer: Vec<u8>,
    /// Whether this request is from the supervisor channel (and not the user channel).
    pub is_supervisor_request: bool,
    /// The CPU ID of the processor handling this request.
    pub cpu_id: u32,
}

impl RequestContext {
    /// Creates a new request context.
    pub fn new(
        handler_guid: Guid,
        buffer: Vec<u8>,
        is_supervisor_request: bool,
        cpu_id: u32,
    ) -> (r: Self)
        ensures
            r.handler_guid == handler_guid,
            r.buffer@ == buffer@,
            r.is_supervisor_request == is_supervisor_request,
            r.cpu_id == cpu_id,
    {
        RequestContext { handler_guid, buffer, is_supervisor_request, cpu_id }
    }

    /// Gets a slice view of the buffer.
    pub fn as_slice(&self) -> (r: &[u8])
        ensures
            r@ == self.buffer@,
    {
        self.buffer.as_slice()
    }

    /// Gets a mutable view of the buffer.
    pub fn as_mut_slice(&mut self) -> (r: &mut Vec<u8>)
        ensures
            r@ == old(self).buffer@,
            final(self).buffer@ == final(r)@,
            final(self).handler_guid == old(self).handler_guid,
            final(self).is_supervisor_request == old(self).is_supervisor_request,
            final(self).cpu_id == old(self).cpu_id,
    {
        &mut self.buffer
    }
}

/// A request handler, by which requests are matched to it.
#[derive(Debug, Clone, Copy, PartialEq, Eq)]
pub struct RequestHandlerEntry {
    /// The GUID that identifies requests this handler processes.
    pub guid: Guid,
    /// Name of the handler.
    pub name: &'static str,
    /// Whether the handler is only invoked for supervisor-channel requests.
    pub requires_supervisor: bool,
}

/// A slot for a handler.
pub struct HandlerSlot {
    /// The handler, if there is one.
    handler: Option<RequestHandlerEntry>,
}

impl HandlerSlot {
    /// The handler in the slot.
    pub closed spec fn content(&self) -> Option<RequestHandlerEntry> {
        self.handler
    }

    /// Creates a new empty handler slot.
    pub fn new() -> (r: Self)
        ensures
            r.content() is None,
    {
        HandlerSlot { handler: None }
    }

    /// Sets the handler in this slot. Returns false if the slot was occupied.
    pub fn set(&mut self, handler: RequestHandlerEntry) -> (r: bool)
        ensures
            r == (old(self).content() is None),
            final(self).content() == match old(self).content() {
                None => Some(handler),
                Some(h) => Some(h),
            },
    {
        if self.handler.is_none() {
            self.handler = Some(handler);
            true
        } else {
            false
        }
    }

    /// Gets the handler from this slot.
    pub fn get(&self) -> (r: Option<RequestHandlerEntry>)
        ensures
            r == self.content(),
    {
        self.handler
    }

    /// Checks if this slot is empty.
    pub fn is_empty(&self) -> (r: bool)
        ensures
            r == (self.content() is None),
    {
        self.handler.is_none()
    }

    /// Clears the handler from this slot and returns it.
    pub fn clear(&mut self) -> (r: Option<RequestHandlerEntry>)
        ensures
            r == old(self).content(),
            final(self).content() is None,
    {
        let handler = self.handler;
        self.handler = None;
        handler
    }
}

/// The index of the first empty slot from `from` on.
pub open spec fn empty_slot(slots: Seq<Option<RequestHandlerEntry>>, from: int) -> Option<int>
    decreases slots.len() - from,
{
    if from >= slots.len() {
        None
    } else if slots[from] is None {
        Some(from)
    } else {
        empty_slot(slots, from + 1)
    }
}

/// The slot holds a handler for `guid`.
pub open spec fn is_for(slot: Option<RequestHandlerEntry>, guid: Guid) -> bool {
    slot matches Some(h) && h.guid == guid
}

/// The index of the first slot, from `from` on, with a handler for `guid`.
pub open spec fn slot_for(
    slots: Seq<Option<RequestHandlerEntry>>,
    guid: Guid,
    from: int,
) -> Option<int>
    decreases slots.len() - from,
{
    if from >= slots.len() {
        None
    } else if is_for(slots[from], guid) {
        Some(from)
    } else {
        slot_for(slots, guid, from + 1)
    }
}

/// A request for `guid` can go to the handler in the slot: it is for that GUID, and the
/// request comes on a channel that it accepts.
pub open spec fn accepts(slot: Option<RequestHandlerEntry>, guid: Guid, supervisor: bool) -> bool {
    slot matches Some(h) && h.guid == guid && (h.requires_supervisor ==> supervisor)
}

/// The index of the first slot, from `from` on, that a request can go to.
pub open spec fn acceptor(
    slots: Seq<Option<RequestHandlerEntry>>,
    guid: Guid,
    supervisor: bool,
    from: int,
) -> Option<int>
    decreases slots.len() - from,
{
    if from >= slots.len() {
        None
    } else if accepts(slots[from], guid, supervisor) {
        Some(from)
    } else {
        acceptor(slots, guid, supervisor, from + 1)
    }
}

/// The number of handlers among the first `n` slots.
pub open spec fn handlers_in(slots: Seq<Option<RequestHandlerEntry>>, n: int) -> int
    decreases n,
{
    if n <= 0 {
        0
    } else {
        handlers_in(slots, n - 1) + if slots[n - 1] is Some {
            1int
        } else {
            0
        }
    }
}

/// The handlers in the first `n` slots.
pub open spec fn handler_list(slots: Seq<Option<RequestHandlerEntry>>, n: int) -> Seq<
    RequestHandlerEntry,
>
    decreases n,
{
    if n <= 0 {
        Seq::empty()
    } else {
        match slots[n - 1] {
            Some(h) => handler_list(slots, n - 1).push(h),
            None => handler_list(slots, n - 1),
        }
    }
}

/// A dispatcher for routing requests to handlers, with room for `MAX_HANDLERS` of them.
pub struct RequestDispatcher<const MAX_HANDLERS: usize> {
    /// Handler slots.
    slots: Vec<HandlerSlot>,
    /// Number of registered handlers.
    registered_count: usize,
}

impl<const MAX_HANDLERS: usize> RequestDispatcher<MAX_HANDLERS> {
    /// What the slots hold.
    pub closed spec fn contents(&self) -> Seq<Option<RequestHandlerEntry>> {
        self.slots@.map_values(|s: HandlerSlot| s.content())
    }

    /// There are as many slots as there is room for handlers, and as many of them are in use
    /// as handlers are registered.
    pub closed spec fn wf(&self) -> bool {
        &&& self.slots@.len() == MAX_HANDLERS
        &&& self.registered_count == handlers_in(self.contents(), MAX_HANDLERS as int)
    }

    /// Creates a new request dispatcher.
    pub fn new() -> (r: Self)
        ensures
            r.wf(),
            r.contents() == Seq::new(MAX_HANDLERS as nat, |i: int| None::<RequestHandlerEntry>),
    {
        let mut slots: Vec<HandlerSlot> = Vec::new();
        let mut i: usize = 0;
        while i < MAX_HANDLERS
            invariant
                i <= MAX_HANDLERS,
                slots@.len() == i,
                forall|j: int| 0 <= j < i ==> (#[trigger] slots@[j]).content() is None,
            decreases MAX_HANDLERS - i,
        {
            slots.push(HandlerSlot::new());
            i = i + 1;
        }
        let r = RequestDispatcher { slots, registered_count: 0 };
        proof {
            assert(r.contents() =~= Seq::new(
                MAX_HANDLERS as nat,
                |i: int| None::<RequestHandlerEntry>,
            ));
            lemma_no_handlers(r.contents(), MAX_HANDLERS as int);
        }
        r
    }

    /// Registers a handler with the dispatcher. Returns `false` if the handler table is full.
    pub fn register(&mut self, handler: RequestHandlerEntry) -> (r: bool)
        requires
            old(self).wf(),
        ensures
            final(self).wf(),
            match empty_slot(old(self).contents(), 0) {
                Some(i) => r && final(self).contents() == old(self).contents().update(
                    i,
                    Some(handler),
                ),
                None => !r && final(self).contents() == old(self).contents(),
            },
    {
        let mut i: usize = 0;
        while i < self.slots.len()
            invariant
                i <= self.slots@.len(),
                *self == *old(self),
                self.wf(),
                empty_slot(self.contents(), 0) == empty_slot(self.contents(), i as int),
            decreases self.slots@.len() - i,
        {
            if self.slots[i].is_empty() {
                let mut slot = HandlerSlot::new();
                slot.set(handler);
                self.slots.set(i, slot);
                proof {
                    assert(self.contents() =~= old(self).contents().update(
                        i as int,
                        Some(handler),
                    ));
                    lemma_handlers_update(
                        old(self).contents(),
                        i as int,
                        Some(handler),
                        MAX_HANDLERS as int,
                    );
                    lemma_handlers_bound(self.contents(), MAX_HANDLERS as int);
                }
                self.registered_count = self.registered_count + 1;
                return true;
            }
            i = i + 1;
        }
        false
    }

    /// Unregisters a handler by GUID. Returns `true` if a handler was removed.
    pub fn unregister(&mut self, guid: &Guid) -> (r: bool)
        requires
            old(self).wf(),
        ensures
            final(self).wf(),
            match slot_for(old(self).contents(), *guid, 0) {
                Some(i) => r && final(self).contents() == old(self).contents().update(i, None),
                None => !r && final(self).contents() == old(self).contents(),
            },
    {
        match self.find(*guid) {
            Some(i) => {
                let mut slot = HandlerSlot::new();
                slot.clear();
                self.slots.set(i, slot);
                proof {
                    assert(self.contents() =~= old(self).contents().update(i as int, None));
                    lemma_handlers_update(
                        old(self).contents(),
                        i as int,
                        None,
                        MAX_HANDLERS as int,
                    );
                    lemma_handlers_bound(self.contents(), MAX_HANDLERS as int);
                }
                self.registered_count = self.registered_count - 1;
                true
            },
            None => false,
        }
    }

    /// Finds the first slot with a handler for a GUID.
    fn find(&self, guid: Guid) -> (r: Option<usize>)
        requires
            self.wf(),
        ensures
            match r {
                Some(i) => slot_for(self.contents(), guid, 0) == Some(i as int) && i < MAX_HANDLERS
                    && self.contents()[i as int] is Some,
                None => slot_for(self.contents(), guid, 0) is None,
            },
    {
        let mut i: usize = 0;
        while i < self.slots.len()
            invariant
                i <= self.slots@.len(),
                self.wf(),
                slot_for(self.contents(), guid, 0) == slot_for(self.contents(), guid, i as int),
            decreases self.slots@.len() - i,
        {
            match self.slots[i].get() {
                Some(handler) => {
                    if handler.guid == guid {
                        return Some(i);
                    }
                },
                None => {},
            }
            i = i + 1;
        }
        None
    }

    /// Dispatches a request: the first slot, from `from` on, whose handler is to be invoked.
    ///
    /// A dispatch begins at slot 0. Where the handler of a slot does not handle the request,
    /// it goes on behind that slot; [`after_handler`] says so.
    pub fn dispatch(&self, context: &RequestContext, from: usize) -> (r: Option<usize>)
        requires
            self.wf(),
        ensures
            match r {
                Some(i) => acceptor(
                    self.contents(),
                    context.handler_guid,
                    context.is_supervisor_request,
                    from as int,
                ) == Some(i as int) && from <= i < MAX_HANDLERS,
                None => acceptor(
                    self.contents(),
                    context.handler_guid,
                    context.is_supervisor_request,
                    from as int,
                ) is None,
            },
    {
        let mut i: usize = from;
        while i < self.slots.len()
            invariant
                from <= i,
                self.wf(),
                acceptor(
                    self.contents(),
                    context.handler_guid,
                    context.is_supervisor_request,
                    from as int,
                ) == acceptor(
                    self.contents(),
                    context.handler_guid,
                    context.is_supervisor_request,
                    i as int,
                ),
            decreases self.slots@.len() - i,
        {
            match self.slots[i].get() {
                Some(handler) => {
                    if handler.guid == context.handler_guid && (!handler.requires_supervisor
                        || context.is_supervisor_request) {
                        return Some(i);
                    }
                },
                None => {},
            }
            i = i + 1;
        }
        None
    }

    /// Gets the number of registered handlers.
    pub fn handler_count(&self) -> (r: usize)
        requires
            self.wf(),
        ensures
            r == handlers_in(self.contents(), MAX_HANDLERS as int),
    {
        self.registered_count
    }

    /// Gets the maximum number of handlers.
    pub fn max_handlers(&self) -> (r: usize)
        ensures
            r == MAX_HANDLERS,
    {
        MAX_HANDLERS
    }

    /// Checks if a handler for the given GUID is registered.
    pub fn has_handler(&self, guid: &Guid) -> (r: bool)
        requires
            self.wf(),
        ensures
            r == (slot_for(self.contents(), *guid, 0) is Some),
    {
        self.find(*guid).is_some()
    }

    /// Returns the registered handlers, for the caller to go through.
    pub fn for_each_handler(&self) -> (r: Vec<RequestHandlerEntry>)
        requires
            self.wf(),
        ensures
            r@ == handler_list(self.contents(), MAX_HANDLERS as int),
    {
        let mut handlers: Vec<RequestHandlerEntry> = Vec::new();
        let mut i: usize = 0;
        while i < self.slots.len()
            invariant
                i <= self.slots@.len(),
                self.wf(),
                handlers@ == handler_list(self.contents(), i as int),
            decreases self.slots@.len() - i,
        {
            match self.slots[i].get() {
                Some(handler) => {
                    handlers.push(handler);
                },
                None => {},
            }
            i = i + 1;
        }
        handlers
    }
}

impl<const MAX_HANDLERS: usize> Default for RequestDispatcher<MAX_HANDLERS> {
    fn default() -> (r: Self)
        ensures
            r.wf(),
            r.contents() == Seq::new(MAX_HANDLERS as nat, |i: int| None::<RequestHandlerEntry>),
    {
        Self::new()
    }
}

/// What a dispatch does with the result of a handler: the first result other than
/// [`RequestResult::NotHandled`] is that of the request, and else the dispatch goes on.
pub fn after_handler(result: RequestResult) -> (r: Option<RequestResult>)
    ensures
        r == if result == RequestResult::NotHandled {
            None
        } else {
            Some(result)
        },
{
    if result != RequestResult::NotHandled {
        Some(result)
    } else {
        None
    }
}

proof fn lemma_no_handlers(slots: Seq<Option<RequestHandlerEntry>>, n: int)
    requires
        0 <= n <= slots.len(),
        forall|i: int| 0 <= i < n ==> #[trigger] slots[i] is None,
    ensures
        handlers_in(slots, n) == 0,
    decreases n,
{
    if n > 0 {
        lemma_no_handlers(slots, n - 1);
    }
}

proof fn lemma_handlers_bound(slots: Seq<Option<RequestHandlerEntry>>, n: int)
    requires
        0 <= n <= slots.len(),
    ensures
        0 <= handlers_in(slots, n) <= n,
    decreases n,
{
    if n > 0 {
        lemma_handlers_bound(slots, n - 1);
    }
}

proof fn lemma_handlers_update(
    slots: Seq<Option<RequestHandlerEntry>>,
    i: int,
    content: Option<RequestHandlerEntry>,
    n: int,
)
    requires
        0 <= i < slots.len(),
        0 <= n <= slots.len(),
    ensures
        handlers_in(slots.update(i, content), n) == handlers_in(slots, n) + if i < n {
            (if content is Some {
                1int
            } else {
                0
            }) - (if slots[i] is Some {
                1int
            } else {
                0
            })
        } else {
            0
        },
    decreases n,
{
    if n > 0 {
        lemma_handlers_update(slots, i, content, n - 1);
    }
}

/// A user request never gets to a handler that requires the supervisor channel.
pub proof fn law_dispatch_respects_channel(
    slots: Seq<Option<RequestHandlerEntry>>,
    guid: Guid,
    supervisor: bool,
    from: int,
)
    requires
        0 <= from,
    ensures
        acceptor(slots, guid, supervisor, from) matches Some(i) ==> from <= i < slots.len() && (
        slots[i] matches Some(h) && h.guid == guid && (!supervisor ==> !h.requires_supervisor)),
    decreases slots.len() - from,
{
    if from < slots.len() && !accepts(slots[from], guid, supervisor) {
        law_dispatch_respects_channel(slots, guid, supervisor, from + 1);
    }
}

/// A handler that has just been registered is there, and it is gone once it is unregistered,
/// where no other handler is registered for its GUID.
pub proof fn law_register_then_unregister(
    slots: Seq<Option<RequestHandlerEntry>>,
    handler: RequestHandlerEntry,
    i: int,
    from: int,
)
    requires
        0 <= from <= i < slots.len(),
        slots[i] is None,
        forall|j: int| 0 <= j < slots.len() ==> !is_for(#[trigger] slots[j], handler.guid),
    ensures
        slot_for(slots.update(i, Some(handler)), handler.guid, from) == Some(i),
        slots.update(i, Some(handler)).update(i, None) == slots,
    decreases i - from,
{
    let after = slots.update(i, Some(handler));
    if from < i {
        assert(after[from] == slots[from]);
        law_register_then_unregister(slots, handler, i, from + 1);
    }
    assert(after.update(i, None) =~= slots);
}

/// Where a handler goes and where it is found: it is registered in the first empty slot, found in
/// the first slot with its GUID, and none is found only if there is none.
pub proof fn law_handler_slots(slots: Seq<Option<RequestHandlerEntry>>, guid: Guid, from: int)
    requires
        0 <= from,
    ensures
        match empty_slot(slots, from) {
            Some(i) => from <= i < slots.len() && slots[i] is None && forall|j: int|
                from <= j < i ==> (#[trigger] slots[j]) is Some,
            None => forall|j: int| from <= j < slots.len() ==> (#[trigger] slots[j]) is Some,
        },
        match slot_for(slots, guid, from) {
            Some(i) => from <= i < slots.len() && slots[i] is Some && slots[i]->0.guid == guid
                && forall|j: int|
                from <= j < i ==> ((#[trigger] slots[j]) matches Some(h) ==> h.guid != guid),
            None => forall|j: int|
                from <= j < slots.len() ==> ((#[trigger] slots[j]) matches Some(h) ==> h.guid
                    != guid),
        },
    decreases slots.len() - from,
{
    if from < slots.len() {
        law_handler_slots(slots, guid, from + 1);
    }
}

/// The handler that a request is dispatched to is the first, from where the search begins, that is
/// registered for its GUID and takes requests of its channel; and there is none only if none is
/// and does.
pub proof fn law_dispatch_finds_first(
    slots: Seq<Option<RequestHandlerEntry>>,
    guid: Guid,
    supervisor: bool,
    from: int,
)
    requires
        0 <= from,
    ensures
        match acceptor(slots, guid, supervisor, from) {
            Some(i) => from <= i < slots.len() && slots[i] is Some && slots[i]->0.guid == guid && (
            slots[i]->0.requires_supervisor ==> supervisor) && forall|j: int|
                from <= j < i ==> ((#[trigger] slots[j]) matches Some(h) ==> h.guid != guid
                    || h.requires_supervisor && !supervisor),
            None => forall|j: int|
                from <= j < slots.len() ==> ((#[trigger] slots[j]) matches Some(h) ==> h.guid
                    != guid || h.requires_supervisor && !supervisor),
        },
    decreases slots.len() - from,
{
    if from < slots.len() {
        law_dispatch_finds_first(slots, guid, supervisor, from + 1);
    }
}

/// The handlers that are listed are all that are registered, in the order of their slots, and as
/// many are counted.
pub proof fn law_handlers_are_listed(slots: Seq<Option<RequestHandlerEntry>>, n: int)
    requires
        0 <= n <= slots.len(),
    ensures
        handler_list(slots, n) == slots.take(n).filter(
            |s: Option<RequestHandlerEntry>| s is Some,
        ).map_values(|s: Option<RequestHandlerEntry>| s->0),
        handlers_in(slots, n) == handler_list(slots, n).len(),
    decreases n,
{
    reveal(Seq::filter);
    let f = |s: Option<RequestHandlerEntry>| s is Some;
    let g = |s: Option<RequestHandlerEntry>| s->0;
    let some = slots.take(n);
    if n > 0 {
        law_handlers_are_listed(slots, n - 1);
        assert(some.drop_last() =~= slots.take(n - 1));
        let before = slots.take(n - 1).filter(f);
        assert(before.push(slots[n - 1]).map_values(g) =~= before.map_values(g).push(
            slots[n - 1]->0,
        ));
    }
    assert(handler_list(slots, n) =~= some.filter(f).map_values(g));
}

/// The status of a result: success of a success, the very error of an error, nothing found if the
/// request was not handled, and not ready if it is deferred.
pub proof fn law_result_status(result: RequestResult)
    ensures
        result == RequestResult::Success ==> result.status() == EFI_SUCCESS,
        result matches RequestResult::Error(status) ==> result.status() == status,
        result == RequestResult::NotHandled ==> result.status() == EFI_NOT_FOUND,
        result == RequestResult::Deferred ==> result.status() == EFI_NOT_READY,
{
}

} // verus!
