//! Where a message from the agent goes.
use crate::filter::lemma_filter_first;
use crate::permission::{
    build_permission_response, permission_response, permission_title, tool_title,
};
use crate::protocol::{
    connection_closed, JsonRpcMessage, JsonRpcResponse, MessageView, ResponseView,
};
use crate::text::same_text;
use std::collections::HashMap;
use vstd::prelude::*;

verus! {

broadcast use {vstd::string::group_string_axioms, vstd::std_specs::hash::group_hash_axioms};

/// The requests that wait for a response, and the subscriber to the agent's
/// messages. A request waits with a slot of type `T`, by which its response is
/// handed to the one who sent it. A subscriber is a value of type `S`.
#[verifier::reject_recursive_types(T)]
#[verifier::reject_recursive_types(S)]
pub struct Router<T, S> {
    pending: HashMap<u64, T>,
    subscriber: Option<S>,
}

/// What a router holds.
#[verifier::reject_recursive_types(T)]
#[verifier::reject_recursive_types(S)]
pub struct RouterView<T, S> {
    /// The slot of each waiting request, by the request's identifier.
    pub pending: Map<u64, T>,
    pub subscriber: Option<S>,
}

/// Where a message goes.
pub enum Routed<T> {
    /// The message asks for a permission, for the tool call with this title;
    /// `response` is the answer.
    Answered { title: String, response: JsonRpcResponse },
    /// Nothing can be done with the message.
    Ignored,
    /// The message is the response to a waiting request: `reply` goes to the
    /// request's slot, and `copy`, where there is one, to the subscriber.
    Resolved { slot: T, reply: JsonRpcMessage, copy: Option<JsonRpcMessage> },
    /// The message goes to the subscriber.
    Forwarded(JsonRpcMessage),
    /// The message goes nowhere.
    Dropped,
}

/// Where a message goes, and what is said there.
pub enum RoutedView<T> {
    Answered { title: Seq<char>, response: ResponseView },
    Ignored,
    Resolved { slot: T, reply: MessageView, copy: Option<MessageView> },
    Forwarded(MessageView),
    Dropped,
}

/// What an optional message says.
pub open spec fn message_view(message: Option<JsonRpcMessage>) -> Option<MessageView> {
    match message {
        Some(message) => Some(message@),
        None => None,
    }
}

impl<T> Routed<T> {
    /// Whether `message` itself goes to where it goes, and not only one that says the
    /// same.
    pub open spec fn hands_on(self, message: JsonRpcMessage) -> bool {
        match self {
            Routed::Resolved { slot, reply, copy } => reply == message,
            Routed::Forwarded(forwarded) => forwarded == message,
            _ => true,
        }
    }
}

impl<T> View for Routed<T> {
    type V = RoutedView<T>;

    open spec fn view(&self) -> RoutedView<T> {
        match *self {
            Routed::Answered { title, response } => RoutedView::Answered {
                title: title@,
                response: response@,
            },
            Routed::Ignored => RoutedView::Ignored,
            Routed::Resolved { slot, reply, copy } => RoutedView::Resolved {
                slot,
                reply: reply@,
                copy: message_view(copy),
            },
            Routed::Forwarded(message) => RoutedView::Forwarded(message@),
            Routed::Dropped => RoutedView::Dropped,
        }
    }
}

/// Whether a message asks for a permission.
pub open spec fn asks_permission(message: MessageView) -> bool {
    message.method == Some("session/request_permission"@)
}

/// Whether a message responds to the request `id`.
pub open spec fn responds_to(message: MessageView, id: u64) -> bool {
    message.id == Some(id) && !asks_permission(message)
}

impl<T, S> RouterView<T, S> {
    /// The router with the request `id` waiting for its response.
    pub open spec fn waiting(self, id: u64, slot: T) -> RouterView<T, S> {
        RouterView { pending: self.pending.insert(id, slot), ..self }
    }

    /// The router with the request `id` given up.
    pub open spec fn abandoned(self, id: u64) -> RouterView<T, S> {
        RouterView { pending: self.pending.remove(id), ..self }
    }

    /// The router with `subscriber` to get the agent's messages.
    pub open spec fn subscribed(self, subscriber: S) -> RouterView<T, S> {
        RouterView { subscriber: Some(subscriber), ..self }
    }

    /// Whether a message is the response to a waiting request.
    pub open spec fn is_awaited(self, message: MessageView) -> bool {
        &&& !asks_permission(message)
        &&& message.id is Some
        &&& self.pending.contains_key(message.id->0)
    }

    /// Where a message goes.
    pub open spec fn route(self, message: MessageView) -> RoutedView<T> {
        if asks_permission(message) {
            match message.id {
                Some(id) => RoutedView::Answered {
                    title: tool_title(message.params),
                    response: ResponseView { id, result: permission_response(message.params) },
                },
                None => RoutedView::Ignored,
            }
        } else if self.is_awaited(message) {
            RoutedView::Resolved {
                slot: self.pending[message.id->0],
                reply: message,
                copy: if self.subscriber is Some {
                    Some(message.outcome())
                } else {
                    None
                },
            }
        } else if self.subscriber is Some {
            RoutedView::Forwarded(message)
        } else {
            RoutedView::Dropped
        }
    }

    /// What the router holds after a message has come in.
    pub open spec fn after(self, message: MessageView) -> RouterView<T, S> {
        if self.is_awaited(message) {
            self.abandoned(message.id->0)
        } else {
            self
        }
    }

    /// What the router holds after messages have come in, one after the other.
    pub open spec fn after_all(self, messages: Seq<MessageView>) -> RouterView<T, S>
        decreases messages.len(),
    {
        if messages.len() == 0 {
            self
        } else {
            self.after_all(messages.drop_last()).after(messages.last())
        }
    }
}

/// What happens on the agent's output.
pub enum ReaderEvent {
    /// The agent wrote a message.
    Message(JsonRpcMessage),
    /// The agent wrote a line that is no message.
    Unreadable,
    /// The output has come to its end, or cannot be read any longer.
    Ended,
}

/// What the reader of the agent's output does next.
pub enum ReaderStep<T> {
    /// It sends a message to where it goes, and reads on.
    Continue(Routed<T>),
    /// It sends the message that the connection is closed to the requests that
    /// waited, and stops.
    Stop(Vec<Orphan<T>>),
}

/// What happens on the agent's output, by what is said.
pub enum EventView {
    Message(MessageView),
    Unreadable,
    Ended,
}

impl View for ReaderEvent {
    type V = EventView;

    open spec fn view(&self) -> EventView {
        match self {
            ReaderEvent::Message(message) => EventView::Message(message@),
            ReaderEvent::Unreadable => EventView::Unreadable,
            ReaderEvent::Ended => EventView::Ended,
        }
    }
}

/// What the reader does: it sends a message to where it goes, it skips a line, or it
/// tells the requests that waited that the connection is closed.
pub enum Action<T> {
    Send(RoutedView<T>),
    Skip,
    Close(Map<u64, T>),
}

impl<T> ReaderStep<T> {
    /// Whether this step is the one to take for an action.
    pub open spec fn performs(self, action: Action<T>) -> bool {
        match action {
            Action::Send(routed) => self matches ReaderStep::Continue(r) && r@ == routed,
            Action::Skip => self matches ReaderStep::Continue(r) && r@ is Ignored,
            Action::Close(pending) => self matches ReaderStep::Stop(orphans) && orphans_of(
                orphans@,
                pending,
            ),
        }
    }
}

impl<T, S> RouterView<T, S> {
    /// A router without waiting requests and without a subscriber.
    pub open spec fn empty() -> RouterView<T, S> {
        RouterView { pending: Map::empty(), subscriber: None }
    }

    /// What the reader does about an event.
    pub open spec fn action(self, event: EventView) -> Action<T> {
        match event {
            EventView::Message(message) => Action::Send(self.route(message)),
            EventView::Unreadable => Action::Skip,
            EventView::Ended => Action::Close(self.pending),
        }
    }

    /// What the router holds after an event.
    pub open spec fn after_event(self, event: EventView) -> RouterView<T, S> {
        match event {
            EventView::Message(message) => self.after(message),
            EventView::Unreadable => self,
            EventView::Ended => RouterView::empty(),
        }
    }

    /// What the reader does over a run of events, up to the end of the output.
    /// Skipping a line is doing nothing.
    pub open spec fn actions(self, events: Seq<EventView>) -> Seq<Action<T>>
        decreases events.len(),
    {
        if events.len() == 0 {
            Seq::empty()
        } else {
            let first = match events[0] {
                EventView::Unreadable => Seq::empty(),
                event => seq![self.action(event)],
            };
            if events[0] is Ended {
                first
            } else {
                first + self.after_event(events[0]).actions(events.drop_first())
            }
        }
    }

    /// What the router holds after a run of events, up to the end of the output.
    pub open spec fn after_events(self, events: Seq<EventView>) -> RouterView<T, S>
        decreases events.len(),
    {
        if events.len() == 0 {
            self
        } else if events[0] is Ended {
            self.after_event(events[0])
        } else {
            self.after_event(events[0]).after_events(events.drop_first())
        }
    }
}

/// A waiting request whose response will not come, and the message that its slot
/// gets instead.
pub struct Orphan<T> {
    pub id: u64,
    pub slot: T,
    pub message: JsonRpcMessage,
}

/// Whether `orphans` are the requests that waited in `pending`, each once, with
/// the message that the connection is closed.
pub open spec fn orphans_of<T>(orphans: Seq<Orphan<T>>, pending: Map<u64, T>) -> bool {
    &&& forall|i: int|
        0 <= i < orphans.len() ==> {
            &&& pending.contains_key((#[trigger] orphans[i]).id)
            &&& orphans[i].slot == pending[orphans[i].id]
            &&& orphans[i].message@ == connection_closed()
        }
    &&& forall|id: u64| #[trigger]
        pending.contains_key(id) ==> exists|i: int|
            0 <= i < orphans.len() && (#[trigger] orphans[i]).id == id
    &&& forall|i: int, j: int|
        0 <= i < j < orphans.len() ==> (#[trigger] orphans[i]).id != (#[trigger] orphans[j]).id
}

impl<T, S> View for Router<T, S> {
    type V = RouterView<T, S>;

    closed spec fn view(&self) -> RouterView<T, S> {
        RouterView { pending: self.pending@, subscriber: self.subscriber }
    }
}

impl<T, S> Router<T, S> {
    /// A router without waiting requests and without a subscriber.
    pub fn new() -> (router: Router<T, S>)
        ensures
            router@ == RouterView::<T, S>::empty(),
    {
        Router { pending: HashMap::new(), subscriber: None }
    }

    /// Lets the request `id` wait for its response. A slot that waited under the
    /// same identifier is returned.
    pub fn register(&mut self, id: u64, slot: T) -> (displaced: Option<T>)
        ensures
            final(self)@ == old(self)@.waiting(id, slot),
            displaced == if old(self)@.pending.contains_key(id) {
                Some(old(self)@.pending[id])
            } else {
                None
            },
    {
        self.pending.insert(id, slot)
    }

    /// Gives up waiting for the response to the request `id`. The slot that waited
    /// for it is returned.
    pub fn forget(&mut self, id: u64) -> (slot: Option<T>)
        ensures
            final(self)@ == old(self)@.abandoned(id),
            slot == if old(self)@.pending.contains_key(id) {
                Some(old(self)@.pending[id])
            } else {
                None
            },
    {
        self.pending.remove(&id)
    }

    /// Makes `subscriber` the one who gets the agent's messages.
    pub fn subscribe(&mut self, subscriber: S)
        ensures
            final(self)@ == old(self)@.subscribed(subscriber),
    {
        self.subscriber = Some(subscriber);
    }

    /// Leaves the agent's messages without a subscriber.
    pub fn unsubscribe(&mut self)
        ensures
            final(self)@ == (RouterView { subscriber: None, ..old(self)@ }),
    {
        self.subscriber = None;
    }

    /// The one who gets the agent's messages.
    pub fn subscriber(&self) -> (subscriber: Option<&S>)
        ensures
            (match subscriber {
                Some(subscriber) => self@.subscriber == Some(*subscriber),
                None => self@.subscriber is None,
            }),
    {
        self.subscriber.as_ref()
    }

    /// Whether the request `id` waits for its response.
    pub fn is_pending(&self, id: u64) -> (waiting: bool)
        ensures
            waiting == self@.pending.contains_key(id),
    {
        self.pending.contains_key(&id)
    }

    /// The number of requests that wait for their responses.
    pub fn pending_count(&self) -> (count: usize)
        ensures
            count == self@.pending.len(),
    {
        self.pending.len()
    }

    /// Takes in a message from the agent and says where it goes. A request for a
    /// permission is answered. The response to a waiting request resolves it, and
    /// a copy of its outcome goes to the subscriber. Any other message goes to the
    /// subscriber, the response to a request that no longer waits among them.
    pub fn receive(&mut self, message: JsonRpcMessage) -> (routed: Routed<T>)
        ensures
            routed@ == old(self)@.route(message@),
            routed.hands_on(message),
            final(self)@ == old(self)@.after(message@),
    {
        let permission = match &message.method {
            Some(method) => same_text(method.as_str(), "session/request_permission"),
            None => false,
        };
        if permission {
            return match message.id {
                Some(id) => {
                    let params = message.params.as_ref();
                    Routed::Answered {
                        title: permission_title(params),
                        response: JsonRpcResponse::new(id, build_permission_response(params)),
                    }
                },
                None => Routed::Ignored,
            };
        }
        if let Some(id) = message.id {
            if let Some(slot) = self.pending.remove(&id) {
                let copy = if self.subscriber.is_some() {
                    Some(message.outcome())
                } else {
                    None
                };
                return Routed::Resolved { slot, reply: message, copy };
            }
            assert(old(self)@.pending.remove(id) =~= old(self)@.pending);
        }
        if self.subscriber.is_some() {
            Routed::Forwarded(message)
        } else {
            Routed::Dropped
        }
    }

    /// Takes in what happened on the agent's output, and says what the reader does
    /// next. A line that is no message is skipped.
    pub fn step(&mut self, event: ReaderEvent) -> (step: ReaderStep<T>)
        ensures
            step.performs(old(self)@.action(event@)),
            (match (event, step) {
                (ReaderEvent::Message(message), ReaderStep::Continue(routed)) => routed.hands_on(
                    message,
                ),
                _ => true,
            }),
            final(self)@ == old(self)@.after_event(event@),
    {
        match event {
            ReaderEvent::Message(message) => ReaderStep::Continue(self.receive(message)),
            ReaderEvent::Unreadable => ReaderStep::Continue(Routed::Ignored),
            ReaderEvent::Ended => ReaderStep::Stop(self.close()),
        }
    }

    /// Takes in that the agent has gone: no request waits any longer, and there is
    /// no subscriber. Each request that waited is returned with the message that
    /// the connection is closed.
    pub fn close(&mut self) -> (orphans: Vec<Orphan<T>>)
        ensures
            final(self)@ == RouterView::<T, S>::empty(),
            orphans_of(orphans@, old(self)@.pending),
    {
        let ghost waiting = self.pending@;
        let mut ids: Vec<u64> = Vec::new();
        for id in it: self.pending.keys()
            invariant
                self.pending@ == waiting,
                it.seq().unref().to_set() == waiting.dom(),
                it.seq().no_duplicates(),
                ids@.len() == it.index(),
                forall|i: int| 0 <= i < ids@.len() ==> #[trigger] ids@[i] == *it.seq()[i],
                it.index() == it.seq().len() ==> ids@ == it.seq().unref(),
        {
            ids.push(*id);
        }
        assert(ids@.to_set() == waiting.dom());
        assert(forall|i: int, j: int|
            0 <= i < j < ids@.len() ==> #[trigger] ids@[i] != #[trigger] ids@[j]);
        proof {
            assert forall|id: u64| #[trigger] waiting.contains_key(id) implies ids@.contains(
                id,
            ) by {
                assert(ids@.to_set().contains(id));
            }
            assert forall|i: int| 0 <= i < ids@.len() implies waiting.contains_key(
                #[trigger] ids@[i],
            ) by {
                assert(ids@.to_set().contains(ids@[i]));
            }
        }
        let mut orphans: Vec<Orphan<T>> = Vec::new();
        let mut i: usize = 0;
        while i < ids.len()
            invariant
                0 <= i <= ids.len(),
                forall|j: int, k: int|
                    0 <= j < k < ids@.len() ==> #[trigger] ids@[j] != #[trigger] ids@[k],
                forall|j: int| 0 <= j < ids@.len() ==> waiting.contains_key(#[trigger] ids@[j]),
                forall|id: u64| #[trigger]
                    self.pending@.contains_key(id) <==> waiting.contains_key(id) && !ids@.take(
                        i as int,
                    ).contains(id),
                forall|id: u64| #[trigger]
                    self.pending@.contains_key(id) ==> self.pending@[id] == waiting[id],
                orphans@.len() == i,
                forall|j: int|
                    0 <= j < i ==> {
                        &&& (#[trigger] orphans@[j]).id == ids@[j]
                        &&& orphans@[j].slot == waiting[ids@[j]]
                        &&& orphans@[j].message@ == connection_closed()
                    },
            decreases ids.len() - i,
        {
            let id = ids[i];
            proof {
                assert(!ids@.take(i as int).contains(id));
                assert(ids@.take(i + 1) =~= ids@.take(i as int).push(id));
                assert forall|other: u64| ids@.take(i + 1).contains(other) <==> ids@.take(
                    i as int,
                ).contains(other) || other == id by {
                    if ids@.take(i as int).contains(other) {
                        let j = choose|j: int| 0 <= j < i && ids@.take(i as int)[j] == other;
                        assert(ids@.take(i + 1)[j] == other);
                    }
                    assert(ids@.take(i + 1)[i as int] == id);
                }
            }
            if let Some(slot) = self.pending.remove(&id) {
                orphans.push(Orphan { id, slot, message: JsonRpcMessage::connection_closed() });
            }
            i = i + 1;
        }
        self.subscriber = None;
        proof {
            assert(ids@.take(i as int) =~= ids@);
            assert(self.pending@ =~= Map::empty());
            assert forall|id: u64| #[trigger] waiting.contains_key(id) implies exists|j: int|
                0 <= j < orphans@.len() && (#[trigger] orphans@[j]).id == id by {
                let j = choose|j: int| 0 <= j < ids@.len() && ids@[j] == id;
                assert(orphans@[j].id == id);
            }
        }
        orphans
    }
}

/// The response to a waiting request goes to the slot of that request, and the
/// request then no longer waits.
pub proof fn a_response_reaches_its_request<T, S>(
    router: RouterView<T, S>,
    id: u64,
    slot: T,
    message: MessageView,
)
    requires
        responds_to(message, id),
    ensures
        ({
            let waiting = router.waiting(id, slot);
            &&& waiting.route(message) matches RoutedView::Resolved { slot: s, reply, copy }
            &&& s == slot
            &&& reply == message
            &&& (copy is Some <==> router.subscriber is Some)
            &&& copy is Some ==> copy->0.id == Some(id) && copy->0.result == message.result
                && copy->0.error == message.error
            &&& !waiting.after(message).pending.contains_key(id)
        }),
{
}

/// A request is resolved at most once: a second message with its identifier, and
/// any later one, goes to the subscriber or nowhere, unless it asks for a
/// permission.
pub proof fn a_request_is_resolved_once<T, S>(
    router: RouterView<T, S>,
    first: MessageView,
    second: MessageView,
)
    requires
        router.is_awaited(first),
        second.id == first.id,
    ensures
        !(router.after(first).route(second) is Resolved),
        router.after(first).after(second) == router.after(first),
{
}

/// The response to an abandoned request is forwarded to the subscriber, where there
/// is one, and leaves the waiting requests untouched.
pub proof fn a_stale_response_is_forwarded<T, S>(
    router: RouterView<T, S>,
    id: u64,
    message: MessageView,
)
    requires
        responds_to(message, id),
    ensures
        ({
            let abandoned = router.abandoned(id);
            &&& abandoned.after(message) == abandoned
            &&& abandoned.route(message) == if router.subscriber is Some {
                RoutedView::<T>::Forwarded(message)
            } else {
                RoutedView::<T>::Dropped
            }
        }),
{
}

/// A message resolves no other request than the one whose identifier it has, and
/// never changes the subscriber.
pub proof fn other_requests_keep_waiting<T, S>(
    router: RouterView<T, S>,
    message: MessageView,
    other: u64,
)
    requires
        message.id != Some(other),
    ensures
        router.after(message).subscriber == router.subscriber,
        router.after(message).pending.contains_key(other) == router.pending.contains_key(other),
        router.pending.contains_key(other) ==> router.after(message).pending[other]
            == router.pending[other],
{
}

/// A request for a permission is answered under its own identifier, whatever waits,
/// and changes nothing; it never reaches the subscriber.
pub proof fn permission_requests_are_answered<T, S>(router: RouterView<T, S>, message: MessageView)
    requires
        asks_permission(message),
    ensures
        router.after(message) == router,
        message.id matches Some(id) ==> router.route(message) == (RoutedView::<T>::Answered {
            title: tool_title(message.params),
            response: ResponseView { id, result: permission_response(message.params) },
        }),
        message.id is None ==> router.route(message) is Ignored,
{
}

/// A notification, which has no identifier, goes to the subscriber, where there is
/// one, and resolves nothing.
pub proof fn notifications_are_forwarded<T, S>(router: RouterView<T, S>, message: MessageView)
    requires
        message.id is None,
        !asks_permission(message),
    ensures
        router.after(message) == router,
        router.route(message) == if router.subscriber is Some {
            RoutedView::<T>::Forwarded(message)
        } else {
            RoutedView::<T>::Dropped
        },
{
}

/// With a subscriber no message is lost to it but requests for permissions: it gets
/// the message, or the outcome that it reports.
pub proof fn the_subscriber_sees_every_message<T, S>(router: RouterView<T, S>, message: MessageView)
    requires
        router.subscriber is Some,
        !asks_permission(message),
    ensures
        (match router.route(message) {
            RoutedView::Resolved { slot, reply, copy } => copy == Some(message.outcome()),
            RoutedView::Forwarded(forwarded) => forwarded == message,
            _ => false,
        }),
{
}

/// Once a connection is closed, no message resolves a request or reaches a
/// subscriber.
pub proof fn nothing_is_delivered_after_close<T, S>(message: MessageView)
    ensures
        ({
            let closed = RouterView::<T, S>::empty();
            &&& closed.after(message) == closed
            &&& closed.route(message) is Answered || closed.route(message) is Ignored
                || closed.route(message) is Dropped
        }),
{
}

/// A run of events comes to the same as the run without the unreadable lines: the
/// reader does the same, and the router holds the same.
pub proof fn unreadable_lines_do_not_matter<T, S>(
    router: RouterView<T, S>,
    events: Seq<EventView>,
)
    ensures
        ({
            let readable = events.filter(|event: EventView| !(event is Unreadable));
            &&& router.actions(events) == router.actions(readable)
            &&& router.after_events(events) == router.after_events(readable)
        }),
    decreases events.len(),
{
    let keep = |event: EventView| !(event is Unreadable);
    let readable = events.filter(keep);
    if events.len() == 0 {
        reveal(Seq::filter);
    } else {
        let rest = events.drop_first();
        lemma_filter_first(events, keep);
        unreadable_lines_do_not_matter(router.after_event(events[0]), rest);
        if keep(events[0]) {
            assert(readable[0] == events[0]);
            assert(readable.drop_first() =~= rest.filter(keep));
        } else {
            assert(router.actions(events) =~= router.actions(rest));
        }
    }
}

/// Nothing that comes after the end of the output matters.
pub proof fn nothing_follows_the_end<T, S>(
    router: RouterView<T, S>,
    before: Seq<EventView>,
    after: Seq<EventView>,
)
    ensures
        router.actions(before + seq![EventView::Ended] + after) == router.actions(
            before + seq![EventView::Ended],
        ),
        router.after_events(before + seq![EventView::Ended] + after) == RouterView::<T, S>::empty(),
    decreases before.len(),
{
    let ended = before + seq![EventView::Ended];
    let all = ended + after;
    if before.len() == 0 {
        assert(all[0] is Ended && ended[0] is Ended);
    } else {
        let rest = before.drop_first();
        nothing_follows_the_end(router.after_event(before[0]), rest, after);
        assert(all[0] == before[0] && ended[0] == before[0]);
        assert(all.drop_first() =~= rest + seq![EventView::Ended] + after);
        assert(ended.drop_first() =~= rest + seq![EventView::Ended]);
    }
}

/// Whatever messages come in, a request waits with its slot exactly until the first
/// message that responds to it, and the subscriber stays.
pub proof fn a_request_waits_until_its_response<T, S>(
    router: RouterView<T, S>,
    messages: Seq<MessageView>,
    id: u64,
)
    ensures
        router.after_all(messages).subscriber == router.subscriber,
        router.after_all(messages).pending.contains_key(id) <==> router.pending.contains_key(id)
            && forall|i: int|
            0 <= i < messages.len() ==> !responds_to(#[trigger] messages[i], id),
        router.after_all(messages).pending.contains_key(id) ==> router.after_all(
            messages,
        ).pending[id] == router.pending[id],
    decreases messages.len(),
{
    if messages.len() > 0 {
        let earlier = messages.drop_last();
        a_request_waits_until_its_response(router, earlier, id);
        if forall|i: int| 0 <= i < messages.len() ==> !responds_to(#[trigger] messages[i], id) {
            assert forall|i: int| 0 <= i < earlier.len() implies !responds_to(
                #[trigger] earlier[i],
                id,
            ) by {
                assert(earlier[i] == messages[i]);
            }
            assert(!responds_to(messages[messages.len() - 1], id));
        }
        if forall|i: int| 0 <= i < earlier.len() ==> !responds_to(#[trigger] earlier[i], id) {
            if !responds_to(messages.last(), id) {
                assert forall|i: int| 0 <= i < messages.len() implies !responds_to(
                    #[trigger] messages[i],
                    id,
                ) by {
                    if i < earlier.len() {
                        assert(earlier[i] == messages[i]);
                    }
                }
            }
        }
    }
}

/// What comes of a message that asks for a permission, for every router: under an
/// identifier it is answered with the answer to its parameters, without one it is
/// ignored, and the router stays as it is.
pub proof fn every_permission_request_is_answered<T, S>(
    router: RouterView<T, S>,
    message: MessageView,
    routed: Routed<T>,
    after: RouterView<T, S>,
)
    requires
        message.method == Some("session/request_permission"@),
        routed@ == router.route(message),
        after == router.after(message),
    ensures
        after == router,
        message.id matches Some(id) ==> {
            &&& routed matches Routed::Answered { title, response }
            &&& response.id == id
            &&& response.result@ == permission_response(message.params)
            &&& title@ == tool_title(message.params)
        },
        message.id is None ==> routed is Ignored,
{
}

/// What comes of the response to a waiting request, for every router, with and without
/// a subscriber: the slot of that request gets the message, the subscriber gets a copy
/// of the outcome where there is one, and of all that the router holds only that
/// request no longer waits.
pub proof fn every_awaited_response_resolves_its_request<T, S>(
    router: RouterView<T, S>,
    id: u64,
    message: MessageView,
    routed: Routed<T>,
    after: RouterView<T, S>,
)
    requires
        message.method != Some("session/request_permission"@),
        message.id == Some(id),
        router.pending.contains_key(id),
        routed@ == router.route(message),
        after == router.after(message),
    ensures
        routed matches Routed::Resolved { slot, reply, copy } && slot == router.pending[id]
            && reply@ == message && (copy is Some <==> router.subscriber is Some) && (copy is Some
            ==> copy->0@ == (MessageView {
            id: Some(id),
            method: None,
            result: message.result,
            error: message.error,
            params: None,
        })),
        !after.pending.contains_key(id),
        after.pending == router.pending.remove(id),
        after.subscriber == router.subscriber,
{
}

/// What comes of any other message, for every router: it goes to the subscriber, or
/// nowhere without one, and the router stays as it is.
pub proof fn every_other_message_is_forwarded<T, S>(
    router: RouterView<T, S>,
    message: MessageView,
    routed: Routed<T>,
    after: RouterView<T, S>,
)
    requires
        message.method != Some("session/request_permission"@),
        message.id is None || !router.pending.contains_key(message.id->0),
        routed@ == router.route(message),
        after == router.after(message),
    ensures
        after == router,
        router.subscriber is Some ==> (routed matches Routed::Forwarded(forwarded) && forwarded@
            == message),
        router.subscriber is None ==> routed is Dropped,
{
}

/// What the reader does about a message, for every router, with and without a
/// subscriber: it sends the message to where it goes and reads on, and the router holds
/// what it holds after the message.
pub proof fn every_message_is_sent_to_where_it_goes<T, S>(
    router: RouterView<T, S>,
    message: MessageView,
    step: ReaderStep<T>,
    after: RouterView<T, S>,
)
    requires
        step.performs(router.action(EventView::Message(message))),
        after == router.after_event(EventView::Message(message)),
    ensures
        step matches ReaderStep::Continue(routed) && routed@ == router.route(message),
        after == router.after(message),
        message.method == Some("session/request_permission"@) && message.id is Some ==> (
        step matches ReaderStep::Continue(Routed::Answered { title, response }) && response.id
            == message.id->0),
        message.method != Some("session/request_permission"@) && message.id is Some
            && router.pending.contains_key(message.id->0) ==> (step matches ReaderStep::Continue(
            Routed::Resolved { slot, reply, copy },
        ) && slot == router.pending[message.id->0] && reply@ == message && !after.pending.contains_key(
            message.id->0,
        )),
        message.method != Some("session/request_permission"@) && router.subscriber is Some && (
        message.id is None || !router.pending.contains_key(message.id->0)) ==> (
        step matches ReaderStep::Continue(Routed::Forwarded(forwarded)) && forwarded@ == message),
{
}

/// A line that is no message changes nothing, and the reader reads on.
pub proof fn every_unreadable_line_is_skipped<T, S>(
    router: RouterView<T, S>,
    step: ReaderStep<T>,
    after: RouterView<T, S>,
)
    requires
        step.performs(router.action(EventView::Unreadable)),
        after == router.after_event(EventView::Unreadable),
    ensures
        step matches ReaderStep::Continue(Routed::Ignored),
        after == router,
{
}

/// At the end of the output the reader stops, and every request that waited, and no
/// other, gets the error that the connection is closed, once and in its own slot. The
/// router then holds nothing.
pub proof fn every_waiting_request_fails_at_the_end<T, S>(
    router: RouterView<T, S>,
    id: u64,
    step: ReaderStep<T>,
    after: RouterView<T, S>,
)
    requires
        step.performs(router.action(EventView::Ended)),
        after == router.after_event(EventView::Ended),
    ensures
        !after.pending.contains_key(id),
        after.subscriber is None,
        step matches ReaderStep::Stop(orphans) && {
            &&& router.pending.contains_key(id) <==> exists|i: int|
                0 <= i < orphans@.len() && (#[trigger] orphans@[i]).id == id
            &&& forall|i: int|
                0 <= i < orphans@.len() && (#[trigger] orphans@[i]).id == id ==> {
                    &&& orphans@[i].slot == router.pending[id]
                    &&& orphans@[i].message.id is None
                    &&& orphans@[i].message.method is None
                    &&& orphans@[i].message.params is None
                    &&& orphans@[i].message.result is None
                    &&& orphans@[i].message.error matches Some(error) && error.code == -1
                        && error.message@ == "connection closed"@ && error.data is None
                }
            &&& forall|i: int, j: int|
                0 <= i < orphans@.len() && 0 <= j < orphans@.len() && (#[trigger] orphans@[i]).id
                    == (#[trigger] orphans@[j]).id ==> i == j
        },
{
    let orphans = step->Stop_0;
    assert forall|i: int, j: int|
        0 <= i < orphans@.len() && 0 <= j < orphans@.len() && (#[trigger] orphans@[i]).id == (
        #[trigger] orphans@[j]).id implies i == j by {
        if i < j {
            assert(orphans@[i].id != orphans@[j].id);
        }
        if j < i {
            assert(orphans@[j].id != orphans@[i].id);
        }
    }
    assert forall|i: int| 0 <= i < orphans@.len() && (#[trigger] orphans@[i]).id == id implies {
        &&& orphans@[i].slot == router.pending[id]
        &&& orphans@[i].message@ == connection_closed()
        &&& router.pending.contains_key(id)
    } by {}
}

/// Letting a request wait, giving one up and subscribing change that alone, and a new
/// router holds nothing.
pub proof fn each_operation_changes_one_thing<T, S>(
    router: RouterView<T, S>,
    id: u64,
    slot: T,
    subscriber: S,
    other: u64,
)
    ensures
        router.waiting(id, slot).pending.contains_key(id),
        router.waiting(id, slot).pending[id] == slot,
        router.waiting(id, slot).subscriber == router.subscriber,
        !router.abandoned(id).pending.contains_key(id),
        router.abandoned(id).subscriber == router.subscriber,
        router.subscribed(subscriber).subscriber == Some(subscriber),
        router.subscribed(subscriber).pending == router.pending,
        other != id ==> {
            &&& router.waiting(id, slot).pending.contains_key(other)
                == router.pending.contains_key(other)
            &&& router.abandoned(id).pending.contains_key(other) == router.pending.contains_key(
                other,
            )
            &&& router.pending.contains_key(other) ==> router.waiting(id, slot).pending[other]
                == router.pending[other] && router.abandoned(id).pending[other]
                == router.pending[other]
        },
        !RouterView::<T, S>::empty().pending.contains_key(id),
        RouterView::<T, S>::empty().subscriber is None,
{
}

/// A message that is handed on is the very message that came in.
pub proof fn messages_are_handed_on_unchanged<T>(routed: Routed<T>, message: JsonRpcMessage)
    requires
        routed.hands_on(message),
    ensures
        routed matches Routed::Forwarded(forwarded) ==> forwarded == message,
        routed matches Routed::Resolved { slot, reply, copy } ==> reply == message,
{
}

/// What is said of an event is the event, with the message that came in.
pub proof fn events_say_what_happened(event: ReaderEvent)
    ensures
        event matches ReaderEvent::Message(message) ==> event@ == EventView::Message(message@),
        event is Unreadable ==> event@ is Unreadable,
        event is Ended ==> event@ is Ended,
{
}

} // verus!
