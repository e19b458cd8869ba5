use std::collections::HashSet;

use vstd::prelude::*;

verus! {

broadcast use vstd::std_specs::hash::group_hash_axioms;

/// Progress of a die import, as shown to subscribed clients.
#[derive(Debug, Clone, Copy, PartialEq, Eq, Structural)]
pub enum DieImportState {
    Peeked,
    ShotDecoding,
    ShotDecoded,
    TileWritten { current: u32, total: u32 },
    Done,
}

/// An event that concerns one die and is broadcast to every open connection.
#[derive(Debug, Clone, Copy)]
pub enum RealtimeEvent {
    AnnotationChange { die_id: u128, new_revision: u32 },
    DieImportStateChange { die_id: u128, state: DieImportState },
    MLJobUpdate { die_id: u128, job: () },
}

/// A message a client sends over its connection.
#[derive(Debug, Clone, Copy, PartialEq, Eq, Structural)]
pub enum WsMessageRecv {
    Ping,
    Subscribe { die_id: u128 },
    Unsubscribe { die_id: u128 },
}

/// A message sent to a client over its connection.
#[derive(Debug, Clone, Copy)]
pub enum WsMessageSend {
    Pong,
    Annotations { die_id: u128, rev: u32 },
    MLJob { die_id: u128, job: () },
    ImportState { die_id: u128, state: DieImportState },
}

impl RealtimeEvent {
    /// The die the event is about.
    pub open spec fn spec_die_id(self) -> u128 {
        match self {
            RealtimeEvent::AnnotationChange { die_id, .. } => die_id,
            RealtimeEvent::DieImportStateChange { die_id, .. } => die_id,
            RealtimeEvent::MLJobUpdate { die_id, .. } => die_id,
        }
    }

    /// The message that tells a client of this event.
    pub open spec fn spec_message(self) -> WsMessageSend {
        match self {
            RealtimeEvent::AnnotationChange { die_id, new_revision } => WsMessageSend::Annotations {
                die_id,
                rev: new_revision,
            },
            RealtimeEvent::MLJobUpdate { die_id, job } => WsMessageSend::MLJob { die_id, job },
            RealtimeEvent::DieImportStateChange { die_id, state } => WsMessageSend::ImportState {
                die_id,
                state,
            },
        }
    }

    /// Whether a connection subscribed to the dies `subs` gets this event:
    /// exactly when the event's die is among them.
    pub fn should_recv(&self, subs: &HashSet<u128>) -> (r: bool)
        ensures
            r == subs@.contains(self.spec_die_id()),
    {
        match self {
            RealtimeEvent::AnnotationChange { die_id, .. } => subs.contains(die_id),
            RealtimeEvent::MLJobUpdate { die_id, .. } => subs.contains(die_id),
            RealtimeEvent::DieImportStateChange { die_id, .. } => subs.contains(die_id),
        }
    }

    /// The message that tells a client of this event.
    pub fn to_message(&self) -> (m: WsMessageSend)
        ensures
            m == self.spec_message(),
            match *self {
                RealtimeEvent::AnnotationChange { die_id, new_revision } => m
                    == WsMessageSend::Annotations { die_id, rev: new_revision },
                RealtimeEvent::MLJobUpdate { die_id, job } => m == WsMessageSend::MLJob { die_id, job },
                RealtimeEvent::DieImportStateChange { die_id, state } => m == WsMessageSend::ImportState {
                    die_id,
                    state,
                },
            },
    {
        match *self {
            RealtimeEvent::AnnotationChange { die_id, new_revision } => WsMessageSend::Annotations {
                die_id,
                rev: new_revision,
            },
            RealtimeEvent::MLJobUpdate { die_id, job } => WsMessageSend::MLJob { die_id, job },
            RealtimeEvent::DieImportStateChange { die_id, state } => WsMessageSend::ImportState {
                die_id,
                state,
            },
        }
    }
}

/// What a connection forwards of a broadcast event, given the dies it is
/// subscribed to: the event's message if its die is among them, else nothing.
pub open spec fn spec_forward(subs: Set<u128>, event: RealtimeEvent) -> Option<WsMessageSend> {
    if subs.contains(event.spec_die_id()) {
        Some(event.spec_message())
    } else {
        None
    }
}

/// How a connection's subscriptions change on a client message, and what it
/// answers: a ping is answered with a pong, a subscription adds the die, an
/// unsubscription removes it.
pub open spec fn spec_receive(subs: Set<u128>, msg: WsMessageRecv) -> (Set<u128>, Option<WsMessageSend>) {
    match msg {
        WsMessageRecv::Ping => (subs, Some(WsMessageSend::Pong)),
        WsMessageRecv::Subscribe { die_id } => (subs.insert(die_id), None),
        WsMessageRecv::Unsubscribe { die_id } => (subs.remove(die_id), None),
    }
}

/// The state of one client connection: the dies it is subscribed to.
pub struct Subscriptions {
    pub dies: HashSet<u128>,
}

impl View for Subscriptions {
    type V = Set<u128>;

    open spec fn view(&self) -> Set<u128> {
        self.dies@
    }
}

impl Subscriptions {
    /// A fresh connection, subscribed to nothing.
    pub fn new() -> (s: Self)
        ensures
            s@ == Set::<u128>::empty(),
    {
        Subscriptions { dies: HashSet::new() }
    }

    /// What to send the client for a broadcast event.
    pub fn on_event(&self, event: &RealtimeEvent) -> (m: Option<WsMessageSend>)
        ensures
            m == spec_forward(self@, *event),
    {
        if !event.should_recv(&self.dies) {
            return None;
        }
        Some(event.to_message())
    }

    /// Handles a client message and gives the answer to send, if any.
    pub fn on_message(&mut self, msg: WsMessageRecv) -> (reply: Option<WsMessageSend>)
        ensures
            (final(self)@, reply) == spec_receive(old(self)@, msg),
    {
        match msg {
            WsMessageRecv::Ping => Some(WsMessageSend::Pong),
            WsMessageRecv::Subscribe { die_id } => {
                self.dies.insert(die_id);
                None
            },
            WsMessageRecv::Unsubscribe { die_id } => {
                self.dies.remove(&die_id);
                None
            },
        }
    }
}

/// A connection that has just subscribed to a die is told of every event
/// about that die.
pub proof fn subscribed_die_events_are_forwarded(
    subs: Set<u128>,
    die_id: u128,
    event: RealtimeEvent,
)
    requires
        event.spec_die_id() == die_id,
    ensures
        spec_forward(spec_receive(subs, WsMessageRecv::Subscribe { die_id }).0, event) == Some(
            event.spec_message(),
        ),
{
}

/// A connection that has just unsubscribed from a die is told of no event
/// about that die.
pub proof fn unsubscribed_die_events_are_dropped(
    subs: Set<u128>,
    die_id: u128,
    event: RealtimeEvent,
)
    requires
        event.spec_die_id() == die_id,
    ensures
        spec_forward(spec_receive(subs, WsMessageRecv::Unsubscribe { die_id }).0, event)
            == None::<WsMessageSend>,
{
}

/// A fresh connection is told of no event at all.
pub proof fn fresh_connection_forwards_nothing(event: RealtimeEvent)
    ensures
        spec_forward(Set::<u128>::empty(), event) == None::<WsMessageSend>,
{
}

/// Subscribing or unsubscribing leaves the subscriptions to every other die
/// as they were, and a ping changes nothing.
pub proof fn messages_touch_only_their_die(subs: Set<u128>, msg: WsMessageRecv, other: u128)
    requires
        msg matches WsMessageRecv::Subscribe { die_id } ==> die_id != other,
        msg matches WsMessageRecv::Unsubscribe { die_id } ==> die_id != other,
    ensures
        spec_receive(subs, msg).0.contains(other) == subs.contains(other),
{
}

/// Subscribing twice is the same as subscribing once, and unsubscribing
/// after subscribing to a die not subscribed before restores the
/// subscriptions.
pub proof fn subscribe_idempotent_and_undone(subs: Set<u128>, die_id: u128)
    ensures
        spec_receive(spec_receive(subs, WsMessageRecv::Subscribe { die_id }).0, WsMessageRecv::Subscribe { die_id }).0
            == spec_receive(subs, WsMessageRecv::Subscribe { die_id }).0,
        !subs.contains(die_id) ==> spec_receive(
            spec_receive(subs, WsMessageRecv::Subscribe { die_id }).0,
            WsMessageRecv::Unsubscribe { die_id },
        ).0 == subs,
{
    assert(subs.insert(die_id).insert(die_id) =~= subs.insert(die_id));
    if !subs.contains(die_id) {
        assert(subs.insert(die_id).remove(die_id) =~= subs);
    }
}

/// The dies a connection starting with the subscriptions `subs` is
/// subscribed to after handling the client messages `msgs`, in order.
pub open spec fn subs_after(subs: Set<u128>, msgs: Seq<WsMessageRecv>) -> Set<u128>
    decreases msgs.len(),
{
    if msgs.len() == 0 {
        subs
    } else {
        spec_receive(subs_after(subs, msgs.drop_last()), msgs.last()).0
    }
}

/// What the last of the messages `msgs` that names die `d` asks for:
/// `Some(true)` for a subscription, `Some(false)` for an unsubscription,
/// `None` when no message names it.
pub open spec fn last_word(msgs: Seq<WsMessageRecv>, d: u128) -> Option<bool>
    decreases msgs.len(),
{
    if msgs.len() == 0 {
        None
    } else if msgs.last() == (WsMessageRecv::Subscribe { die_id: d }) {
        Some(true)
    } else if msgs.last() == (WsMessageRecv::Unsubscribe { die_id: d }) {
        Some(false)
    } else {
        last_word(msgs.drop_last(), d)
    }
}

/// After a sequence of messages, a connection is subscribed to a die
/// exactly when the last message naming it subscribed to it, or, when none
/// names it, when it was subscribed before.
proof fn lemma_subs_after(subs: Set<u128>, msgs: Seq<WsMessageRecv>, d: u128)
    ensures
        subs_after(subs, msgs).contains(d) == (match last_word(msgs, d) {
            Some(b) => b,
            None => subs.contains(d),
        }),
    decreases msgs.len(),
{
    if msgs.len() > 0 {
        lemma_subs_after(subs, msgs.drop_last(), d);
    }
}

/// After any sequence of client messages, an event is forwarded to the
/// connection exactly when its die is still subscribed: when the last
/// message naming the die subscribed to it, or, if no message names it,
/// when the connection was subscribed to it at the start. A connection
/// that starts fresh forwards only events of dies it last subscribed to.
pub proof fn events_follow_last_subscription(subs: Set<u128>, msgs: Seq<WsMessageRecv>, event: RealtimeEvent)
    ensures
        spec_forward(subs_after(subs, msgs), event) == (if (match last_word(msgs, event.spec_die_id()) {
            Some(b) => b,
            None => subs.contains(event.spec_die_id()),
        }) {
            Some(event.spec_message())
        } else {
            None
        }),
        spec_forward(subs_after(Set::empty(), msgs), event) == (if last_word(msgs, event.spec_die_id())
            == Some(true) {
            Some(event.spec_message())
        } else {
            None
        }),
{
    lemma_subs_after(subs, msgs, event.spec_die_id());
    lemma_subs_after(Set::empty(), msgs, event.spec_die_id());
}

/// What a connection forwards of an event carries the event's die and
/// payload unchanged: an annotation change as its revision, an ML job update
/// as its job, an import progress as the very same state. Nothing is
/// forwarded for a die the connection is not subscribed to.
pub proof fn forwarded_messages_carry_the_event(subs: Set<u128>, event: RealtimeEvent)
    ensures
        match event {
            RealtimeEvent::AnnotationChange { die_id, new_revision } => spec_forward(subs, event) == (if subs.contains(
                die_id,
            ) {
                Some(WsMessageSend::Annotations { die_id, rev: new_revision })
            } else {
                None
            }),
            RealtimeEvent::MLJobUpdate { die_id, job } => spec_forward(subs, event) == (if subs.contains(die_id) {
                Some(WsMessageSend::MLJob { die_id, job })
            } else {
                None
            }),
            RealtimeEvent::DieImportStateChange { die_id, state } => spec_forward(subs, event) == (
            if subs.contains(die_id) {
                Some(WsMessageSend::ImportState { die_id, state })
            } else {
                None
            }),
        },
{
}

} // verus!
