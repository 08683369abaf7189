//! The transport contract: sending messages and polling events without
//! blocking, and an in-memory channel that echoes what is sent.

use crate::error::{fails_with, ErrorView, KituError};
use crate::osc::{MessageView, OscBundle, OscMessage};
use std::collections::VecDeque;
use vstd::prelude::*;

verus! {

/// What a transport reports.
#[derive(Debug, Clone, PartialEq)]
pub enum TransportEvent {
    /// The transport is connected to its peer.
    Connected,
    /// The transport has lost its peer.
    Disconnected,
    /// A bundle of messages has arrived.
    Message(OscBundle),
}

/// Mathematical value of a [`TransportEvent`].
pub enum EventView {
    Connected,
    Disconnected,
    Message(Seq<MessageView>),
}

impl View for TransportEvent {
    type V = EventView;

    open spec fn view(&self) -> EventView {
        match self {
            TransportEvent::Connected => EventView::Connected,
            TransportEvent::Disconnected => EventView::Disconnected,
            TransportEvent::Message(bundle) => EventView::Message(bundle@),
        }
    }
}

/// The values of a queue of events.
pub open spec fn event_views(events: Seq<TransportEvent>) -> Seq<EventView> {
    events.map_values(|event: TransportEvent| event@)
}

/// What a poll returns from the queue `pending`: its first event, or
/// nothing where it is empty.
pub open spec fn polled(pending: Seq<EventView>) -> Option<EventView> {
    if pending.len() > 0 {
        Some(pending[0])
    } else {
        None
    }
}

/// What a poll leaves of the queue `pending`: all but its first event.
pub open spec fn after_poll(pending: Seq<EventView>) -> Seq<EventView> {
    if pending.len() > 0 {
        pending.skip(1)
    } else {
        pending
    }
}

/// What `polls` polls, one after the other, leave of the queue `pending`.
pub open spec fn after_polls(pending: Seq<EventView>, polls: nat) -> Seq<EventView>
    decreases polls,
{
    if polls == 0 {
        pending
    } else {
        after_polls(after_poll(pending), (polls - 1) as nat)
    }
}

/// The queue of the in-memory channel that was made connected.
pub open spec fn connected_queue() -> Seq<EventView> {
    seq![EventView::Connected]
}

/// The event that the in-memory channel queues when `message` is sent: a
/// bundle that holds that message alone.
pub open spec fn echo_of(message: MessageView) -> EventView {
    EventView::Message(seq![message])
}

/// What sending `message` on the in-memory channel makes of its queue.
pub open spec fn after_send(pending: Seq<EventView>, message: MessageView) -> Seq<EventView> {
    pending.push(echo_of(message))
}

/// What sending `messages` in order makes of the queue `pending`.
pub open spec fn after_sends(pending: Seq<EventView>, messages: Seq<MessageView>) -> Seq<EventView>
    decreases messages.len(),
{
    if messages.len() == 0 {
        pending
    } else {
        after_send(after_sends(pending, messages.drop_last()), messages.last())
    }
}

/// Polls take events from the front: `polls` polls leave what stands behind
/// the first `polls` events, and nothing once the queue is used up.
pub proof fn lemma_after_polls(pending: Seq<EventView>, polls: nat)
    ensures
        polls <= pending.len() ==> after_polls(pending, polls) == pending.skip(polls as int),
        polls >= pending.len() ==> after_polls(pending, polls).len() == 0,
    decreases polls,
{
    if polls == 0 {
        assert(pending.skip(0) =~= pending);
    } else {
        lemma_after_polls(after_poll(pending), (polls - 1) as nat);
        if 0 < pending.len() && polls <= pending.len() {
            assert(pending.skip(1).skip(polls - 1) =~= pending.skip(polls as int));
        }
    }
}

/// Sends queue their echoes at the back, in call order.
pub proof fn lemma_after_sends(pending: Seq<EventView>, messages: Seq<MessageView>)
    ensures
        after_sends(pending, messages) == pending + messages.map_values(
            |message: MessageView| echo_of(message),
        ),
    decreases messages.len(),
{
    let echoes = messages.map_values(|message: MessageView| echo_of(message));
    if messages.len() == 0 {
        assert(pending + echoes =~= pending);
    } else {
        lemma_after_sends(pending, messages.drop_last());
        let earlier = messages.drop_last().map_values(|message: MessageView| echo_of(message));
        assert((pending + earlier).push(echo_of(messages.last())) =~= pending + echoes);
    }
}

/// The in-memory channel that was made connected hands out, poll by poll:
/// first `Connected`, then for each message sent a bundle with that message
/// alone, in the order of the sends, and then nothing.
pub proof fn lemma_connected_channel_order(messages: Seq<MessageView>, polls: nat)
    ensures
        ({
            let queue = after_sends(connected_queue(), messages);
            let next = polled(after_polls(queue, polls));
            &&& polls == 0 ==> next == Some(EventView::Connected)
            &&& 1 <= polls <= messages.len() ==> next == Some(echo_of(messages[polls - 1]))
            &&& polls > messages.len() ==> next is None
        }),
{
    let queue = after_sends(connected_queue(), messages);
    lemma_after_sends(connected_queue(), messages);
    lemma_after_polls(queue, polls);
}

/// The contract of a delivery mechanism: messages go out through `send`,
/// events come in through `poll_event`, which never blocks.
pub trait Transport {
    /// The events that wait to be polled, oldest first. A transport that
    /// says nothing has none.
    open spec fn pending(&self) -> Seq<EventView> {
        Seq::empty()
    }

    /// Queues or transmits `message`; fails if the link cannot take it.
    fn send(&mut self, message: OscMessage) -> (outcome: Result<(), KituError>)
    ;

    /// Returns the oldest waiting event and removes it; `None`, at once, if
    /// no event waits.
    fn poll_event(&mut self) -> (event: Option<TransportEvent>)
        ensures
            match polled(old(self).pending()) {
                Some(oldest) => event matches Some(e) && e@ == oldest,
                None => event is None,
            },
            final(self).pending() == after_poll(old(self).pending()),
    ;
}

/// An in-memory transport for tests and local runs: what is sent comes
/// back as an event.
pub struct LocalChannel {
    inbox: VecDeque<TransportEvent>,
}

impl Default for LocalChannel {
    /// The channel without waiting events.
    fn default() -> (channel: LocalChannel)
        ensures
            channel.pending() == Seq::<EventView>::empty(),
    {
        let channel = LocalChannel { inbox: VecDeque::new() };
        assert(channel.pending() =~= Seq::<EventView>::empty());
        channel
    }
}

impl LocalChannel {
    /// The channel on which a `Connected` event waits, and nothing else.
    pub fn connected() -> (channel: LocalChannel)
        ensures
            channel.pending() == connected_queue(),
    {
        let mut inbox: VecDeque<TransportEvent> = VecDeque::new();
        inbox.push_back(TransportEvent::Connected);
        let channel = LocalChannel { inbox };
        assert(channel.pending() =~= connected_queue());
        channel
    }
}

impl Transport for LocalChannel {
    closed spec fn pending(&self) -> Seq<EventView> {
        event_views(self.inbox@)
    }

    /// Queues a bundle that holds `message` alone. Never fails.
    fn send(&mut self, message: OscMessage) -> (outcome: Result<(), KituError>)
        ensures
            outcome is Ok,
            final(self).pending() == after_send(old(self).pending(), message@),
    {
        let mut bundle = OscBundle::new();
        bundle.push(message);
        assert(bundle@ =~= seq![message@]);
        self.inbox.push_back(TransportEvent::Message(bundle));
        assert(self.pending() =~= after_send(old(self).pending(), message@));
        Ok(())
    }

    fn poll_event(&mut self) -> (event: Option<TransportEvent>)
    {
        let event = self.inbox.pop_front();
        proof {
            if old(self).inbox@.len() > 0 {
                assert(self.pending() =~= old(self).pending().skip(1));
            }
        }
        event
    }
}

/// The failure reported by [`disconnect`].
pub open spec fn disconnect_missing() -> ErrorView {
    ErrorView::NotImplemented("disconnect"@)
}

/// Asks `transport` to disconnect. What becomes of buffered events on a
/// disconnect is undecided, so this always fails, naming the capability,
/// and leaves the transport as it is.
pub fn disconnect<T: Transport>(transport: &mut T) -> (outcome: Result<(), KituError>)
    ensures
        fails_with(outcome, disconnect_missing()),
        *final(transport) == *old(transport),
{
    Err(KituError::NotImplemented("disconnect".to_owned()))
}

} // verus!
