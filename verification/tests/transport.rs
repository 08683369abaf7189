use kitu::error::KituError;
use kitu::osc::{OscArg, OscBundle, OscMessage};
use kitu::transport::{disconnect, LocalChannel, Transport, TransportEvent};
use std::collections::VecDeque;

struct Queue {
    events: VecDeque<TransportEvent>,
}

impl Transport for Queue {
    fn send(&mut self, _message: OscMessage) -> Result<(), KituError> {
        Err(KituError::NotImplemented("send".into()))
    }

    fn poll_event(&mut self) -> Option<TransportEvent> {
        self.events.pop_front()
    }
}

#[test]
fn local_channel_reports_connection_then_messages() {
    let mut channel = LocalChannel::connected();
    assert_eq!(channel.poll_event(), Some(TransportEvent::Connected));

    channel
        .send(OscMessage::new("/ping"))
        .expect("send should enqueue message");
    match channel.poll_event() {
        Some(TransportEvent::Message(bundle)) => {
            assert_eq!(bundle.len(), 1);
            assert_eq!(bundle.messages[0].address, "/ping");
        }
        other => panic!("unexpected event: {other:?}"),
    }
}

#[test]
fn disconnect_returns_not_implemented_error() {
    let mut channel = LocalChannel::default();
    let result = disconnect(&mut channel);
    assert!(matches!(result, Err(KituError::NotImplemented(_))));
}

#[test]
fn disconnect_names_the_capability_and_leaves_the_channel_alone() {
    let mut channel = LocalChannel::connected();
    channel.send(OscMessage::new("/a")).unwrap();
    assert_eq!(
        disconnect(&mut channel),
        Err(KituError::NotImplemented("disconnect".to_string()))
    );
    assert_eq!(channel.poll_event(), Some(TransportEvent::Connected));
    assert!(matches!(channel.poll_event(), Some(TransportEvent::Message(_))));
    assert_eq!(channel.poll_event(), None);
}

#[test]
fn default_channel_has_no_events() {
    let mut channel = LocalChannel::default();
    assert_eq!(channel.poll_event(), None);
    assert_eq!(channel.poll_event(), None);
}

#[test]
fn connected_channel_hands_out_sends_in_call_order_then_nothing() {
    let mut channel = LocalChannel::connected();
    let mut first = OscMessage::new("/one");
    first.push_arg(OscArg::Int(1));
    let second = OscMessage::new("/two");
    let mut third = OscMessage::new("/three");
    third.push_arg(OscArg::Str("x".into()));
    assert_eq!(channel.send(first.clone()), Ok(()));
    assert_eq!(channel.send(second.clone()), Ok(()));
    assert_eq!(channel.send(third.clone()), Ok(()));

    assert_eq!(channel.poll_event(), Some(TransportEvent::Connected));
    for sent in [first, second, third] {
        let mut bundle = OscBundle::new();
        bundle.push(sent);
        assert_eq!(channel.poll_event(), Some(TransportEvent::Message(bundle)));
    }
    assert_eq!(channel.poll_event(), None);
    assert_eq!(channel.poll_event(), None);
}

#[test]
fn bundle_keeps_its_order_through_an_event() {
    let mut bundle = OscBundle::new();
    bundle.push(OscMessage::new("/a"));
    bundle.push(OscMessage::new("/b"));
    let mut queue = Queue { events: VecDeque::new() };
    queue.events.push_back(TransportEvent::Message(bundle));
    match queue.poll_event() {
        Some(TransportEvent::Message(out)) => {
            assert_eq!(out.len(), 2);
            assert_eq!(out.messages[0].address, "/a");
            assert_eq!(out.messages[1].address, "/b");
        }
        other => panic!("unexpected event: {other:?}"),
    }
    assert_eq!(queue.poll_event(), None);
}

#[test]
fn send_failure_reaches_the_caller() {
    let mut queue = Queue { events: VecDeque::new() };
    assert_eq!(
        queue.send(OscMessage::new("/a")),
        Err(KituError::NotImplemented("send".to_string()))
    );
    assert_eq!(queue.poll_event(), None);
}
