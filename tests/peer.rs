use miibgpd::bgp_type::{AutonomousSystemNumber, Ipv4Address};
use miibgpd::config::Config;
use miibgpd::connection::MessageBuffer;
use miibgpd::event::Event;
use miibgpd::event_queue::EventQueue;
use miibgpd::packets::message::Message;
use miibgpd::peer::{Peer, PeerAction};
use miibgpd::state::State;

fn config(s: &str) -> Config {
    Config::parse(s).unwrap()
}

/// One side of an in-memory connection: the peer and the octets it has
/// received but not yet read.
struct Side {
    peer: Peer,
    inbox: MessageBuffer,
}

impl Side {
    fn new(config: Config) -> Self {
        let mut peer = Peer::new(config);
        peer.start();
        Side { peer, inbox: MessageBuffer::new() }
    }
}

/// One step of a peer, as its driver runs it: apply the queued event and
/// carry out what it asks for, then read at most one message. The
/// connection always succeeds; what is sent lands in `remote_inbox`.
fn next(side: &mut Side, remote_inbox: &mut MessageBuffer, sent: &mut Vec<Message>) {
    match side.peer.step() {
        PeerAction::OpenConnection => side.peer.connection_result(true).unwrap(),
        PeerAction::Send(message) => {
            remote_inbox.push_bytes(&message.to_bytes()[..]);
            sent.push(message);
        }
        PeerAction::Nothing => {}
    }
    if let Some(message) = side.inbox.get_message() {
        side.peer.handle_message(message);
    }
}

fn step_pair(a: &mut Side, b: &mut Side, sent_a: &mut Vec<Message>, sent_b: &mut Vec<Message>) {
    next(a, &mut b.inbox, sent_a);
    next(b, &mut a.inbox, sent_b);
}

#[test]
fn peer_can_transition_to_open_established_state() {
    let mut peer = Side::new(config("64512 127.0.0.1 64513 127.0.0.2 active"));
    let mut remote_peer =
        Side::new(config("64513 127.0.0.2 64512 127.0.0.1 passive"));
    let (mut sent, mut remote_sent) = (vec![], vec![]);

    let max_step = 50;
    for _ in 0..max_step {
        step_pair(&mut peer, &mut remote_peer, &mut sent, &mut remote_sent);
        if peer.peer.state() == State::Established && remote_peer.peer.state() == State::Established {
            break;
        }
    }

    assert_eq!(peer.peer.state, State::Established);
    assert_eq!(remote_peer.peer.state, State::Established);
}

#[test]
fn peer_can_transition_to_open_confirm_state() {
    let mut peer = Side::new(config("64512 127.0.0.1 64513 127.0.0.2 active"));
    let mut remote_peer =
        Side::new(config("64513 127.0.0.2 64512 127.0.0.1 passive"));
    let (mut sent, mut remote_sent) = (vec![], vec![]);

    // The remote sends its OPEN and stops before its KEEPALIVE goes out.
    let mut sink = MessageBuffer::new();
    let max_step = 50;
    for _ in 0..max_step {
        next(&mut peer, &mut remote_peer.inbox, &mut sent);
        if remote_peer.peer.state() == State::OpenSent {
            next(&mut remote_peer, &mut sink, &mut remote_sent);
        } else {
            next(&mut remote_peer, &mut peer.inbox, &mut remote_sent);
        }
        if peer.peer.state() == State::OpenConfirm && remote_peer.peer.state() == State::OpenConfirm {
            break;
        }
    }
    for _ in 0..max_step {
        next(&mut peer, &mut remote_peer.inbox, &mut sent);
    }

    assert_eq!(peer.peer.state, State::OpenConfirm);
    assert!(matches!(sent[0], Message::Open(_)));
    assert!(matches!(sent[1], Message::Keepalive(_)));
}

#[test]
fn peer_can_transition_to_connect_state() {
    let mut peer = Side::new(config("64512 127.0.0.1 65413 127.0.0.2 active"));
    let mut remote_peer =
        Side::new(config("64513 127.0.0.2 64512 127.0.0.1 passive"));
    let (mut sent, mut remote_sent) = (vec![], vec![]);

    next(&mut remote_peer, &mut peer.inbox, &mut remote_sent);
    next(&mut peer, &mut remote_peer.inbox, &mut sent);
    assert_eq!(peer.peer.state, State::Connect);
}

#[test]
fn peer_can_transition_to_open_sent_state() {
    let mut peer = Side::new(config("64512 127.0.0.1 65413 127.0.0.2 active"));
    let mut remote_peer =
        Side::new(config("64513 127.0.0.2 65412 127.0.0.1 passive"));
    let (mut sent, mut remote_sent) = (vec![], vec![]);

    next(&mut remote_peer, &mut peer.inbox, &mut remote_sent);
    next(&mut remote_peer, &mut peer.inbox, &mut remote_sent);
    next(&mut peer, &mut remote_peer.inbox, &mut sent);
    next(&mut peer, &mut remote_peer.inbox, &mut sent);
    assert_eq!(peer.peer.state, State::OpenSent);
    assert_eq!(
        sent,
        vec![Message::new_open(AutonomousSystemNumber(64512), Ipv4Address::new(127, 0, 0, 1))]
    );
}

#[test]
fn idle_without_events_stays_idle() {
    let mut peer = Peer::new(config("64512 127.0.0.1 64513 127.0.0.2 active"));
    for _ in 0..10 {
        assert_eq!(peer.step(), PeerAction::Nothing);
        assert_eq!(peer.state(), State::Idle);
    }
}

#[test]
fn manual_start_reaches_connect_in_one_step() {
    let mut peer = Peer::new(config("64512 127.0.0.1 64513 127.0.0.2 active"));
    peer.start();
    assert_eq!(peer.step(), PeerAction::OpenConnection);
    assert!(peer.connection_result(true).is_ok());
    assert_eq!(peer.state(), State::Connect);
    assert_eq!(peer.event_queue.len(), 1);
}

#[test]
fn failed_connection_leaves_peer_idle() {
    let mut peer = Peer::new(config("64512 127.0.0.1 64513 127.0.0.2 active"));
    peer.start();
    assert_eq!(peer.step(), PeerAction::OpenConnection);
    assert!(peer.connection_result(false).is_err());
    assert_eq!(peer.state(), State::Idle);
    assert_eq!(peer.event_queue.len(), 0);
}

#[test]
fn established_ignores_further_events() {
    let c = config("64512 127.0.0.1 64513 127.0.0.2 active");
    let mut peer = Peer::new(c);
    peer.state = State::Established;
    let open = match Message::new_open(AutonomousSystemNumber(64513), Ipv4Address::new(127, 0, 0, 2)) {
        Message::Open(o) => o,
        _ => unreachable!(),
    };
    for event in [Event::ManualStart, Event::TcpConnectionConfirmed, Event::BgpOpen(open)] {
        assert_eq!(peer.handle_event(event), PeerAction::Nothing);
        assert_eq!(peer.state(), State::Established);
    }
}

#[test]
fn events_leave_the_queue_in_arrival_order() {
    let mut q = EventQueue::new();
    q.enqueue(Event::ManualStart);
    q.enqueue(Event::TcpConnectionConfirmed);
    q.enqueue(Event::Established);
    assert_eq!(q.len(), 3);
    assert_eq!(q.peek(), Some(&Event::ManualStart));
    assert_eq!(q.dequeue(), Some(Event::ManualStart));
    assert_eq!(q.dequeue(), Some(Event::TcpConnectionConfirmed));
    assert_eq!(q.dequeue(), Some(Event::Established));
    assert_eq!(q.dequeue(), None);
}
