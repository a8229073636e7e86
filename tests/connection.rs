use miibgpd::bgp_type::{AutonomousSystemNumber, Ipv4Address};
use miibgpd::connection::MessageBuffer;
use miibgpd::packets::message::Message;

#[test]
fn buffer_holds_back_incomplete_messages() {
    let open = Message::new_open(AutonomousSystemNumber(64512), Ipv4Address::new(127, 0, 0, 1));
    let ka = Message::new_keepalive();
    let mut wire = open.to_bytes().to_vec();
    wire.extend_from_slice(&ka.to_bytes()[..]);

    let mut buffer = MessageBuffer::new();
    buffer.push_bytes(&wire[..10]);
    assert_eq!(buffer.get_message(), None);
    assert_eq!(buffer.len(), 10);
    buffer.push_bytes(&wire[10..30]);
    assert_eq!(buffer.get_message(), Some(open));
    assert_eq!(buffer.len(), 1);
    assert_eq!(buffer.get_message(), None);
    buffer.push_bytes(&wire[30..]);
    assert_eq!(buffer.get_message(), Some(ka));
    assert_eq!(buffer.len(), 0);
    assert!(buffer.can_accept(4096));
}

#[test]
fn buffer_drops_a_message_that_does_not_read() {
    let mut bad = vec![0xffu8; 16];
    bad.extend_from_slice(&[0, 19, 3]);
    let mut buffer = MessageBuffer::new();
    buffer.push_bytes(&bad);
    buffer.push_bytes(&Message::new_keepalive().to_bytes()[..]);
    assert_eq!(buffer.get_message(), None);
    assert_eq!(buffer.len(), 19);
    assert_eq!(buffer.get_message(), Some(Message::new_keepalive()));
}

#[test]
fn split_takes_exactly_one_frame() {
    let mut buffer = MessageBuffer::new();
    let ka = Message::new_keepalive().to_bytes();
    buffer.push_bytes(&ka[..]);
    buffer.push_bytes(&ka[..]);
    let frame = buffer.split_buffer_at_message_separator().unwrap();
    assert_eq!(&frame[..], &ka[..]);
    assert_eq!(buffer.len(), 19);
}
