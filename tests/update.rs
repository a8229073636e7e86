use std::sync::Arc;

use miibgpd::bgp_type::{AutonomousSystemNumber, Ipv4Address};
use miibgpd::error::DecodeErrorKind;
use miibgpd::packets::message::Message;
use miibgpd::packets::update::UpdateMessage;
use miibgpd::path_attribute::{AsPath, Origin, PathAttribute};
use miibgpd::routing::Ipv4Network;

fn net(a: u8, b: u8, c: u8, d: u8, prefix: u8) -> Ipv4Network {
    Ipv4Network::new(Ipv4Address::new(a, b, c, d), prefix).unwrap()
}

fn encode_update(m: &UpdateMessage) -> Vec<u8> {
    Message::Update(m.clone()).to_bytes().to_vec()
}

fn decode_update(bytes: &[u8]) -> UpdateMessage {
    match Message::from_slice(bytes).unwrap() {
        Message::Update(m) => m,
        other => panic!("not an UPDATE: {:?}", other),
    }
}

#[test]
fn convert_bytes_to_update_message_and_update_message_to_bytes() {
    let some_as: AutonomousSystemNumber = 64513.into();
    let _some_ip = Ipv4Address::new(10, 0, 100, 3);

    let local_as: AutonomousSystemNumber = 64514.into();
    let local_ip = Ipv4Address::new(10, 200, 100, 3);

    let update_message_path_attributes = Arc::new(vec![
        PathAttribute::Origin(Origin::Igp),
        PathAttribute::AsPath(AsPath::AsSequence(vec![some_as, local_as])),
        PathAttribute::NextHop(local_ip),
    ]);

    let update_message = UpdateMessage::new(
        update_message_path_attributes,
        vec![net(10, 100, 220, 0, 24)],
        vec![],
    );

    let update_message_bytes = encode_update(&update_message);
    let update_message2: UpdateMessage = decode_update(&update_message_bytes);
    assert_eq!(update_message, update_message2);
}

#[test]
fn update_length_field_matches_encoding() {
    let attrs = Arc::new(vec![
        PathAttribute::Origin(Origin::Igp),
        PathAttribute::AsPath(AsPath::AsSequence(vec![
            AutonomousSystemNumber(64513),
            AutonomousSystemNumber(64514),
        ])),
        PathAttribute::NextHop(Ipv4Address::new(10, 200, 100, 3)),
    ]);
    let m = UpdateMessage::new(attrs, vec![net(10, 100, 220, 0, 24)], vec![]);
    let bytes = encode_update(&m);
    // 19 + 2 + 0 + 2 + (4 + 9 + 7) + 4
    assert_eq!(bytes.len(), 47);
    assert_eq!(m.header.length as usize, bytes.len());
    assert_eq!(u16::from_be_bytes([bytes[16], bytes[17]]), 47);
    assert_eq!(m.path_attributes_length, 20);
    assert_eq!(m.withdrawn_routes_length, 0);
    assert_eq!(
        &bytes[19..],
        &[
            0, 0, 0, 20, 0x40, 1, 1, 0, 0x40, 2, 6, 2, 2, 0xfc, 0x01, 0xfc, 0x02, 0x40, 3, 4, 10,
            200, 100, 3, 24, 10, 100, 220
        ]
    );
}

#[test]
fn update_with_withdrawn_routes_round_trips() {
    let m = UpdateMessage::new(
        Arc::new(vec![]),
        vec![net(0, 0, 0, 0, 0), net(192, 168, 1, 1, 32)],
        vec![net(10, 0, 0, 0, 8), net(172, 16, 0, 0, 12)],
    );
    let bytes = encode_update(&m);
    assert_eq!(m.withdrawn_routes_length, 2 + 3);
    assert_eq!(bytes.len(), 23 + 5 + 1 + 5);
    assert_eq!(decode_update(&bytes), m);
}

#[test]
fn update_with_length_past_the_end_is_truncated() {
    let mut bytes = vec![0xffu8; 16];
    bytes.extend_from_slice(&[0, 23, 2, 0, 5, 0, 0]);
    assert_eq!(Message::from_slice(&bytes).unwrap_err().kind, DecodeErrorKind::Truncated);
}

#[test]
fn message_length_must_match_header() {
    let mut bytes = vec![0xffu8; 16];
    bytes.extend_from_slice(&[0, 19, 4, 0]);
    assert_eq!(Message::from_slice(&bytes).unwrap_err().kind, DecodeErrorKind::LengthMismatch);
    let mut keepalive = vec![0xffu8; 16];
    keepalive.extend_from_slice(&[0, 19, 4]);
    assert!(matches!(Message::from_slice(&keepalive), Ok(Message::Keepalive(_))));
    assert_eq!(Message::from_slice(&keepalive[..10]).unwrap_err().kind, DecodeErrorKind::MessageTooShort);
}

#[test]
fn keepalive_encodes_to_nineteen_octets() {
    let bytes = Message::new_keepalive().to_bytes();
    assert_eq!(bytes.len(), 19);
    assert_eq!(&bytes[16..], &[0, 19, 4]);
}
