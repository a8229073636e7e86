use miibgpd::bgp_type::{AutonomousSystemNumber, Ipv4Address, Version};
use miibgpd::error::DecodeErrorKind;
use miibgpd::packets::message::Message;
use miibgpd::packets::open::OpenMessage;

fn encode_open(m: &OpenMessage) -> Vec<u8> {
    Message::Open(m.clone()).to_bytes().to_vec()
}

fn decode_open(bytes: &[u8]) -> OpenMessage {
    match Message::from_slice(bytes).unwrap() {
        Message::Open(m) => m,
        other => panic!("not an OPEN: {:?}", other),
    }
}

#[test]
fn convert_bytes_to_open_message_and_open_message_to_bytes() {
    let open_message = OpenMessage::new(64512.into(), Ipv4Address::new(127, 0, 0, 1));
    let open_message_bytes = encode_open(&open_message);
    let open_message2: OpenMessage = decode_open(&open_message_bytes);

    assert_eq!(open_message, open_message2);
}

#[test]
fn open_message_is_twenty_nine_octets() {
    let open_message = OpenMessage::new(AutonomousSystemNumber(64512), Ipv4Address::new(127, 0, 0, 1));
    let bytes = encode_open(&open_message);
    assert_eq!(bytes.len(), 29);
    assert_eq!(u16::from_be_bytes([bytes[16], bytes[17]]), 29);
    assert_eq!(bytes[18], 1);
    assert_eq!(&bytes[19..29], &[4, 0xfc, 0x00, 0, 0, 127, 0, 0, 1, 0]);
}

#[test]
fn open_with_optional_parameters_is_read() {
    let mut bytes = vec![0xffu8; 16];
    bytes.extend_from_slice(&[0, 32, 1, 4, 0xfc, 0x01, 0, 90, 10, 0, 0, 1, 3, 2, 1, 0]);
    let m = decode_open(&bytes);
    assert_eq!(m.optional_parameters, vec![2, 1, 0]);
    assert_eq!(m.optional_parameters_length, 3);
    assert_eq!(m.hold_time.0, 90);
    assert_eq!(m.my_as_number, AutonomousSystemNumber(64513));
    assert_eq!(encode_open(&m), bytes);
}

#[test]
fn open_version_outside_one_to_four_is_rejected() {
    for v in [0u8, 5] {
        let mut bytes = vec![0xffu8; 16];
        bytes.extend_from_slice(&[0, 29, 1, v, 0xfc, 0x00, 0, 0, 127, 0, 0, 1, 0]);
        assert_eq!(Message::from_slice(&bytes).unwrap_err().kind, DecodeErrorKind::InvalidVersion);
    }
    assert_eq!(Version::from_u8(4), Some(Version::new()));
    assert_eq!(Version::from_u8(1).map(|v| v.as_u8()), Some(1));
}

#[test]
fn open_with_too_long_parameters_is_truncated() {
    let mut bytes = vec![0xffu8; 16];
    bytes.extend_from_slice(&[0, 30, 1, 4, 0xfc, 0x00, 0, 0, 127, 0, 0, 1, 5, 9]);
    assert_eq!(Message::from_slice(&bytes).unwrap_err().kind, DecodeErrorKind::Truncated);
}

#[test]
fn as_number_and_hold_time_conversions() {
    let a: AutonomousSystemNumber = 64512.into();
    let n: u16 = a.into();
    assert_eq!(n, 64512);
    assert_eq!(miibgpd::bgp_type::HoldTime::new().0, 0);
    assert_eq!(Version::new().as_u8(), 4);
}
