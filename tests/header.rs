use miibgpd::error::DecodeErrorKind;
use miibgpd::packets::header::{Header, MessageType};

#[test]
fn convert_bytes_to_header_and_header_to_bytes() {
    let header = Header::new(29, MessageType::Open);
    let header_bytes = header.clone().to_bytes();
    let header2: Header = Header::from_slice(&header_bytes[..]).unwrap();

    assert_eq!(header, header2);
}

#[test]
fn header_wire_form_is_marker_length_and_type() {
    let header = Header::new(0x0123, MessageType::Update);
    let bytes = header.to_bytes();
    let mut expected = vec![0xffu8; 16];
    expected.extend_from_slice(&[0x01, 0x23, 2]);
    assert_eq!(&bytes[..], &expected[..]);
}

#[test]
fn header_rejects_short_input_and_unknown_type() {
    let short = [0xffu8; 18];
    assert_eq!(Header::from_slice(&short).unwrap_err().kind, DecodeErrorKind::MessageTooShort);
    let mut notification = vec![0xffu8; 16];
    notification.extend_from_slice(&[0, 21, 3]);
    assert_eq!(
        Header::from_slice(&notification).unwrap_err().kind,
        DecodeErrorKind::UnknownMessageType
    );
}
