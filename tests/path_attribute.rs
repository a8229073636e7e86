use miibgpd::bgp_type::{AutonomousSystemNumber, Ipv4Address};
use miibgpd::error::DecodeErrorKind;
use miibgpd::path_attribute::{AsPath, Origin, PathAttribute};

fn asn(v: u16) -> AutonomousSystemNumber {
    AutonomousSystemNumber(v)
}

#[test]
fn attributes_concatenated_read_back_in_order() {
    let attrs = vec![
        PathAttribute::Origin(Origin::Incomplete),
        PathAttribute::AsPath(AsPath::AsSet(vec![asn(1), asn(300)])),
        PathAttribute::NextHop(Ipv4Address::new(192, 0, 2, 1)),
        PathAttribute::Origin(Origin::Egp),
    ];
    let mut bytes = Vec::new();
    for a in &attrs {
        bytes.extend_from_slice(&a.to_bytes()[..]);
    }
    assert_eq!(PathAttribute::from_u8_slice(&bytes).unwrap(), attrs);
}

#[test]
fn extended_length_flag_set_only_for_long_values() {
    // 126 AS numbers: a value of 254 octets, one-octet length.
    let short = PathAttribute::AsPath(AsPath::AsSequence((0..126).map(asn).collect()));
    let b = short.to_bytes();
    assert_eq!(b[0], 0x40);
    assert_eq!(b[2], 254);
    assert_eq!(b.len(), 254 + 3);
    assert_eq!(short.bytes_len(), 257);
    // 127 AS numbers: a value of 256 octets, two-octet length.
    let long = PathAttribute::AsPath(AsPath::AsSequence((0..127).map(asn).collect()));
    let b = long.to_bytes();
    assert_eq!(b[0], 0x50);
    assert_eq!(&b[2..4], &[1, 0]);
    assert_eq!(b.len(), 256 + 4);
    assert_eq!(long.bytes_len(), 260);
    assert_eq!(PathAttribute::from_u8_slice(&b[..]).unwrap(), vec![long]);
}

#[test]
fn as_path_value_length() {
    assert_eq!(AsPath::AsSequence(vec![asn(1), asn(2), asn(3)]).bytes_len(), 8);
    assert_eq!(AsPath::AsSet(vec![]).bytes_len(), 2);
}

#[test]
fn as_set_is_read_in_ascending_order_without_repeats() {
    let bytes = [0x40, 2, 10, 1, 4, 0, 30, 0, 10, 0, 30, 0, 20];
    let attrs = PathAttribute::from_u8_slice(&bytes).unwrap();
    assert_eq!(attrs, vec![PathAttribute::AsPath(AsPath::AsSet(vec![asn(10), asn(20), asn(30)]))]);
}

#[test]
fn unknown_attribute_is_kept_verbatim() {
    let bytes = [0xc0, 8, 4, 0xfd, 0xe8, 0, 1, 0x40, 1, 1, 2];
    let attrs = PathAttribute::from_u8_slice(&bytes).unwrap();
    assert_eq!(
        attrs,
        vec![
            PathAttribute::DontKnow(vec![0xc0, 8, 4, 0xfd, 0xe8, 0, 1]),
            PathAttribute::Origin(Origin::Incomplete),
        ]
    );
    assert_eq!(&attrs[0].to_bytes()[..], &bytes[..7]);
    assert_eq!(attrs[0].bytes_len(), 7);
}

#[test]
fn attribute_errors() {
    let kind = |b: &[u8]| PathAttribute::from_u8_slice(b).unwrap_err().kind;
    assert_eq!(kind(&[0x40, 1, 1, 3]), DecodeErrorKind::InvalidOrigin);
    assert_eq!(kind(&[0x40, 2, 2, 3, 0]), DecodeErrorKind::InvalidAsPathSegmentType);
    assert_eq!(kind(&[0x40, 2, 5, 2, 2, 0, 1]), DecodeErrorKind::Truncated);
    assert_eq!(kind(&[0x40, 2, 4, 2, 2, 0, 1, 0]), DecodeErrorKind::MalformedAttribute);
    assert_eq!(kind(&[0x40, 3, 3, 1, 2, 3]), DecodeErrorKind::MalformedAttribute);
    assert_eq!(kind(&[0x40, 1, 2, 0, 0]), DecodeErrorKind::MalformedAttribute);
    assert_eq!(kind(&[0x50, 1]), DecodeErrorKind::Truncated);
    assert_eq!(kind(&[0x50, 1, 0]), DecodeErrorKind::Truncated);
    assert_eq!(Origin::from_u8(2), Some(Origin::Incomplete));
    assert_eq!(Origin::Egp.to_u8(), 1);
}

#[test]
fn origin_encodes_to_four_octets() {
    assert_eq!(&PathAttribute::Origin(Origin::Egp).to_bytes()[..], &[0x40, 1, 1, 1]);
    assert_eq!(
        &PathAttribute::NextHop(Ipv4Address::new(10, 200, 100, 3)).to_bytes()[..],
        &[0x40, 3, 4, 10, 200, 100, 3]
    );
}
