use miibgpd::bgp_type::Ipv4Address;
use miibgpd::error::DecodeErrorKind;
use miibgpd::routing::Ipv4Network;

fn net(a: u8, b: u8, c: u8, d: u8, prefix: u8) -> Ipv4Network {
    Ipv4Network::new(Ipv4Address::new(a, b, c, d), prefix).unwrap()
}

#[test]
fn prefix_wire_lengths() {
    assert_eq!(net(0, 0, 0, 0, 0).bytes_len(), 1);
    assert_eq!(net(10, 0, 0, 0, 8).bytes_len(), 2);
    assert_eq!(net(10, 1, 0, 0, 9).bytes_len(), 3);
    assert_eq!(net(10, 1, 2, 0, 24).bytes_len(), 4);
    assert_eq!(net(10, 1, 2, 3, 25).bytes_len(), 5);
    assert_eq!(net(10, 1, 2, 3, 32).bytes_len(), 5);
}

#[test]
fn prefix_round_trip() {
    for p in [
        net(0, 0, 0, 0, 0),
        net(10, 100, 220, 0, 24),
        net(10, 128, 0, 0, 9),
        net(192, 168, 1, 1, 32),
    ] {
        let b = p.to_bytes();
        assert_eq!(b.len(), p.bytes_len());
        assert_eq!(Ipv4Network::from_u8_slice(&b[..]).unwrap(), vec![p]);
    }
}

#[test]
fn prefix_encoding_clears_host_bits() {
    let p = net(10, 100, 221, 77, 23);
    assert_eq!(&p.to_bytes()[..], &[23, 10, 100, 220]);
    assert_eq!(
        Ipv4Network::from_u8_slice(&p.to_bytes()[..]).unwrap(),
        vec![net(10, 100, 220, 0, 23)]
    );
}

#[test]
fn prefix_errors() {
    assert!(Ipv4Network::new(Ipv4Address::new(1, 2, 3, 4), 33).is_err());
    assert_eq!(
        Ipv4Network::from_u8_slice(&[33, 1, 2, 3, 4]).unwrap_err().kind,
        DecodeErrorKind::InvalidPrefixLength
    );
    assert_eq!(
        Ipv4Network::from_u8_slice(&[24, 10, 1]).unwrap_err().kind,
        DecodeErrorKind::Truncated
    );
    assert_eq!(Ipv4Network::from_u8_slice(&[]).unwrap(), vec![]);
    assert_eq!(
        Ipv4Network::from_u8_slice(&[0, 8, 10]).unwrap(),
        vec![net(0, 0, 0, 0, 0), net(10, 0, 0, 0, 8)]
    );
}
