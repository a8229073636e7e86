use miibgpd::bgp_type::{AutonomousSystemNumber, Ipv4Address};
use miibgpd::config::{Config, Mode};

#[test]
fn config_line_is_read() {
    let c = Config::parse("64512 127.0.0.1 64513 127.0.0.2 active").unwrap();
    assert_eq!(
        c,
        Config::new(
            AutonomousSystemNumber(64512),
            Ipv4Address::new(127, 0, 0, 1),
            AutonomousSystemNumber(64513),
            Ipv4Address::new(127, 0, 0, 2),
            Mode::Active,
        )
    );
    let c = Config::parse("  65535\t10.0.0.255  0 192.168.100.1 passive\n").unwrap();
    assert_eq!(c.local_as, AutonomousSystemNumber(65535));
    assert_eq!(c.local_ip, Ipv4Address::new(10, 0, 0, 255));
    assert_eq!(c.remote_as, AutonomousSystemNumber(0));
    assert_eq!(c.remote_ip, Ipv4Address::new(192, 168, 100, 1));
    assert_eq!(c.mode, Mode::Passive);
}

#[test]
fn bad_config_lines_are_rejected() {
    for line in [
        "",
        "64512 127.0.0.1 64513 127.0.0.2",
        "64512 127.0.0.1 64513 127.0.0.2 active extra",
        "65536 127.0.0.1 64513 127.0.0.2 active",
        "64512 127.0.0.256 64513 127.0.0.2 active",
        "64512 127.0.0 64513 127.0.0.2 active",
        "64512 127.0.0.1.1 64513 127.0.0.2 active",
        "64512 127.00.0.1 64513 127.0.0.2 active",
        "64512 127..0.1 64513 127.0.0.2 active",
        "64512 127.0.0.1 -1 127.0.0.2 active",
        "64512 127.0.0.1 64513 127.0.0.2 Active",
        "6451x 127.0.0.1 64513 127.0.0.2 passive",
    ] {
        assert!(Config::parse(line).is_err(), "{line:?}");
    }
}
