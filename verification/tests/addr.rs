use tcp_proxy::addr::{Ipv4Addr, SocketAddrV4};

fn parsed(text: &str) -> Option<[u8; 4]> {
    Ipv4Addr::parse(text).map(|ip| ip.octets())
}

#[test]
fn parse_reads_dotted_decimal() {
    assert_eq!(parsed("1.2.3.4"), Some([1, 2, 3, 4]));
    assert_eq!(parsed("0.0.0.0"), Some([0, 0, 0, 0]));
    assert_eq!(parsed("255.255.255.255"), Some([255, 255, 255, 255]));
    assert_eq!(parsed("192.168.0.10"), Some([192, 168, 0, 10]));
    assert_eq!(parsed("10.99.100.199"), Some([10, 99, 100, 199]));
}

#[test]
fn parse_refuses_octets_out_of_range() {
    assert_eq!(parsed("256.1.1.1"), None);
    assert_eq!(parsed("1.2.3.999"), None);
    assert_eq!(parsed("1.2.3.1000"), None);
    assert_eq!(parsed("300.300.300.300"), None);
}

#[test]
fn parse_refuses_leading_zeros() {
    assert_eq!(parsed("01.2.3.4"), None);
    assert_eq!(parsed("1.2.3.04"), None);
    assert_eq!(parsed("1.2.003.4"), None);
    assert_eq!(parsed("00.0.0.0"), None);
}

#[test]
fn parse_refuses_wrong_shapes() {
    assert_eq!(parsed(""), None);
    assert_eq!(parsed("1.2.3"), None);
    assert_eq!(parsed("1.2.3.4.5"), None);
    assert_eq!(parsed("1.2.3."), None);
    assert_eq!(parsed(".1.2.3"), None);
    assert_eq!(parsed("1..2.3"), None);
    assert_eq!(parsed("1.2.3.4."), None);
    assert_eq!(parsed(" 1.2.3.4"), None);
    assert_eq!(parsed("1.2.3.4 "), None);
    assert_eq!(parsed("+1.2.3.4"), None);
    assert_eq!(parsed("-1.2.3.4"), None);
    assert_eq!(parsed("a.b.c.d"), None);
    assert_eq!(parsed("1,2,3,4"), None);
    assert_eq!(parsed("localhost"), None);
    assert_eq!(parsed("1.2.3.4/24"), None);
    assert_eq!(parsed("0x1.2.3.4"), None);
}

#[test]
fn parse_refuses_digits_outside_ascii() {
    assert_eq!(parsed("\u{661}.2.3.4"), None);
    assert_eq!(parsed("1.2.3.\u{ff14}"), None);
    assert_eq!(parsed("1\u{3002}2.3.4"), None);
}

#[test]
fn parse_accepts_every_octet_value() {
    for n in 0..=255u32 {
        let text = format!("{}.{}.{}.{}", n, 255 - n, n / 2, (n * 7) % 256);
        let want = [n as u8, (255 - n) as u8, (n / 2) as u8, ((n * 7) % 256) as u8];
        assert_eq!(parsed(&text), Some(want));
    }
}

#[test]
fn bits_are_big_endian() {
    assert_eq!(Ipv4Addr::new(1, 2, 3, 4).to_bits(), 0x0102_0304);
    assert_eq!(Ipv4Addr::new(0, 0, 0, 0).to_bits(), 0);
    assert_eq!(Ipv4Addr::new(255, 255, 255, 255).to_bits(), u32::MAX);
    assert_eq!(Ipv4Addr::from_bits(0x0102_0304), Ipv4Addr::new(1, 2, 3, 4));
    assert_eq!(Ipv4Addr::from_bits(0xC0A8_000A), Ipv4Addr::new(192, 168, 0, 10));
}

#[test]
fn bits_round_trip() {
    for bits in [0u32, 1, 255, 256, 65535, 65536, 0x7fff_ffff, 0x8000_0000, u32::MAX] {
        assert_eq!(Ipv4Addr::from_bits(bits).to_bits(), bits);
    }
}

#[test]
fn unspecified_is_the_wildcard() {
    assert_eq!(Ipv4Addr::unspecified(), Ipv4Addr::new(0, 0, 0, 0));
    assert_eq!(Ipv4Addr::unspecified().octets(), [0, 0, 0, 0]);
}

#[test]
fn socket_address_keeps_its_parts() {
    let addr = SocketAddrV4::new(Ipv4Addr::new(10, 0, 0, 1), 8080);
    assert_eq!(addr.ip(), Ipv4Addr::new(10, 0, 0, 1));
    assert_eq!(addr.port(), 8080);
    assert_eq!(addr, SocketAddrV4 { ip: Ipv4Addr::new(10, 0, 0, 1), port: 8080 });
}

#[test]
fn parse_accepts_only_canonical_texts() {
    let accepted = [
        ("12.34.56.78", [12, 34, 56, 78]),
        ("100.200.100.200", [100, 200, 100, 200]),
        ("9.9.9.9", [9, 9, 9, 9]),
        ("99.99.99.99", [99, 99, 99, 99]),
        ("199.199.199.199", [199, 199, 199, 199]),
        ("249.250.251.252", [249, 250, 251, 252]),
    ];
    for (text, octets) in accepted {
        assert_eq!(parsed(text), Some(octets), "{:?}", text);
    }
    let refused = [
        ".", "...", "1.2.3.4\n", "0.00.0.0", "1.2.3.0004", "999.999.999.999", "127.1",
        "1e1.0.0.1", "1.2.3.-4", "2001:db8::1", "09.9.9.9", "255.255.255.256", "1.2.3.4a",
        "1 .2.3.4", "1.2.3.4.5.6.7.8", "1234.1.1.1", "1.2.3.4\u{0}",
    ];
    for text in refused {
        assert_eq!(parsed(text), None, "{:?}", text);
    }
}

#[test]
fn parse_reads_back_what_is_written() {
    for bits in (0..=u32::MAX).step_by(9_999_991) {
        let ip = Ipv4Addr::from_bits(bits);
        let [a, b, c, d] = ip.octets();
        assert_eq!(bits, u32::from_be_bytes([a, b, c, d]));
        let text = format!("{}.{}.{}.{}", a, b, c, d);
        assert_eq!(Ipv4Addr::parse(&text), Some(ip), "{:?}", text);
    }
}
