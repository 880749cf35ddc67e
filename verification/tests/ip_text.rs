//! The textual forms of addresses: parsing both families, the
//! canonicalization of IPv4-mapped addresses, and formatting back to
//! the standard text.

use cf_ddns::ip::{IpAddress, Ipv4Address, Ipv6Address};
use cf_ddns::ip_format::{ip_to_text, ipv4_to_text, ipv6_to_text};
use cf_ddns::ip_parse::{parse_ip, parse_ipv4, parse_ipv6};

fn v6(segments: [u16; 8]) -> Ipv6Address {
    Ipv6Address { segments }
}

#[test]
fn parses_plain_ipv4() {
    assert_eq!(
        parse_ipv4("0.0.0.0"),
        Some(Ipv4Address { octets: [0, 0, 0, 0] })
    );
    assert_eq!(
        parse_ipv4("255.255.255.255"),
        Some(Ipv4Address { octets: [255, 255, 255, 255] })
    );
    assert_eq!(
        parse_ipv4("192.168.0.1"),
        Some(Ipv4Address { octets: [192, 168, 0, 1] })
    );
}

#[test]
fn rejects_malformed_ipv4() {
    assert_eq!(parse_ipv4(""), None);
    assert_eq!(parse_ipv4("1.2.3"), None);
    assert_eq!(parse_ipv4("1.2.3.4.5"), None);
    assert_eq!(parse_ipv4("256.0.0.1"), None);
    assert_eq!(parse_ipv4("1.2.3.04"), None);
    assert_eq!(parse_ipv4("01.2.3.4"), None);
    assert_eq!(parse_ipv4("1..2.3"), None);
    assert_eq!(parse_ipv4("1.2.3.4 "), None);
    assert_eq!(parse_ipv4("a.b.c.d"), None);
}

#[test]
fn parses_full_and_compressed_ipv6() {
    assert_eq!(parse_ipv6("::"), Some(v6([0, 0, 0, 0, 0, 0, 0, 0])));
    assert_eq!(parse_ipv6("::1"), Some(v6([0, 0, 0, 0, 0, 0, 0, 1])));
    assert_eq!(parse_ipv6("1::"), Some(v6([1, 0, 0, 0, 0, 0, 0, 0])));
    assert_eq!(
        parse_ipv6("1:2:3:4:5:6:7:8"),
        Some(v6([1, 2, 3, 4, 5, 6, 7, 8]))
    );
    assert_eq!(
        parse_ipv6("2001:db8::8:800:200c:417a"),
        Some(v6([0x2001, 0xdb8, 0, 0, 0x8, 0x800, 0x200c, 0x417a]))
    );
    assert_eq!(
        parse_ipv6("1:2:3:4:5:6:7::"),
        Some(v6([1, 2, 3, 4, 5, 6, 7, 0]))
    );
    assert_eq!(parse_ipv6("FF01::101"), Some(v6([0xff01, 0, 0, 0, 0, 0, 0, 0x101])));
}

#[test]
fn parses_embedded_ipv4_forms() {
    assert_eq!(
        parse_ipv6("::ffff:127.0.0.1"),
        Some(v6([0, 0, 0, 0, 0, 0xffff, 0x7f00, 0x1]))
    );
    assert_eq!(
        parse_ipv6("1:2:3:4:5:6:7.8.9.10"),
        Some(v6([1, 2, 3, 4, 5, 6, 0x0708, 0x090a]))
    );
}

#[test]
fn rejects_malformed_ipv6() {
    assert_eq!(parse_ipv6(""), None);
    assert_eq!(parse_ipv6(":"), None);
    assert_eq!(parse_ipv6(":::"), None);
    assert_eq!(parse_ipv6(":1:2:3:4:5:6:7"), None);
    assert_eq!(parse_ipv6("1:2:3:4:5:6:7"), None);
    assert_eq!(parse_ipv6("1:2:3:4:5:6:7:8:9"), None);
    assert_eq!(parse_ipv6("1:2:3:4:5:6:7:8::"), None);
    assert_eq!(parse_ipv6("1::2::3"), None);
    assert_eq!(parse_ipv6("12345::"), None);
    assert_eq!(parse_ipv6("1.2.3.4::"), None);
    assert_eq!(parse_ipv6("::1.2.3.4:5"), None);
    assert_eq!(parse_ipv6("g::1"), None);
}

#[test]
fn parse_ip_tells_the_families_apart() {
    assert_eq!(
        parse_ip("10.0.0.0"),
        Some(IpAddress::V4(Ipv4Address { octets: [10, 0, 0, 0] }))
    );
    assert_eq!(
        parse_ip("::1"),
        Some(IpAddress::V6(v6([0, 0, 0, 0, 0, 0, 0, 1])))
    );
    assert_eq!(parse_ip("neither"), None);
}

#[test]
fn canonicalizes_only_mapped_addresses() {
    let mapped = IpAddress::V6(v6([0, 0, 0, 0, 0, 0xffff, 0x7f00, 0x1]));
    assert_eq!(
        mapped.to_canonical(),
        IpAddress::V4(Ipv4Address { octets: [127, 0, 0, 1] })
    );
    let loopback = IpAddress::V6(v6([0, 0, 0, 0, 0, 0, 0, 1]));
    assert_eq!(loopback.to_canonical(), loopback);
    let plain = IpAddress::V4(Ipv4Address { octets: [8, 8, 8, 8] });
    assert_eq!(plain.to_canonical(), plain);
}

#[test]
fn formats_ipv4_as_dotted_decimal() {
    assert_eq!(ipv4_to_text(&Ipv4Address { octets: [0, 0, 0, 0] }), "0.0.0.0");
    assert_eq!(
        ipv4_to_text(&Ipv4Address { octets: [255, 200, 15, 9] }),
        "255.200.15.9"
    );
}

#[test]
fn formats_ipv6_with_zero_compression() {
    assert_eq!(ipv6_to_text(&v6([0, 0, 0, 0, 0, 0, 0, 0])), "::");
    assert_eq!(ipv6_to_text(&v6([0, 0, 0, 0, 0, 0, 0, 1])), "::1");
    assert_eq!(ipv6_to_text(&v6([1, 0, 0, 0, 0, 0, 0, 0])), "1::");
    assert_eq!(
        ipv6_to_text(&v6([1, 2, 3, 4, 5, 6, 7, 8])),
        "1:2:3:4:5:6:7:8"
    );
    // The leftmost of two equally long zero runs is compressed.
    assert_eq!(
        ipv6_to_text(&v6([1, 0, 0, 2, 0, 0, 3, 4])),
        "1::2:0:0:3:4"
    );
    // A lone zero group is not compressed.
    assert_eq!(
        ipv6_to_text(&v6([1, 0, 2, 3, 4, 5, 6, 7])),
        "1:0:2:3:4:5:6:7"
    );
    // Hexadecimal is lowercase, without leading zeros.
    assert_eq!(
        ipv6_to_text(&v6([0x2001, 0xdb8, 0, 0, 0, 0, 0, 0x41])),
        "2001:db8::41"
    );
}

#[test]
fn formats_mapped_addresses_in_mixed_notation() {
    assert_eq!(
        ipv6_to_text(&v6([0, 0, 0, 0, 0, 0xffff, 0xc000, 0x280])),
        "::ffff:192.0.2.128"
    );
}

#[test]
fn formatting_then_parsing_returns_the_address() {
    let v4 = Ipv4Address { octets: [203, 0, 113, 89] };
    assert_eq!(parse_ipv4(&ipv4_to_text(&v4)), Some(v4));
    let candidates = [
        v6([0, 0, 0, 0, 0, 0, 0, 0]),
        v6([0, 0, 0, 0, 0, 0, 0, 1]),
        v6([0x2001, 0xdb8, 0, 0, 0x8, 0x800, 0x200c, 0x417a]),
        v6([0, 0, 0, 0, 0, 0xffff, 0x7f00, 0x1]),
        v6([1, 0, 0, 2, 0, 0, 3, 4]),
    ];
    for a in candidates {
        assert_eq!(parse_ipv6(&ipv6_to_text(&a)), Some(a));
    }
    let ip = IpAddress::V4(v4);
    assert_eq!(parse_ip(&ip_to_text(&ip)), Some(ip));
}
