//! The wire codec for DNS records: the tagged type dispatch and the
//! round trip between a record's content and its wire text.

use cf_ddns::ip::{IpAddress, Ipv4Address, Ipv6Address};
use cf_ddns::record::{decode_record, encode_record, Record, RecordContent, UpdateRequest, WireRecord};

fn wire(rtype: &str, content: &str) -> WireRecord {
    WireRecord {
        id: "123".to_string(),
        zone_name: "zone".to_string(),
        name: "foo".to_string(),
        rtype: rtype.to_string(),
        content: content.to_string(),
    }
}

#[test]
fn deserialize_a_record() {
    let record = decode_record(wire("A", "10.0.0.0")).unwrap();
    match record.content {
        RecordContent::A { content: ip } => {
            assert_eq!(ip, Ipv4Address { octets: [10, 0, 0, 0] })
        }
        _ => panic!("Expected an A record."),
    }
}

#[test]
fn deserialize_aaaa_record() {
    let record = decode_record(wire("AAAA", "::1")).unwrap();
    match record.content {
        RecordContent::AAAA { content: ip } => {
            assert_eq!(ip, Ipv6Address { segments: [0, 0, 0, 0, 0, 0, 0, 1] })
        }
        _ => panic!("Expected an AAAA record."),
    }
}

#[test]
fn deserialize_other_record() {
    let record = decode_record(wire("TXT", "example")).unwrap();
    match record.content {
        RecordContent::Other => {}
        _ => panic!("Expected an other record."),
    }
}

#[test]
fn a_record_round_trips() {
    let original = Record {
        id: "123".to_string(),
        zone_name: "zone".to_string(),
        name: "foo".to_string(),
        content: RecordContent::A {
            content: Ipv4Address { octets: [192, 168, 0, 1] },
        },
    };
    let wire = encode_record(&original);
    assert_eq!(wire.rtype, "A");
    assert_eq!(wire.content, "192.168.0.1");
    let decoded = decode_record(wire).unwrap();
    assert_eq!(decoded, original);
}

#[test]
fn aaaa_record_round_trips() {
    let original = Record {
        id: "123".to_string(),
        zone_name: "zone".to_string(),
        name: "foo".to_string(),
        content: RecordContent::AAAA {
            content: Ipv6Address { segments: [0x2001, 0xdb8, 0, 0, 0, 0, 0, 1] },
        },
    };
    let wire = encode_record(&original);
    assert_eq!(wire.rtype, "AAAA");
    assert_eq!(wire.content, "2001:db8::1");
    let decoded = decode_record(wire).unwrap();
    assert_eq!(decoded, original);
}

#[test]
fn a_record_with_bad_content_fails_to_decode() {
    assert!(decode_record(wire("A", "::1")).is_none());
    assert!(decode_record(wire("A", "not an address")).is_none());
    assert!(decode_record(wire("AAAA", "10.0.0.0")).is_none());
}

#[test]
fn update_request_from_ipv4() {
    let req = UpdateRequest::from_ip(&IpAddress::V4(Ipv4Address { octets: [127, 0, 0, 1] }));
    assert_eq!(req.rtype, "A");
    assert_eq!(req.content, "127.0.0.1");
}

#[test]
fn update_request_from_ipv6() {
    let req = UpdateRequest::from_ip(&IpAddress::V6(Ipv6Address {
        segments: [0x2001, 0xdb8, 0, 0, 0, 0, 0, 1],
    }));
    assert_eq!(req.rtype, "AAAA");
    assert_eq!(req.content, "2001:db8::1");
}
