//! The edge-side connecting-IP normalizer and its reply envelope.

use cf_ddns::edge::{normalize_connecting_ip, reply_status, respond, ConnectingIpOutcome};
use cf_ddns::envelope::{Error, Response};
use cf_ddns::ip::Ipv4Address;

fn envelope_invariant_holds(r: &Response) -> bool {
    r.success == r.result.is_some() && r.success == r.errors.is_empty()
}

#[test]
fn absent_header_is_rejected() {
    let outcome = normalize_connecting_ip(None);
    assert_eq!(outcome, ConnectingIpOutcome::Rejected(Error::HeaderNotFound));
    let resp = respond(None);
    assert!(!resp.success);
    assert!(envelope_invariant_holds(&resp));
    assert_eq!(resp.errors.len(), 1);
    assert_eq!(resp.errors[0].code, Error::HeaderNotFound);
    assert_eq!(resp.errors[0].message, "CF-Connecting-IP header not found.");
}

#[test]
fn unparseable_header_is_rejected_with_its_text() {
    let outcome = normalize_connecting_ip(Some("invalid"));
    assert_eq!(
        outcome,
        ConnectingIpOutcome::Rejected(Error::InvalidIp("invalid".to_string()))
    );
    let resp = respond(Some("invalid"));
    assert!(!resp.success);
    assert!(envelope_invariant_holds(&resp));
    assert_eq!(resp.errors.len(), 1);
    assert_eq!(resp.errors[0].message, "Invalid IP address: invalid");
}

#[test]
fn plain_ipv4_is_accepted() {
    let outcome = normalize_connecting_ip(Some("127.0.0.1"));
    assert_eq!(
        outcome,
        ConnectingIpOutcome::Accepted(Ipv4Address { octets: [127, 0, 0, 1] })
    );
    let resp = respond(Some("127.0.0.1"));
    assert!(resp.success);
    assert!(envelope_invariant_holds(&resp));
    assert_eq!(resp.result, Some(Ipv4Address { octets: [127, 0, 0, 1] }));
    assert!(resp.errors.is_empty());
}

#[test]
fn true_ipv6_is_rejected() {
    let outcome = normalize_connecting_ip(Some("::1"));
    assert_eq!(outcome, ConnectingIpOutcome::Rejected(Error::V6NotSupported));
    let resp = respond(Some("::1"));
    assert!(!resp.success);
    assert!(envelope_invariant_holds(&resp));
    assert_eq!(resp.errors[0].code, Error::V6NotSupported);
    assert_eq!(resp.errors[0].message, "IPv6 addresses are not supported.");
}

#[test]
fn ipv4_mapped_ipv6_is_canonicalized_then_accepted() {
    // Canonicalization precedes the IPv4/IPv6 branch: an IPv6-looking
    // address that encodes an IPv4 payload is accepted.
    let outcome = normalize_connecting_ip(Some("::ffff:7f00:1"));
    assert_eq!(
        outcome,
        ConnectingIpOutcome::Accepted(Ipv4Address { octets: [127, 0, 0, 1] })
    );
    let outcome = normalize_connecting_ip(Some("::ffff:127.0.0.1"));
    assert_eq!(
        outcome,
        ConnectingIpOutcome::Accepted(Ipv4Address { octets: [127, 0, 0, 1] })
    );
}

#[test]
fn reply_status_follows_the_success_flag() {
    assert_eq!(reply_status(&respond(Some("127.0.0.1"))), 200);
    assert_eq!(reply_status(&respond(Some("::1"))), 400);
    assert_eq!(reply_status(&respond(None)), 400);
}

#[test]
fn envelope_constructors_keep_the_invariant() {
    let ok = Response::from_ip(Ipv4Address { octets: [1, 2, 3, 4] });
    assert!(envelope_invariant_holds(&ok));
    assert!(ok.success);

    let err = Response::from_error(Error::V6NotSupported);
    assert!(envelope_invariant_holds(&err));
    assert!(!err.success);
    assert_eq!(err.errors.len(), 1);

    let from_ok = Response::from_result(Ok(Ipv4Address { octets: [1, 2, 3, 4] }));
    assert!(envelope_invariant_holds(&from_ok));
    let from_err = Response::from_result(Err(Error::HeaderNotFound));
    assert!(envelope_invariant_holds(&from_err));
    assert_eq!(from_err.errors[0].code, Error::HeaderNotFound);
}
