//! The edge-side connecting-IP normalizer: extract a client IP from
//! the trusted proxy header, canonicalize IPv4-mapped IPv6 forms, and
//! reject true IPv6, producing the reply envelope.

use vstd::prelude::*;
use vstd::string::StringExecFns;

use crate::envelope::{envelope_invariant, error_message_text, Error, Response};
use crate::ip::{spec_canonical, IpAddress, Ipv4Address};
use crate::ip_parse::{parse_ip, spec_parse_ip};

verus! {

/// What the normalizer decides for one inbound request.
#[derive(Debug, PartialEq, Clone)]
pub enum ConnectingIpOutcome {
    /// The header held an IPv4 address (possibly IPv4-mapped IPv6).
    Accepted(Ipv4Address),
    /// The header was missing, unparseable, or held a true IPv6 address.
    Rejected(Error),
}

/// Normalize the raw value of the trusted client-IP header, or its
/// absence, to exactly one outcome.  Canonicalization of IPv4-mapped
/// IPv6 addresses happens strictly before the IPv4/IPv6 branch, so an
/// IPv6-looking address that encodes an IPv4 payload is accepted.
pub fn normalize_connecting_ip(header: Option<&str>) -> (r: ConnectingIpOutcome)
    ensures
        match header {
            None => r == ConnectingIpOutcome::Rejected(Error::HeaderNotFound),
            Some(h) => match spec_parse_ip(h@) {
                None => r matches ConnectingIpOutcome::Rejected(Error::InvalidIp(t)) && t@ == h@,
                Some(ip) => match spec_canonical(ip) {
                    IpAddress::V4(a) => r == ConnectingIpOutcome::Accepted(a),
                    IpAddress::V6(_) => r == ConnectingIpOutcome::Rejected(Error::V6NotSupported),
                },
            },
        },
{
    match header {
        None => ConnectingIpOutcome::Rejected(Error::HeaderNotFound),
        Some(h) => match parse_ip(h) {
            None => ConnectingIpOutcome::Rejected(Error::InvalidIp(String::from_str(h))),
            Some(ip) => match ip.to_canonical() {
                IpAddress::V4(a) => ConnectingIpOutcome::Accepted(a),
                IpAddress::V6(_) => ConnectingIpOutcome::Rejected(Error::V6NotSupported),
            },
        },
    }
}

/// Given the trusted client-IP header of a request (or its absence),
/// the reply envelope: the accepted IPv4 address on success, exactly
/// one coded error otherwise.
pub fn respond(header: Option<&str>) -> (r: Response)
    ensures
        envelope_invariant(r),
        match header {
            None => !r.success && r.errors@.len() == 1
                && r.errors@[0].code == Error::HeaderNotFound
                && r.errors@[0].message@ == error_message_text(Error::HeaderNotFound),
            Some(h) => match spec_parse_ip(h@) {
                None => !r.success && r.errors@.len() == 1
                    && (r.errors@[0].code matches Error::InvalidIp(t) && t@ == h@)
                    && r.errors@[0].message@ == "Invalid IP address: "@ + h@,
                Some(ip) => match spec_canonical(ip) {
                    IpAddress::V4(a) => r.success && r.result == Some(a),
                    IpAddress::V6(_) => !r.success && r.errors@.len() == 1
                        && r.errors@[0].code == Error::V6NotSupported
                        && r.errors@[0].message@ == error_message_text(Error::V6NotSupported),
                },
            },
        },
{
    match normalize_connecting_ip(header) {
        ConnectingIpOutcome::Accepted(ip) => Response::from_ip(ip),
        ConnectingIpOutcome::Rejected(e) => Response::from_error(e),
    }
}

/// The HTTP status the edge function replies with: 200 when the
/// envelope declares success, 400 otherwise.
pub fn reply_status(r: &Response) -> (c: u16)
    ensures
        c == if r.success { 200u16 } else { 400u16 },
{
    if r.success {
        200
    } else {
        400
    }
}

} // verus!
