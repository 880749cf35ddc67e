//! The client-side interpretation of the edge function's reply.

use cf_ddns::envelope::{Error, FetchError, Response, ResponseInfo};
use cf_ddns::ip::Ipv4Address;
use cf_ddns::worker::{get_ip, GetIpError};

#[test]
fn get_ip_returns_the_carried_address() {
    let r = get_ip(Ok(Response {
        success: true,
        errors: vec![],
        result: Some(Ipv4Address { octets: [198, 51, 100, 7] }),
    }));
    assert_eq!(r, Ok(Ipv4Address { octets: [198, 51, 100, 7] }));
}

#[test]
fn get_ip_surfaces_the_unsuccessful_envelope() {
    let resp = Response {
        success: false,
        errors: vec![ResponseInfo {
            code: Error::HeaderNotFound,
            message: "CF-Connecting-IP header not found.".to_string(),
        }],
        result: None,
    };
    let r = get_ip(Ok(resp.clone()));
    assert_eq!(r, Err(GetIpError::UnsuccessfulResponse(resp)));
}

#[test]
fn get_ip_passes_transport_failures_through() {
    let r = get_ip(Err(FetchError::SendFailed("dns error".to_string())));
    assert_eq!(r, Err(GetIpError::RequestFailed("dns error".to_string())));
    let r = get_ip(Err(FetchError::BodyNotJson("expected `{`".to_string())));
    assert_eq!(r, Err(GetIpError::ResponseNotJson("expected `{`".to_string())));
}
