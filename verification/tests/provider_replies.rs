//! Interpreting the provider's replies: the layered error taxonomy and
//! the first-match tie-break.

use cf_ddns::envelope::{FetchError, ResponseInfo};
use cf_ddns::provider::{
    interpret_update, resolve_record, resolve_zone, CloudflareError, Id, ListReply, ObjectReply,
};
use cf_ddns::record::{RecordContent, WireRecord};

fn id(s: &str) -> Id {
    Id { id: s.to_string() }
}

fn wire_record(id: &str, rtype: &str, content: &str) -> WireRecord {
    WireRecord {
        id: id.to_string(),
        zone_name: "example.com".to_string(),
        name: "www.example.com".to_string(),
        rtype: rtype.to_string(),
        content: content.to_string(),
    }
}

#[test]
fn zone_transport_failure_passes_through() {
    let r = resolve_zone(Err(FetchError::SendFailed("connection refused".to_string())));
    assert_eq!(
        r,
        Err(CloudflareError::RequestFailed("connection refused".to_string()))
    );
}

#[test]
fn zone_decode_failure_passes_through() {
    let r = resolve_zone(Err(FetchError::BodyNotJson("expected value".to_string())));
    assert_eq!(
        r,
        Err(CloudflareError::ResponseNotJson("expected value".to_string()))
    );
}

#[test]
fn zone_provider_errors_surface_verbatim() {
    let errors = vec![
        ResponseInfo { code: 10000, message: "Authentication error".to_string() },
        ResponseInfo { code: 7003, message: "No route".to_string() },
    ];
    let r = resolve_zone(Ok(ListReply {
        success: false,
        errors: errors.clone(),
        result: vec![id("z1")],
    }));
    assert_eq!(r, Err(CloudflareError::Error(errors)));
}

#[test]
fn zone_empty_result_is_its_own_error() {
    let r = resolve_zone(Ok(ListReply { success: true, errors: vec![], result: vec![] }));
    assert_eq!(r, Err(CloudflareError::EmptyResult));
}

#[test]
fn zone_tie_break_takes_the_first_entry() {
    // Two entries matching by name: first-wins is the documented tie-break.
    let r = resolve_zone(Ok(ListReply {
        success: true,
        errors: vec![],
        result: vec![id("first-zone"), id("second-zone")],
    }));
    assert_eq!(r, Ok("first-zone".to_string()));
}

#[test]
fn record_tie_break_takes_the_first_entry() {
    let r = resolve_record(Ok(ListReply {
        success: true,
        errors: vec![],
        result: vec![
            wire_record("rec-1", "A", "1.2.3.4"),
            wire_record("rec-2", "A", "5.6.7.8"),
        ],
    }));
    assert_eq!(r, Ok("rec-1".to_string()));
}

#[test]
fn record_list_with_undecodable_entry_is_not_json() {
    let r = resolve_record(Ok(ListReply {
        success: true,
        errors: vec![],
        result: vec![
            wire_record("rec-1", "A", "1.2.3.4"),
            wire_record("rec-2", "A", "definitely not an address"),
        ],
    }));
    assert!(matches!(r, Err(CloudflareError::ResponseNotJson(_))));
}

#[test]
fn record_empty_result_is_its_own_error() {
    let r = resolve_record(Ok(ListReply { success: true, errors: vec![], result: vec![] }));
    assert_eq!(r, Err(CloudflareError::EmptyResult));
}

#[test]
fn update_success_returns_the_decoded_record() {
    let r = interpret_update(Ok(ObjectReply {
        success: true,
        errors: vec![],
        result: wire_record("rec-1", "A", "203.0.113.7"),
    }))
    .unwrap();
    assert_eq!(r.id, "rec-1");
    assert_eq!(r.zone_name, "example.com");
    assert_eq!(r.name, "www.example.com");
    match r.content {
        RecordContent::A { content } => {
            assert_eq!(content, cf_ddns::ip::Ipv4Address { octets: [203, 0, 113, 7] })
        }
        _ => panic!("Expected an A record."),
    }
}

#[test]
fn update_provider_errors_surface_verbatim() {
    let errors = vec![ResponseInfo { code: 81044, message: "Record not found".to_string() }];
    let r = interpret_update(Ok(ObjectReply {
        success: false,
        errors: errors.clone(),
        result: wire_record("", "TXT", ""),
    }));
    assert_eq!(r, Err(CloudflareError::Error(errors)));
}

#[test]
fn update_undecodable_record_is_not_json() {
    let r = interpret_update(Ok(ObjectReply {
        success: true,
        errors: vec![],
        result: wire_record("rec-1", "AAAA", "1.2.3.4"),
    }));
    assert!(matches!(r, Err(CloudflareError::ResponseNotJson(_))));
}

#[test]
fn update_transport_failure_passes_through() {
    let r = interpret_update(Err(FetchError::SendFailed("timed out".to_string())));
    assert_eq!(r, Err(CloudflareError::RequestFailed("timed out".to_string())));
}
