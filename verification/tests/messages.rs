//! The human-readable messages of the layered errors.

use cf_ddns::envelope::{Error, ResponseInfo};
use cf_ddns::orchestrator::PipelineError;
use cf_ddns::provider::{CloudflareError, GetRecordIdError, NoApiSpecific};
use cf_ddns::worker::GetIpError;

fn info(code: i32, message: &str) -> ResponseInfo<i32> {
    ResponseInfo { code, message: message.to_string() }
}

#[test]
fn edge_error_messages() {
    assert_eq!(Error::HeaderNotFound.message(), "CF-Connecting-IP header not found.");
    assert_eq!(
        Error::InvalidIp("nonsense".to_string()).message(),
        "Invalid IP address: nonsense"
    );
    assert_eq!(Error::V6NotSupported.message(), "IPv6 addresses are not supported.");
}

#[test]
fn cloudflare_error_messages() {
    let api = NoApiSpecific.message();
    let e: CloudflareError<NoApiSpecific> =
        CloudflareError::RequestFailed("timed out".to_string());
    assert_eq!(e.message_with(&api), "Failed to send request: timed out.");

    let e: CloudflareError<NoApiSpecific> =
        CloudflareError::ResponseNotJson("expected value".to_string());
    assert_eq!(e.message_with(&api), "Failed to parse JSON response: expected value.");

    let e: CloudflareError<NoApiSpecific> = CloudflareError::Error(vec![]);
    assert_eq!(e.message_with(&api), "The Cloudflare API returned an unknown error.");

    let e: CloudflareError<NoApiSpecific> =
        CloudflareError::Error(vec![info(10000, "Authentication error")]);
    assert_eq!(
        e.message_with(&api),
        "The Cloudflare API returned an error: 10000: Authentication error"
    );

    let e: CloudflareError<NoApiSpecific> =
        CloudflareError::Error(vec![info(10000, "Authentication error"), info(-7, "No route")]);
    assert_eq!(
        e.message_with(&api),
        "The Cloudflare API returned multiple errors: 10000: Authentication error; -7: No route"
    );

    let e: CloudflareError<NoApiSpecific> = CloudflareError::EmptyResult;
    assert_eq!(e.message_with(&api), "No results found.");

    let inner = GetRecordIdError::InvalidRecordType("MX".to_string());
    let e: CloudflareError<GetRecordIdError> = CloudflareError::ApiSpecific(inner.clone());
    assert_eq!(e.message_with(&inner.message()), "The record type 'MX' is not supported.");
}

#[test]
fn get_ip_error_messages() {
    let e = GetIpError::RequestFailed("no route to host".to_string());
    assert_eq!(e.message(), "Failed to send request: no route to host.");

    let resp = cf_ddns::envelope::Response {
        success: false,
        errors: vec![
            ResponseInfo {
                code: Error::HeaderNotFound,
                message: "CF-Connecting-IP header not found.".to_string(),
            },
            ResponseInfo {
                code: Error::V6NotSupported,
                message: "IPv6 addresses are not supported.".to_string(),
            },
        ],
        result: None,
    };
    let e = GetIpError::UnsuccessfulResponse(resp);
    assert_eq!(
        e.message(),
        "Response was not successful: errors: CF-Connecting-IP header not found.; \
         IPv6 addresses are not supported."
    );
}

#[test]
fn pipeline_error_messages_name_the_stage() {
    let e = PipelineError::ZoneLookup(CloudflareError::EmptyResult);
    assert_eq!(e.message(), "Could not get zone ID: No results found.");

    let e = PipelineError::RecordLookup(CloudflareError::ApiSpecific(
        GetRecordIdError::InvalidRecordType("MX".to_string()),
    ));
    assert_eq!(e.message(), "Could not get record ID: The record type 'MX' is not supported.");

    let e = PipelineError::Update(CloudflareError::RequestFailed("reset by peer".to_string()));
    assert_eq!(e.message(), "Could not update record: Failed to send request: reset by peer.");

    let e = PipelineError::GetIp(GetIpError::ResponseNotJson("trailing data".to_string()));
    assert_eq!(e.message(), "Failed to parse JSON response: trailing data.");
}
