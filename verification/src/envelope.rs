//! The response envelope shared by the edge function and its client:
//! a success flag, a list of coded errors, and an optional result.

use vstd::prelude::*;
use vstd::string::StringExecFns;

use crate::ip::Ipv4Address;

verus! {

/// The ways the edge function can reject a request.
#[derive(Debug, PartialEq, Clone)]
pub enum Error {
    /// The `CF-Connecting-IP` header was not found in the request.
    HeaderNotFound,
    /// The header does not parse as an IP address; holds the raw text.
    InvalidIp(String),
    /// The header holds an IPv6 address, which is not supported.
    V6NotSupported,
}

/// The message text reported for each error.
pub open spec fn error_message_text(e: Error) -> Seq<char> {
    match e {
        Error::HeaderNotFound => "CF-Connecting-IP header not found."@,
        Error::InvalidIp(ip) => "Invalid IP address: "@ + ip@,
        Error::V6NotSupported => "IPv6 addresses are not supported."@,
    }
}

/// An error or message included alongside a response: a code and a
/// human-readable message.  The code type varies with the speaker: the
/// edge function uses [`Error`], the DNS provider an integer.
#[derive(Debug, PartialEq, Clone)]
pub struct ResponseInfo<TCode> {
    /// The error code.
    pub code: TCode,
    /// A human-readable message describing the error.
    pub message: String,
}

impl Error {
    /// The human-readable message for this error.
    pub fn message(&self) -> (r: String)
        ensures
            r@ == error_message_text(*self),
    {
        match self {
            Error::HeaderNotFound => String::from_str("CF-Connecting-IP header not found."),
            Error::InvalidIp(ip) => String::from_str("Invalid IP address: ").concat(ip.as_str()),
            Error::V6NotSupported => String::from_str("IPv6 addresses are not supported."),
        }
    }

    /// Pair this error with its message.
    pub fn into_info(self) -> (r: ResponseInfo<Error>)
        ensures
            r.code == self,
            r.message@ == error_message_text(self),
    {
        let message = self.message();
        ResponseInfo { code: self, message }
    }
}

/// How a transport attempt ended, as the caller's transport shell
/// reports it: the request could not be sent, or the body did not
/// decode as the expected envelope shape.  Each case carries the
/// transport's own message text.
#[derive(Debug, PartialEq, Clone)]
pub enum FetchError {
    /// The request could not be sent.
    SendFailed(String),
    /// The response body is not valid JSON of the expected shape.
    BodyNotJson(String),
}

/// The envelope of the edge function's reply.
#[derive(Debug, PartialEq, Clone)]
pub struct Response {
    /// Whether the request was successful.
    pub success: bool,
    /// Any errors that occurred during the request.
    pub errors: Vec<ResponseInfo<Error>>,
    /// The result of the request, if successful.
    pub result: Option<Ipv4Address>,
}

/// The envelope invariant: `success` holds exactly when a result is
/// present, and exactly when the error list is empty.
pub open spec fn envelope_invariant(r: Response) -> bool {
    &&& r.success == (r.result is Some)
    &&& r.success == (r.errors@.len() == 0)
}

impl Response {
    /// The envelope for a successfully observed IPv4 address.
    pub fn from_ip(ip: Ipv4Address) -> (r: Response)
        ensures
            envelope_invariant(r),
            r.success,
            r.result == Some(ip),
            r.errors@.len() == 0,
    {
        Response { success: true, errors: Vec::new(), result: Some(ip) }
    }

    /// The envelope for a rejection: one coded error, no result.
    pub fn from_error(err: Error) -> (r: Response)
        ensures
            envelope_invariant(r),
            !r.success,
            r.result is None,
            r.errors@.len() == 1,
            r.errors@[0].code == err,
            r.errors@[0].message@ == error_message_text(err),
    {
        let info = err.into_info();
        let mut errors: Vec<ResponseInfo<Error>> = Vec::new();
        errors.push(info);
        Response { success: false, errors, result: None }
    }

    /// The envelope for either outcome.
    pub fn from_result(res: Result<Ipv4Address, Error>) -> (r: Response)
        ensures
            envelope_invariant(r),
            match res {
                Ok(ip) => r.success && r.result == Some(ip) && r.errors@.len() == 0,
                Err(e) => !r.success && r.result is None && r.errors@.len() == 1
                    && r.errors@[0].code == e && r.errors@[0].message@ == error_message_text(e),
            },
    {
        match res {
            Ok(ip) => Self::from_ip(ip),
            Err(e) => Self::from_error(e),
        }
    }
}

} // verus!
