//! Interpreting the DNS provider's replies: the layered error model
//! for zone lookup, record lookup, and record update.  The transport
//! shell hands in the decoded envelope (or how fetching it failed);
//! everything from there on is interpreted here.

use vstd::prelude::*;
use vstd::string::StringExecFns;

use crate::envelope::{FetchError, ResponseInfo};
use crate::ip_format::{dec_text, push_dec};
use crate::record::{decode_record, decoded_content, Record, WireRecord};

verus! {

/// An entity of which only the ID is read.
#[derive(Debug, PartialEq, Clone)]
pub struct Id {
    /// The entity's ID.
    pub id: String,
}

/// The provider's envelope around a list-valued result.
#[derive(Debug, PartialEq, Clone)]
pub struct ListReply<T> {
    /// Whether the call succeeded.
    pub success: bool,
    /// The provider's coded errors.
    pub errors: Vec<ResponseInfo<i32>>,
    /// The result list.
    pub result: Vec<T>,
}

/// The provider's envelope around an object-valued result.
#[derive(Debug, PartialEq, Clone)]
pub struct ObjectReply<T> {
    /// Whether the call succeeded.
    pub success: bool,
    /// The provider's coded errors.
    pub errors: Vec<ResponseInfo<i32>>,
    /// The result object.
    pub result: T,
}

/// Errors of a call to the provider, innermost to outermost: the
/// request was not sent, the body did not decode, the provider
/// declared failure, the expected entity was absent, or an error
/// specific to the call site occurred.
#[derive(Debug, PartialEq, Clone)]
pub enum CloudflareError<T> {
    /// The request could not be sent; holds the transport's message.
    RequestFailed(String),
    /// The response did not decode as the expected envelope shape.
    ResponseNotJson(String),
    /// The provider itself declared failure, with its coded errors.
    Error(Vec<ResponseInfo<i32>>),
    /// The envelope succeeded but the expected entity is absent.
    EmptyResult,
    /// An error specific to the call site.
    ApiSpecific(T),
}

/// No additional call-site-specific errors.
#[derive(Debug, PartialEq, Clone)]
pub struct NoApiSpecific;

/// Errors specific to resolving a record ID.
#[derive(Debug, PartialEq, Clone)]
pub enum GetRecordIdError {
    /// The record type is not supported; holds the type tag.
    InvalidRecordType(String),
}

/// Resolve a zone ID from a fetched zone list: transport and decode
/// failures pass through, a failed envelope surfaces the provider's
/// errors verbatim, an empty list is its own error, and otherwise the
/// first entry's ID wins — multiple matches are not an error.
pub fn resolve_zone(fetched: Result<ListReply<Id>, FetchError>) -> (r: Result<
    String,
    CloudflareError<NoApiSpecific>,
>)
    ensures
        match fetched {
            Err(FetchError::SendFailed(m)) => r matches Err(
                CloudflareError::RequestFailed(t),
            ) && t@ == m@,
            Err(FetchError::BodyNotJson(m)) => r matches Err(
                CloudflareError::ResponseNotJson(t),
            ) && t@ == m@,
            Ok(reply) => {
                if !reply.success {
                    r matches Err(CloudflareError::Error(es)) && es == reply.errors
                } else if reply.result@.len() == 0 {
                    r matches Err(CloudflareError::EmptyResult)
                } else {
                    r matches Ok(id) && id@ == reply.result@[0].id@
                }
            },
        },
{
    match fetched {
        Err(FetchError::SendFailed(m)) => Err(CloudflareError::RequestFailed(m)),
        Err(FetchError::BodyNotJson(m)) => Err(CloudflareError::ResponseNotJson(m)),
        Ok(reply) => {
            if !reply.success {
                Err(CloudflareError::Error(reply.errors))
            } else if reply.result.len() == 0 {
                Err(CloudflareError::EmptyResult)
            } else {
                Ok(reply.result[0].id.clone())
            }
        },
    }
}

/// Whether a wire record's tagged content decodes.
pub fn wire_record_decodes(w: &WireRecord) -> (b: bool)
    ensures
        b == (decoded_content(w.rtype@, w.content@) is Some),
{
    if w.rtype == String::from_str("A") {
        match crate::ip_parse::parse_ipv4(w.content.as_str()) {
            Some(_) => true,
            None => false,
        }
    } else if w.rtype == String::from_str("AAAA") {
        match crate::ip_parse::parse_ipv6(w.content.as_str()) {
            Some(_) => true,
            None => false,
        }
    } else {
        true
    }
}

/// Every wire record in the list decodes.
pub open spec fn all_records_decode(rs: Seq<WireRecord>) -> bool {
    forall|i: int| 0 <= i < rs.len()
        ==> decoded_content((#[trigger] rs[i]).rtype@, rs[i].content@) is Some
}

/// Resolve a record ID from a fetched record list.  The list is
/// decoded as a whole before the envelope is interpreted, so one
/// malformed record makes the body count as undecodable, as eager
/// decoding of the response body does.  Otherwise the error taxonomy
/// and the first-entry tie-break match [`resolve_zone`].
pub fn resolve_record(fetched: Result<ListReply<WireRecord>, FetchError>) -> (r: Result<
    String,
    CloudflareError<GetRecordIdError>,
>)
    ensures
        match fetched {
            Err(FetchError::SendFailed(m)) => r matches Err(
                CloudflareError::RequestFailed(t),
            ) && t@ == m@,
            Err(FetchError::BodyNotJson(m)) => r matches Err(
                CloudflareError::ResponseNotJson(t),
            ) && t@ == m@,
            Ok(reply) => {
                if !all_records_decode(reply.result@) {
                    r matches Err(CloudflareError::ResponseNotJson(_))
                } else if !reply.success {
                    r matches Err(CloudflareError::Error(es)) && es == reply.errors
                } else if reply.result@.len() == 0 {
                    r matches Err(CloudflareError::EmptyResult)
                } else {
                    r matches Ok(id) && id@ == reply.result@[0].id@
                }
            },
        },
{
    match fetched {
        Err(FetchError::SendFailed(m)) => Err(CloudflareError::RequestFailed(m)),
        Err(FetchError::BodyNotJson(m)) => Err(CloudflareError::ResponseNotJson(m)),
        Ok(reply) => {
            let mut i: usize = 0;
            while i < reply.result.len()
                invariant
                    fetched == Ok::<ListReply<WireRecord>, FetchError>(reply),
                    i <= reply.result@.len(),
                    forall|j: int| 0 <= j < i
                        ==> decoded_content(
                            (#[trigger] reply.result@[j]).rtype@,
                            reply.result@[j].content@,
                        ) is Some,
                decreases reply.result@.len() - i,
            {
                if !wire_record_decodes(&reply.result[i]) {
                    proof {
                        assert(decoded_content(
                            reply.result@[i as int].rtype@,
                            reply.result@[i as int].content@,
                        ) is None);
                        assert(!all_records_decode(reply.result@));
                    }
                    return Err(CloudflareError::ResponseNotJson(
                        String::from_str("a record in the response does not decode"),
                    ));
                }
                i = i + 1;
            }
            if !reply.success {
                Err(CloudflareError::Error(reply.errors))
            } else if reply.result.len() == 0 {
                Err(CloudflareError::EmptyResult)
            } else {
                Ok(reply.result[0].id.clone())
            }
        },
    }
}

/// Interpret the reply to a record update: the body's record decodes
/// first (as eager decoding does), then a failed envelope surfaces the
/// provider's errors, and otherwise the updated record is returned.
/// There is no empty-result case: the envelope carries a single
/// object, not a list.
pub fn interpret_update(fetched: Result<ObjectReply<WireRecord>, FetchError>) -> (r: Result<
    Record,
    CloudflareError<NoApiSpecific>,
>)
    ensures
        match fetched {
            Err(FetchError::SendFailed(m)) => r matches Err(
                CloudflareError::RequestFailed(t),
            ) && t@ == m@,
            Err(FetchError::BodyNotJson(m)) => r matches Err(
                CloudflareError::ResponseNotJson(t),
            ) && t@ == m@,
            Ok(reply) => {
                if decoded_content(reply.result.rtype@, reply.result.content@) is None {
                    r matches Err(CloudflareError::ResponseNotJson(_))
                } else if !reply.success {
                    r matches Err(CloudflareError::Error(es)) && es == reply.errors
                } else {
                    r matches Ok(rec) && Some(rec.content) == decoded_content(
                        reply.result.rtype@,
                        reply.result.content@,
                    ) && rec.id@ == reply.result.id@ && rec.zone_name@ == reply.result.zone_name@
                        && rec.name@ == reply.result.name@
                }
            },
        },
{
    match fetched {
        Err(FetchError::SendFailed(m)) => Err(CloudflareError::RequestFailed(m)),
        Err(FetchError::BodyNotJson(m)) => Err(CloudflareError::ResponseNotJson(m)),
        Ok(reply) => {
            let success = reply.success;
            let errors = reply.errors;
            match decode_record(reply.result) {
                None => Err(CloudflareError::ResponseNotJson(
                    String::from_str("the record in the response does not decode"),
                )),
                Some(rec) => {
                    if !success {
                        Err(CloudflareError::Error(errors))
                    } else {
                        Ok(rec)
                    }
                },
            }
        },
    }
}

/// The text of an integer code, with a sign for negative values.
pub open spec fn int_text(n: int) -> Seq<char> {
    if n < 0 {
        seq!['-'] + dec_text(-n)
    } else {
        dec_text(n)
    }
}

/// One coded entry as text: `code: message`.
pub open spec fn info_text(i: ResponseInfo<i32>) -> Seq<char> {
    int_text(i.code as int) + ": "@ + i.message@
}

/// The coded entries as text, joined with `; `.
pub open spec fn infos_text(es: Seq<ResponseInfo<i32>>) -> Seq<char>
    decreases es.len(),
{
    if es.len() == 0 {
        Seq::empty()
    } else if es.len() == 1 {
        info_text(es[0])
    } else {
        info_text(es[0]) + "; "@ + infos_text(es.drop_first())
    }
}

/// The joined text grows at its back.
proof fn lemma_infos_text_snoc(es: Seq<ResponseInfo<i32>>)
    requires
        es.len() >= 2,
    ensures
        infos_text(es) == infos_text(es.drop_last()) + "; "@ + info_text(es.last()),
    decreases es.len(),
{
    reveal_with_fuel(infos_text, 3);
    let df = es.drop_first();
    if es.len() == 2 {
        assert(es.drop_last() =~= seq![es[0]]);
        assert(df =~= seq![es[1]]);
        assert(infos_text(es) =~= infos_text(es.drop_last()) + "; "@ + info_text(es.last()));
    } else {
        lemma_infos_text_snoc(df);
        assert(df.drop_last() =~= es.drop_last().drop_first());
        assert(df.last() == es.last());
        assert(es.drop_last().len() >= 2);
        assert(es.drop_last()[0] == es[0]);
        let a = info_text(es[0]);
        let sep = "; "@;
        assert(infos_text(es) == a + sep + infos_text(df));
        assert(infos_text(df) == infos_text(df.drop_last()) + sep + info_text(es.last()));
        assert(infos_text(es.drop_last()) == a + sep + infos_text(df.drop_last()));
        assert(a + sep + (infos_text(df.drop_last()) + sep + info_text(es.last()))
            =~= (a + sep + infos_text(df.drop_last())) + sep + info_text(es.last()));
        assert(infos_text(es) =~= infos_text(es.drop_last()) + sep + info_text(es.last()));
    }
}

/// Append the text of an integer code.
fn push_int(out: &mut String, v: i32)
    ensures
        final(out)@ == old(out)@ + int_text(v as int),
{
    if v < 0 {
        proof {
            reveal_strlit("-");
        }
        out.append("-");
        let m = (-(v as i64)) as u32;
        push_dec(out, m);
        proof {
            assert(final(out)@ =~= old(out)@ + int_text(v as int));
        }
    } else {
        push_dec(out, v as u32);
    }
}

/// Append the joined text of the coded entries.
fn push_infos(out: &mut String, es: &Vec<ResponseInfo<i32>>)
    ensures
        final(out)@ == old(out)@ + infos_text(es@),
{
    proof {
        reveal_strlit("; ");
        reveal_strlit(": ");
    }
    let mut k: usize = 0;
    while k < es.len()
        invariant
            k <= es@.len(),
            out@ == old(out)@ + infos_text(es@.take(k as int)),
        decreases es@.len() - k,
    {
        if k > 0 {
            out.append("; ");
        }
        push_int(out, es[k].code);
        out.append(": ");
        out.append(es[k].message.as_str());
        proof {
            let pre = es@.take(k as int);
            let ext = es@.take(k + 1);
            if k == 0 {
                assert(ext =~= seq![es@[0]]);
                assert(out@ =~= old(out)@ + infos_text(ext));
            } else {
                lemma_infos_text_snoc(ext);
                assert(ext.drop_last() =~= pre);
                assert(ext.last() == es@[k as int]);
                assert(out@ =~= old(out)@ + infos_text(ext));
            }
        }
        k = k + 1;
    }
    proof {
        assert(es@.take(es@.len() as int) =~= es@);
    }
}

/// The message reported when a call has no call-site-specific errors.
pub open spec fn no_api_specific_text() -> Seq<char> {
    "An unknown error occurred."@
}

impl NoApiSpecific {
    /// The human-readable message.
    pub fn message(&self) -> (r: String)
        ensures
            r@ == no_api_specific_text(),
    {
        String::from_str("An unknown error occurred.")
    }
}

/// The message text of a record-resolution error.
pub open spec fn get_record_id_error_text(e: GetRecordIdError) -> Seq<char> {
    match e {
        GetRecordIdError::InvalidRecordType(t) => "The record type '"@ + t@
            + "' is not supported."@,
    }
}

impl GetRecordIdError {
    /// The human-readable message.
    pub fn message(&self) -> (r: String)
        ensures
            r@ == get_record_id_error_text(*self),
    {
        match self {
            GetRecordIdError::InvalidRecordType(t) => String::from_str("The record type '")
                .concat(t.as_str()).concat("' is not supported."),
        }
    }
}

/// The message text of a provider-call error: transport and decode
/// failures carry the transport's words, a provider-declared failure
/// lists every coded entry verbatim, and the call-site-specific slot
/// reports its own text.
pub open spec fn cloudflare_error_text<T>(e: CloudflareError<T>, api: Seq<char>) -> Seq<char> {
    match e {
        CloudflareError::RequestFailed(m) => "Failed to send request: "@ + m@ + "."@,
        CloudflareError::ResponseNotJson(m) => "Failed to parse JSON response: "@ + m@ + "."@,
        CloudflareError::Error(es) => if es@.len() == 0 {
            "The Cloudflare API returned an unknown error."@
        } else if es@.len() == 1 {
            "The Cloudflare API returned an error: "@ + infos_text(es@)
        } else {
            "The Cloudflare API returned multiple errors: "@ + infos_text(es@)
        },
        CloudflareError::EmptyResult => "No results found."@,
        CloudflareError::ApiSpecific(_) => api,
    }
}

impl<T> CloudflareError<T> {
    /// The human-readable message, given the text of the call-site-
    /// specific error (used only by the `ApiSpecific` case).
    pub fn message_with(&self, api_specific: &str) -> (r: String)
        ensures
            r@ == cloudflare_error_text(*self, api_specific@),
    {
        match self {
            CloudflareError::RequestFailed(m) => String::from_str("Failed to send request: ")
                .concat(m.as_str()).concat("."),
            CloudflareError::ResponseNotJson(m) => String::from_str(
                "Failed to parse JSON response: ",
            ).concat(m.as_str()).concat("."),
            CloudflareError::Error(es) => {
                if es.len() == 0 {
                    String::from_str("The Cloudflare API returned an unknown error.")
                } else {
                    let mut out = if es.len() == 1 {
                        String::from_str("The Cloudflare API returned an error: ")
                    } else {
                        String::from_str("The Cloudflare API returned multiple errors: ")
                    };
                    push_infos(&mut out, es);
                    out
                }
            },
            CloudflareError::EmptyResult => String::from_str("No results found."),
            CloudflareError::ApiSpecific(_) => String::from_str(api_specific),
        }
    }
}

} // verus!
