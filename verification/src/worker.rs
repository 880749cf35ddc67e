//! Interpreting the edge function's reply on the client side: the IP
//! discovery step of the pipeline.

use vstd::prelude::*;
use vstd::string::StringExecFns;

use crate::envelope::{Error, FetchError, Response, ResponseInfo};
use crate::ip::Ipv4Address;

verus! {

/// Errors of fetching the observed IP address from the edge function.
#[derive(Debug, PartialEq, Clone)]
pub enum GetIpError {
    /// The request could not be sent; holds the transport's message.
    RequestFailed(String),
    /// The response body is not valid JSON of the envelope shape.
    ResponseNotJson(String),
    /// The envelope carries no result; holds the whole envelope.
    UnsuccessfulResponse(Response),
}

/// Interpret a fetched reply envelope: the observed IPv4 address when
/// one is present, otherwise the whole envelope as the error.
pub fn get_ip(fetched: Result<Response, FetchError>) -> (r: Result<Ipv4Address, GetIpError>)
    ensures
        match fetched {
            Err(FetchError::SendFailed(m)) => r matches Err(GetIpError::RequestFailed(t))
                && t@ == m@,
            Err(FetchError::BodyNotJson(m)) => r matches Err(GetIpError::ResponseNotJson(t))
                && t@ == m@,
            Ok(resp) => match resp.result {
                Some(ip) => r == Ok::<Ipv4Address, GetIpError>(ip),
                None => r matches Err(GetIpError::UnsuccessfulResponse(e)) && e == resp,
            },
        },
{
    match fetched {
        Err(FetchError::SendFailed(m)) => Err(GetIpError::RequestFailed(m)),
        Err(FetchError::BodyNotJson(m)) => Err(GetIpError::ResponseNotJson(m)),
        Ok(resp) => match resp.result {
            Some(ip) => Ok(ip),
            None => Err(GetIpError::UnsuccessfulResponse(resp)),
        },
    }
}

/// The messages of the edge function's errors, joined with `; `.
pub open spec fn edge_errors_text(es: Seq<ResponseInfo<Error>>) -> Seq<char>
    decreases es.len(),
{
    if es.len() == 0 {
        Seq::empty()
    } else if es.len() == 1 {
        es[0].message@
    } else {
        es[0].message@ + "; "@ + edge_errors_text(es.drop_first())
    }
}

/// The joined text grows at its back.
proof fn lemma_edge_errors_text_snoc(es: Seq<ResponseInfo<Error>>)
    requires
        es.len() >= 2,
    ensures
        edge_errors_text(es) == edge_errors_text(es.drop_last()) + "; "@ + es.last().message@,
    decreases es.len(),
{
    reveal_with_fuel(edge_errors_text, 3);
    let df = es.drop_first();
    if es.len() == 2 {
        assert(es.drop_last() =~= seq![es[0]]);
        assert(df =~= seq![es[1]]);
        assert(edge_errors_text(es) =~= edge_errors_text(es.drop_last()) + "; "@
            + es.last().message@);
    } else {
        lemma_edge_errors_text_snoc(df);
        assert(df.drop_last() =~= es.drop_last().drop_first());
        assert(df.last() == es.last());
        assert(es.drop_last().len() >= 2);
        assert(es.drop_last()[0] == es[0]);
        let a = es[0].message@;
        let sep = "; "@;
        assert(edge_errors_text(es) == a + sep + edge_errors_text(df));
        assert(edge_errors_text(df) == edge_errors_text(df.drop_last()) + sep
            + es.last().message@);
        assert(edge_errors_text(es.drop_last()) == a + sep + edge_errors_text(df.drop_last()));
        assert(a + sep + (edge_errors_text(df.drop_last()) + sep + es.last().message@)
            =~= (a + sep + edge_errors_text(df.drop_last())) + sep + es.last().message@);
        assert(edge_errors_text(es) =~= edge_errors_text(es.drop_last()) + sep
            + es.last().message@);
    }
}

/// Append the joined messages of the edge function's errors.
fn push_edge_errors(out: &mut String, es: &Vec<ResponseInfo<Error>>)
    ensures
        final(out)@ == old(out)@ + edge_errors_text(es@),
{
    proof {
        reveal_strlit("; ");
    }
    let mut k: usize = 0;
    while k < es.len()
        invariant
            k <= es@.len(),
            out@ == old(out)@ + edge_errors_text(es@.take(k as int)),
        decreases es@.len() - k,
    {
        if k > 0 {
            out.append("; ");
        }
        out.append(es[k].message.as_str());
        proof {
            let pre = es@.take(k as int);
            let ext = es@.take(k + 1);
            if k == 0 {
                assert(ext =~= seq![es@[0]]);
                assert(out@ =~= old(out)@ + edge_errors_text(ext));
            } else {
                lemma_edge_errors_text_snoc(ext);
                assert(ext.drop_last() =~= pre);
                assert(ext.last() == es@[k as int]);
                assert(out@ =~= old(out)@ + edge_errors_text(ext));
            }
        }
        k = k + 1;
    }
    proof {
        assert(es@.take(es@.len() as int) =~= es@);
    }
}

/// The message text of an IP discovery error.
pub open spec fn get_ip_error_text(e: GetIpError) -> Seq<char> {
    match e {
        GetIpError::RequestFailed(m) => "Failed to send request: "@ + m@ + "."@,
        GetIpError::ResponseNotJson(m) => "Failed to parse JSON response: "@ + m@ + "."@,
        GetIpError::UnsuccessfulResponse(resp) => "Response was not successful: errors: "@
            + edge_errors_text(resp.errors@),
    }
}

impl GetIpError {
    /// The human-readable message.
    pub fn message(&self) -> (r: String)
        ensures
            r@ == get_ip_error_text(*self),
    {
        match self {
            GetIpError::RequestFailed(m) => String::from_str("Failed to send request: ")
                .concat(m.as_str()).concat("."),
            GetIpError::ResponseNotJson(m) => String::from_str("Failed to parse JSON response: ")
                .concat(m.as_str()).concat("."),
            GetIpError::UnsuccessfulResponse(resp) => {
                let mut out = String::from_str("Response was not successful: errors: ");
                push_edge_errors(&mut out, &resp.errors);
                out
            },
        }
    }
}

} // verus!
