//! DNS records and their wire form: the tagged mapping between a
//! record's typed content and the flat `type`/`content` text fields
//! the provider's API carries, and the update request derived from an
//! address.

use vstd::prelude::*;
use vstd::string::StringExecFns;

use crate::ip::{IpAddress, Ipv4Address, Ipv6Address};
use crate::ip_format::{
    ip_text_of, ip_to_text, ipv4_text_of, ipv6_text_of, lemma_ipv4_text_roundtrip,
};
use crate::ip_parse::{
    ipv4_value, ipv6_value, is_ipv4_text, is_ipv6_text, parse_ipv4, parse_ipv6,
};

verus! {

/// The content of a DNS record.
#[derive(Debug, PartialEq, Clone)]
pub enum RecordContent {
    /// An `A` record.
    A {
        /// The IPv4 address of the record.
        content: Ipv4Address,
    },
    /// An `AAAA` record.
    AAAA {
        /// The IPv6 address of the record.
        content: Ipv6Address,
    },
    /// Another type of record, kept opaque.
    Other,
}

/// A DNS record.
#[derive(Debug, PartialEq, Clone)]
pub struct Record {
    /// The record ID.
    pub id: String,
    /// The name of the zone.
    pub zone_name: String,
    /// The name of the record.
    pub name: String,
    /// The content of the record.
    pub content: RecordContent,
}

/// A record as the wire carries it: every field plain text, the
/// content tagged by the `type` field.
#[derive(Debug, PartialEq, Clone)]
pub struct WireRecord {
    /// The record ID.
    pub id: String,
    /// The name of the zone.
    pub zone_name: String,
    /// The name of the record.
    pub name: String,
    /// The record type tag.
    pub rtype: String,
    /// The record content text.
    pub content: String,
}

/// The type tag a content encodes to.
pub open spec fn encoded_rtype_text(c: RecordContent) -> Seq<char> {
    match c {
        RecordContent::A { .. } => "A"@,
        RecordContent::AAAA { .. } => "AAAA"@,
        RecordContent::Other => "Other"@,
    }
}

/// The content text a content encodes to.
pub open spec fn encoded_content_text(c: RecordContent) -> Seq<char> {
    match c {
        RecordContent::A { content } => ipv4_text_of(content),
        RecordContent::AAAA { content } => ipv6_text_of(content),
        RecordContent::Other => Seq::empty(),
    }
}

/// What a wire type tag and content text decode to: tag `A` demands an
/// IPv4 text, tag `AAAA` an IPv6 text, and any other tag decodes to
/// `Other` without error.
pub open spec fn decoded_content(rtype: Seq<char>, content: Seq<char>) -> Option<RecordContent> {
    if rtype == "A"@ {
        if is_ipv4_text(content) {
            Some(RecordContent::A { content: ipv4_value(content) })
        } else {
            None
        }
    } else if rtype == "AAAA"@ {
        if is_ipv6_text(content) {
            Some(RecordContent::AAAA { content: ipv6_value(content) })
        } else {
            None
        }
    } else {
        Some(RecordContent::Other)
    }
}

/// Encode a record to its wire form.
pub fn encode_record(r: &Record) -> (w: WireRecord)
    ensures
        w.id@ == r.id@,
        w.zone_name@ == r.zone_name@,
        w.name@ == r.name@,
        w.rtype@ == encoded_rtype_text(r.content),
        w.content@ == encoded_content_text(r.content),
{
    let (rtype, content): (String, String) = match &r.content {
        RecordContent::A { content } => (
            String::from_str("A"),
            crate::ip_format::ipv4_to_text(content),
        ),
        RecordContent::AAAA { content } => (
            String::from_str("AAAA"),
            crate::ip_format::ipv6_to_text(content),
        ),
        RecordContent::Other => (String::from_str("Other"), String::new()),
    };
    WireRecord {
        id: r.id.clone(),
        zone_name: r.zone_name.clone(),
        name: r.name.clone(),
        rtype,
        content,
    }
}

/// Decode a wire record.  Returns `None` exactly when an address tag
/// carries content that does not parse as an address of that family.
pub fn decode_record(w: WireRecord) -> (r: Option<Record>)
    ensures
        match r {
            Some(rec) => decoded_content(w.rtype@, w.content@) == Some(rec.content)
                && rec.id@ == w.id@ && rec.zone_name@ == w.zone_name@ && rec.name@ == w.name@,
            None => decoded_content(w.rtype@, w.content@) is None,
        },
{
    if w.rtype == String::from_str("A") {
        match parse_ipv4(w.content.as_str()) {
            Some(a) => Some(
                Record {
                    id: w.id,
                    zone_name: w.zone_name,
                    name: w.name,
                    content: RecordContent::A { content: a },
                },
            ),
            None => None,
        }
    } else if w.rtype == String::from_str("AAAA") {
        match parse_ipv6(w.content.as_str()) {
            Some(a) => Some(
                Record {
                    id: w.id,
                    zone_name: w.zone_name,
                    name: w.name,
                    content: RecordContent::AAAA { content: a },
                },
            ),
            None => None,
        }
    } else {
        Some(
            Record {
                id: w.id,
                zone_name: w.zone_name,
                name: w.name,
                content: RecordContent::Other,
            },
        )
    }
}

/// Law: encoding a record's content and decoding the wire fields back
/// yields an equal content.
pub proof fn lemma_record_content_roundtrip(c: RecordContent)
    ensures
        decoded_content(encoded_rtype_text(c), encoded_content_text(c)) == Some(c),
{
    reveal_strlit("A");
    reveal_strlit("AAAA");
    reveal_strlit("Other");
    match c {
        RecordContent::A { content } => {
            lemma_ipv4_text_roundtrip(content);
        },
        RecordContent::AAAA { content } => {
            assert("AAAA"@ != "A"@) by {
                assert("AAAA"@.len() != "A"@.len());
            }
            crate::ip_format::lemma_ipv6_text_roundtrip(content);
        },
        RecordContent::Other => {
            assert("Other"@.len() != "A"@.len());
            assert("Other"@.len() != "AAAA"@.len());
        },
    }
}

/// Law: a wire record whose type tag is neither `A` nor `AAAA`
/// decodes to `Other` without error, whatever its content.
pub proof fn lemma_unknown_type_decodes_to_other(rtype: Seq<char>, content: Seq<char>)
    requires
        rtype != "A"@,
        rtype != "AAAA"@,
    ensures
        decoded_content(rtype, content) == Some(RecordContent::Other),
{
}

/// The partial update sent to the provider: only the type and the
/// content of the record change.
#[derive(Debug, PartialEq, Clone)]
pub struct UpdateRequest {
    /// The new content text.
    pub content: String,
    /// The record type: `A` for IPv4, `AAAA` for IPv6.
    pub rtype: String,
}

impl UpdateRequest {
    /// The update request an address determines: an IPv4 address
    /// becomes an `A` record in dotted decimal, an IPv6 address an
    /// `AAAA` record in the standard text form.
    pub fn from_ip(ip: &IpAddress) -> (r: UpdateRequest)
        ensures
            r.rtype@ == (match *ip {
                IpAddress::V4(_) => "A"@,
                IpAddress::V6(_) => "AAAA"@,
            }),
            r.content@ == ip_text_of(*ip),
    {
        let rtype = match ip {
            IpAddress::V4(_) => String::from_str("A"),
            IpAddress::V6(_) => String::from_str("AAAA"),
        };
        UpdateRequest { content: ip_to_text(ip), rtype }
    }
}

} // verus!
