//! The update orchestration pipeline: four sequential stages — IP
//! discovery, zone resolution, record resolution, record update — each
//! skippable when its result is already configured, aborting on the
//! first failure.  The orchestrator only decides: it hands the
//! transport shell an action to perform and consumes the fetched reply
//! as an event.

use vstd::prelude::*;
use vstd::string::StringExecFns;

use crate::envelope::{FetchError, Response};
use crate::ip::{IpAddress, Ipv4Address};
use crate::ip_format::ipv4_text_of;
use crate::provider::{
    interpret_update, resolve_record, resolve_zone, CloudflareError, GetRecordIdError, Id,
    ListReply, NoApiSpecific, ObjectReply,
};
use crate::record::{decoded_content, Record, UpdateRequest, WireRecord};
use crate::worker::{get_ip, GetIpError};

verus! {

/// What the caller supplies before the pipeline starts.
#[derive(Debug, PartialEq, Clone)]
pub struct OrchestratorConfig {
    /// The name of the DNS zone.
    pub zone_name: String,
    /// The zone ID, when known: zone resolution is then skipped.
    pub zone_id: Option<String>,
    /// The record name, to be resolved within the zone.
    pub record_name: Option<String>,
    /// The record ID, when known: record resolution is then skipped.
    pub record_id: Option<String>,
}

/// Exactly one of record name and record ID is supplied.
pub open spec fn record_choice_valid(c: OrchestratorConfig) -> bool {
    (c.record_name is Some) != (c.record_id is Some)
}

/// A configuration rejected before any network call.
#[derive(Debug, PartialEq, Clone)]
pub enum ConfigError {
    /// Not exactly one of record name and record ID was supplied.
    RecordChoice,
}

/// A pipeline failure, tagged with the stage that failed.
#[derive(Debug, PartialEq, Clone)]
pub enum PipelineError {
    /// IP discovery failed.
    GetIp(GetIpError),
    /// Zone resolution failed.
    ZoneLookup(CloudflareError<NoApiSpecific>),
    /// Record resolution failed.
    RecordLookup(CloudflareError<GetRecordIdError>),
    /// The record update failed.
    Update(CloudflareError<NoApiSpecific>),
}

/// What the orchestrator asks the transport shell to do next.
#[derive(Debug, PartialEq, Clone)]
pub enum Action {
    /// Fetch the IP-reporting endpoint and decode its envelope.
    FetchIp,
    /// Fetch the zone list filtered by this exact zone name.
    FetchZoneList {
        /// The zone name to filter by.
        zone_name: String,
    },
    /// Fetch the zone's record list filtered by this exact name.
    FetchRecordList {
        /// The zone to look in.
        zone_id: String,
        /// The fully qualified record name to filter by.
        record_fqdn: String,
    },
    /// Send the partial record update.
    PatchRecord {
        /// The zone holding the record.
        zone_id: String,
        /// The record to update.
        record_id: String,
        /// The new type and content.
        update: UpdateRequest,
    },
}

/// The stage the pipeline is in.
#[derive(Debug, PartialEq, Clone)]
pub enum Stage {
    /// Waiting for the observed IP address.
    AwaitIp,
    /// Waiting for the zone list.
    AwaitZone {
        /// The discovered address.
        ip: Ipv4Address,
    },
    /// Waiting for the record list.
    AwaitRecord {
        /// The discovered address.
        ip: Ipv4Address,
        /// The resolved zone.
        zone_id: String,
    },
    /// Waiting for the update reply.
    AwaitUpdate {
        /// The discovered address.
        ip: Ipv4Address,
        /// The resolved zone.
        zone_id: String,
        /// The resolved record.
        record_id: String,
    },
    /// The record was updated.
    Done {
        /// The discovered address.
        ip: Ipv4Address,
        /// The updated record, as the provider returned it.
        record: Record,
    },
    /// A stage failed; the pipeline is over.
    Failed {
        /// The failure, tagged with its stage.
        error: PipelineError,
    },
}

/// The fetched reply to the last action.
#[derive(Debug, PartialEq)]
pub enum Event {
    /// The reply of the IP-reporting endpoint.
    IpFetched(Result<Response, FetchError>),
    /// The reply of the zone list call.
    ZoneFetched(Result<ListReply<Id>, FetchError>),
    /// The reply of the record list call.
    RecordFetched(Result<ListReply<WireRecord>, FetchError>),
    /// The reply of the update call.
    UpdateFetched(Result<ObjectReply<WireRecord>, FetchError>),
}

/// The message text of a pipeline failure: the failing stage named,
/// then that stage's own message.
pub open spec fn pipeline_error_text(e: PipelineError) -> Seq<char> {
    match e {
        PipelineError::GetIp(g) => crate::worker::get_ip_error_text(g),
        PipelineError::ZoneLookup(c) => "Could not get zone ID: "@
            + crate::provider::cloudflare_error_text(c, crate::provider::no_api_specific_text()),
        PipelineError::RecordLookup(c) => "Could not get record ID: "@
            + crate::provider::cloudflare_error_text(
            c,
            match c {
                CloudflareError::ApiSpecific(g) => crate::provider::get_record_id_error_text(g),
                _ => Seq::empty(),
            },
        ),
        PipelineError::Update(c) => "Could not update record: "@
            + crate::provider::cloudflare_error_text(c, crate::provider::no_api_specific_text()),
    }
}

impl PipelineError {
    /// The human-readable message.
    pub fn message(&self) -> (r: String)
        ensures
            r@ == pipeline_error_text(*self),
    {
        match self {
            PipelineError::GetIp(g) => g.message(),
            PipelineError::ZoneLookup(c) => {
                let api = NoApiSpecific.message();
                String::from_str("Could not get zone ID: ").concat(
                    c.message_with(api.as_str()).as_str(),
                )
            },
            PipelineError::RecordLookup(c) => {
                let api = match c {
                    CloudflareError::ApiSpecific(g) => g.message(),
                    _ => String::new(),
                };
                String::from_str("Could not get record ID: ").concat(
                    c.message_with(api.as_str()).as_str(),
                )
            },
            PipelineError::Update(c) => {
                let api = NoApiSpecific.message();
                String::from_str("Could not update record: ").concat(
                    c.message_with(api.as_str()).as_str(),
                )
            },
        }
    }
}

/// The event answers the stage's outstanding action.  Terminal stages
/// have no outstanding action and match no event.
pub open spec fn event_matches(stage: Stage, event: Event) -> bool {
    match stage {
        Stage::AwaitIp => event is IpFetched,
        Stage::AwaitZone { .. } => event is ZoneFetched,
        Stage::AwaitRecord { .. } => event is RecordFetched,
        Stage::AwaitUpdate { .. } => event is UpdateFetched,
        Stage::Done { .. } => false,
        Stage::Failed { .. } => false,
    }
}

/// IP discovery succeeds exactly when the envelope carries a result.
pub open spec fn ip_fetch_ok(f: Result<Response, FetchError>) -> bool {
    f matches Ok(resp) && resp.result is Some
}

/// Zone resolution succeeds exactly when the envelope declares success
/// and the list is nonempty.
pub open spec fn zone_fetch_ok(f: Result<ListReply<Id>, FetchError>) -> bool {
    f matches Ok(reply) && reply.success && reply.result@.len() > 0
}

/// Record resolution succeeds exactly when every listed record
/// decodes, the envelope declares success, and the list is nonempty.
pub open spec fn record_fetch_ok(f: Result<ListReply<WireRecord>, FetchError>) -> bool {
    f matches Ok(reply) && crate::provider::all_records_decode(reply.result@) && reply.success
        && reply.result@.len() > 0
}

/// The update succeeds exactly when the returned record decodes and
/// the envelope declares success.
pub open spec fn update_fetch_ok(f: Result<ObjectReply<WireRecord>, FetchError>) -> bool {
    f matches Ok(reply) && decoded_content(reply.result.rtype@, reply.result.content@) is Some
        && reply.success
}

/// How the pipeline proceeds once an address and a zone ID are known:
/// with a configured record ID it goes straight to the update;
/// otherwise it looks the record up by its fully qualified name — the
/// record name joined to the zone name with a dot.
pub open spec fn zone_known_step(
    c: OrchestratorConfig,
    ip: Ipv4Address,
    zid: Seq<char>,
    r: (Stage, Option<Action>),
) -> bool {
    if c.record_id is Some {
        &&& r.0 matches Stage::AwaitUpdate { ip: i, zone_id: z, record_id: rid }
            && i == ip && z@ == zid && rid@ == c.record_id->0@
        &&& r.1 matches Some(Action::PatchRecord { zone_id: z, record_id: rid, update })
            && z@ == zid && rid@ == c.record_id->0@ && update.rtype@ == "A"@
            && update.content@ == ipv4_text_of(ip)
    } else {
        &&& r.0 matches Stage::AwaitRecord { ip: i, zone_id: z } && i == ip && z@ == zid
        &&& r.1 matches Some(Action::FetchRecordList { zone_id: z, record_fqdn: q })
            && z@ == zid && q@ == c.record_name->0@ + "."@ + c.zone_name@
    }
}

/// Check the configuration and issue the first action.  Exactly one of
/// record name and record ID must be supplied; an invalid choice is
/// rejected here, before any network call.
pub fn start(config: &OrchestratorConfig) -> (r: Result<(Stage, Action), ConfigError>)
    ensures
        record_choice_valid(*config) <==> r is Ok,
        r matches Ok(sa) ==> sa.0 == Stage::AwaitIp && sa.1 == Action::FetchIp,
        !record_choice_valid(*config) ==> r == Err::<(Stage, Action), ConfigError>(
            ConfigError::RecordChoice,
        ),
{
    let name_given = config.record_name.is_some();
    let id_given = config.record_id.is_some();
    if name_given == id_given {
        Err(ConfigError::RecordChoice)
    } else {
        Ok((Stage::AwaitIp, Action::FetchIp))
    }
}

/// Move to the record stage once the zone ID is known.
fn advance_with_zone(config: &OrchestratorConfig, ip: Ipv4Address, zone_id: String) -> (r: (
    Stage,
    Option<Action>,
))
    requires
        record_choice_valid(*config),
    ensures
        zone_known_step(*config, ip, zone_id@, r),
{
    match &config.record_id {
        Some(rid) => {
            let update = UpdateRequest::from_ip(&IpAddress::V4(ip));
            let action = Action::PatchRecord {
                zone_id: zone_id.clone(),
                record_id: rid.clone(),
                update,
            };
            (
                Stage::AwaitUpdate { ip, zone_id, record_id: rid.clone() },
                Some(action),
            )
        },
        None => {
            let name = match &config.record_name {
                Some(n) => n.clone(),
                None => {
                    proof {
                        assert(false);
                    }
                    String::new()
                },
            };
            proof {
                reveal_strlit(".");
            }
            let fqdn = name.concat(".").concat(config.zone_name.as_str());
            let action = Action::FetchRecordList {
                zone_id: zone_id.clone(),
                record_fqdn: fqdn,
            };
            (Stage::AwaitRecord { ip, zone_id }, Some(action))
        },
    }
}

/// One step of the pipeline: consume the fetched reply to the
/// outstanding action and decide the next stage and action.  A failed
/// resolution at any stage moves to `Failed` and issues no action, so
/// a zone or record failure never reaches the update; in particular,
/// an update is only ever requested after every earlier stage
/// succeeded.
pub fn step(config: &OrchestratorConfig, stage: Stage, event: Event) -> (r: (
    Stage,
    Option<Action>,
))
    requires
        record_choice_valid(*config),
        event_matches(stage, event),
    ensures
        r.0 matches Stage::Failed { .. } ==> r.1 is None,
        match stage {
            Stage::AwaitIp => match event {
                Event::IpFetched(f) => {
                    if ip_fetch_ok(f) {
                        match config.zone_id {
                            Some(z) => zone_known_step(*config, f->Ok_0.result->0, z@, r),
                            None => r.0 matches Stage::AwaitZone { ip }
                                && ip == f->Ok_0.result->0
                                && (r.1 matches Some(Action::FetchZoneList { zone_name })
                                && zone_name@ == config.zone_name@),
                        }
                    } else {
                        r.0 matches Stage::Failed { error }
                            && error matches PipelineError::GetIp(_) && r.1 is None
                    }
                },
                _ => true,
            },
            Stage::AwaitZone { ip } => match event {
                Event::ZoneFetched(f) => {
                    if zone_fetch_ok(f) {
                        zone_known_step(*config, ip, f->Ok_0.result@[0].id@, r)
                    } else {
                        r.0 matches Stage::Failed { error }
                            && error matches PipelineError::ZoneLookup(_) && r.1 is None
                    }
                },
                _ => true,
            },
            Stage::AwaitRecord { ip, zone_id } => match event {
                Event::RecordFetched(f) => {
                    if record_fetch_ok(f) {
                        r.0 matches Stage::AwaitUpdate { ip: i, zone_id: z, record_id: rid }
                            && i == ip && z@ == zone_id@ && rid@ == f->Ok_0.result@[0].id@
                            && (r.1 matches Some(
                            Action::PatchRecord { zone_id: z, record_id: rid, update },
                        ) && z@ == zone_id@ && rid@ == f->Ok_0.result@[0].id@
                            && update.rtype@ == "A"@ && update.content@ == ipv4_text_of(ip))
                    } else {
                        r.0 matches Stage::Failed { error }
                            && error matches PipelineError::RecordLookup(_) && r.1 is None
                    }
                },
                _ => true,
            },
            Stage::AwaitUpdate { ip, .. } => match event {
                Event::UpdateFetched(f) => {
                    if update_fetch_ok(f) {
                        r.0 matches Stage::Done { ip: i, record } && i == ip
                            && Some(record.content) == decoded_content(
                            f->Ok_0.result.rtype@,
                            f->Ok_0.result.content@,
                        ) && record.id@ == f->Ok_0.result.id@
                            && record.name@ == f->Ok_0.result.name@
                            && record.zone_name@ == f->Ok_0.result.zone_name@ && r.1 is None
                    } else {
                        r.0 matches Stage::Failed { error }
                            && error matches PipelineError::Update(_) && r.1 is None
                    }
                },
                _ => true,
            },
            Stage::Done { .. } => true,
            Stage::Failed { .. } => true,
        },
{
    match (stage, event) {
        (Stage::AwaitIp, Event::IpFetched(f)) => match get_ip(f) {
            Err(e) => (Stage::Failed { error: PipelineError::GetIp(e) }, None),
            Ok(ip) => match &config.zone_id {
                Some(z) => advance_with_zone(config, ip, z.clone()),
                None => (
                    Stage::AwaitZone { ip },
                    Some(Action::FetchZoneList { zone_name: config.zone_name.clone() }),
                ),
            },
        },
        (Stage::AwaitZone { ip }, Event::ZoneFetched(f)) => match resolve_zone(f) {
            Err(e) => (Stage::Failed { error: PipelineError::ZoneLookup(e) }, None),
            Ok(zid) => advance_with_zone(config, ip, zid),
        },
        (Stage::AwaitRecord { ip, zone_id }, Event::RecordFetched(f)) => match resolve_record(f) {
            Err(e) => (Stage::Failed { error: PipelineError::RecordLookup(e) }, None),
            Ok(rid) => {
                let update = UpdateRequest::from_ip(&IpAddress::V4(ip));
                let action = Action::PatchRecord {
                    zone_id: zone_id.clone(),
                    record_id: rid.clone(),
                    update,
                };
                (Stage::AwaitUpdate { ip, zone_id, record_id: rid }, Some(action))
            },
        },
        (Stage::AwaitUpdate { ip, .. }, Event::UpdateFetched(f)) => match interpret_update(f) {
            Err(e) => (Stage::Failed { error: PipelineError::Update(e) }, None),
            Ok(record) => (Stage::Done { ip, record }, None),
        },
        _ => {
            proof {
                assert(false);
            }
            (Stage::AwaitIp, None)
        },
    }
}

} // verus!
