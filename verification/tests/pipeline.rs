//! The update orchestration pipeline: stage sequencing, skippable
//! lookups, qualification of the record name, and the short circuit on
//! failure.

use cf_ddns::envelope::{FetchError, Response, ResponseInfo};
use cf_ddns::ip::Ipv4Address;
use cf_ddns::orchestrator::{
    start, step, Action, ConfigError, Event, OrchestratorConfig, PipelineError, Stage,
};
use cf_ddns::provider::{Id, ListReply, ObjectReply};
use cf_ddns::record::WireRecord;
use cf_ddns::worker::GetIpError;

fn config_with_names() -> OrchestratorConfig {
    OrchestratorConfig {
        zone_name: "example.com".to_string(),
        zone_id: None,
        record_name: Some("www".to_string()),
        record_id: None,
    }
}

fn ip_reply(octets: [u8; 4]) -> Event {
    Event::IpFetched(Ok(Response {
        success: true,
        errors: vec![],
        result: Some(Ipv4Address { octets }),
    }))
}

fn zone_reply(ids: &[&str]) -> Event {
    Event::ZoneFetched(Ok(ListReply {
        success: true,
        errors: vec![],
        result: ids.iter().map(|s| Id { id: s.to_string() }).collect(),
    }))
}

fn record_reply(ids: &[&str]) -> Event {
    Event::RecordFetched(Ok(ListReply {
        success: true,
        errors: vec![],
        result: ids
            .iter()
            .map(|s| WireRecord {
                id: s.to_string(),
                zone_name: "example.com".to_string(),
                name: "www.example.com".to_string(),
                rtype: "A".to_string(),
                content: "198.51.100.4".to_string(),
            })
            .collect(),
    }))
}

fn update_reply(content: &str) -> Event {
    Event::UpdateFetched(Ok(ObjectReply {
        success: true,
        errors: vec![],
        result: WireRecord {
            id: "rec-1".to_string(),
            zone_name: "example.com".to_string(),
            name: "www.example.com".to_string(),
            rtype: "A".to_string(),
            content: content.to_string(),
        },
    }))
}

#[test]
fn start_requires_exactly_one_record_choice() {
    let mut c = config_with_names();
    assert!(start(&c).is_ok());
    c.record_id = Some("rec-1".to_string());
    assert_eq!(start(&c), Err(ConfigError::RecordChoice));
    c.record_name = None;
    assert!(start(&c).is_ok());
    c.record_id = None;
    assert_eq!(start(&c), Err(ConfigError::RecordChoice));
}

#[test]
fn full_pipeline_runs_all_four_stages() {
    let c = config_with_names();
    let (stage, action) = start(&c).unwrap();
    assert_eq!(action, Action::FetchIp);

    let (stage, action) = step(&c, stage, ip_reply([203, 0, 113, 7]));
    assert_eq!(
        action,
        Some(Action::FetchZoneList { zone_name: "example.com".to_string() })
    );

    let (stage, action) = step(&c, stage, zone_reply(&["zone-1"]));
    // Qualification: the lookup asks for exactly "www.example.com".
    assert_eq!(
        action,
        Some(Action::FetchRecordList {
            zone_id: "zone-1".to_string(),
            record_fqdn: "www.example.com".to_string(),
        })
    );

    let (stage, action) = step(&c, stage, record_reply(&["rec-1"]));
    match action {
        Some(Action::PatchRecord { zone_id, record_id, update }) => {
            assert_eq!(zone_id, "zone-1");
            assert_eq!(record_id, "rec-1");
            assert_eq!(update.rtype, "A");
            assert_eq!(update.content, "203.0.113.7");
        }
        other => panic!("expected the update action, got {:?}", other),
    }

    let (stage, action) = step(&c, stage, update_reply("203.0.113.7"));
    assert_eq!(action, None);
    match stage {
        Stage::Done { ip, record } => {
            assert_eq!(ip, Ipv4Address { octets: [203, 0, 113, 7] });
            assert_eq!(record.name, "www.example.com");
        }
        other => panic!("expected the pipeline to finish, got {:?}", other),
    }
}

#[test]
fn configured_ids_skip_both_lookups() {
    let c = OrchestratorConfig {
        zone_name: "example.com".to_string(),
        zone_id: Some("zone-9".to_string()),
        record_name: None,
        record_id: Some("rec-9".to_string()),
    };
    let (stage, _) = start(&c).unwrap();
    let (_, action) = step(&c, stage, ip_reply([192, 0, 2, 1]));
    match action {
        Some(Action::PatchRecord { zone_id, record_id, update }) => {
            assert_eq!(zone_id, "zone-9");
            assert_eq!(record_id, "rec-9");
            assert_eq!(update.content, "192.0.2.1");
        }
        other => panic!("expected the update action, got {:?}", other),
    }
}

#[test]
fn zone_failure_short_circuits_before_the_update() {
    // A call-counting stub: every action the orchestrator ever issues
    // is recorded; a failed zone resolution must never reach the
    // update.
    let c = config_with_names();
    let mut actions: Vec<Action> = Vec::new();
    let (stage, first) = start(&c).unwrap();
    actions.push(first);
    let (stage, action) = step(&c, stage, ip_reply([203, 0, 113, 7]));
    if let Some(a) = action {
        actions.push(a);
    }
    let failed_zone = Event::ZoneFetched(Ok(ListReply {
        success: false,
        errors: vec![ResponseInfo { code: 10000, message: "Authentication error".to_string() }],
        result: vec![],
    }));
    let (stage, action) = step(&c, stage, failed_zone);
    assert_eq!(action, None);
    match &stage {
        Stage::Failed { error: PipelineError::ZoneLookup(_) } => {}
        other => panic!("expected a zone-lookup failure, got {:?}", other),
    }
    // The pipeline is over; no update action was ever issued.
    assert!(actions
        .iter()
        .all(|a| !matches!(a, Action::PatchRecord { .. })));
}

#[test]
fn ip_discovery_failure_ends_the_pipeline() {
    let c = config_with_names();
    let (stage, _) = start(&c).unwrap();
    let (stage, action) = step(
        &c,
        stage,
        Event::IpFetched(Err(FetchError::SendFailed("no route to host".to_string()))),
    );
    assert_eq!(action, None);
    match stage {
        Stage::Failed { error } => assert_eq!(
            error,
            PipelineError::GetIp(GetIpError::RequestFailed("no route to host".to_string()))
        ),
        other => panic!("expected an IP discovery failure, got {:?}", other),
    }
}

#[test]
fn unsuccessful_ip_envelope_carries_the_whole_response() {
    let c = config_with_names();
    let (stage, _) = start(&c).unwrap();
    let resp = Response { success: false, errors: vec![], result: None };
    let (stage, action) = step(&c, stage, Event::IpFetched(Ok(resp.clone())));
    assert_eq!(action, None);
    match stage {
        Stage::Failed { error } => {
            assert_eq!(error, PipelineError::GetIp(GetIpError::UnsuccessfulResponse(resp)))
        }
        other => panic!("expected an IP discovery failure, got {:?}", other),
    }
}
