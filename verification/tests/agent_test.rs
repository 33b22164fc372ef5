use license_secret_agent::audit::AuditLevel;
use license_secret_agent::config::Config;
use license_secret_agent::degraded::DegradedMode;
use license_secret_agent::engine::CoreEngine;
use license_secret_agent::ipc::{encode_frame, parse_validate_request, read_frame_len, IpcServer};
use license_secret_agent::json::{parse_json, render, Json, JsonNum};
use license_secret_agent::cli::{Cli, Commands};
use license_secret_agent::tpm::TpmManager;

const T_NOW: i64 = 1735689600;

#[test]
fn json_round_trip_on_a_mixed_document() {
    let doc = Json::Obj(vec![
        (b"name".to_vec(), Json::Str(b"line \"one\" \\ two".to_vec())),
        (b"count".to_vec(), Json::Num(JsonNum { neg: false, mag: 18446744073709551615 })),
        (b"delta".to_vec(), Json::Num(JsonNum { neg: true, mag: 42 })),
        (b"flag".to_vec(), Json::Bool(true)),
        (b"none".to_vec(), Json::Null),
        (
            b"items".to_vec(),
            Json::Arr(vec![Json::Num(JsonNum { neg: false, mag: 0 }), Json::Str(vec![])]),
        ),
        (b"empty_obj".to_vec(), Json::Obj(vec![])),
        (b"empty_arr".to_vec(), Json::Arr(vec![])),
    ]);
    let bytes = render(&doc);
    let reparsed = parse_json(&bytes).unwrap();
    assert_eq!(render(&reparsed), bytes);
    // and the text is ordinary JSON
    assert_eq!(
        String::from_utf8(bytes).unwrap(),
        "{\"name\":\"line \\\"one\\\" \\\\ two\",\"count\":18446744073709551615,\"delta\":-42,\"flag\":true,\"none\":null,\"items\":[0,\"\"],\"empty_obj\":{},\"empty_arr\":[]}"
    );
}

#[test]
fn json_parser_tolerates_whitespace_and_standard_escapes() {
    // pretty-printed documents (as other writers produce them) parse
    let pretty = b" {\n  \"a\" : [ 1 , 2 ] ,\n  \"b\" : { } ,\n  \"c\" : \"x\\ny\\t\\/z\"\n }\n";
    let doc = parse_json(pretty).unwrap();
    assert_eq!(
        String::from_utf8(render(&doc)).unwrap(),
        "{\"a\":[1,2],\"b\":{},\"c\":\"x\ny\t/z\"}"
    );
    let empty_arr = parse_json(b"[ ]").unwrap();
    assert_eq!(render(&empty_arr), b"[]".to_vec());
}

#[test]
fn json_parser_rejects_malformed_documents() {
    assert!(parse_json(b"{\"a\":01}").is_none()); // leading zero
    assert!(parse_json(b"{\"a\":-0}").is_none()); // negative zero
    assert!(parse_json(b"{\"a\":1,}").is_none()); // trailing comma
    assert!(parse_json(b"[1 2]").is_none());
    assert!(parse_json(b"{\"a\":18446744073709551616}").is_none()); // overflow
    assert!(parse_json(b"nul").is_none());
    assert!(parse_json(b"{}extra").is_none());
}

#[test]
fn sealing_round_trips_and_reports_software_fallback() {
    let tpm = TpmManager::new(true, "seed-value");
    // no hardware backend is linked, so the downgrade is visible
    assert!(!tpm.is_available());
    assert!(!tpm.get_status().available);
    let blob = tpm.encrypt(b"thirty-two bytes of key material").unwrap();
    assert_ne!(&blob[12..], b"thirty-two bytes of key material");
    assert_eq!(tpm.decrypt(&blob).unwrap(), b"thirty-two bytes of key material".to_vec());
    // a different seed cannot unseal it
    let other = TpmManager::new(true, "other-seed");
    assert!(other.decrypt(&blob).is_err());
    // NV indices need the hardware variant
    assert!(tpm.nv_write(1, b"x").is_err());
    assert!(tpm.nv_read(1).is_err());
}

#[test]
fn config_loads_and_validates() {
    let text = "\n# agent configuration\n[server]\nurl = \"https://license.example.com\"\ncert_pin = \"abc\"\nclient_cert = \"/etc/license-agent/client.pem\"\nclient_key = \"/etc/license-agent/client.key\"\ntimeout_seconds = 10\n\n[agent]\nid = \"agent-7\"\nrotation_interval = 3600\ngrace_period = 86400\nrotation_threshold_seconds = 1800\n\n[tpm]\nenabled = false\n\n[management]\nallowed_uids = [1000, 1001]\nipc_socket_path = \"/tmp/agent.sock\"\n\n[degraded_mode]\nenabled = true\ngrace_period_days = 7\nretry_interval_seconds = 300\nauto_deactivate_on_reconnect = true\nalert_thresholds_hours = [24, 72, 144]\n";
    let config = Config::load(text).unwrap();
    assert_eq!(config.server.url, "https://license.example.com");
    assert_eq!(config.server.timeout_seconds, Some(10));
    assert_eq!(config.agent.id, "agent-7");
    assert_eq!(config.agent.rotation_interval, 3600);
    assert_eq!(config.agent.rotation_threshold_seconds, Some(1800));
    assert_eq!(config.management.allowed_uids, vec![1000, 1001]);
    assert_eq!(config.management.ipc_socket_path.as_deref(), Some("/tmp/agent.sock"));
    assert_eq!(config.degraded_mode.alert_thresholds_hours, vec![24, 72, 144]);
    assert_eq!(config.ipc_socket_path(), "/tmp/agent.sock");

    let bad = text.replace("https://", "http://");
    assert!(Config::load(&bad).is_err());
    let zero = text.replace("rotation_interval = 3600", "rotation_interval = 0");
    assert!(Config::load(&zero).is_err());
}

#[test]
fn ipc_framing_and_peer_gating() {
    let payload = b"{\"command\":\"status\",\"data\":{}}".to_vec();
    let frame = encode_frame(&payload).unwrap();
    assert_eq!(read_frame_len(&frame[0..4]), payload.len() as u32);
    assert_eq!(&frame[4..], payload.as_slice());
    // over the 1 MiB cap nothing is framed
    assert!(encode_frame(&vec![0u8; 1048577]).is_none());

    let gated = IpcServer::new(vec![1000]);
    assert!(gated.peer_allowed(1000));
    assert!(!gated.peer_allowed(1001));
    let open = IpcServer::new(vec![]);
    assert!(open.peer_allowed(4242));
}

#[test]
fn ipc_request_parses_token_and_nonce() {
    let body = b"{\"license_token\":[1,2,255],\"nonce\":[0,1,2,3,4,5,6,7,8,9,10,11,12,13,14,15]}";
    let req = parse_validate_request(body).unwrap();
    assert_eq!(req.license_token, vec![1, 2, 255]);
    assert_eq!(req.nonce.len(), 16);
    // a short nonce is refused
    assert!(parse_validate_request(b"{\"license_token\":[1],\"nonce\":[1,2]}").is_err());
    assert!(parse_validate_request(b"{\"license_token\":[256],\"nonce\":[]}").is_err());
}

#[test]
fn degraded_mode_lifecycle_and_alerts() {
    let mut dm = DegradedMode::new(true, 7, 300, true, vec![24, 72, 144]);
    assert!(!dm.is_active());
    assert!(dm.activate(T_NOW));
    // activation is idempotent
    assert!(!dm.activate(T_NOW + 50));
    let status = dm.status(T_NOW + 10);
    assert!(status.active);
    assert_eq!(status.activated_at, Some(T_NOW));
    assert_eq!(status.grace_period_end, Some(T_NOW + 7 * 86400));
    // an alert fires when the elapsed hours hit a threshold
    assert_eq!(dm.alert_due(T_NOW + 24 * 3600), Some(24));
    assert_eq!(dm.alert_due(T_NOW + 25 * 3600), None);
    assert!(!dm.grace_expired(T_NOW + 6 * 86400));
    assert!(dm.grace_expired(T_NOW + 8 * 86400));
    assert_eq!(dm.deactivate(T_NOW + 3600), Some(3600));
    assert!(!dm.is_active());
    // a disabled supervisor never activates
    let mut off = DegradedMode::new(false, 7, 300, true, vec![]);
    assert!(!off.activate(T_NOW));
}

#[test]
fn engine_enters_and_leaves_degraded_mode() {
    let text = "[server]\nurl = \"https://x.example\"\ncert_pin = \"\"\nclient_cert = \"c\"\nclient_key = \"k\"\n[agent]\nid = \"a\"\nrotation_interval = 3600\ngrace_period = 600\n";
    let config = Config::load(text).unwrap();
    let mut engine = CoreEngine::new(&config, TpmManager::new(false, "engine-seed"));

    // a failed rotation with no active secret enters degraded mode once
    assert!(engine.handle_rotation_failure(T_NOW));
    assert!(!engine.handle_rotation_failure(T_NOW + 5));
    assert!(engine.degraded.is_active());
    // the next successful rotation leaves it and audits the transition
    assert!(engine.handle_rotation_success(T_NOW + 900));
    assert!(!engine.degraded.is_active());
    let events = engine.audit.take_events();
    let names: Vec<&str> = events.iter().map(|e| e.event.as_str()).collect();
    assert_eq!(names, vec!["degraded_mode_activated", "degraded_mode_deactivated_auto"]);
    assert!(matches!(events[0].level, AuditLevel::Warning));

    let status = engine.get_status(T_NOW);
    assert!(status.active_secret.is_none());
    assert!(!status.degraded_mode.active);
}

#[test]
fn audit_lines_are_json() {
    let event = license_secret_agent::audit::AuditEvent {
        timestamp: T_NOW,
        event: "rotation_succeeded".to_string(),
        level: AuditLevel::Info,
        data: Json::Obj(vec![(b"old_version".to_vec(), Json::Num(JsonNum { neg: false, mag: 1 }))]),
    };
    let line = license_secret_agent::audit::render_line(event);
    assert_eq!(
        String::from_utf8(line).unwrap(),
        "{\"timestamp\":1735689600,\"event\":\"rotation_succeeded\",\"level\":\"info\",\"data\":{\"old_version\":1}}"
    );
}

#[test]
fn validation_responses_carry_valid_flag_and_error() {
    let ok = license_secret_agent::types::ValidationResult {
        valid: true,
        expires_at: Some(T_NOW),
        features: vec!["a".to_string()],
        metadata: vec![("k".to_string(), "v".to_string())],
        error: None,
    };
    let body = String::from_utf8(license_secret_agent::ipc::render_validation_response(ok)).unwrap();
    assert_eq!(
        body,
        "{\"result\":{\"valid\":true,\"expires_at\":\"2025-01-01T00:00:00Z\",\"features\":[\"a\"],\"metadata\":{\"k\":\"v\"},\"error\":null}}"
    );
    let failed = license_secret_agent::types::ValidationResult {
        valid: false,
        expires_at: None,
        features: vec![],
        metadata: vec![],
        error: Some("License validation failed".to_string()),
    };
    let body = String::from_utf8(license_secret_agent::ipc::render_validation_response(failed)).unwrap();
    assert!(body.contains("\"valid\":false"));
    assert!(body.contains("\"error\":\"License validation failed\""));
}

#[test]
fn cli_confirmation_rules() {
    let base = |command| Cli { command, cert: None, key: None, token: Some("t".to_string()), socket: "/tmp/s".to_string() };
    assert!(!base(Commands::Invalidate { version: 1, reason: None, confirm: false }).command_allowed());
    assert!(base(Commands::Invalidate { version: 1, reason: None, confirm: true }).command_allowed());
    assert!(!base(Commands::Reset { confirm: true, confirm_again: false }).command_allowed());
    assert!(base(Commands::Reset { confirm: true, confirm_again: true }).command_allowed());
    assert!(!base(Commands::DegradedMode { enable: true, disable: true, reason: None }).command_allowed());
    assert!(!base(Commands::DegradedMode { enable: true, disable: false, reason: None }).command_allowed());
    assert!(base(Commands::DegradedMode { enable: true, disable: false, reason: Some("r".to_string()) }).command_allowed());
}

#[test]
fn retry_tick_warns_once_grace_horizon_passed() {
    let text = "[server]\nurl = \"https://x.example\"\ncert_pin = \"\"\nclient_cert = \"c\"\nclient_key = \"k\"\n[agent]\nid = \"a\"\nrotation_interval = 3600\ngrace_period = 600\n[degraded_mode]\ngrace_period_days = 1\n";
    let config = Config::load(text).unwrap();
    let mut engine = CoreEngine::new(&config, TpmManager::new(false, "engine-seed"));
    assert!(engine.handle_rotation_failure(T_NOW));
    // inside the grace horizon the tick only asks for a retry
    assert!(engine.on_retry_tick(T_NOW + 3600));
    assert!(engine.audit.take_events().len() == 1); // just the activation
    // past the one-day horizon the terminal warning is emitted
    assert!(engine.on_retry_tick(T_NOW + 2 * 86400));
    let events = engine.audit.take_events();
    assert_eq!(events.len(), 1);
    assert_eq!(events[0].event, "degraded_mode_grace_expired");
    assert!(matches!(events[0].level, AuditLevel::Warning));
    // an inactive supervisor asks for nothing
    engine.handle_rotation_success(T_NOW + 3 * 86400);
    assert!(!engine.on_retry_tick(T_NOW + 3 * 86400));
}

#[test]
fn config_last_entry_wins_and_public_key_is_read() {
    let text = "[server]\nurl = \"https://one.example\"\nurl = \"https://two.example\"\ncert_pin = \"\"\nclient_cert = \"c\"\nclient_key = \"k\"\npublic_key = \"/etc/license-agent/server.pub\"\n[agent]\nid = \"a\"\nrotation_interval = 60\ngrace_period = 60\n";
    let config = Config::load(text).unwrap();
    assert_eq!(config.server.url, "https://two.example");
    assert_eq!(config.server.public_key.as_deref(), Some("/etc/license-agent/server.pub"));
    // unconfigured management keys keep their defaults
    assert!(config.management.ipc_socket_path.is_none());
    assert_eq!(config.ipc_socket_path(), "/var/run/license-agent.sock");
    assert_eq!(config.state_path(), "/var/lib/license-agent/state.json");
    assert_eq!(config.audit_log_path(), "/var/log/license-agent/audit.log");
}
