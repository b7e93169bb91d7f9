use moduprompt::event::EventEnvelope;
use moduprompt::json::Json;
use moduprompt::kernel::{Actor, Subject};
use moduprompt::wire::{event_to_json, parse_command_envelope, parse_stdio_frame};

fn obj(fields: Vec<(&str, Json)>) -> Json {
    Json::Obj(fields.into_iter().map(|(k, v)| (k.to_string(), v)).collect())
}

#[test]
fn event_serialises_to_its_wire_object() {
    let event = EventEnvelope {
        event_id: "e1".to_string(),
        event_type: "workspace.created".to_string(),
        timestamp: "2020-01-01T00:00:00Z".to_string(),
        actor: Actor::system(),
        workspace_id: "w1".to_string(),
        project_id: None,
        subject: Subject { kind: "workspace".to_string(), id: "w1".to_string() },
        payload: obj(vec![
            ("name", Json::Str("demo".to_string())),
            ("root_path", Json::Str("./demo".to_string())),
        ]),
        schema_version: 1,
        seq_global: 1,
        seq_stream: 1,
        trace_id: Some("tr_1".to_string()),
    };
    let json = event_to_json(&event);
    assert_eq!(
        json.get("event_id").and_then(|v| v.as_str()).map(|s| s.as_str()),
        Some("e1")
    );
    assert_eq!(
        json.get("event_type").and_then(|v| v.as_str()).map(|s| s.as_str()),
        Some("workspace.created")
    );
    assert_eq!(json.get("seq_global").and_then(|v| v.as_int()), Some(1));
    assert!(json.get("project_id").is_none());
    assert_eq!(
        json.get("trace_id").and_then(|v| v.as_str()).map(|s| s.as_str()),
        Some("tr_1")
    );
    let actor = json.get("actor").expect("actor");
    assert_eq!(
        actor.get("kind").and_then(|v| v.as_str()).map(|s| s.as_str()),
        Some("system")
    );
}

#[test]
fn command_envelope_round_trips_through_its_wire_object() {
    let wire = obj(vec![
        ("type", Json::Str("workspace.create".to_string())),
        ("schema_version", Json::Int(1)),
        ("payload", obj(vec![("name", Json::Str("demo".to_string()))])),
        ("idempotency_key", Json::Str("ik_1".to_string())),
        ("trace_id", Json::Str("tr_1".to_string())),
    ]);
    let command = parse_command_envelope(&wire).expect("command");
    assert_eq!(command.command_type, "workspace.create");
    assert_eq!(command.schema_version, 1);
    assert_eq!(command.idempotency_key.as_deref(), Some("ik_1"));
    assert!(command.expected_version.is_none());
    assert_eq!(command.trace_id, "tr_1");
}

#[test]
fn frame_parser_requires_known_fields_only() {
    let good = obj(vec![
        ("request_id", Json::Str("rq_1".to_string())),
        ("type", Json::Str("auth".to_string())),
        ("schema_version", Json::Int(1)),
        ("payload", obj(vec![("token", Json::Str("secret".to_string()))])),
    ]);
    let frame = parse_stdio_frame(&good).expect("frame");
    assert_eq!(frame.frame_type, "auth");
    assert_eq!(frame.schema_version, 1);
    assert_eq!(frame.request_id.as_deref(), Some("rq_1"));

    let no_payload = obj(vec![
        ("type", Json::Str("auth".to_string())),
        ("schema_version", Json::Int(1)),
    ]);
    assert!(parse_stdio_frame(&no_payload).is_none());
}
