use moduprompt::cli::{make_project_create_command, make_workspace_create_command};
use moduprompt::json::Json;
use moduprompt::pipeline::{CommandEnvelope, Daemon};
use moduprompt::subscribe::SubscriptionCursor;

fn obj(fields: Vec<(&str, Json)>) -> Json {
    Json::Obj(fields.into_iter().map(|(k, v)| (k.to_string(), v)).collect())
}

fn ws_create(name: &str, path: &str, ik: &str) -> CommandEnvelope {
    make_workspace_create_command(
        name.to_string(),
        Some(path.to_string()),
        Some(ik.to_string()),
        None,
    )
}

#[test]
fn create_then_list() {
    let mut daemon = Daemon::new(false);
    let response = daemon.submit(ws_create("demo", "./demo", "ik_1")).expect("submit");
    assert!(response.accepted);
    assert_eq!(response.events.len(), 1);
    assert_eq!(response.events[0].event_type, "workspace.created");
    assert_eq!(response.events[0].seq_global, 1);
    assert_eq!(response.events[0].subject.kind, "workspace");

    let list = daemon.list_workspaces().expect("list");
    assert_eq!(list.len(), 1);
    assert_eq!(list[0].name, "demo");
    assert_eq!(list[0].root_path, "./demo");
    assert_eq!(list[0].seq_global, 1);
}

#[test]
fn idempotency_reuses_events() {
    let mut daemon = Daemon::new(false);
    let first = daemon.submit(ws_create("demo", "./demo", "ik_1")).expect("submit");
    assert!(first.accepted);
    let second = daemon.submit(ws_create("demo", "./demo", "ik_1")).expect("submit");
    assert!(second.accepted);

    assert_eq!(first.events.len(), 1);
    assert_eq!(second.events.len(), 1);
    assert_eq!(first.events[0].event_id, second.events[0].event_id);
    assert_eq!(first.events[0].timestamp, second.events[0].timestamp);
    assert_eq!(first.events[0].seq_global, second.events[0].seq_global);

    let workspace_id = first.events[0].workspace_id.clone();
    assert_eq!(daemon.head_seq(&workspace_id).unwrap(), 1);
}

#[test]
fn expected_version_mismatch_rejects() {
    let mut daemon = Daemon::new(false);
    let created = daemon.submit(ws_create("demo", "./demo", "ik_1")).expect("submit");
    let workspace_id = created.events[0].workspace_id.clone();

    let response = daemon
        .submit(make_project_create_command(
            workspace_id.clone(),
            "core".to_string(),
            Some("ik_2".to_string()),
            Some(999),
        ))
        .expect("submit");
    assert!(!response.accepted);
    let rejection = response.rejection.expect("rejection");
    assert_eq!(rejection.code, "expected_version_mismatch");

    // The rejection itself is a durable event with the next sequence.
    let log = daemon.read_from(&workspace_id, 0, None).expect("read");
    assert_eq!(log.len(), 2);
    assert_eq!(log[1].seq_global, 2);
    assert_eq!(log[1].event_type, "command.rejected");
}

#[test]
fn ordering_across_streams() {
    let mut daemon = Daemon::new(false);
    let created = daemon.submit(ws_create("demo", "./demo", "ik_1")).expect("submit");
    let workspace_id = created.events[0].workspace_id.clone();

    let first = daemon
        .submit(make_project_create_command(
            workspace_id.clone(),
            "core".to_string(),
            Some("ik_2".to_string()),
            None,
        ))
        .expect("submit");
    let second = daemon
        .submit(make_project_create_command(
            workspace_id.clone(),
            "api".to_string(),
            Some("ik_3".to_string()),
            None,
        ))
        .expect("submit");

    assert!(first.accepted);
    assert!(second.accepted);
    assert_eq!(first.events[0].seq_global + 1, second.events[0].seq_global);
    assert_eq!(first.events[0].seq_stream, 1);
    assert_eq!(second.events[0].seq_stream, 1);
    assert_ne!(first.events[0].subject.id, second.events[0].subject.id);
}

#[test]
fn event_stream_catches_up() {
    let mut daemon = Daemon::new(false);
    let created = daemon.submit(ws_create("demo", "./demo", "ik_1")).expect("submit");
    let workspace_id = created.events[0].workspace_id.clone();

    let catch_up = daemon.read_from(&workspace_id, 0, None).expect("read");
    assert_eq!(catch_up.len(), 1);
    assert_eq!(catch_up[0].event_type, "workspace.created");
}

#[test]
fn sse_stream_tails_new_events() {
    // Catch-up from zero, then tail: three stored events arrive in
    // order, and a later append arrives through the cursor.
    let mut daemon = Daemon::new(false);
    let created = daemon.submit(ws_create("demo", "./demo", "ik_1")).expect("submit");
    let workspace_id = created.events[0].workspace_id.clone();
    daemon
        .submit(make_project_create_command(
            workspace_id.clone(),
            "core".to_string(),
            Some("ik_2".to_string()),
            None,
        ))
        .expect("submit");
    daemon
        .submit(make_project_create_command(
            workspace_id.clone(),
            "api".to_string(),
            Some("ik_3".to_string()),
            None,
        ))
        .expect("submit");

    let catch_up = daemon.read_from(&workspace_id, 0, None).expect("read");
    assert_eq!(catch_up.len(), 3);
    assert_eq!(catch_up[0].event_type, "workspace.created");
    assert_eq!(catch_up[1].event_type, "project.created");
    assert_eq!(catch_up[2].event_type, "project.created");

    let mut cursor = SubscriptionCursor::new(workspace_id.clone(), 0);
    cursor.after_catch_up(&catch_up);

    let fourth = daemon
        .submit(make_project_create_command(
            workspace_id.clone(),
            "docs".to_string(),
            Some("ik_4".to_string()),
            None,
        ))
        .expect("submit");
    let delivered = cursor.drain(&fourth.events);
    assert_eq!(delivered.len(), 1);
    assert_eq!(delivered[0].seq_global, 4);

    // A replayed broadcast is not delivered twice.
    let replay = cursor.drain(&fourth.events);
    assert_eq!(replay.len(), 0);
}

#[test]
fn safe_mode_writes_nothing() {
    let mut daemon = Daemon::new(true);
    let response = daemon.submit(ws_create("demo", "./demo", "ik_1")).expect("submit");
    assert!(!response.accepted);
    assert_eq!(response.events.len(), 0);
    assert_eq!(response.rejection.expect("rejection").code, "safe_mode");
    let list = daemon.list_workspaces().expect("list");
    assert_eq!(list.len(), 0);
    // No rejection event is persisted either.
    let log = daemon.read_from("global", 0, None).expect("read");
    assert_eq!(log.len(), 0);
}

#[test]
fn unknown_field_is_rejected_invalid_schema() {
    let mut daemon = Daemon::new(false);
    let command = CommandEnvelope {
        command_type: "workspace.create".to_string(),
        schema_version: 1,
        payload: obj(vec![
            ("name", Json::Str("demo".to_string())),
            ("path", Json::Str("./demo".to_string())),
            ("extra", Json::Str("nope".to_string())),
        ]),
        idempotency_key: Some("ik_1".to_string()),
        expected_version: None,
        trace_id: "tr_1".to_string(),
    };
    let response = daemon.submit(command).expect("submit");
    assert!(!response.accepted);
    assert_eq!(response.rejection.expect("rejection").code, "invalid_schema");
}

#[test]
fn read_only_command_is_rejected_on_submit() {
    let mut daemon = Daemon::new(false);
    let command = CommandEnvelope {
        command_type: "workspace.list".to_string(),
        schema_version: 1,
        payload: obj(vec![]),
        idempotency_key: Some("ik_1".to_string()),
        expected_version: None,
        trace_id: "tr_1".to_string(),
    };
    let response = daemon.submit(command).expect("submit");
    assert!(!response.accepted);
    assert_eq!(response.rejection.expect("rejection").code, "validation_failed");
}

#[test]
fn missing_idempotency_key_is_rejected() {
    let mut daemon = Daemon::new(false);
    let command = CommandEnvelope {
        command_type: "workspace.create".to_string(),
        schema_version: 1,
        payload: obj(vec![("name", Json::Str("demo".to_string()))]),
        idempotency_key: None,
        expected_version: None,
        trace_id: "tr_1".to_string(),
    };
    let response = daemon.submit(command).expect("submit");
    assert!(!response.accepted);
    assert_eq!(response.rejection.expect("rejection").code, "idempotency_key_required");
}

#[test]
fn unknown_command_is_rejected() {
    let mut daemon = Daemon::new(false);
    let command = CommandEnvelope {
        command_type: "nonsense.make".to_string(),
        schema_version: 1,
        payload: obj(vec![]),
        idempotency_key: Some("ik_1".to_string()),
        expected_version: None,
        trace_id: "tr_1".to_string(),
    };
    let response = daemon.submit(command).expect("submit");
    assert!(!response.accepted);
    assert_eq!(response.rejection.expect("rejection").code, "unknown_command");
}

#[test]
fn workspace_create_with_nonzero_expected_version_rejects() {
    let mut daemon = Daemon::new(false);
    let command = make_workspace_create_command(
        "demo".to_string(),
        Some("./demo".to_string()),
        Some("ik_1".to_string()),
        Some(7),
    );
    let response = daemon.submit(command).expect("submit");
    assert!(!response.accepted);
    assert_eq!(response.rejection.expect("rejection").code, "expected_version_mismatch");
}
