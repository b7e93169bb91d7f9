use moduprompt::event::NewEvent;
use moduprompt::json::Json;
use moduprompt::kernel::{Actor, Subject};
use moduprompt::projections::{rebuild_projections, ProjectionTables};
use moduprompt::store::{CommandMeta, EventLog};

fn obj(fields: Vec<(&str, Json)>) -> Json {
    Json::Obj(fields.into_iter().map(|(k, v)| (k.to_string(), v)).collect())
}

fn command_meta(command_type: &str, idempotency_key: Option<&str>) -> CommandMeta {
    CommandMeta {
        command_type: command_type.to_string(),
        idempotency_key: idempotency_key.map(|s| s.to_string()),
        expected_version: None,
        trace_id: "tr_test".to_string(),
    }
}

fn workspace_event(workspace_id: &str, name: &str, root_path: &str) -> NewEvent {
    NewEvent {
        event_type: "workspace.created".to_string(),
        schema_version: 1,
        actor: Actor::system(),
        workspace_id: workspace_id.to_string(),
        project_id: None,
        subject: Subject { kind: "workspace".to_string(), id: workspace_id.to_string() },
        payload: obj(vec![
            ("name", Json::Str(name.to_string())),
            ("root_path", Json::Str(root_path.to_string())),
        ]),
        trace_id: Some("tr_evt".to_string()),
        stream_id: None,
    }
}

fn project_event(workspace_id: &str, project_id: &str, name: &str) -> NewEvent {
    NewEvent {
        event_type: "project.created".to_string(),
        schema_version: 1,
        actor: Actor::system(),
        workspace_id: workspace_id.to_string(),
        project_id: Some(project_id.to_string()),
        subject: Subject { kind: "project".to_string(), id: project_id.to_string() },
        payload: obj(vec![
            ("workspace_id", Json::Str(workspace_id.to_string())),
            ("name", Json::Str(name.to_string())),
        ]),
        trace_id: Some("tr_evt".to_string()),
        stream_id: None,
    }
}

#[test]
fn append_and_read_from_persists_events() {
    let mut store = EventLog::new();
    let meta = command_meta("workspace.create", None);
    let events = vec![
        workspace_event("w1", "alpha", "/tmp/alpha"),
        project_event("w1", "p1", "core"),
    ];

    let result = store.append(&meta, events).expect("append");
    assert_eq!(result.events.len(), 2);
    assert!(!result.idempotent);
    assert_eq!(result.events[0].seq_global, 1);
    assert_eq!(result.events[1].seq_global, 2);
    assert_eq!(result.events[0].workspace_id, "w1");
    assert_eq!(result.events[1].workspace_id, "w1");
    assert!(!result.events[0].event_id.is_empty());
    assert!(!result.events[0].timestamp.is_empty());

    let read = store.read_from("w1", 0, None).expect("read");
    assert_eq!(read.len(), 2);
    assert_eq!(read[0].seq_global, 1);
    assert_eq!(read[1].seq_global, 2);
    assert_eq!(store.head_seq("w1").unwrap(), 2);
}

#[test]
fn append_idempotency_replays_events() {
    let mut store = EventLog::new();
    let meta = command_meta("workspace.create", Some("ik_test"));
    let events = vec![workspace_event("w1", "alpha", "/tmp/alpha")];

    let first = store.append(&meta, events).expect("append");
    assert_eq!(first.events.len(), 1);
    assert!(!first.idempotent);

    let second = store
        .append(&meta, vec![workspace_event("w1", "beta", "/tmp/beta")])
        .expect("append idempotent");
    assert!(second.idempotent);
    assert_eq!(second.events.len(), 1);
    assert_eq!(first.events[0].event_id, second.events[0].event_id);
    assert_eq!(first.events[0].seq_global, second.events[0].seq_global);
    assert_eq!(store.head_seq("w1").unwrap(), 1);
}

#[test]
fn read_from_respects_limit() {
    let mut store = EventLog::new();
    let meta = command_meta("workspace.create", None);
    let events = vec![
        workspace_event("w1", "alpha", "/tmp/alpha"),
        project_event("w1", "p1", "core"),
        project_event("w1", "p2", "api"),
    ];
    store.append(&meta, events).expect("append");

    let read = store.read_from("w1", 1, Some(1)).expect("read");
    assert_eq!(read.len(), 1);
    assert_eq!(read[0].seq_global, 2);
}

#[test]
fn projections_update_and_rebuild() {
    let mut store = EventLog::new();
    let meta = command_meta("workspace.create", None);
    let events = vec![
        workspace_event("w1", "alpha", "/tmp/alpha"),
        project_event("w1", "p1", "core"),
    ];
    store.append(&meta, events).expect("append");

    let workspaces = store.list_workspaces().expect("workspaces");
    assert_eq!(workspaces.len(), 1);
    assert_eq!(workspaces[0].name, "alpha");

    let projects = store.list_projects("w1").expect("projects");
    assert_eq!(projects.len(), 1);
    assert_eq!(projects[0].name, "core");

    // Corrupt a detached copy of the tables, then replay the log into
    // it: the rebuild restores the true row.
    let log = store.read_from("w1", 0, None).expect("read");
    let mut corrupted = ProjectionTables::new();
    let mut bad = log[0].duplicate();
    bad.payload = obj(vec![
        ("name", Json::Str("corrupt".to_string())),
        ("root_path", Json::Str("/tmp/alpha".to_string())),
    ]);
    moduprompt::projections::apply_event(&mut corrupted, &bad).expect("corrupt");
    assert_eq!(corrupted.list_workspaces()[0].name, "corrupt");

    rebuild_projections(&mut corrupted, log).expect("rebuild");
    let workspaces = corrupted.list_workspaces();
    assert_eq!(workspaces[0].name, "alpha");

    // The store's own rebuild leaves its live tables unchanged.
    store.rebuild_projections().expect("rebuild");
    let workspaces = store.list_workspaces().expect("workspaces");
    assert_eq!(workspaces[0].name, "alpha");
}

#[test]
fn seq_streams_are_per_stream() {
    let mut store = EventLog::new();
    let meta = command_meta("workspace.create", None);
    let result = store
        .append(
            &meta,
            vec![
                workspace_event("w1", "alpha", "/tmp/alpha"),
                project_event("w1", "p1", "core"),
                project_event("w1", "p2", "api"),
                project_event("w1", "p1", "core-renamed"),
            ],
        )
        .expect("append");
    assert_eq!(result.events[0].seq_global, 1);
    assert_eq!(result.events[0].seq_stream, 1);
    assert_eq!(result.events[1].seq_stream, 1);
    assert_eq!(result.events[2].seq_stream, 1);
    // The fourth event shares p1's stream, so its sub-sequence is 2.
    assert_eq!(result.events[3].seq_stream, 2);
    assert_eq!(result.events[3].seq_global, 4);
}

#[test]
fn workspace_persists_across_restart() {
    let mut store = EventLog::new();
    let meta = command_meta("workspace.create", None);
    store
        .append(&meta, vec![workspace_event("w1", "demo", "./demo")])
        .expect("append");
    let list = store.list_workspaces().expect("workspaces");
    assert_eq!(list.len(), 1);

    // Persist and restore: the same rows yield the same store.
    let records = store.export_records();
    let idem = store.export_idempotency();
    let restored = EventLog::restore(records, idem).expect("restore");
    let list2 = restored.list_workspaces().expect("workspaces");
    assert_eq!(list2.len(), 1);
    assert_eq!(list2[0].name, "demo");
    assert_eq!(restored.head_seq("w1").unwrap(), 1);
}

#[test]
fn restore_rejects_broken_sequences() {
    let mut store = EventLog::new();
    let meta = command_meta("workspace.create", None);
    store
        .append(&meta, vec![workspace_event("w1", "demo", "./demo")])
        .expect("append");
    let mut records = store.export_records();
    records[0].envelope.seq_global = 5;
    let restored = EventLog::restore(records, vec![]);
    assert!(restored.is_err());
}
