use moduprompt::event::EventEnvelope;
use moduprompt::json::Json;
use moduprompt::kernel::{Actor, Subject};
use moduprompt::projections::{apply_event, rebuild_projections, ProjectionTables};

fn obj(fields: Vec<(&str, Json)>) -> Json {
    Json::Obj(fields.into_iter().map(|(k, v)| (k.to_string(), v)).collect())
}

fn workspace_event(seq_global: i64) -> EventEnvelope {
    EventEnvelope {
        event_id: "e1".to_string(),
        event_type: "workspace.created".to_string(),
        timestamp: "2020-01-01T00:00:00Z".to_string(),
        actor: Actor::system(),
        workspace_id: "w1".to_string(),
        project_id: None,
        subject: Subject { kind: "workspace".to_string(), id: "w1".to_string() },
        payload: obj(vec![
            ("name", Json::Str("demo".to_string())),
            ("root_path", Json::Str("/tmp/demo".to_string())),
        ]),
        schema_version: 1,
        seq_global,
        seq_stream: 1,
        trace_id: None,
    }
}

fn project_event(seq_global: i64) -> EventEnvelope {
    EventEnvelope {
        event_id: "e2".to_string(),
        event_type: "project.created".to_string(),
        timestamp: "2020-01-01T00:00:00Z".to_string(),
        actor: Actor::system(),
        workspace_id: "w1".to_string(),
        project_id: Some("p1".to_string()),
        subject: Subject { kind: "project".to_string(), id: "p1".to_string() },
        payload: obj(vec![
            ("workspace_id", Json::Str("w1".to_string())),
            ("name", Json::Str("core".to_string())),
        ]),
        schema_version: 1,
        seq_global,
        seq_stream: 1,
        trace_id: None,
    }
}

#[test]
fn apply_event_records_workspace() {
    let mut writer = ProjectionTables::new();
    let event = workspace_event(3);
    apply_event(&mut writer, &event).expect("apply event");

    let workspaces = writer.list_workspaces();
    assert_eq!(workspaces.len(), 1);
    assert_eq!(workspaces[0].workspace_id, "w1");
    assert_eq!(workspaces[0].name, "demo");
    assert_eq!(workspaces[0].root_path, "/tmp/demo");
    assert_eq!(workspaces[0].created_at, "2020-01-01T00:00:00Z");
    assert_eq!(workspaces[0].seq_global, 3);

    let metas = writer.list_metas();
    assert_eq!(metas.len(), 1);
    assert_eq!(metas[0].workspace_id, "w1");
    assert_eq!(metas[0].last_seq_global, 3);
}

#[test]
fn apply_event_records_project() {
    let mut writer = ProjectionTables::new();
    let event = project_event(7);
    apply_event(&mut writer, &event).expect("apply event");

    let projects = writer.list_projects("w1");
    assert_eq!(projects.len(), 1);
    assert_eq!(projects[0].project_id, "p1");
    assert_eq!(projects[0].workspace_id, "w1");
    assert_eq!(projects[0].name, "core");
    assert_eq!(projects[0].created_at, "2020-01-01T00:00:00Z");
    assert_eq!(projects[0].seq_global, 7);

    let metas = writer.list_metas();
    assert_eq!(metas.len(), 1);
    assert_eq!(metas[0].workspace_id, "w1");
    assert_eq!(metas[0].last_seq_global, 7);
}

#[test]
fn apply_event_rejects_invalid_payload() {
    let mut writer = ProjectionTables::new();
    let mut event = workspace_event(1);
    event.payload = obj(vec![("name", Json::Str("demo".to_string()))]);

    let result = apply_event(&mut writer, &event);
    assert!(result.is_err());
}

#[test]
fn apply_event_requires_project_id() {
    let mut writer = ProjectionTables::new();
    let mut event = project_event(2);
    event.project_id = None;

    let result = apply_event(&mut writer, &event);
    assert!(result.is_err());
}

#[test]
fn rebuild_resets_and_applies() {
    let mut writer = ProjectionTables::new();
    let events = vec![workspace_event(1), project_event(2)];
    let result = rebuild_projections(&mut writer, events);
    assert!(result.is_ok());
    assert_eq!(writer.list_workspaces().len(), 1);
    assert_eq!(writer.list_projects("w1").len(), 1);
}

#[test]
fn rebuild_ignores_unknown_events() {
    let mut writer = ProjectionTables::new();
    let event = EventEnvelope {
        event_id: "e2".to_string(),
        event_type: "unknown.event".to_string(),
        timestamp: "2020-01-01T00:00:00Z".to_string(),
        actor: Actor::system(),
        workspace_id: "w1".to_string(),
        project_id: None,
        subject: Subject { kind: "unknown".to_string(), id: "x1".to_string() },
        payload: obj(vec![]),
        schema_version: 1,
        seq_global: 1,
        seq_stream: 1,
        trace_id: None,
    };

    let result = rebuild_projections(&mut writer, vec![event]);
    assert!(result.is_ok());
}

#[test]
fn lists_are_ordered_by_name() {
    let mut writer = ProjectionTables::new();
    let mut e1 = workspace_event(1);
    e1.workspace_id = "w-b".to_string();
    e1.payload = obj(vec![
        ("name", Json::Str("beta".to_string())),
        ("root_path", Json::Str("/tmp/beta".to_string())),
    ]);
    let mut e2 = workspace_event(2);
    e2.workspace_id = "w-a".to_string();
    e2.payload = obj(vec![
        ("name", Json::Str("alpha".to_string())),
        ("root_path", Json::Str("/tmp/alpha".to_string())),
    ]);
    apply_event(&mut writer, &e1).expect("apply");
    apply_event(&mut writer, &e2).expect("apply");
    let workspaces = writer.list_workspaces();
    assert_eq!(workspaces.len(), 2);
    assert_eq!(workspaces[0].name, "alpha");
    assert_eq!(workspaces[1].name, "beta");
}
