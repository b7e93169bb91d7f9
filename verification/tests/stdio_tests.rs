use moduprompt::json::Json;
use moduprompt::pipeline::Daemon;
use moduprompt::stdio::{parse_error_frame, StdioAuth, StdioConfig, StdioSession};
use moduprompt::wire::{parse_stdio_frame, StdioFrame};

fn obj(fields: Vec<(&str, Json)>) -> Json {
    Json::Obj(fields.into_iter().map(|(k, v)| (k.to_string(), v)).collect())
}

fn submit_frame(request_id: &str, ik: &str) -> StdioFrame {
    StdioFrame {
        request_id: Some(request_id.to_string()),
        frame_type: "command.submit".to_string(),
        schema_version: 1,
        payload: obj(vec![
            ("type", Json::Str("workspace.create".to_string())),
            ("schema_version", Json::Int(1)),
            (
                "payload",
                obj(vec![
                    ("name", Json::Str("demo".to_string())),
                    ("path", Json::Str("./demo".to_string())),
                ]),
            ),
            ("idempotency_key", Json::Str(ik.to_string())),
            ("trace_id", Json::Str("tr_test".to_string())),
        ]),
    }
}

#[test]
fn stdio_transport_submit_and_subscribe() {
    let mut daemon = Daemon::new(false);
    let mut session = StdioSession::new(StdioConfig { auth: StdioAuth::Open });

    let step = session.handle_frame(&mut daemon, submit_frame("rq1", "ik_test"));
    assert_eq!(step.replies.len(), 1);
    assert_eq!(step.replies[0].frame_type, "command.response");
    assert_eq!(step.replies[0].request_id.as_deref(), Some("rq1"));
    let response = step.response.expect("response");
    assert!(response.accepted);
    let workspace_id = response.events[0].workspace_id.clone();

    let subscribe = StdioFrame {
        request_id: Some("rq2".to_string()),
        frame_type: "events.subscribe".to_string(),
        schema_version: 1,
        payload: obj(vec![
            ("workspace_id", Json::Str(workspace_id.clone())),
            ("from", Json::Int(0)),
        ]),
    };
    let step = session.handle_frame(&mut daemon, subscribe);
    assert_eq!(step.replies[0].frame_type, "events.subscribe.response");
    let sub = step.subscribe.expect("subscription");
    assert_eq!(sub.workspace_id, workspace_id);
    assert_eq!(sub.from, Some(0));

    // Catch-up through the subscription sees the stored event.
    let catch_up = daemon.read_from(&workspace_id, 0, None).expect("read");
    assert_eq!(catch_up.len(), 1);
    assert_eq!(catch_up[0].event_type, "workspace.created");
    let frame = moduprompt::stdio::event_frame(&catch_up[0]);
    assert_eq!(frame.frame_type, "events.event");
    assert!(frame.request_id.is_none());

    // A second subscription on the same connection conflicts.
    let again = StdioFrame {
        request_id: Some("rq3".to_string()),
        frame_type: "events.subscribe".to_string(),
        schema_version: 1,
        payload: obj(vec![("workspace_id", Json::Str(workspace_id))]),
    };
    let step = session.handle_frame(&mut daemon, again);
    assert_eq!(step.replies[0].frame_type, "error");
}

#[test]
fn stdio_rejects_malformed_frame() {
    // A line that is not valid JSON is answered by the fixed error
    // frame the session prescribes.
    let frame = parse_error_frame("expected value at line 1 column 1");
    assert_eq!(frame.frame_type, "error");
    assert!(frame.request_id.is_none());

    // A JSON object that is not a frame is refused by the parser.
    let not_frame = obj(vec![("nonsense", Json::Bool(true))]);
    assert!(parse_stdio_frame(&not_frame).is_none());
}

#[test]
fn stdio_requires_auth_when_configured() {
    let mut daemon = Daemon::new(false);
    let mut session =
        StdioSession::new(StdioConfig { auth: StdioAuth::Token("secret".to_string()) });

    // A command before authentication is unauthorized.
    let step = session.handle_frame(&mut daemon, submit_frame("rq_auth_1", "ik_auth"));
    assert_eq!(step.replies[0].frame_type, "error");

    // The right token authenticates.
    let auth = StdioFrame {
        request_id: Some("rq_auth_2".to_string()),
        frame_type: "auth".to_string(),
        schema_version: 1,
        payload: obj(vec![("token", Json::Str("secret".to_string()))]),
    };
    let step = session.handle_frame(&mut daemon, auth);
    assert_eq!(step.replies[0].frame_type, "auth.response");

    // A subsequent command succeeds.
    let step = session.handle_frame(&mut daemon, submit_frame("rq_auth_3", "ik_auth_2"));
    assert_eq!(step.replies[0].frame_type, "command.response");
}

#[test]
fn stdio_rejects_wrong_token() {
    let mut daemon = Daemon::new(false);
    let mut session =
        StdioSession::new(StdioConfig { auth: StdioAuth::Token("secret".to_string()) });
    let auth = StdioFrame {
        request_id: Some("rq1".to_string()),
        frame_type: "auth".to_string(),
        schema_version: 1,
        payload: obj(vec![("token", Json::Str("wrong".to_string()))]),
    };
    let step = session.handle_frame(&mut daemon, auth);
    assert_eq!(step.replies[0].frame_type, "error");
    // Still unauthenticated afterwards.
    let step = session.handle_frame(&mut daemon, submit_frame("rq2", "ik"));
    assert_eq!(step.replies[0].frame_type, "error");
}

#[test]
fn stdio_rejects_unknown_fields() {
    // A frame with an unknown top-level field does not parse.
    let bad_frame = obj(vec![
        ("type", Json::Str("query.workspaces".to_string())),
        ("schema_version", Json::Int(1)),
        ("payload", obj(vec![])),
        ("extra", Json::Str("nope".to_string())),
    ]);
    assert!(parse_stdio_frame(&bad_frame).is_none());

    // A query payload with an unexpected field draws an error frame.
    let mut daemon = Daemon::new(false);
    let mut session = StdioSession::new(StdioConfig { auth: StdioAuth::Open });
    let frame = StdioFrame {
        request_id: Some("rq1".to_string()),
        frame_type: "query.workspaces".to_string(),
        schema_version: 1,
        payload: obj(vec![("extra", Json::Str("nope".to_string()))]),
    };
    let step = session.handle_frame(&mut daemon, frame);
    assert_eq!(step.replies[0].frame_type, "error");
}

#[test]
fn stdio_rejects_unsupported_schema_version() {
    let mut daemon = Daemon::new(false);
    let mut session = StdioSession::new(StdioConfig { auth: StdioAuth::Open });
    let frame = StdioFrame {
        request_id: Some("rq1".to_string()),
        frame_type: "query.workspaces".to_string(),
        schema_version: 2,
        payload: obj(vec![]),
    };
    let step = session.handle_frame(&mut daemon, frame);
    assert_eq!(step.replies[0].frame_type, "error");
}

#[test]
fn stdio_queries_answer_rows() {
    let mut daemon = Daemon::new(false);
    let mut session = StdioSession::new(StdioConfig { auth: StdioAuth::Open });
    let step = session.handle_frame(&mut daemon, submit_frame("rq1", "ik_test"));
    let workspace_id = step.response.expect("response").events[0].workspace_id.clone();

    let query = StdioFrame {
        request_id: Some("rq2".to_string()),
        frame_type: "query.workspaces".to_string(),
        schema_version: 1,
        payload: obj(vec![]),
    };
    let step = session.handle_frame(&mut daemon, query);
    assert_eq!(step.replies[0].frame_type, "query.workspaces.response");
    match &step.replies[0].payload {
        Json::Arr(items) => assert_eq!(items.len(), 1),
        other => panic!("unexpected payload: {:?}", other),
    }

    let projects = StdioFrame {
        request_id: Some("rq3".to_string()),
        frame_type: "query.projects".to_string(),
        schema_version: 1,
        payload: obj(vec![("workspace_id", Json::Str(workspace_id))]),
    };
    let step = session.handle_frame(&mut daemon, projects);
    assert_eq!(step.replies[0].frame_type, "query.projects.response");
    match &step.replies[0].payload {
        Json::Arr(items) => assert_eq!(items.len(), 0),
        other => panic!("unexpected payload: {:?}", other),
    }
}
