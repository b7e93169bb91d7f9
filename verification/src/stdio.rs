//! The stdio session: the decisions of the line-delimited transport.
//!
//! Each parsed frame yields exactly one reply frame, and possibly a
//! submit response to fan out or a subscription to start; the caller
//! performs the reading, writing and task spawning.  A connection
//! started with a token is authenticated only by an `auth` frame
//! carrying that token; until then every other frame is turned away
//! `unauthorized`.  Only one subscription may be active per
//! connection.

use vstd::prelude::*;

verus! {

use crate::event::EventEnvelope;
use crate::json::{Json, JsonV};
use crate::pipeline::{Daemon, SubmitCommandResponse};
use crate::schema::conforms;
use crate::text::str_eq;
use crate::wire::{
    error_payload_json, error_payload_to_json, event_json, event_to_json,
    parse_auth_payload, parse_command_envelope, parse_events_subscribe, parse_projects_query,
    is_empty_payload, projects_json, status_ok_json, status_ok_to_json, submit_response_to_json,
    workspaces_json, StdioEventsSubscribe, StdioFrame, StdioFrameV,
};

/// How a stdio connection authenticates: open, or by a shared token.
#[derive(Debug)]
pub enum StdioAuth {
    Open,
    Token(String),
}

/// The stdio transport's configuration.
#[derive(Debug)]
pub struct StdioConfig {
    pub auth: StdioAuth,
}

/// The rules of an `auth` payload.
pub open spec fn auth_payload_rules() -> Seq<crate::schema::FieldRuleV> {
    seq![crate::schema::FieldRuleV { name: "token"@, kind: crate::schema::FieldKind::ReqStr }]
}

/// Whether an `auth` payload both parses and carries the configured
/// token.
pub open spec fn auth_ok(token: Option<Seq<char>>, payload: JsonV) -> bool {
    match token {
        Some(t) => conforms(payload, auth_payload_rules()) && t == payload.str_field_val("token"@),
        None => false,
    }
}

/// An error reply frame: the echoed id, the code and the message.
pub open spec fn error_reply(
    f: StdioFrameV,
    request_id: Option<Seq<char>>,
    code: Seq<char>,
    message: Seq<char>,
) -> bool {
    &&& f.request_id == request_id
    &&& f.frame_type == "error"@
    &&& f.schema_version == 1
    &&& f.payload == error_payload_json(code, message)
}

/// A reply frame of the given type and payload, echoing the id.
pub open spec fn reply_frame(
    f: StdioFrameV,
    request_id: Option<Seq<char>>,
    frame_type: Seq<char>,
    payload: JsonV,
) -> bool {
    &&& f.request_id == request_id
    &&& f.frame_type == frame_type
    &&& f.schema_version == 1
    &&& f.payload == payload
}

/// What one frame yields: replies to write in order, a submit
/// response whose events the caller fans out, and a subscription to
/// start.
#[derive(Debug)]
pub struct StdioStepResult {
    pub replies: Vec<StdioFrame>,
    pub response: Option<SubmitCommandResponse>,
    pub subscribe: Option<StdioEventsSubscribe>,
}

/// Builds an error frame.
fn mk_error_frame(request_id: Option<String>, code: &str, message: &str) -> (r: StdioFrame)
    ensures
        error_reply(r@, request_id.deep_view(), code@, message@),
{
    StdioFrame {
        request_id,
        frame_type: "error".to_owned(),
        schema_version: 1,
        payload: error_payload_to_json(code, message),
    }
}

/// Builds a reply frame.
fn mk_reply_frame(request_id: Option<String>, frame_type: &str, payload: Json) -> (r: StdioFrame)
    ensures
        reply_frame(r@, request_id.deep_view(), frame_type@, payload@),
{
    StdioFrame { request_id, frame_type: frame_type.to_owned(), schema_version: 1, payload }
}

/// The reply to a line that is not valid JSON: an `invalid_schema`
/// error with no request id.
pub fn parse_error_frame(message: &str) -> (r: StdioFrame)
    ensures
        error_reply(r@, None, "invalid_schema"@, message@),
{
    mk_error_frame(None, "invalid_schema", message)
}

/// The push frame of one broadcast event: no request id.
pub fn event_frame(e: &EventEnvelope) -> (r: StdioFrame)
    ensures
        reply_frame(r@, None, "events.event"@, event_json(e@)),
{
    StdioFrame {
        request_id: None,
        frame_type: "events.event".to_owned(),
        schema_version: 1,
        payload: event_to_json(e),
    }
}

/// One stdio connection's state.
#[derive(Debug)]
pub struct StdioSession {
    authenticated: bool,
    token: Option<String>,
    has_subscription: bool,
}

impl StdioSession {
    /// Whether the connection is authenticated.
    pub closed spec fn authenticated(self) -> bool {
        self.authenticated
    }

    /// The token an `auth` frame must carry, where one is demanded.
    pub closed spec fn token_spec(self) -> Option<Seq<char>> {
        self.token.deep_view()
    }

    /// Whether a subscription is already active.
    pub closed spec fn subscribed(self) -> bool {
        self.has_subscription
    }

    /// A fresh session: implicitly authenticated where no token is
    /// demanded.
    pub fn new(config: StdioConfig) -> (r: StdioSession)
        ensures
            match config.auth {
                StdioAuth::Open => r.authenticated() && r.token_spec() is None,
                StdioAuth::Token(t) => !r.authenticated() && r.token_spec() == Some(t@),
            },
            !r.subscribed(),
    {
        match config.auth {
            StdioAuth::Open => StdioSession {
                authenticated: true,
                token: None,
                has_subscription: false,
            },
            StdioAuth::Token(t) => StdioSession {
                authenticated: false,
                token: Some(t),
                has_subscription: false,
            },
        }
    }

    /// Handles one parsed frame.
    ///
    /// Exactly one reply comes back, echoing the frame's request id.
    /// The daemon is consulted only by an authenticated
    /// `command.submit`; every decision before that — the protocol
    /// version, the authentication gate, the per-type payload shapes,
    /// and the one-subscription rule — is pinned below.
    pub fn handle_frame(&mut self, daemon: &mut Daemon, frame: StdioFrame) -> (r: StdioStepResult)
        requires
            old(daemon).wf(),
        ensures
            final(daemon).wf(),
            final(daemon).safe_mode_on() == old(daemon).safe_mode_on(),
            final(self).token_spec() == old(self).token_spec(),
            r.replies@.len() == 1,
            r.replies@[0]@.request_id == frame@.request_id,
            ({
                let reply = r.replies@[0]@;
                let req = frame@.request_id;
                if frame@.schema_version != 1 {
                    &&& final(daemon).state().same_as(old(daemon).state())
                    &&& final(self).authenticated() == old(self).authenticated()
                    &&& final(self).subscribed() == old(self).subscribed()
                    &&& error_reply(reply, req, "invalid_schema"@, "unsupported schema_version"@)
                    &&& r.response is None
                    &&& r.subscribe is None
                } else if !old(self).authenticated() {
                    &&& final(daemon).state().same_as(old(daemon).state())
                    &&& final(self).subscribed() == old(self).subscribed()
                    &&& r.response is None
                    &&& r.subscribe is None
                    &&& if frame@.frame_type != "auth"@ {
                        &&& !final(self).authenticated()
                        &&& error_reply(reply, req, "unauthorized"@, "auth required"@)
                    } else if !conforms(frame@.payload, auth_payload_rules()) {
                        &&& !final(self).authenticated()
                        &&& error_reply(reply, req, "invalid_schema"@, "invalid auth payload"@)
                    } else if auth_ok(old(self).token_spec(), frame@.payload) {
                        &&& final(self).authenticated()
                        &&& reply_frame(reply, req, "auth.response"@, status_ok_json())
                    } else {
                        &&& !final(self).authenticated()
                        &&& error_reply(reply, req, "unauthorized"@, "invalid token"@)
                    }
                } else {
                    &&& final(self).authenticated()
                    &&& if frame@.frame_type == "auth"@ {
                        &&& final(daemon).state().same_as(old(daemon).state())
                        &&& final(self).subscribed() == old(self).subscribed()
                        &&& reply_frame(reply, req, "auth.response"@, status_ok_json())
                        &&& r.response is None
                        &&& r.subscribe is None
                    } else if frame@.frame_type == "command.submit"@ {
                        &&& final(self).subscribed() == old(self).subscribed()
                        &&& r.subscribe is None
                        &&& if !(crate::schema::conforms(
                            frame@.payload,
                            crate::wire::command_envelope_rules(),
                        ) && -0x8000_0000 <= frame@.payload.int_field_val("schema_version"@)
                            <= 0x7fff_ffff) {
                            &&& final(daemon).state().same_as(old(daemon).state())
                            &&& error_reply(reply, req, "invalid_schema"@, "invalid command payload"@)
                            &&& r.response is None
                        } else {
                            match r.response {
                                Some(res) => reply_frame(
                                    reply,
                                    req,
                                    "command.response"@,
                                    crate::wire::submit_response_json(
                                        res.accepted,
                                        res.events.deep_view(),
                                        res.rejection.deep_view(),
                                        res.trace_id@,
                                    ),
                                ) && crate::pipeline::submit_post(
                                    old(daemon).state(),
                                    final(daemon).state(),
                                    old(daemon).safe_mode_on(),
                                    crate::wire::parsed_command(frame@.payload),
                                    res.accepted,
                                    res.events.deep_view(),
                                    res.rejection.deep_view(),
                                    res.trace_id@,
                                ),
                                None => error_reply(reply, req, "internal"@, "command failed"@)
                                    && final(daemon).state().same_as(old(daemon).state())
                                    && old(daemon).state().records().len() + 1
                                    > 0x7fff_ffff_ffff_ffff,
                            }
                        }
                    } else if frame@.frame_type == "query.workspaces"@ {
                        &&& final(daemon).state().same_as(old(daemon).state())
                        &&& final(self).subscribed() == old(self).subscribed()
                        &&& r.response is None
                        &&& r.subscribe is None
                        &&& if conforms(frame@.payload, Seq::empty()) {
                            reply_frame(
                                reply,
                                req,
                                "query.workspaces.response"@,
                                JsonV::Arr(
                                    workspaces_json(old(daemon).state().tables_model().workspaces),
                                ),
                            )
                        } else {
                            error_reply(reply, req, "invalid_schema"@, "invalid query payload"@)
                        }
                    } else if frame@.frame_type == "query.projects"@ {
                        &&& final(daemon).state().same_as(old(daemon).state())
                        &&& final(self).subscribed() == old(self).subscribed()
                        &&& r.response is None
                        &&& r.subscribe is None
                        &&& if conforms(
                            frame@.payload,
                            seq![
                                crate::schema::FieldRuleV {
                                    name: "workspace_id"@,
                                    kind: crate::schema::FieldKind::ReqStr,
                                },
                            ],
                        ) {
                            reply_frame(
                                reply,
                                req,
                                "query.projects.response"@,
                                JsonV::Arr(
                                    projects_json(
                                        crate::projections::projects_of(
                                            old(daemon).state().tables_model().projects,
                                            frame@.payload.str_field_val("workspace_id"@),
                                        ),
                                    ),
                                ),
                            )
                        } else {
                            error_reply(reply, req, "invalid_schema"@, "invalid query payload"@)
                        }
                    } else if frame@.frame_type == "events.subscribe"@ {
                        &&& final(daemon).state().same_as(old(daemon).state())
                        &&& r.response is None
                        &&& if old(self).subscribed() {
                            &&& final(self).subscribed()
                            &&& error_reply(
                                reply,
                                req,
                                "conflict"@,
                                "subscription already active"@,
                            )
                            &&& r.subscribe is None
                        } else if conforms(frame@.payload, crate::wire::events_subscribe_rules()) {
                            &&& final(self).subscribed()
                            &&& reply_frame(reply, req, "events.subscribe.response"@, status_ok_json())
                            &&& r.subscribe matches Some(sub) && sub.workspace_id@
                                == frame@.payload.str_field_val("workspace_id"@)
                        } else {
                            &&& !final(self).subscribed()
                            &&& error_reply(reply, req, "invalid_schema"@, "invalid subscribe payload"@)
                            &&& r.subscribe is None
                        }
                    } else {
                        &&& final(daemon).state().same_as(old(daemon).state())
                        &&& final(self).subscribed() == old(self).subscribed()
                        &&& r.response is None
                        &&& r.subscribe is None
                        &&& error_reply(reply, req, "unknown_command"@, "unknown stdio frame type"@)
                    }
                }
            }),
    {
        let request_id = crate::event::duplicate_opt_string(&frame.request_id);
        if frame.schema_version != 1 {
            let reply = mk_error_frame(request_id, "invalid_schema", "unsupported schema_version");
            let mut replies: Vec<StdioFrame> = Vec::new();
            replies.push(reply);
            return StdioStepResult { replies, response: None, subscribe: None };
        }
        if !self.authenticated {
            if !str_eq(frame.frame_type.as_str(), "auth") {
                let reply = mk_error_frame(request_id, "unauthorized", "auth required");
                let mut replies: Vec<StdioFrame> = Vec::new();
                replies.push(reply);
                return StdioStepResult { replies, response: None, subscribe: None };
            }
            match parse_auth_payload(&frame.payload) {
                None => {
                    let reply = mk_error_frame(request_id, "invalid_schema", "invalid auth payload");
                    let mut replies: Vec<StdioFrame> = Vec::new();
                    replies.push(reply);
                    return StdioStepResult { replies, response: None, subscribe: None };
                },
                Some(payload) => {
                    let matches_token = match &self.token {
                        Some(t) => str_eq(t.as_str(), payload.token.as_str()),
                        None => false,
                    };
                    if !matches_token {
                        let reply = mk_error_frame(request_id, "unauthorized", "invalid token");
                        let mut replies: Vec<StdioFrame> = Vec::new();
                        replies.push(reply);
                        return StdioStepResult { replies, response: None, subscribe: None };
                    }
                    self.authenticated = true;
                    let reply = mk_reply_frame(request_id, "auth.response", status_ok_to_json());
                    let mut replies: Vec<StdioFrame> = Vec::new();
                    replies.push(reply);
                    return StdioStepResult { replies, response: None, subscribe: None };
                },
            }
        }
        if str_eq(frame.frame_type.as_str(), "auth") {
            let reply = mk_reply_frame(request_id, "auth.response", status_ok_to_json());
            let mut replies: Vec<StdioFrame> = Vec::new();
            replies.push(reply);
            return StdioStepResult { replies, response: None, subscribe: None };
        }
        if str_eq(frame.frame_type.as_str(), "command.submit") {
            match parse_command_envelope(&frame.payload) {
                None => {
                    let reply = mk_error_frame(
                        request_id,
                        "invalid_schema",
                        "invalid command payload",
                    );
                    let mut replies: Vec<StdioFrame> = Vec::new();
                    replies.push(reply);
                    return StdioStepResult { replies, response: None, subscribe: None };
                },
                Some(command) => {
                    proof {
                        assert(command@ =~= crate::wire::parsed_command(frame@.payload));
                    }
                    match daemon.submit(command) {
                        Ok(res) => {
                            let payload = submit_response_to_json(&res);
                            let reply = mk_reply_frame(request_id, "command.response", payload);
                            let mut replies: Vec<StdioFrame> = Vec::new();
                            replies.push(reply);
                            return StdioStepResult {
                                replies,
                                response: Some(res),
                                subscribe: None,
                            };
                        },
                        Err(_) => {
                            let reply = mk_error_frame(request_id, "internal", "command failed");
                            let mut replies: Vec<StdioFrame> = Vec::new();
                            replies.push(reply);
                            return StdioStepResult { replies, response: None, subscribe: None };
                        },
                    }
                },
            }
        }
        if str_eq(frame.frame_type.as_str(), "query.workspaces") {
            if !is_empty_payload(&frame.payload) {
                let reply = mk_error_frame(request_id, "invalid_schema", "invalid query payload");
                let mut replies: Vec<StdioFrame> = Vec::new();
                replies.push(reply);
                return StdioStepResult { replies, response: None, subscribe: None };
            }
            let rows = match daemon.list_workspaces() {
                Ok(rows) => rows,
                Err(_) => {
                    proof {
                        assert(false);
                    }
                    let reply = mk_error_frame(request_id, "internal", "query failed");
                    let mut replies: Vec<StdioFrame> = Vec::new();
                    replies.push(reply);
                    return StdioStepResult { replies, response: None, subscribe: None };
                },
            };
            let payload = crate::wire::workspaces_to_json(&rows);
            let reply = mk_reply_frame(request_id, "query.workspaces.response", payload);
            let mut replies: Vec<StdioFrame> = Vec::new();
            replies.push(reply);
            return StdioStepResult { replies, response: None, subscribe: None };
        }
        if str_eq(frame.frame_type.as_str(), "query.projects") {
            match parse_projects_query(&frame.payload) {
                None => {
                    let reply = mk_error_frame(request_id, "invalid_schema", "invalid query payload");
                    let mut replies: Vec<StdioFrame> = Vec::new();
                    replies.push(reply);
                    return StdioStepResult { replies, response: None, subscribe: None };
                },
                Some(query) => {
                    let rows = match daemon.list_projects(query.workspace_id.as_str()) {
                        Ok(rows) => rows,
                        Err(_) => {
                            proof {
                                assert(false);
                            }
                            let reply = mk_error_frame(request_id, "internal", "query failed");
                            let mut replies: Vec<StdioFrame> = Vec::new();
                            replies.push(reply);
                            return StdioStepResult { replies, response: None, subscribe: None };
                        },
                    };
                    let payload = crate::wire::projects_to_json(&rows);
                    let reply = mk_reply_frame(request_id, "query.projects.response", payload);
                    let mut replies: Vec<StdioFrame> = Vec::new();
                    replies.push(reply);
                    return StdioStepResult { replies, response: None, subscribe: None };
                },
            }
        }
        if str_eq(frame.frame_type.as_str(), "events.subscribe") {
            if self.has_subscription {
                let reply = mk_error_frame(request_id, "conflict", "subscription already active");
                let mut replies: Vec<StdioFrame> = Vec::new();
                replies.push(reply);
                return StdioStepResult { replies, response: None, subscribe: None };
            }
            match parse_events_subscribe(&frame.payload) {
                None => {
                    let reply = mk_error_frame(
                        request_id,
                        "invalid_schema",
                        "invalid subscribe payload",
                    );
                    let mut replies: Vec<StdioFrame> = Vec::new();
                    replies.push(reply);
                    return StdioStepResult { replies, response: None, subscribe: None };
                },
                Some(sub) => {
                    self.has_subscription = true;
                    let reply = mk_reply_frame(
                        request_id,
                        "events.subscribe.response",
                        status_ok_to_json(),
                    );
                    let mut replies: Vec<StdioFrame> = Vec::new();
                    replies.push(reply);
                    return StdioStepResult { replies, response: None, subscribe: Some(sub) };
                },
            }
        }
        let reply = mk_error_frame(request_id, "unknown_command", "unknown stdio frame type");
        let mut replies: Vec<StdioFrame> = Vec::new();
        replies.push(reply);
        StdioStepResult { replies, response: None, subscribe: None }
    }
}

} // verus!
