//! The wire shapes shared by the transports: the stdio frame, its
//! payload types, and the JSON forms of events and responses.
//!
//! Every message is one JSON object.  Serialisers pin the exact object
//! a value renders to; parsers are strict, turning away any frame or
//! payload with an unknown field.

use vstd::prelude::*;

verus! {

use crate::event::{EventEnvelope, EventEnvelopeV};
use crate::json::{lemma_jview_fields, Json, JsonV};
use crate::kernel::{
    ActorV, ProjectListEntry, ProjectListEntryV, SubjectV, WorkspaceListEntry, WorkspaceListEntryV,
};
use crate::pipeline::{CommandEnvelope, CommandRejection, CommandRejectionV};
use crate::schema::{conforms, payload_conforms, FieldKind, FieldRule, FieldRuleV};

/// One stdio message: a request id to echo, a frame type, a protocol
/// version, and an opaque payload.
#[derive(Debug)]
pub struct StdioFrame {
    pub request_id: Option<String>,
    pub frame_type: String,
    pub schema_version: i32,
    pub payload: Json,
}

/// The model of a stdio frame.
#[verifier::ext_equal]
pub struct StdioFrameV {
    pub request_id: Option<Seq<char>>,
    pub frame_type: Seq<char>,
    pub schema_version: int,
    pub payload: JsonV,
}

impl View for StdioFrame {
    type V = StdioFrameV;

    open spec fn view(&self) -> StdioFrameV {
        StdioFrameV {
            request_id: self.request_id.deep_view(),
            frame_type: self.frame_type@,
            schema_version: self.schema_version as int,
            payload: self.payload@,
        }
    }
}

/// An error reply's payload.
#[derive(Debug)]
pub struct StdioErrorPayload {
    pub code: String,
    pub message: String,
}

/// An authentication frame's payload.
#[derive(Debug)]
pub struct StdioAuthPayload {
    pub token: String,
}

/// A project-list query's payload.
#[derive(Debug)]
pub struct StdioProjectsQuery {
    pub workspace_id: String,
}

/// A subscription request's payload.
#[derive(Debug)]
pub struct StdioEventsSubscribe {
    pub workspace_id: String,
    pub from: Option<i64>,
}

/// The JSON form of an actor: `label` is `null` where it is unset.
pub open spec fn actor_json(a: ActorV) -> JsonV {
    JsonV::Obj(
        seq![
            ("kind"@, JsonV::Str(a.kind)),
            ("id"@, JsonV::Str(a.id)),
            (
                "label"@,
                match a.label {
                    Some(l) => JsonV::Str(l),
                    None => JsonV::Null,
                },
            ),
        ],
    )
}

/// The JSON form of a subject.
pub open spec fn subject_json(s: SubjectV) -> JsonV {
    JsonV::Obj(seq![("kind"@, JsonV::Str(s.kind)), ("id"@, JsonV::Str(s.id))])
}

/// The JSON form of a stored event: optional fields are omitted where
/// unset.
pub open spec fn event_json(e: EventEnvelopeV) -> JsonV {
    JsonV::Obj(
        seq![
            ("event_id"@, JsonV::Str(e.event_id)),
            ("event_type"@, JsonV::Str(e.event_type)),
            ("timestamp"@, JsonV::Str(e.timestamp)),
            ("actor"@, actor_json(e.actor)),
            ("workspace_id"@, JsonV::Str(e.workspace_id)),
        ] + (match e.project_id {
            Some(p) => seq![("project_id"@, JsonV::Str(p))],
            None => Seq::empty(),
        }) + seq![
            ("subject"@, subject_json(e.subject)),
            ("payload"@, e.payload),
            ("schema_version"@, JsonV::Int(e.schema_version)),
            ("seq_global"@, JsonV::Int(e.seq_global)),
            ("seq_stream"@, JsonV::Int(e.seq_stream)),
        ] + (match e.trace_id {
            Some(t) => seq![("trace_id"@, JsonV::Str(t))],
            None => Seq::empty(),
        }),
    )
}

/// The JSON forms of a list of events, in order.
pub open spec fn events_json(evs: Seq<EventEnvelopeV>) -> Seq<JsonV>
    decreases evs.len(),
{
    if evs.len() == 0 {
        Seq::empty()
    } else {
        events_json(evs.drop_last()).push(event_json(evs.last()))
    }
}

/// The JSON form of a rejection.
pub open spec fn rejection_json(r: CommandRejectionV) -> JsonV {
    JsonV::Obj(seq![("code"@, JsonV::Str(r.code)), ("message"@, JsonV::Str(r.message))])
}

/// The JSON form of a submit response.
pub open spec fn submit_response_json(
    accepted: bool,
    events: Seq<EventEnvelopeV>,
    rejection: Option<CommandRejectionV>,
    trace_id: Seq<char>,
) -> JsonV {
    JsonV::Obj(
        seq![("accepted"@, JsonV::Bool(accepted)), ("events"@, JsonV::Arr(events_json(events)))]
            + (match rejection {
            Some(r) => seq![("rejection"@, rejection_json(r))],
            None => Seq::empty(),
        }) + seq![("trace_id"@, JsonV::Str(trace_id))],
    )
}

/// The JSON form of a workspace row.
pub open spec fn workspace_entry_json(w: WorkspaceListEntryV) -> JsonV {
    JsonV::Obj(
        seq![
            ("workspace_id"@, JsonV::Str(w.workspace_id)),
            ("name"@, JsonV::Str(w.name)),
            ("root_path"@, JsonV::Str(w.root_path)),
            ("created_at"@, JsonV::Str(w.created_at)),
            ("seq_global"@, JsonV::Int(w.seq_global)),
        ],
    )
}

/// The JSON forms of the workspace rows, in order.
pub open spec fn workspaces_json(rows: Seq<WorkspaceListEntryV>) -> Seq<JsonV>
    decreases rows.len(),
{
    if rows.len() == 0 {
        Seq::empty()
    } else {
        workspaces_json(rows.drop_last()).push(workspace_entry_json(rows.last()))
    }
}

/// The JSON form of a project row.
pub open spec fn project_entry_json(p: ProjectListEntryV) -> JsonV {
    JsonV::Obj(
        seq![
            ("project_id"@, JsonV::Str(p.project_id)),
            ("workspace_id"@, JsonV::Str(p.workspace_id)),
            ("name"@, JsonV::Str(p.name)),
            ("created_at"@, JsonV::Str(p.created_at)),
            ("seq_global"@, JsonV::Int(p.seq_global)),
        ],
    )
}

/// The JSON forms of the project rows, in order.
pub open spec fn projects_json(rows: Seq<ProjectListEntryV>) -> Seq<JsonV>
    decreases rows.len(),
{
    if rows.len() == 0 {
        Seq::empty()
    } else {
        projects_json(rows.drop_last()).push(project_entry_json(rows.last()))
    }
}

/// The JSON form of an error payload.
pub open spec fn error_payload_json(code: Seq<char>, message: Seq<char>) -> JsonV {
    JsonV::Obj(seq![("code"@, JsonV::Str(code)), ("message"@, JsonV::Str(message))])
}

/// The JSON form of a `{"status": "ok"}` payload.
pub open spec fn status_ok_json() -> JsonV {
    JsonV::Obj(seq![("status"@, JsonV::Str("ok"@))])
}

/// The JSON form of a whole frame: the request id is omitted where
/// unset.
pub open spec fn frame_json(f: StdioFrameV) -> JsonV {
    JsonV::Obj(
        (match f.request_id {
            Some(r) => seq![("request_id"@, JsonV::Str(r))],
            None => Seq::empty(),
        }) + seq![
            ("type"@, JsonV::Str(f.frame_type)),
            ("schema_version"@, JsonV::Int(f.schema_version)),
            ("payload"@, f.payload),
        ],
    )
}

/// Renders an actor.
pub fn actor_to_json(a: &crate::kernel::Actor) -> (r: Json)
    ensures
        r@ == actor_json(a@),
{
    let mut fields: Vec<(String, Json)> = Vec::new();
    fields.push(("kind".to_owned(), Json::Str(a.kind.clone())));
    fields.push(("id".to_owned(), Json::Str(a.id.clone())));
    match &a.label {
        Some(l) => fields.push(("label".to_owned(), Json::Str(l.clone()))),
        None => fields.push(("label".to_owned(), Json::Null)),
    }
    let ghost pf = fields@;
    let r = Json::Obj(fields);
    proof {
        lemma_jview_fields(pf);
        assert(r@.obj_fields() =~= actor_json(a@).obj_fields());
        assert(r@ =~= actor_json(a@));
    }
    r
}

/// Renders a subject.
pub fn subject_to_json(s: &crate::kernel::Subject) -> (r: Json)
    ensures
        r@ == subject_json(s@),
{
    let mut fields: Vec<(String, Json)> = Vec::new();
    fields.push(("kind".to_owned(), Json::Str(s.kind.clone())));
    fields.push(("id".to_owned(), Json::Str(s.id.clone())));
    let ghost pf = fields@;
    let r = Json::Obj(fields);
    proof {
        lemma_jview_fields(pf);
        assert(r@.obj_fields() =~= subject_json(s@).obj_fields());
        assert(r@ =~= subject_json(s@));
    }
    r
}

/// Renders a stored event.
pub fn event_to_json(e: &EventEnvelope) -> (r: Json)
    ensures
        r@ == event_json(e@),
{
    let mut fields: Vec<(String, Json)> = Vec::new();
    fields.push(("event_id".to_owned(), Json::Str(e.event_id.clone())));
    fields.push(("event_type".to_owned(), Json::Str(e.event_type.clone())));
    fields.push(("timestamp".to_owned(), Json::Str(e.timestamp.clone())));
    fields.push(("actor".to_owned(), actor_to_json(&e.actor)));
    fields.push(("workspace_id".to_owned(), Json::Str(e.workspace_id.clone())));
    match &e.project_id {
        Some(p) => fields.push(("project_id".to_owned(), Json::Str(p.clone()))),
        None => {},
    }
    fields.push(("subject".to_owned(), subject_to_json(&e.subject)));
    fields.push(("payload".to_owned(), e.payload.deep_clone()));
    fields.push(("schema_version".to_owned(), Json::Int(e.schema_version as i64)));
    fields.push(("seq_global".to_owned(), Json::Int(e.seq_global)));
    fields.push(("seq_stream".to_owned(), Json::Int(e.seq_stream)));
    match &e.trace_id {
        Some(t) => fields.push(("trace_id".to_owned(), Json::Str(t.clone()))),
        None => {},
    }
    let ghost pf = fields@;
    let r = Json::Obj(fields);
    proof {
        lemma_jview_fields(pf);
        assert(r@.obj_fields() =~= event_json(e@).obj_fields());
        assert(r@ =~= event_json(e@));
    }
    r
}

/// Renders a list of events.
pub fn events_to_json(events: &Vec<EventEnvelope>) -> (r: Json)
    ensures
        r@ == JsonV::Arr(events_json(events.deep_view())),
{
    let ghost ev = events.deep_view();
    let mut items: Vec<Json> = Vec::new();
    let mut i: usize = 0;
    while i < events.len()
        invariant
            i <= events@.len(),
            ev == events.deep_view(),
            ev.len() == events@.len(),
            crate::json::jview_seq(items@) == events_json(ev.take(i as int)),
            items@.len() == i,
        decreases events@.len() - i,
    {
        let ghost prev = items@;
        proof {
            crate::json::lemma_jview_seq(prev);
            assert(ev[i as int] == events@[i as int]@);
            assert(ev.take(i + 1).drop_last() =~= ev.take(i as int));
            assert(ev.take(i + 1).last() == ev[i as int]);
        }
        let item = event_to_json(&events[i]);
        items.push(item);
        proof {
            crate::json::lemma_jview_seq(items@);
            crate::json::lemma_jview_seq(prev);
            assert(crate::json::jview_seq(items@) =~= events_json(ev.take(i + 1)));
        }
        i += 1;
    }
    proof {
        assert(ev.take(i as int) =~= ev);
    }
    let r = Json::Arr(items);
    proof {
        assert(r@ == JsonV::Arr(crate::json::jview_seq(r->Arr_0@)));
    }
    r
}

/// Renders a rejection.
pub fn rejection_to_json(rej: &CommandRejection) -> (r: Json)
    ensures
        r@ == rejection_json(rej@),
{
    let mut fields: Vec<(String, Json)> = Vec::new();
    fields.push(("code".to_owned(), Json::Str(rej.code.clone())));
    fields.push(("message".to_owned(), Json::Str(rej.message.clone())));
    let ghost pf = fields@;
    let r = Json::Obj(fields);
    proof {
        lemma_jview_fields(pf);
        assert(r@.obj_fields() =~= rejection_json(rej@).obj_fields());
        assert(r@ =~= rejection_json(rej@));
    }
    r
}

/// Renders a submit response.
pub fn submit_response_to_json(res: &crate::pipeline::SubmitCommandResponse) -> (r: Json)
    ensures
        r@ == submit_response_json(
            res.accepted,
            res.events.deep_view(),
            res.rejection.deep_view(),
            res.trace_id@,
        ),
{
    let mut fields: Vec<(String, Json)> = Vec::new();
    fields.push(("accepted".to_owned(), Json::Bool(res.accepted)));
    fields.push(("events".to_owned(), events_to_json(&res.events)));
    match &res.rejection {
        Some(rej) => fields.push(("rejection".to_owned(), rejection_to_json(rej))),
        None => {},
    }
    fields.push(("trace_id".to_owned(), Json::Str(res.trace_id.clone())));
    let ghost pf = fields@;
    let r = Json::Obj(fields);
    let ghost target = submit_response_json(
        res.accepted,
        res.events.deep_view(),
        res.rejection.deep_view(),
        res.trace_id@,
    );
    proof {
        lemma_jview_fields(pf);
        assert(r@.obj_fields() =~= target.obj_fields());
        assert(r@ =~= target);
    }
    r
}

/// Renders the workspace rows.
pub fn workspaces_to_json(rows: &Vec<WorkspaceListEntry>) -> (r: Json)
    ensures
        r@ == JsonV::Arr(workspaces_json(rows.deep_view())),
{
    let ghost rv = rows.deep_view();
    let mut items: Vec<Json> = Vec::new();
    let mut i: usize = 0;
    while i < rows.len()
        invariant
            i <= rows@.len(),
            rv == rows.deep_view(),
            rv.len() == rows@.len(),
            crate::json::jview_seq(items@) == workspaces_json(rv.take(i as int)),
            items@.len() == i,
        decreases rows@.len() - i,
    {
        let ghost prev = items@;
        proof {
            assert(rv[i as int] == rows@[i as int]@);
            assert(rv.take(i + 1).drop_last() =~= rv.take(i as int));
            assert(rv.take(i + 1).last() == rv[i as int]);
        }
        let w = &rows[i];
        let mut fields: Vec<(String, Json)> = Vec::new();
        fields.push(("workspace_id".to_owned(), Json::Str(w.workspace_id.clone())));
        fields.push(("name".to_owned(), Json::Str(w.name.clone())));
        fields.push(("root_path".to_owned(), Json::Str(w.root_path.clone())));
        fields.push(("created_at".to_owned(), Json::Str(w.created_at.clone())));
        fields.push(("seq_global".to_owned(), Json::Int(w.seq_global)));
        let ghost pf = fields@;
        let item = Json::Obj(fields);
        proof {
            lemma_jview_fields(pf);
            assert(item@.obj_fields() =~= workspace_entry_json(rv[i as int]).obj_fields());
            assert(item@ =~= workspace_entry_json(rv[i as int]));
        }
        items.push(item);
        proof {
            crate::json::lemma_jview_seq(items@);
            crate::json::lemma_jview_seq(prev);
            assert(crate::json::jview_seq(items@) =~= workspaces_json(rv.take(i + 1)));
        }
        i += 1;
    }
    proof {
        assert(rv.take(i as int) =~= rv);
    }
    let r = Json::Arr(items);
    proof {
        assert(r@ == JsonV::Arr(crate::json::jview_seq(r->Arr_0@)));
    }
    r
}

/// Renders the project rows.
pub fn projects_to_json(rows: &Vec<ProjectListEntry>) -> (r: Json)
    ensures
        r@ == JsonV::Arr(projects_json(rows.deep_view())),
{
    let ghost rv = rows.deep_view();
    let mut items: Vec<Json> = Vec::new();
    let mut i: usize = 0;
    while i < rows.len()
        invariant
            i <= rows@.len(),
            rv == rows.deep_view(),
            rv.len() == rows@.len(),
            crate::json::jview_seq(items@) == projects_json(rv.take(i as int)),
            items@.len() == i,
        decreases rows@.len() - i,
    {
        let ghost prev = items@;
        proof {
            assert(rv[i as int] == rows@[i as int]@);
            assert(rv.take(i + 1).drop_last() =~= rv.take(i as int));
            assert(rv.take(i + 1).last() == rv[i as int]);
        }
        let p = &rows[i];
        let mut fields: Vec<(String, Json)> = Vec::new();
        fields.push(("project_id".to_owned(), Json::Str(p.project_id.clone())));
        fields.push(("workspace_id".to_owned(), Json::Str(p.workspace_id.clone())));
        fields.push(("name".to_owned(), Json::Str(p.name.clone())));
        fields.push(("created_at".to_owned(), Json::Str(p.created_at.clone())));
        fields.push(("seq_global".to_owned(), Json::Int(p.seq_global)));
        let ghost pf = fields@;
        let item = Json::Obj(fields);
        proof {
            lemma_jview_fields(pf);
            assert(item@.obj_fields() =~= project_entry_json(rv[i as int]).obj_fields());
            assert(item@ =~= project_entry_json(rv[i as int]));
        }
        items.push(item);
        proof {
            crate::json::lemma_jview_seq(items@);
            crate::json::lemma_jview_seq(prev);
            assert(crate::json::jview_seq(items@) =~= projects_json(rv.take(i + 1)));
        }
        i += 1;
    }
    proof {
        assert(rv.take(i as int) =~= rv);
    }
    let r = Json::Arr(items);
    proof {
        assert(r@ == JsonV::Arr(crate::json::jview_seq(r->Arr_0@)));
    }
    r
}

/// Renders an error payload.
pub fn error_payload_to_json(code: &str, message: &str) -> (r: Json)
    ensures
        r@ == error_payload_json(code@, message@),
{
    let mut fields: Vec<(String, Json)> = Vec::new();
    fields.push(("code".to_owned(), Json::Str(code.to_owned())));
    fields.push(("message".to_owned(), Json::Str(message.to_owned())));
    let ghost pf = fields@;
    let r = Json::Obj(fields);
    proof {
        lemma_jview_fields(pf);
        assert(r@.obj_fields() =~= error_payload_json(code@, message@).obj_fields());
        assert(r@ =~= error_payload_json(code@, message@));
    }
    r
}

/// Renders a `{"status": "ok"}` payload.
pub fn status_ok_to_json() -> (r: Json)
    ensures
        r@ == status_ok_json(),
{
    let mut fields: Vec<(String, Json)> = Vec::new();
    fields.push(("status".to_owned(), Json::Str("ok".to_owned())));
    let ghost pf = fields@;
    let r = Json::Obj(fields);
    proof {
        lemma_jview_fields(pf);
        assert(r@.obj_fields() =~= status_ok_json().obj_fields());
        assert(r@ =~= status_ok_json());
    }
    r
}

/// Renders a whole frame.
pub fn frame_to_json(f: &StdioFrame) -> (r: Json)
    ensures
        r@ == frame_json(f@),
{
    let mut fields: Vec<(String, Json)> = Vec::new();
    match &f.request_id {
        Some(rid) => fields.push(("request_id".to_owned(), Json::Str(rid.clone()))),
        None => {},
    }
    fields.push(("type".to_owned(), Json::Str(f.frame_type.clone())));
    fields.push(("schema_version".to_owned(), Json::Int(f.schema_version as i64)));
    fields.push(("payload".to_owned(), f.payload.deep_clone()));
    let ghost pf = fields@;
    let r = Json::Obj(fields);
    proof {
        lemma_jview_fields(pf);
        assert(r@.obj_fields() =~= frame_json(f@).obj_fields());
        assert(r@ =~= frame_json(f@));
    }
    r
}

/// The rules of a stdio frame.
pub open spec fn stdio_frame_rules() -> Seq<FieldRuleV> {
    seq![
        FieldRuleV { name: "request_id"@, kind: FieldKind::OptStr },
        FieldRuleV { name: "type"@, kind: FieldKind::ReqStr },
        FieldRuleV { name: "schema_version"@, kind: FieldKind::ReqInt },
        FieldRuleV { name: "payload"@, kind: FieldKind::ReqAny },
    ]
}

/// Reads a stdio frame strictly.  The protocol version must fit the
/// frame's field.
pub fn parse_stdio_frame(j: &Json) -> (r: Option<StdioFrame>)
    ensures
        match r {
            Some(f) => {
                &&& conforms(j@, stdio_frame_rules())
                &&& f.request_id.deep_view() == j@.str_field("request_id"@)
                &&& f.frame_type@ == j@.str_field_val("type"@)
                &&& f.schema_version as int == j@.int_field_val("schema_version"@)
                &&& Some(f.payload@) == j@.field("payload"@)
            },
            None => !conforms(j@, stdio_frame_rules()) || j@.int_field_val("schema_version"@)
                > 0x7fff_ffff || j@.int_field_val("schema_version"@) < -0x8000_0000,
        },
{
    let mut rules: Vec<FieldRule> = Vec::new();
    rules.push(FieldRule { name: "request_id".to_owned(), kind: FieldKind::OptStr });
    rules.push(FieldRule { name: "type".to_owned(), kind: FieldKind::ReqStr });
    rules.push(FieldRule { name: "schema_version".to_owned(), kind: FieldKind::ReqInt });
    rules.push(FieldRule { name: "payload".to_owned(), kind: FieldKind::ReqAny });
    proof {
        assert(rules.deep_view() =~= stdio_frame_rules());
    }
    if !payload_conforms(j, &rules) {
        return None;
    }
    proof {
        assert(crate::schema::rule_ok(j@.obj_fields(), stdio_frame_rules()[1]));
        assert(crate::schema::rule_ok(j@.obj_fields(), stdio_frame_rules()[2]));
        assert(crate::schema::rule_ok(j@.obj_fields(), stdio_frame_rules()[3]));
    }
    let request_id = j.get_str("request_id");
    let frame_type = match j.get_str("type") {
        Some(s) => s,
        None => {
            proof {
                assert(false);
            }
            return None;
        },
    };
    let version = match j.get_int("schema_version") {
        Some(n) => n,
        None => {
            proof {
                assert(false);
            }
            return None;
        },
    };
    if version > 0x7fff_ffff || version < -0x8000_0000 {
        return None;
    }
    let payload = match j.get("payload") {
        Some(v) => v.deep_clone(),
        None => {
            proof {
                crate::json::lemma_lookup_count(j@.obj_fields(), "payload"@);
                assert(false);
            }
            return None;
        },
    };
    Some(StdioFrame { request_id, frame_type, schema_version: version as i32, payload })
}

/// The rules of a command envelope.
pub open spec fn command_envelope_rules() -> Seq<FieldRuleV> {
    seq![
        FieldRuleV { name: "type"@, kind: FieldKind::ReqStr },
        FieldRuleV { name: "schema_version"@, kind: FieldKind::ReqInt },
        FieldRuleV { name: "payload"@, kind: FieldKind::ReqAny },
        FieldRuleV { name: "idempotency_key"@, kind: FieldKind::OptStr },
        FieldRuleV { name: "expected_version"@, kind: FieldKind::OptInt },
        FieldRuleV { name: "trace_id"@, kind: FieldKind::ReqStr },
    ]
}

/// The command a conforming wire object names, field by field.
pub open spec fn parsed_command(p: JsonV) -> crate::pipeline::CommandEnvelopeV {
    crate::pipeline::CommandEnvelopeV {
        command_type: p.str_field_val("type"@),
        schema_version: p.int_field_val("schema_version"@),
        payload: p.any_field_val("payload"@),
        idempotency_key: p.str_field("idempotency_key"@),
        expected_version: p.int_field("expected_version"@),
        trace_id: p.str_field_val("trace_id"@),
    }
}

/// Reads a command envelope strictly.
pub fn parse_command_envelope(j: &Json) -> (r: Option<CommandEnvelope>)
    ensures
        match r {
            Some(c) => {
                &&& conforms(j@, command_envelope_rules())
                &&& c@ == parsed_command(j@)
                &&& c.command_type@ == j@.str_field_val("type"@)
                &&& c.schema_version as int == j@.int_field_val("schema_version"@)
                &&& Some(c.payload@) == j@.field("payload"@)
                &&& c.idempotency_key.deep_view() == j@.str_field("idempotency_key"@)
                &&& (match c.expected_version {
                    Some(v) => j@.int_field("expected_version"@) == Some(v as int),
                    None => j@.int_field("expected_version"@) is None,
                })
                &&& c.trace_id@ == j@.str_field_val("trace_id"@)
            },
            None => !conforms(j@, command_envelope_rules()) || j@.int_field_val("schema_version"@)
                > 0x7fff_ffff || j@.int_field_val("schema_version"@) < -0x8000_0000,
        },
{
    let mut rules: Vec<FieldRule> = Vec::new();
    rules.push(FieldRule { name: "type".to_owned(), kind: FieldKind::ReqStr });
    rules.push(FieldRule { name: "schema_version".to_owned(), kind: FieldKind::ReqInt });
    rules.push(FieldRule { name: "payload".to_owned(), kind: FieldKind::ReqAny });
    rules.push(FieldRule { name: "idempotency_key".to_owned(), kind: FieldKind::OptStr });
    rules.push(FieldRule { name: "expected_version".to_owned(), kind: FieldKind::OptInt });
    rules.push(FieldRule { name: "trace_id".to_owned(), kind: FieldKind::ReqStr });
    proof {
        assert(rules.deep_view() =~= command_envelope_rules());
    }
    if !payload_conforms(j, &rules) {
        return None;
    }
    proof {
        assert(crate::schema::rule_ok(j@.obj_fields(), command_envelope_rules()[0]));
        assert(crate::schema::rule_ok(j@.obj_fields(), command_envelope_rules()[1]));
        assert(crate::schema::rule_ok(j@.obj_fields(), command_envelope_rules()[2]));
        assert(crate::schema::rule_ok(j@.obj_fields(), command_envelope_rules()[5]));
    }
    let command_type = match j.get_str("type") {
        Some(s) => s,
        None => {
            proof {
                assert(false);
            }
            return None;
        },
    };
    let version = match j.get_int("schema_version") {
        Some(n) => n,
        None => {
            proof {
                assert(false);
            }
            return None;
        },
    };
    if version > 0x7fff_ffff || version < -0x8000_0000 {
        return None;
    }
    let payload = match j.get("payload") {
        Some(v) => v.deep_clone(),
        None => {
            proof {
                crate::json::lemma_lookup_count(j@.obj_fields(), "payload"@);
                assert(false);
            }
            return None;
        },
    };
    let idempotency_key = j.get_str("idempotency_key");
    let expected_version = j.get_int("expected_version");
    let trace_id = match j.get_str("trace_id") {
        Some(s) => s,
        None => {
            proof {
                assert(false);
            }
            return None;
        },
    };
    Some(
        CommandEnvelope {
            command_type,
            schema_version: version as i32,
            payload,
            idempotency_key,
            expected_version,
            trace_id,
        },
    )
}

/// Reads an authentication payload strictly.
pub fn parse_auth_payload(j: &Json) -> (r: Option<StdioAuthPayload>)
    ensures
        match r {
            Some(p) => conforms(
                j@,
                seq![FieldRuleV { name: "token"@, kind: FieldKind::ReqStr }],
            ) && p.token@ == j@.str_field_val("token"@),
            None => !conforms(j@, seq![FieldRuleV { name: "token"@, kind: FieldKind::ReqStr }]),
        },
{
    let mut rules: Vec<FieldRule> = Vec::new();
    rules.push(FieldRule { name: "token".to_owned(), kind: FieldKind::ReqStr });
    proof {
        assert(rules.deep_view() =~= seq![FieldRuleV { name: "token"@, kind: FieldKind::ReqStr }]);
    }
    if !payload_conforms(j, &rules) {
        return None;
    }
    proof {
        assert(crate::schema::rule_ok(
            j@.obj_fields(),
            seq![FieldRuleV { name: "token"@, kind: FieldKind::ReqStr }][0],
        ));
    }
    match j.get_str("token") {
        Some(token) => Some(StdioAuthPayload { token }),
        None => {
            proof {
                assert(false);
            }
            None
        },
    }
}

/// Reads a project-list query strictly.
pub fn parse_projects_query(j: &Json) -> (r: Option<StdioProjectsQuery>)
    ensures
        match r {
            Some(p) => conforms(
                j@,
                seq![FieldRuleV { name: "workspace_id"@, kind: FieldKind::ReqStr }],
            ) && p.workspace_id@ == j@.str_field_val("workspace_id"@),
            None => !conforms(
                j@,
                seq![FieldRuleV { name: "workspace_id"@, kind: FieldKind::ReqStr }],
            ),
        },
{
    let mut rules: Vec<FieldRule> = Vec::new();
    rules.push(FieldRule { name: "workspace_id".to_owned(), kind: FieldKind::ReqStr });
    proof {
        assert(rules.deep_view() =~= seq![
            FieldRuleV { name: "workspace_id"@, kind: FieldKind::ReqStr },
        ]);
    }
    if !payload_conforms(j, &rules) {
        return None;
    }
    proof {
        assert(crate::schema::rule_ok(
            j@.obj_fields(),
            seq![FieldRuleV { name: "workspace_id"@, kind: FieldKind::ReqStr }][0],
        ));
    }
    match j.get_str("workspace_id") {
        Some(workspace_id) => Some(StdioProjectsQuery { workspace_id }),
        None => {
            proof {
                assert(false);
            }
            None
        },
    }
}

/// The rules of a subscription request.
pub open spec fn events_subscribe_rules() -> Seq<FieldRuleV> {
    seq![
        FieldRuleV { name: "workspace_id"@, kind: FieldKind::ReqStr },
        FieldRuleV { name: "from"@, kind: FieldKind::OptInt },
    ]
}

/// Reads a subscription request strictly.
pub fn parse_events_subscribe(j: &Json) -> (r: Option<StdioEventsSubscribe>)
    ensures
        match r {
            Some(p) => {
                &&& conforms(j@, events_subscribe_rules())
                &&& p.workspace_id@ == j@.str_field_val("workspace_id"@)
                &&& (match p.from {
                    Some(v) => j@.int_field("from"@) == Some(v as int),
                    None => j@.int_field("from"@) is None,
                })
            },
            None => !conforms(j@, events_subscribe_rules()),
        },
{
    let mut rules: Vec<FieldRule> = Vec::new();
    rules.push(FieldRule { name: "workspace_id".to_owned(), kind: FieldKind::ReqStr });
    rules.push(FieldRule { name: "from".to_owned(), kind: FieldKind::OptInt });
    proof {
        assert(rules.deep_view() =~= events_subscribe_rules());
    }
    if !payload_conforms(j, &rules) {
        return None;
    }
    proof {
        assert(crate::schema::rule_ok(j@.obj_fields(), events_subscribe_rules()[0]));
    }
    let workspace_id = match j.get_str("workspace_id") {
        Some(s) => s,
        None => {
            proof {
                assert(false);
            }
            return None;
        },
    };
    let from = j.get_int("from");
    Some(StdioEventsSubscribe { workspace_id, from })
}

/// The rules of an actor object: `label` may be a string or `null`.
pub open spec fn actor_rules() -> Seq<FieldRuleV> {
    seq![
        FieldRuleV { name: "kind"@, kind: FieldKind::ReqStr },
        FieldRuleV { name: "id"@, kind: FieldKind::ReqStr },
        FieldRuleV { name: "label"@, kind: FieldKind::OptStrOrNull },
    ]
}

/// Reads an actor strictly: an absent or `null` label is none.
pub fn parse_actor(j: &Json) -> (r: Option<crate::kernel::Actor>)
    ensures
        match r {
            Some(a) => {
                &&& conforms(j@, actor_rules())
                &&& a.kind@ == j@.str_field_val("kind"@)
                &&& a.id@ == j@.str_field_val("id"@)
                &&& a.label.deep_view() == j@.str_field("label"@)
            },
            None => !conforms(j@, actor_rules()),
        },
{
    let mut rules: Vec<FieldRule> = Vec::new();
    rules.push(FieldRule { name: "kind".to_owned(), kind: FieldKind::ReqStr });
    rules.push(FieldRule { name: "id".to_owned(), kind: FieldKind::ReqStr });
    rules.push(FieldRule { name: "label".to_owned(), kind: FieldKind::OptStrOrNull });
    proof {
        assert(rules.deep_view() =~= actor_rules());
    }
    if !payload_conforms(j, &rules) {
        return None;
    }
    proof {
        assert(crate::schema::rule_ok(j@.obj_fields(), actor_rules()[0]));
        assert(crate::schema::rule_ok(j@.obj_fields(), actor_rules()[1]));
    }
    let kind = match j.get_str("kind") {
        Some(s) => s,
        None => {
            proof {
                assert(false);
            }
            return None;
        },
    };
    let id = match j.get_str("id") {
        Some(s) => s,
        None => {
            proof {
                assert(false);
            }
            return None;
        },
    };
    let label = j.get_str("label");
    Some(crate::kernel::Actor { kind, id, label })
}

/// Whether a payload is exactly the empty object.
pub fn is_empty_payload(j: &Json) -> (r: bool)
    ensures
        r == conforms(j@, Seq::<FieldRuleV>::empty()),
{
    let rules: Vec<FieldRule> = Vec::new();
    proof {
        assert(rules.deep_view() =~= Seq::<FieldRuleV>::empty());
    }
    payload_conforms(j, &rules)
}

} // verus!
