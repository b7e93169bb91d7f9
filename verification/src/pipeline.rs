//! The command pipeline: validation, ordering, idempotency,
//! persistence, and the response.
//!
//! A submission runs through gates in a fixed order: safe mode, kind
//! lookup, the read-only guard, the idempotency-key requirement,
//! schema validation, and the optimistic-concurrency check.  A gate
//! that fires synthesises a durable `command.rejected` event — except
//! safe mode, which writes nothing.  A submission that passes every
//! gate mints one event and appends it under the caller's idempotency
//! key, so that resubmitting the same key replays the original
//! envelopes unchanged.

use vstd::prelude::*;

verus! {

use crate::event::{EventEnvelope, EventEnvelopeV, NewEvent};
use crate::json::{Json, JsonV};
use crate::kernel::{
    command_kind, command_kind_spec, Actor, ActorV, CommandKind, ErrorCode, ProjectCreatePayload,
    Subject, WorkspaceCreatePayload,
};
use crate::schema::{
    command_rejected_rules, command_schema_rules, conforms, payload_conforms, project_create_rules,
    workspace_create_rules, FieldKind, FieldRule, SchemaRegistry,
};
use crate::store::{
    count_ws, idem_hit, idem_lookup, range_of, CommandMeta, CommandMetaV, EventLog, EventRecordV,
    StoreError,
};
use crate::text::str_eq;

/// A client request, as handed to the pipeline.
#[derive(Debug)]
pub struct CommandEnvelope {
    pub command_type: String,
    pub schema_version: i32,
    pub payload: Json,
    pub idempotency_key: Option<String>,
    pub expected_version: Option<i64>,
    pub trace_id: String,
}

/// The model of a command envelope.
#[verifier::ext_equal]
pub struct CommandEnvelopeV {
    pub command_type: Seq<char>,
    pub schema_version: int,
    pub payload: JsonV,
    pub idempotency_key: Option<Seq<char>>,
    pub expected_version: Option<int>,
    pub trace_id: Seq<char>,
}

impl View for CommandEnvelope {
    type V = CommandEnvelopeV;

    open spec fn view(&self) -> CommandEnvelopeV {
        CommandEnvelopeV {
            command_type: self.command_type@,
            schema_version: self.schema_version as int,
            payload: self.payload@,
            idempotency_key: self.idempotency_key.deep_view(),
            expected_version: match self.expected_version {
                Some(v) => Some(v as int),
                None => None,
            },
            trace_id: self.trace_id@,
        }
    }
}

/// Why a command was turned away.
#[derive(Debug)]
pub struct CommandRejection {
    pub code: String,
    pub message: String,
}

/// The model of a rejection.
#[verifier::ext_equal]
pub struct CommandRejectionV {
    pub code: Seq<char>,
    pub message: Seq<char>,
}

impl View for CommandRejection {
    type V = CommandRejectionV;

    open spec fn view(&self) -> CommandRejectionV {
        CommandRejectionV { code: self.code@, message: self.message@ }
    }
}

impl DeepView for CommandRejection {
    type V = CommandRejectionV;

    open spec fn deep_view(&self) -> CommandRejectionV {
        self@
    }
}

/// What the pipeline answers.
#[derive(Debug)]
pub struct SubmitCommandResponse {
    pub accepted: bool,
    pub events: Vec<EventEnvelope>,
    pub rejection: Option<CommandRejection>,
    pub trace_id: String,
}

/// The store metadata a submission carries.
pub open spec fn submit_meta(c: CommandEnvelopeV) -> CommandMetaV {
    CommandMetaV {
        command_type: c.command_type,
        idempotency_key: c.idempotency_key,
        expected_version: c.expected_version,
        trace_id: c.trace_id,
    }
}

/// The workspace a rejection is logged under: the payload's
/// `workspace_id` string where there is one, else the literal
/// `global`.
pub open spec fn rejection_workspace(c: CommandEnvelopeV) -> Seq<char> {
    match c.payload.str_field("workspace_id"@) {
        Some(w) => w,
        None => "global"@,
    }
}

/// Which gate a submission fails, `None` where all gates pass.
/// The gates fire in this order: unknown command, read-only guard,
/// idempotency-key requirement, schema validation, expected version.
pub open spec fn gate_outcome(log: Seq<EventRecordV>, c: CommandEnvelopeV) -> Option<ErrorCode> {
    if command_kind_spec(c.command_type) is None {
        Some(ErrorCode::UnknownCommand)
    } else if command_kind_spec(c.command_type) == Some(CommandKind::ReadOnly) {
        Some(ErrorCode::ValidationFailed)
    } else if c.idempotency_key is None {
        Some(ErrorCode::IdempotencyKeyRequired)
    } else if !(match command_schema_rules(c.command_type, c.schema_version) {
        Some(rules) => conforms(c.payload, rules),
        None => false,
    }) {
        Some(ErrorCode::InvalidSchema)
    } else if c.command_type == "workspace.create"@ {
        match c.expected_version {
            Some(v) => if v != 0 {
                Some(ErrorCode::ExpectedVersionMismatch)
            } else {
                None
            },
            None => None,
        }
    } else {
        match c.expected_version {
            Some(v) => if v != count_ws(log, c.payload.str_field_val("workspace_id"@)) {
                Some(ErrorCode::ExpectedVersionMismatch)
            } else {
                None
            },
            None => None,
        }
    }
}

/// The system actor's model.
pub open spec fn system_actor() -> ActorV {
    ActorV { kind: "system"@, id: "system"@, label: Some("mpd"@) }
}

/// The payload of a `workspace.created` event.
pub open spec fn ws_created_payload_json(name: Seq<char>, root_path: Seq<char>) -> JsonV {
    JsonV::Obj(seq![("name"@, JsonV::Str(name)), ("root_path"@, JsonV::Str(root_path))])
}

/// The payload of a `project.created` event.
pub open spec fn pr_created_payload_json(workspace_id: Seq<char>, name: Seq<char>) -> JsonV {
    JsonV::Obj(seq![("workspace_id"@, JsonV::Str(workspace_id)), ("name"@, JsonV::Str(name))])
}

/// The payload of a `command.rejected` event.
pub open spec fn rejected_payload_json(
    command_type: Seq<char>,
    code: ErrorCode,
    message: Seq<char>,
) -> JsonV {
    JsonV::Obj(
        seq![
            ("command_type"@, JsonV::Str(command_type)),
            ("code"@, JsonV::Str(code.wire_spec())),
            ("message"@, JsonV::Str(message)),
        ],
    )
}

/// The error code a wire string names, if any.
pub open spec fn wire_code_of(s: Seq<char>) -> Option<ErrorCode> {
    if s == "invalid_schema"@ {
        Some(ErrorCode::InvalidSchema)
    } else if s == "unknown_command"@ {
        Some(ErrorCode::UnknownCommand)
    } else if s == "idempotency_key_required"@ {
        Some(ErrorCode::IdempotencyKeyRequired)
    } else if s == "expected_version_mismatch"@ {
        Some(ErrorCode::ExpectedVersionMismatch)
    } else if s == "validation_failed"@ {
        Some(ErrorCode::ValidationFailed)
    } else if s == "unauthorized"@ {
        Some(ErrorCode::Unauthorized)
    } else if s == "not_found"@ {
        Some(ErrorCode::NotFound)
    } else if s == "policy_denied"@ {
        Some(ErrorCode::PolicyDenied)
    } else if s == "internal"@ {
        Some(ErrorCode::Internal)
    } else if s == "unknown"@ {
        Some(ErrorCode::Unknown)
    } else {
        None
    }
}

/// Reads the error code a wire string names.
pub fn parse_error_code(s: &str) -> (r: Option<ErrorCode>)
    ensures
        r == wire_code_of(s@),
{
    if str_eq(s, "invalid_schema") {
        Some(ErrorCode::InvalidSchema)
    } else if str_eq(s, "unknown_command") {
        Some(ErrorCode::UnknownCommand)
    } else if str_eq(s, "idempotency_key_required") {
        Some(ErrorCode::IdempotencyKeyRequired)
    } else if str_eq(s, "expected_version_mismatch") {
        Some(ErrorCode::ExpectedVersionMismatch)
    } else if str_eq(s, "validation_failed") {
        Some(ErrorCode::ValidationFailed)
    } else if str_eq(s, "unauthorized") {
        Some(ErrorCode::Unauthorized)
    } else if str_eq(s, "not_found") {
        Some(ErrorCode::NotFound)
    } else if str_eq(s, "policy_denied") {
        Some(ErrorCode::PolicyDenied)
    } else if str_eq(s, "internal") {
        Some(ErrorCode::Internal)
    } else if str_eq(s, "unknown") {
        Some(ErrorCode::Unknown)
    } else {
        None
    }
}

/// The rejection an event carries, where it is a well-formed
/// `command.rejected` event.
pub open spec fn rejected_parse(e: EventEnvelopeV) -> Option<CommandRejectionV> {
    if e.event_type == "command.rejected"@ && conforms(e.payload, command_rejected_rules())
        && wire_code_of(e.payload.str_field_val("code"@)) is Some {
        Some(
            CommandRejectionV {
                code: e.payload.str_field_val("code"@),
                message: e.payload.str_field_val("message"@),
            },
        )
    } else {
        None
    }
}

/// The first rejection among a list of events, if any.
pub open spec fn extract_rejection_spec(events: Seq<EventEnvelopeV>) -> Option<CommandRejectionV>
    decreases events.len(),
{
    if events.len() == 0 {
        None
    } else if rejected_parse(events[0]) is Some {
        rejected_parse(events[0])
    } else {
        extract_rejection_spec(events.drop_first())
    }
}

/// The `command.rejected` rules as an executable rule set.
fn rejected_rule_vec() -> (r: Vec<FieldRule>)
    ensures
        r.deep_view() == command_rejected_rules(),
{
    let mut v: Vec<FieldRule> = Vec::new();
    v.push(FieldRule { name: "command_type".to_owned(), kind: FieldKind::ReqStr });
    v.push(FieldRule { name: "code".to_owned(), kind: FieldKind::ReqStr });
    v.push(FieldRule { name: "message".to_owned(), kind: FieldKind::ReqStr });
    v.push(FieldRule { name: "details".to_owned(), kind: FieldKind::OptAny });
    proof {
        assert(v.deep_view() =~= command_rejected_rules());
    }
    v
}

/// Reads the rejection one event carries, if it is one.
fn try_rejected(e: &EventEnvelope) -> (r: Option<CommandRejection>)
    ensures
        match r {
            Some(rej) => rejected_parse(e@) == Some(rej@),
            None => rejected_parse(e@) is None,
        },
{
    if !str_eq(e.event_type.as_str(), "command.rejected") {
        return None;
    }
    let rules = rejected_rule_vec();
    if !payload_conforms(&e.payload, &rules) {
        return None;
    }
    proof {
        assert(crate::schema::rule_ok(e.payload@.obj_fields(), command_rejected_rules()[1]));
        assert(crate::schema::rule_ok(e.payload@.obj_fields(), command_rejected_rules()[2]));
    }
    let code = match e.payload.get("code") {
        Some(v) => match v.as_str() {
            Some(s) => s.clone(),
            None => {
                proof {
                    assert(false);
                }
                return None;
            },
        },
        None => {
            proof {
                assert(false);
            }
            return None;
        },
    };
    if parse_error_code(code.as_str()).is_none() {
        return None;
    }
    let message = match e.payload.get("message") {
        Some(v) => match v.as_str() {
            Some(s) => s.clone(),
            None => {
                proof {
                    assert(false);
                }
                return None;
            },
        },
        None => {
            proof {
                assert(false);
            }
            return None;
        },
    };
    Some(CommandRejection { code, message })
}

/// The first rejection among the events, if any.
pub fn extract_rejection(events: &Vec<EventEnvelope>) -> (r: Option<CommandRejection>)
    ensures
        match r {
            Some(rej) => extract_rejection_spec(events.deep_view()) == Some(rej@),
            None => extract_rejection_spec(events.deep_view()) is None,
        },
{
    let ghost ev = events.deep_view();
    let mut i: usize = 0;
    proof {
        assert(ev.skip(0) =~= ev);
    }
    while i < events.len()
        invariant
            i <= events@.len(),
            ev == events.deep_view(),
            ev.len() == events@.len(),
            extract_rejection_spec(ev) == extract_rejection_spec(ev.skip(i as int)),
        decreases events@.len() - i,
    {
        proof {
            assert(ev.skip(i as int)[0] == ev[i as int]);
            assert(ev.skip(i as int).drop_first() =~= ev.skip(i + 1));
            assert(ev[i as int] == events@[i as int]@);
        }
        match try_rejected(&events[i]) {
            Some(rej) => {
                return Some(rej);
            },
            None => {},
        }
        i += 1;
    }
    proof {
        assert(ev.skip(i as int).len() == 0);
    }
    None
}

/// Reads a `workspace.create` payload strictly.
pub fn parse_workspace_create(p: &Json) -> (r: Option<WorkspaceCreatePayload>)
    ensures
        match r {
            Some(pl) => conforms(p@, workspace_create_rules()) && pl.name@ == p@.str_field_val(
                "name"@,
            ) && pl.path.deep_view() == p@.str_field("path"@),
            None => !conforms(p@, workspace_create_rules()),
        },
{
    let mut rules: Vec<FieldRule> = Vec::new();
    rules.push(FieldRule { name: "name".to_owned(), kind: FieldKind::ReqStr });
    rules.push(FieldRule { name: "path".to_owned(), kind: FieldKind::OptStr });
    proof {
        assert(rules.deep_view() =~= workspace_create_rules());
    }
    if !payload_conforms(p, &rules) {
        return None;
    }
    proof {
        assert(crate::schema::rule_ok(p@.obj_fields(), workspace_create_rules()[0]));
        assert(crate::schema::rule_ok(p@.obj_fields(), workspace_create_rules()[1]));
    }
    let name = match p.get("name") {
        Some(v) => match v.as_str() {
            Some(s) => s.clone(),
            None => {
                proof {
                    assert(false);
                }
                return None;
            },
        },
        None => {
            proof {
                assert(false);
            }
            return None;
        },
    };
    let path = match p.get("path") {
        Some(v) => match v.as_str() {
            Some(s) => Some(s.clone()),
            None => {
                proof {
                    assert(false);
                }
                return None;
            },
        },
        None => None,
    };
    Some(WorkspaceCreatePayload { name, path })
}

/// Reads a `project.create` payload strictly.
pub fn parse_project_create(p: &Json) -> (r: Option<ProjectCreatePayload>)
    ensures
        match r {
            Some(pl) => conforms(p@, project_create_rules()) && pl.workspace_id@
                == p@.str_field_val("workspace_id"@) && pl.name@ == p@.str_field_val("name"@),
            None => !conforms(p@, project_create_rules()),
        },
{
    let mut rules: Vec<FieldRule> = Vec::new();
    rules.push(FieldRule { name: "workspace_id".to_owned(), kind: FieldKind::ReqStr });
    rules.push(FieldRule { name: "name".to_owned(), kind: FieldKind::ReqStr });
    proof {
        assert(rules.deep_view() =~= project_create_rules());
    }
    if !payload_conforms(p, &rules) {
        return None;
    }
    proof {
        assert(crate::schema::rule_ok(p@.obj_fields(), project_create_rules()[0]));
        assert(crate::schema::rule_ok(p@.obj_fields(), project_create_rules()[1]));
    }
    let workspace_id = match p.get("workspace_id") {
        Some(v) => match v.as_str() {
            Some(s) => s.clone(),
            None => {
                proof {
                    assert(false);
                }
                return None;
            },
        },
        None => {
            proof {
                assert(false);
            }
            return None;
        },
    };
    let name = match p.get("name") {
        Some(v) => match v.as_str() {
            Some(s) => s.clone(),
            None => {
                proof {
                    assert(false);
                }
                return None;
            },
        },
        None => {
            proof {
                assert(false);
            }
            return None;
        },
    };
    Some(ProjectCreatePayload { workspace_id, name })
}

/// An object with exactly two distinct string fields conforms to the
/// rule set demanding exactly those two strings.
pub proof fn lemma_two_str_obj_conforms(k1: Seq<char>, v1: Seq<char>, k2: Seq<char>, v2: Seq<char>)
    requires
        k1 != k2,
    ensures
        conforms(
            JsonV::Obj(seq![(k1, JsonV::Str(v1)), (k2, JsonV::Str(v2))]),
            seq![
                crate::schema::FieldRuleV { name: k1, kind: FieldKind::ReqStr },
                crate::schema::FieldRuleV { name: k2, kind: FieldKind::ReqStr },
            ],
        ),
{
    reveal_with_fuel(crate::json::count_key, 4);
    reveal_with_fuel(crate::json::obj_lookup, 4);
    let p = JsonV::Obj(seq![(k1, JsonV::Str(v1)), (k2, JsonV::Str(v2))]);
    let f = p.obj_fields();
    let rules = seq![
        crate::schema::FieldRuleV { name: k1, kind: FieldKind::ReqStr },
        crate::schema::FieldRuleV { name: k2, kind: FieldKind::ReqStr },
    ];
    assert(f.drop_first() =~= seq![(k2, JsonV::Str(v2))]);
    assert(f.drop_first().drop_first() =~= Seq::<(Seq<char>, JsonV)>::empty());
    assert(crate::json::count_key(f, k1) == 1);
    assert(crate::json::count_key(f, k2) == 1);
    assert(crate::json::obj_lookup(f, k1) == Some(JsonV::Str(v1)));
    assert(crate::json::obj_lookup(f, k2) == Some(JsonV::Str(v2)));
    assert forall|i: int| 0 <= i < rules.len() implies crate::schema::rule_ok(
        f,
        #[trigger] rules[i],
    ) by {
        if i == 0 {
            assert(rules[0].name == k1);
        } else {
            assert(rules[1].name == k2);
        }
    }
    assert forall|j: int| 0 <= j < f.len() implies crate::schema::key_allowed(
        rules,
        (#[trigger] f[j]).0,
    ) by {
        if j == 0 {
            assert(rules[0].name == f[0].0);
        } else {
            assert(rules[1].name == f[1].0);
        }
    }
}

/// The durable event a rejection leaves behind: its type, subject,
/// stream and payload all come from the command and the error code.
pub open spec fn rejection_event_ok(rec: EventRecordV, c: CommandEnvelopeV, code: ErrorCode) -> bool {
    &&& rec.envelope.event_type == "command.rejected"@
    &&& rec.envelope.schema_version == 1
    &&& rec.envelope.actor == system_actor()
    &&& rec.envelope.workspace_id == rejection_workspace(c)
    &&& rec.envelope.project_id is None
    &&& rec.envelope.subject == (crate::kernel::SubjectV { kind: "command"@, id: c.trace_id })
    &&& rec.stream_id == c.trace_id
    &&& rec.envelope.trace_id == Some(c.trace_id)
    &&& rec.envelope.payload.field("command_type"@) == Some(JsonV::Str(c.command_type))
    &&& rec.envelope.payload.field("code"@) == Some(JsonV::Str(code.wire_spec()))
}

/// How the event an accepted submission mints relates to the command:
/// a `workspace.created` or `project.created` event whose payload,
/// subject and trace come from the command, and whose fresh id is a
/// 36-character identifier.
pub open spec fn synth_ok(rec: EventRecordV, c: CommandEnvelopeV) -> bool {
    if c.command_type == "workspace.create"@ {
        let name = c.payload.str_field_val("name"@);
        let root = match c.payload.str_field("path"@) {
            Some(p) => p,
            None => name,
        };
        &&& rec.envelope.event_type == "workspace.created"@
        &&& rec.envelope.schema_version == 1
        &&& rec.envelope.actor == system_actor()
        &&& rec.envelope.workspace_id == rec.envelope.subject.id
        &&& rec.envelope.workspace_id.len() == 36
        &&& rec.envelope.subject.kind == "workspace"@
        &&& rec.envelope.project_id is None
        &&& rec.envelope.payload == ws_created_payload_json(name, root)
        &&& rec.envelope.trace_id == Some(c.trace_id)
        &&& rec.stream_id == rec.envelope.subject.id
    } else {
        let wid = c.payload.str_field_val("workspace_id"@);
        let name = c.payload.str_field_val("name"@);
        &&& rec.envelope.event_type == "project.created"@
        &&& rec.envelope.schema_version == 1
        &&& rec.envelope.actor == system_actor()
        &&& rec.envelope.workspace_id == wid
        &&& rec.envelope.project_id == Some(rec.envelope.subject.id)
        &&& rec.envelope.subject.kind == "project"@
        &&& rec.envelope.subject.id.len() == 36
        &&& rec.envelope.payload == pr_created_payload_json(wid, name)
        &&& rec.envelope.trace_id == Some(c.trace_id)
        &&& rec.stream_id == rec.envelope.subject.id
    }
}

/// What a successful submission guarantees: how the store moved from
/// `pre` to `post`, and what the response carries, for a command `c`
/// under safe-mode flag `safe`.
pub open spec fn submit_post(
    pre: EventLog,
    post: EventLog,
    safe: bool,
    c: CommandEnvelopeV,
    accepted: bool,
    events: Seq<EventEnvelopeV>,
    rejection: Option<CommandRejectionV>,
    trace_id: Seq<char>,
) -> bool {
    &&& trace_id == c.trace_id
    &&& if safe {
        &&& post.same_as(pre)
        &&& !accepted
        &&& events.len() == 0
        &&& rejection matches Some(rej) && rej.code == "safe_mode"@
    } else {
        match gate_outcome(pre.records(), c) {
            Some(code) => {
                &&& !accepted
                &&& rejection matches Some(rej) && rej.code == code.wire_spec() && rej.message
                    == post.records().last().envelope.payload.str_field_val("message"@)
                &&& events.len() == 1
                &&& post.records().len() == pre.records().len() + 1
                &&& post.records().take(pre.records().len() as int) == pre.records()
                &&& rejection_event_ok(post.records().last(), c, code)
                &&& events[0] == post.records().last().envelope
                &&& post.idem() == pre.idem()
            },
            None => {
                if idem_hit(pre.idem(), submit_meta(c)) {
                    &&& post.same_as(pre)
                    &&& match c.idempotency_key {
                        Some(key) => match idem_lookup(pre.idem(), key, c.command_type) {
                            Some(rec) => events == range_of(
                                pre.records(),
                                rec.workspace_id,
                                rec.first_seq_global,
                                rec.last_seq_global,
                            ),
                            None => false,
                        },
                        None => false,
                    }
                    &&& accepted == (extract_rejection_spec(events) is None)
                    &&& match rejection {
                        Some(rej) => extract_rejection_spec(events) == Some(rej),
                        None => extract_rejection_spec(events) is None,
                    }
                } else {
                    &&& accepted
                    &&& rejection is None
                    &&& post.records().len() == pre.records().len() + 1
                    &&& post.records().take(pre.records().len() as int) == pre.records()
                    &&& synth_ok(post.records().last(), c)
                    &&& events.len() == 1
                    &&& events[0] == post.records().last().envelope
                    &&& match c.idempotency_key {
                        Some(key) => post.idem() == pre.idem().push(
                            crate::store::IdempotencyRecordV {
                                workspace_id: post.records().last().envelope.workspace_id,
                                idempotency_key: key,
                                command_type: c.command_type,
                                trace_id: c.trace_id,
                                first_seq_global: post.records().last().envelope.seq_global,
                                last_seq_global: post.records().last().envelope.seq_global,
                                status_code: "accepted"@,
                            },
                        ),
                        None => false,
                    }
                }
            },
        }
    }
}


/// The daemon's verified core: the store, the schema registry, and the
/// safe-mode flag.  Transports hand it commands and queries; the
/// caller fans the returned events out to subscribers.
#[derive(Debug)]
pub struct Daemon {
    store: EventLog,
    registry: SchemaRegistry,
    safe_mode: bool,
}

impl Daemon {
    /// The store this daemon serves.
    pub closed spec fn state(self) -> EventLog {
        self.store
    }

    /// Whether safe mode is on.
    pub closed spec fn safe_mode_on(self) -> bool {
        self.safe_mode
    }

    /// The registry is loaded and the store is well formed.
    pub closed spec fn wf(self) -> bool {
        self.store.wf() && self.registry.wf()
    }

    /// A fresh daemon over an empty store.
    pub fn new(safe_mode: bool) -> (r: Daemon)
        ensures
            r.wf(),
            r.state().records() == Seq::<EventRecordV>::empty(),
            r.state().idem() == Seq::<crate::store::IdempotencyRecordV>::empty(),
            r.state().tables_model() == crate::projections::ProjModel::empty(),
            r.safe_mode_on() == safe_mode,
    {
        let registry = match SchemaRegistry::new() {
            Ok(reg) => reg,
            Err(_) => {
                proof {
                    assert(false);
                }
                SchemaRegistry::new().unwrap()
            },
        };
        Daemon { store: EventLog::new(), registry, safe_mode }
    }

    /// A daemon over a restored store.
    pub fn from_store(store: EventLog, safe_mode: bool) -> (r: Daemon)
        requires
            store.wf(),
        ensures
            r.wf(),
            r.state() == store,
            r.safe_mode_on() == safe_mode,
    {
        let registry = match SchemaRegistry::new() {
            Ok(reg) => reg,
            Err(_) => {
                proof {
                    assert(false);
                }
                SchemaRegistry::new().unwrap()
            },
        };
        Daemon { store, registry, safe_mode }
    }

    /// The highest `seq_global` a workspace has reached.
    pub fn head_seq(&self, workspace_id: &str) -> (r: Result<i64, StoreError>)
        requires
            self.wf(),
        ensures
            r matches Ok(h) && h == count_ws(self.state().records(), workspace_id@),
    {
        self.store.head_seq(workspace_id)
    }

    /// The events of a workspace above a cursor, ascending.
    pub fn read_from(&self, workspace_id: &str, from_seq: i64, limit: Option<i64>) -> (r: Result<
        Vec<EventEnvelope>,
        StoreError,
    >)
        requires
            self.wf(),
        ensures
            r matches Ok(evs) && evs.deep_view() == crate::store::capped(
                crate::store::events_after(self.state().records(), workspace_id@, from_seq as int),
                match limit {
                    Some(l) => Some(l as int),
                    None => None,
                },
            ),
    {
        self.store.read_from(workspace_id, from_seq, limit)
    }

    /// The workspace rows, ordered by name.
    pub fn list_workspaces(&self) -> (r: Result<Vec<crate::kernel::WorkspaceListEntry>, StoreError>)
        requires
            self.wf(),
        ensures
            r matches Ok(rows) && rows.deep_view() == self.state().tables_model().workspaces,
    {
        self.store.list_workspaces()
    }

    /// One workspace's project rows, ordered by name.
    pub fn list_projects(&self, workspace_id: &str) -> (r: Result<
        Vec<crate::kernel::ProjectListEntry>,
        StoreError,
    >)
        requires
            self.wf(),
        ensures
            r matches Ok(rows) && rows.deep_view() == crate::projections::projects_of(
                self.state().tables_model().projects,
                workspace_id@,
            ),
    {
        self.store.list_projects(workspace_id)
    }

    /// The stored records, copied out for persistence.
    pub fn export_records(&self) -> (r: Vec<crate::store::EventRecord>)
        ensures
            r.deep_view() == self.state().records(),
    {
        self.store.export_records()
    }

    /// The memoised outcomes, copied out for persistence.
    pub fn export_idempotency(&self) -> (r: Vec<crate::store::IdempotencyRecord>)
        ensures
            r.deep_view() == self.state().idem(),
    {
        self.store.export_idempotency()
    }

    /// Rebuilds the projection tables from the log.
    pub fn rebuild_projections(&mut self) -> (r: Result<(), StoreError>)
        requires
            old(self).wf(),
        ensures
            r is Ok,
            final(self).wf(),
            final(self).state().same_as(old(self).state()),
            final(self).safe_mode_on() == old(self).safe_mode_on(),
    {
        self.store.rebuild_projections()
    }

    /// The ping reply: status `ok`, the given version, the time now.
    pub fn ping(&self, version: &str) -> (r: crate::kernel::DaemonPingResponse)
        ensures
            r.status@ == "ok"@,
            r.version@ == version@,
    {
        crate::kernel::DaemonPingResponse {
            status: "ok".to_owned(),
            version: version.to_owned(),
            timestamp: crate::ids::now_rfc3339(),
        }
    }

    /// Logs a durable `command.rejected` event — without the caller's
    /// idempotency key, so that a corrected retry is permitted — and
    /// answers with the rejection.
    fn reject_command(&mut self, command: &CommandEnvelope, code: ErrorCode, message: &str) -> (r:
        Result<SubmitCommandResponse, StoreError>)
        requires
            old(self).wf(),
        ensures
            final(self).wf(),
            final(self).safe_mode_on() == old(self).safe_mode_on(),
            match r {
                Ok(res) => {
                    &&& !res.accepted
                    &&& res.trace_id@ == command@.trace_id
                    &&& res.rejection matches Some(rej) && rej@.code == code.wire_spec()
                        && rej@.message == message@
                    &&& res.events.deep_view().len() == 1
                    &&& final(self).state().records().len() == old(self).state().records().len()
                        + 1
                    &&& final(self).state().records().take(
                        old(self).state().records().len() as int,
                    ) == old(self).state().records()
                    &&& rejection_event_ok(final(self).state().records().last(), command@, code)
                    &&& final(self).state().records().last().envelope.payload.str_field_val(
                        "message"@,
                    ) == message@
                    &&& res.events.deep_view()[0] == final(self).state().records().last().envelope
                    &&& final(self).state().idem() == old(self).state().idem()
                },
                Err(e) => {
                    &&& final(self).state().same_as(old(self).state())
                    &&& e is Internal
                    &&& old(self).state().records().len() + 1 > 0x7fff_ffff_ffff_ffff
                },
            },
    {
        broadcast use crate::json::lemma_jview_fields;

        let workspace_id = match command.payload.get("workspace_id") {
            Some(v) => match v.as_str() {
                Some(s) => s.clone(),
                None => "global".to_owned(),
            },
            None => "global".to_owned(),
        };
        proof {
            assert(workspace_id@ == rejection_workspace(command@));
        }
        let mut payload_fields: Vec<(String, Json)> = Vec::new();
        payload_fields.push(("command_type".to_owned(), Json::Str(command.command_type.clone())));
        payload_fields.push(("code".to_owned(), Json::Str(code.wire_str())));
        payload_fields.push(("message".to_owned(), Json::Str(message.to_owned())));
        let ghost pf = payload_fields@;
        let payload = Json::Obj(payload_fields);
        proof {
            crate::json::lemma_jview_fields(pf);
            assert(payload@ == JsonV::Obj(crate::json::jview_fields(pf)));
            assert(crate::json::jview_fields(pf).len() == 3);
            assert(crate::json::jview_fields(pf)[0] == ("command_type"@, JsonV::Str(
                command@.command_type,
            )));
            assert(crate::json::jview_fields(pf)[1] == ("code"@, JsonV::Str(code.wire_spec())));
            assert(crate::json::jview_fields(pf)[2] == ("message"@, JsonV::Str(message@)));
            assert(payload@.obj_fields() =~= rejected_payload_json(
                command@.command_type,
                code,
                message@,
            ).obj_fields());
            assert(payload@ =~= rejected_payload_json(command@.command_type, code, message@));
            reveal_with_fuel(crate::json::obj_lookup, 5);
            reveal_strlit("command_type");
            reveal_strlit("code");
            reveal_strlit("message");
            let f = payload@.obj_fields();
            assert("command_type"@.len() == 12);
            assert("code"@.len() == 4);
            assert("message"@.len() == 7);
            assert(f[0].0 != "code"@);
            assert(f[0].0 != "message"@);
            assert(f[1].0 != "message"@);
            assert(f.drop_first()[0] == f[1]);
            assert(f.drop_first().drop_first()[0] == f[2]);
            assert(payload@.field("command_type"@) == Some(JsonV::Str(command@.command_type)));
            assert(payload@.field("code"@) == Some(JsonV::Str(code.wire_spec())));
            assert(payload@.field("message"@) == Some(JsonV::Str(message@)));
        }
        let event = NewEvent {
            event_type: "command.rejected".to_owned(),
            schema_version: 1,
            actor: Actor::system(),
            workspace_id,
            project_id: None,
            subject: Subject { kind: "command".to_owned(), id: command.trace_id.clone() },
            payload,
            trace_id: Some(command.trace_id.clone()),
            stream_id: None,
        };
        proof {
            reveal_strlit("command.rejected");
            reveal_strlit("workspace.created");
            reveal_strlit("project.created");
            assert("command.rejected"@.len() == 16);
            assert("workspace.created"@.len() == 17);
            assert("project.created"@.len() == 15);
            assert(crate::store::new_event_applies(event@));
        }
        let meta = CommandMeta {
            command_type: command.command_type.clone(),
            idempotency_key: None,
            expected_version: command.expected_version,
            trace_id: command.trace_id.clone(),
        };
        let mut batch: Vec<NewEvent> = Vec::new();
        batch.push(event);
        proof {
            assert(batch.deep_view().len() == 1);
            assert(forall|i: int|
                0 <= i < batch.deep_view().len() ==> (#[trigger] batch.deep_view()[i]).workspace_id
                    == batch.deep_view()[0].workspace_id);
            assert(!idem_hit(old(self).state().idem(), meta@));
        }
        match self.store.append(&meta, batch) {
            Ok(res) => {
                let rejection = CommandRejection { code: code.wire_str(), message: message.to_owned() };
                proof {
                    let cur = self.state().records();
                    assert(cur.last() == cur[old(self).state().records().len() as int]);
                }
                Ok(
                    SubmitCommandResponse {
                        accepted: false,
                        events: res.events,
                        rejection: Some(rejection),
                        trace_id: command.trace_id.clone(),
                    },
                )
            },
            Err(e) => {
                proof {
                    assert(old(self).state().records().len() + 1 > 0x7fff_ffff_ffff_ffff);
                }
                Err(e)
            },
        }
    }

    /// Hands one minted event to the store under the caller's
    /// idempotency key and shapes the response: a replay where the key
    /// is memoised, a fresh accepted append otherwise.
    fn dispatch_append(&mut self, command: CommandEnvelope, event: NewEvent) -> (r: Result<
        SubmitCommandResponse,
        StoreError,
    >)
        requires
            old(self).wf(),
            crate::store::new_event_applies(event@),
            command@.idempotency_key is Some,
            event@.event_type != "command.rejected"@,
        ensures
            final(self).wf(),
            final(self).safe_mode_on() == old(self).safe_mode_on(),
            match r {
                Ok(res) => {
                    &&& res.trace_id@ == command@.trace_id
                    &&& if idem_hit(old(self).state().idem(), submit_meta(command@)) {
                        &&& final(self).state().same_as(old(self).state())
                        &&& match command@.idempotency_key {
                            Some(key) => match idem_lookup(
                                old(self).state().idem(),
                                key,
                                command@.command_type,
                            ) {
                                Some(rec) => res.events.deep_view() == range_of(
                                    old(self).state().records(),
                                    rec.workspace_id,
                                    rec.first_seq_global,
                                    rec.last_seq_global,
                                ),
                                None => false,
                            },
                            None => false,
                        }
                        &&& res.accepted == (extract_rejection_spec(res.events.deep_view())
                            is None)
                        &&& match res.rejection {
                            Some(rej) => extract_rejection_spec(res.events.deep_view()) == Some(
                                rej@,
                            ),
                            None => extract_rejection_spec(res.events.deep_view()) is None,
                        }
                    } else {
                        let head = count_ws(old(self).state().records(), event@.workspace_id);
                        &&& res.accepted
                        &&& res.rejection is None
                        &&& final(self).state().records().len() == old(self).state().records().len() + 1
                        &&& final(self).state().records().take(
                            old(self).state().records().len() as int,
                        ) == old(self).state().records()
                        &&& crate::store::assigned_ok(
                            final(self).state().records().last(),
                            event@,
                            head + 1,
                        )
                        &&& res.events.deep_view().len() == 1
                        &&& res.events.deep_view()[0] == final(self).state().records().last().envelope
                        &&& match command@.idempotency_key {
                            Some(key) => final(self).state().idem() == old(self).state().idem().push(
                                crate::store::IdempotencyRecordV {
                                    workspace_id: event@.workspace_id,
                                    idempotency_key: key,
                                    command_type: command@.command_type,
                                    trace_id: command@.trace_id,
                                    first_seq_global: head + 1,
                                    last_seq_global: head + 1,
                                    status_code: "accepted"@,
                                },
                            ),
                            None => false,
                        }
                    }
                },
                Err(e) => {
                    &&& final(self).state().same_as(old(self).state())
                    &&& e is Internal
                    &&& old(self).state().records().len() + 1 > 0x7fff_ffff_ffff_ffff
                },
            },
    {
        let meta = CommandMeta {
            command_type: command.command_type.clone(),
            idempotency_key: crate::event::duplicate_opt_string(&command.idempotency_key),
            expected_version: command.expected_version,
            trace_id: command.trace_id.clone(),
        };
        proof {
            assert(meta@ =~= submit_meta(command@));
        }
        let mut batch: Vec<NewEvent> = Vec::new();
        batch.push(event);
        proof {
            assert(batch.deep_view().len() == 1);
            assert(forall|i: int|
                0 <= i < batch.deep_view().len() ==> (#[trigger] batch.deep_view()[i]).workspace_id
                    == batch.deep_view()[0].workspace_id);
        }
        match self.store.append(&meta, batch) {
            Ok(res) => {
                let rejection = extract_rejection(&res.events);
                let accepted = rejection.is_none();
                proof {
                    if !idem_hit(old(self).state().idem(), submit_meta(command@)) {
                        let single = res.events.deep_view();
                        assert(single.len() == 1);
                        assert(single[0].event_type == event@.event_type);
                        assert(rejected_parse(single[0]) is None);
                        assert(single.drop_first().len() == 0);
                        assert(extract_rejection_spec(single.drop_first()) is None);
                        assert(extract_rejection_spec(single) is None);
                        let cur = self.state().records();
                        assert(cur.last() == cur[old(self).state().records().len() as int]);
                    }
                }
                Ok(
                    SubmitCommandResponse {
                        accepted,
                        events: res.events,
                        rejection,
                        trace_id: command.trace_id,
                    },
                )
            },
            Err(e) => {
                proof {
                    assert(old(self).state().records().len() + 1 > 0x7fff_ffff_ffff_ffff);
                }
                Err(e)
            },
        }
    }


    /// Runs one submission through the pipeline.
    ///
    /// Safe mode answers a `safe_mode` rejection and writes nothing.
    /// A submission a gate turns away logs one durable
    /// `command.rejected` event and answers that rejection.  A
    /// submission that passes every gate mints one event — a
    /// `workspace.created` or a `project.created` — and appends it
    /// under the caller's idempotency key; a resubmission under a
    /// memoised key replays the first outcome with the store
    /// untouched.  The caller broadcasts the returned events.
    pub fn submit(&mut self, command: CommandEnvelope) -> (r: Result<
        SubmitCommandResponse,
        StoreError,
    >)
        requires
            old(self).wf(),
        ensures
            final(self).wf(),
            final(self).safe_mode_on() == old(self).safe_mode_on(),
            match r {
                Ok(res) => submit_post(
                    old(self).state(),
                    final(self).state(),
                    old(self).safe_mode_on(),
                    command@,
                    res.accepted,
                    res.events.deep_view(),
                    res.rejection.deep_view(),
                    res.trace_id@,
                ),
                Err(e) => {
                    &&& final(self).state().same_as(old(self).state())
                    &&& e is Internal
                    &&& !old(self).safe_mode_on()
                    &&& old(self).state().records().len() + 1 > 0x7fff_ffff_ffff_ffff
                },
            },
    {
        if self.safe_mode {
            let res = SubmitCommandResponse {
                accepted: false,
                events: Vec::new(),
                rejection: Some(
                    CommandRejection {
                        code: "safe_mode".to_owned(),
                        message: "daemon running in safe mode".to_owned(),
                    },
                ),
                trace_id: command.trace_id,
            };
            proof {
                assert(res.events.deep_view() =~= Seq::<EventEnvelopeV>::empty());
            }
            return Ok(res);
        }
        let kind = match command_kind(command.command_type.as_str()) {
            None => {
                return self.reject_command(&command, ErrorCode::UnknownCommand, "unknown command type");
            },
            Some(k) => k,
        };
        if kind == CommandKind::ReadOnly {
            return self.reject_command(
                &command,
                ErrorCode::ValidationFailed,
                "read-only commands must use query endpoints",
            );
        }
        if command.idempotency_key.is_none() {
            return self.reject_command(
                &command,
                ErrorCode::IdempotencyKeyRequired,
                "idempotency_key required",
            );
        }
        match self.registry.validate_command_payload(
            command.command_type.as_str(),
            command.schema_version,
            &command.payload,
        ) {
            Err(err) => {
                return self.reject_command(&command, ErrorCode::InvalidSchema, err.message.as_str());
            },
            Ok(_) => {},
        }
        proof {
            reveal_strlit("workspace.create");
            reveal_strlit("project.create");
            assert("workspace.create"@.len() == 16);
            assert("project.create"@.len() == 14);
        }
        if str_eq(command.command_type.as_str(), "workspace.create") {
            let payload = match parse_workspace_create(&command.payload) {
                Some(p) => p,
                None => {
                    proof {
                        assert(false);
                    }
                    return Err(StoreError::Internal("payload parse failed".to_owned()));
                },
            };
            if let Some(expected_version) = command.expected_version {
                if expected_version != 0 {
                    return self.reject_command(
                        &command,
                        ErrorCode::ExpectedVersionMismatch,
                        "expected version does not match 0 for new workspace",
                    );
                }
            }
            proof {
                assert(gate_outcome(old(self).state().records(), command@) is None);
            }
            let workspace_id = crate::ids::new_uuid();
            let root_path = match payload.path {
                Some(p) => p,
                None => payload.name.clone(),
            };
            let ghost root_chars = root_path@;
            let mut payload_fields: Vec<(String, Json)> = Vec::new();
            payload_fields.push(("name".to_owned(), Json::Str(payload.name)));
            payload_fields.push(("root_path".to_owned(), Json::Str(root_path)));
            let ghost pf = payload_fields@;
            let payload_json = Json::Obj(payload_fields);
            proof {
                crate::json::lemma_jview_fields(pf);
                reveal_strlit("name");
                reveal_strlit("root_path");
                assert("name"@.len() == 4);
                assert("root_path"@.len() == 9);
                assert(payload_json@.obj_fields() =~= ws_created_payload_json(
                    command@.payload.str_field_val("name"@),
                    root_chars,
                ).obj_fields());
                assert(payload_json@ =~= ws_created_payload_json(
                    command@.payload.str_field_val("name"@),
                    root_chars,
                ));
                lemma_two_str_obj_conforms(
                    "name"@,
                    command@.payload.str_field_val("name"@),
                    "root_path"@,
                    root_chars,
                );
                assert(conforms(payload_json@, crate::schema::workspace_created_rules()));
            }
            let event = NewEvent {
                event_type: "workspace.created".to_owned(),
                schema_version: 1,
                actor: Actor::system(),
                workspace_id: workspace_id.clone(),
                project_id: None,
                subject: Subject { kind: "workspace".to_owned(), id: workspace_id },
                payload: payload_json,
                trace_id: Some(command.trace_id.clone()),
                stream_id: None,
            };
            match self.registry.validate_event_payload("workspace.created", 1, &event.payload) {
                Err(_) => {
                    proof {
                        assert(false);
                    }
                    return Err(StoreError::Internal("event payload invalid".to_owned()));
                },
                Ok(_) => {},
            }
            proof {
                assert(crate::store::new_event_applies(event@));
                reveal_strlit("workspace.created");
                reveal_strlit("command.rejected");
                assert("workspace.created"@.len() == 17);
                assert("command.rejected"@.len() == 16);
            }
            self.dispatch_append(command, event)
        } else {
            proof {
                assert(command@.command_type == "project.create"@);
            }
            let payload = match parse_project_create(&command.payload) {
                Some(p) => p,
                None => {
                    proof {
                        assert(false);
                    }
                    return Err(StoreError::Internal("payload parse failed".to_owned()));
                },
            };
            if let Some(expected_version) = command.expected_version {
                let current = match self.store.head_seq(payload.workspace_id.as_str()) {
                    Ok(h) => h,
                    Err(_) => {
                        proof {
                            assert(false);
                        }
                        return Err(StoreError::Internal("head lookup failed".to_owned()));
                    },
                };
                if current != expected_version {
                    return self.reject_command(
                        &command,
                        ErrorCode::ExpectedVersionMismatch,
                        "expected version does not match the workspace head",
                    );
                }
            }
            proof {
                assert(gate_outcome(old(self).state().records(), command@) is None);
            }
            let project_id = crate::ids::new_uuid();
            let mut payload_fields: Vec<(String, Json)> = Vec::new();
            payload_fields.push(("workspace_id".to_owned(), Json::Str(payload.workspace_id.clone())));
            payload_fields.push(("name".to_owned(), Json::Str(payload.name)));
            let ghost pf = payload_fields@;
            let payload_json = Json::Obj(payload_fields);
            proof {
                crate::json::lemma_jview_fields(pf);
                reveal_strlit("workspace_id");
                reveal_strlit("name");
                assert("workspace_id"@.len() == 12);
                assert("name"@.len() == 4);
                assert(payload_json@.obj_fields() =~= pr_created_payload_json(
                    command@.payload.str_field_val("workspace_id"@),
                    command@.payload.str_field_val("name"@),
                ).obj_fields());
                assert(payload_json@ =~= pr_created_payload_json(
                    command@.payload.str_field_val("workspace_id"@),
                    command@.payload.str_field_val("name"@),
                ));
                lemma_two_str_obj_conforms(
                    "workspace_id"@,
                    command@.payload.str_field_val("workspace_id"@),
                    "name"@,
                    command@.payload.str_field_val("name"@),
                );
                assert(conforms(payload_json@, crate::schema::project_created_rules()));
            }
            let event = NewEvent {
                event_type: "project.created".to_owned(),
                schema_version: 1,
                actor: Actor::system(),
                workspace_id: payload.workspace_id,
                project_id: Some(project_id.clone()),
                subject: Subject { kind: "project".to_owned(), id: project_id },
                payload: payload_json,
                trace_id: Some(command.trace_id.clone()),
                stream_id: None,
            };
            proof {
                reveal_strlit("project.created");
                reveal_strlit("workspace.created");
                assert("project.created"@.len() == 15);
                assert("workspace.created"@.len() == 17);
            }
            match self.registry.validate_event_payload("project.created", 1, &event.payload) {
                Err(_) => {
                    proof {
                        assert(false);
                    }
                    return Err(StoreError::Internal("event payload invalid".to_owned()));
                },
                Ok(_) => {},
            }
            proof {
                assert(crate::store::new_event_applies(event@));
                reveal_strlit("project.created");
                reveal_strlit("command.rejected");
                assert("project.created"@.len() == 15);
                assert("command.rejected"@.len() == 16);
            }
            self.dispatch_append(command, event)
        }
    }
}

} // verus!
